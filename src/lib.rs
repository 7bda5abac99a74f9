//! A ledger of short status messages, with history, visibility, expiry,
//! followers, reactions, notifications and view counters.
//!
//! The host that runs the ledger supplies the caller's account and the
//! current time (nanoseconds); every operation takes them as arguments.
use vstd::prelude::*;
use vstd::string::*;

pub mod analytics;
pub mod history;
pub mod laws;
pub mod notifications;
pub mod profile;
pub mod reactions;
pub mod social;
pub mod table;
pub mod text;

use crate::history::StatusRecord;
use crate::notifications::{copy_last, last_n};
use crate::profile::UserProfile;
use crate::reactions::Reaction;
use crate::table::{find, has_key, keys_unique, lemma_view_at, put_value, table_view, take_value};
use crate::text::{
    copy_names, fold_case, insert_name, lemma_take_next, lower_of, position, matches_folded, names, occurs_in, remove_name,
};

verus! {

/// Nanoseconds in one hour.
pub const NANOS_PER_HOUR: u64 = 3_600_000_000_000;

/// How many of the most recent history records and notifications a read returns.
pub const RECENT_WINDOW: usize = 10;

/// Why a call was rejected; a rejected call changes nothing.
#[derive(Clone, Copy, Debug, PartialEq, Eq, Structural)]
pub enum StatusError {
    /// An empty message, or an account asking to follow itself.
    InvalidArgument,
}

/// The whole ledger. Each table is keyed by account name, with one entry per
/// account; the methods keep that invariant (`wf`).
pub struct StatusMessage {
    pub records: Vec<(String, String)>,
    pub history: Vec<(String, Vec<StatusRecord>)>,
    pub profiles: Vec<(String, UserProfile)>,
    pub public_statuses: Vec<String>,
    pub followers: Vec<(String, Vec<String>)>,
    pub reactions: Vec<(String, Vec<Reaction>)>,
    pub notifications: Vec<(String, Vec<String>)>,
    pub status_expiry: Vec<(String, u64)>,
    pub analytics: Vec<(String, u64)>,
}

/// The text held by an optional string.
pub open spec fn opt_text(o: Option<String>) -> Option<Seq<char>> {
    match o {
        Some(s) => Some(s@),
        None => None,
    }
}

/// The texts of a list of string pairs.
pub open spec fn pair_names(v: Seq<(String, String)>) -> Seq<(Seq<char>, Seq<char>)> {
    v.map_values(|p: (String, String)| (p.0@, p.1@))
}

/// The visibility a post asks for; public unless told otherwise.
pub open spec fn public_flag(is_public: Option<bool>) -> bool {
    match is_public {
        Some(b) => b,
        None => true,
    }
}

/// The expiry that a post with a lifetime of `hours` gets at time `now`.
pub open spec fn expiry_for(now: u64, hours: Option<u64>) -> Option<u64> {
    match hours {
        Some(h) => if h > 0 { Some((now + h * NANOS_PER_HOUR) as u64) } else { None },
        None => None,
    }
}

/// The expiry of a post fits in a `u64`.
pub open spec fn expiry_fits(now: u64, hours: Option<u64>) -> bool {
    match hours {
        Some(h) => now + h * NANOS_PER_HOUR <= u64::MAX,
        None => true,
    }
}

/// The records of a history that a read returns: the most recent ones, less
/// those whose own expiry has passed.
pub open spec fn live_recent(h: Seq<StatusRecord>, now: u64) -> Seq<StatusRecord> {
    last_n(h, RECENT_WINDOW as int).filter_map(
        |r: StatusRecord| if r.expired_at(now) { None } else { Some(r) },
    )
}

pub open spec fn posted_note(a: Seq<char>) -> Seq<char> {
    a + " posted a new status"@
}

pub open spec fn follow_note(a: Seq<char>) -> Seq<char> {
    a + " started following you"@
}

pub open spec fn reaction_note(a: Seq<char>) -> Seq<char> {
    a + " reacted to your status"@
}

pub open spec fn expired_note() -> Seq<char> {
    "Your status has expired"@
}

impl StatusMessage {
    /// Every table has one entry per account, and each list of followers
    /// and the list of public accounts hold each name once.
    pub open spec fn wf(&self) -> bool {
        &&& keys_unique(self.records@)
        &&& keys_unique(self.history@)
        &&& keys_unique(self.profiles@)
        &&& names(self.public_statuses@).no_duplicates()
        &&& keys_unique(self.followers@)
        &&& forall|a: Seq<char>| #[trigger]
            table_view(self.followers@).contains_key(a) ==> names(
                table_view(self.followers@)[a]@,
            ).no_duplicates()
        &&& keys_unique(self.reactions@)
        &&& keys_unique(self.notifications@)
        &&& keys_unique(self.status_expiry@)
        &&& keys_unique(self.analytics@)
    }

    /// The current status of `a`, expired or not.
    pub open spec fn status_of(&self, a: Seq<char>) -> Option<Seq<char>> {
        let m = table_view(self.records@);
        if m.contains_key(a) { Some(m[a]@) } else { None }
    }

    /// When the current status of `a` expires, if it does.
    pub open spec fn expiry_of(&self, a: Seq<char>) -> Option<u64> {
        let m = table_view(self.status_expiry@);
        if m.contains_key(a) { Some(m[a]) } else { None }
    }

    /// The current status of `a` as readers see it at time `now`.
    pub open spec fn visible_status(&self, a: Seq<char>, now: u64) -> Option<Seq<char>> {
        match self.expiry_of(a) {
            Some(e) => if now > e { None } else { self.status_of(a) },
            None => self.status_of(a),
        }
    }

    pub open spec fn history_of(&self, a: Seq<char>) -> Seq<StatusRecord> {
        let m = table_view(self.history@);
        if m.contains_key(a) { m[a]@ } else { Seq::empty() }
    }

    /// `a` is in the public index.
    pub open spec fn is_listed(&self, a: Seq<char>) -> bool {
        names(self.public_statuses@).contains(a)
    }

    pub open spec fn followers_of(&self, a: Seq<char>) -> Seq<Seq<char>> {
        let m = table_view(self.followers@);
        if m.contains_key(a) { names(m[a]@) } else { Seq::empty() }
    }

    pub open spec fn reactions_of(&self, a: Seq<char>) -> Seq<Reaction> {
        let m = table_view(self.reactions@);
        if m.contains_key(a) { m[a]@ } else { Seq::empty() }
    }

    pub open spec fn notifications_of(&self, a: Seq<char>) -> Seq<Seq<char>> {
        let m = table_view(self.notifications@);
        if m.contains_key(a) { names(m[a]@) } else { Seq::empty() }
    }

    pub open spec fn views_of(&self, a: Seq<char>) -> u64 {
        let m = table_view(self.analytics@);
        if m.contains_key(a) { m[a] } else { 0 }
    }

    pub open spec fn profile_of(&self, a: Seq<char>) -> Option<UserProfile> {
        let m = table_view(self.profiles@);
        if m.contains_key(a) { Some(m[a]) } else { None }
    }

    /// The public accounts, in index order, with their visible status.
    pub open spec fn public_listing(&self, now: u64) -> Seq<(Seq<char>, Seq<char>)> {
        names(self.public_statuses@).filter_map(
            |a: Seq<char>|
                match self.visible_status(a, now) {
                    Some(m) => Some((a, m)),
                    None => None,
                },
        )
    }

    /// The part of the public listing whose lower-cased status holds `folded_query`.
    pub open spec fn search_listing(&self, now: u64, folded_query: Seq<char>) -> Seq<(Seq<char>, Seq<char>)> {
        names(self.public_statuses@).filter_map(
            |a: Seq<char>|
                match self.visible_status(a, now) {
                    Some(m) => if occurs_in(folded_query, lower_of(m)) { Some((a, m)) } else { None },
                    None => None,
                },
        )
    }

    /// The accounts, in table order, that `c` follows.
    pub open spec fn following_listing(&self, c: Seq<char>) -> Seq<Seq<char>> {
        self.followers@.filter_map(
            |e: (String, Vec<String>)| if names(e.1@).contains(c) { Some(e.0@) } else { None },
        )
    }

    /// Only the notification queues differ between the two ledgers.
    pub open spec fn same_but_notifications(&self, o: &Self) -> bool {
        &&& self.records == o.records
        &&& self.history == o.history
        &&& self.profiles == o.profiles
        &&& self.public_statuses == o.public_statuses
        &&& self.followers == o.followers
        &&& self.reactions == o.reactions
        &&& self.status_expiry == o.status_expiry
        &&& self.analytics == o.analytics
    }

    /// `after` is this ledger once `caller` has posted `message` at `now`.
    pub open spec fn posted(
        &self,
        after: Self,
        caller: Seq<char>,
        now: u64,
        message: String,
        is_public: Option<bool>,
        expires_in_hours: Option<u64>,
    ) -> bool {
        &&& forall|a: Seq<char>| #[trigger]
            after.status_of(a) == if a == caller { Some(message@) } else { self.status_of(a) }
        &&& forall|a: Seq<char>| #[trigger]
            after.history_of(a) == if a == caller {
                self.history_of(a).push(
                    StatusRecord { message, timestamp: now, expires_at: expiry_for(now, expires_in_hours) },
                )
            } else {
                self.history_of(a)
            }
        &&& forall|a: Seq<char>| #[trigger]
            after.is_listed(a) == if a == caller { public_flag(is_public) } else { self.is_listed(a) }
        &&& forall|a: Seq<char>| #[trigger]
            after.expiry_of(a) == if a == caller { expiry_for(now, expires_in_hours) } else { self.expiry_of(a) }
        &&& forall|a: Seq<char>| #[trigger]
            after.notifications_of(a) == if public_flag(is_public) && self.followers_of(caller).contains(a) {
                self.notifications_of(a).push(posted_note(caller))
            } else {
                self.notifications_of(a)
            }
        &&& after.profiles == self.profiles
        &&& after.followers == self.followers
        &&& after.reactions == self.reactions
        &&& after.analytics == self.analytics
    }

    /// `after` is this ledger once `caller` has followed `target`.
    pub open spec fn followed(&self, after: Self, caller: Seq<char>, target: Seq<char>) -> bool {
        &&& forall|a: Seq<char>| #[trigger]
            after.followers_of(a) == if a == target && !self.followers_of(a).contains(caller) {
                self.followers_of(a).push(caller)
            } else {
                self.followers_of(a)
            }
        &&& forall|a: Seq<char>| #[trigger]
            after.notifications_of(a) == if a == target {
                self.notifications_of(a).push(follow_note(caller))
            } else {
                self.notifications_of(a)
            }
        &&& after.records == self.records
        &&& after.history == self.history
        &&& after.profiles == self.profiles
        &&& after.public_statuses == self.public_statuses
        &&& after.reactions == self.reactions
        &&& after.status_expiry == self.status_expiry
        &&& after.analytics == self.analytics
    }

    /// `after` is this ledger once `caller` has stopped following `target`.
    pub open spec fn unfollowed(&self, after: Self, caller: Seq<char>, target: Seq<char>) -> bool {
        &&& forall|a: Seq<char>| a != target ==> #[trigger] after.followers_of(a) == self.followers_of(a)
        &&& !after.followers_of(target).contains(caller)
        &&& self.followers_of(target).contains(caller) ==> exists|i: int|
            0 <= i < self.followers_of(target).len()
            && self.followers_of(target)[i] == caller
            && after.followers_of(target) == self.followers_of(target).remove(i)
        &&& !self.followers_of(target).contains(caller) ==> after.followers_of(target)
            == self.followers_of(target)
        &&& after.records == self.records
        &&& after.history == self.history
        &&& after.profiles == self.profiles
        &&& after.public_statuses == self.public_statuses
        &&& after.reactions == self.reactions
        &&& after.notifications == self.notifications
        &&& after.status_expiry == self.status_expiry
        &&& after.analytics == self.analytics
    }

    /// `after` is this ledger once `caller`, not having reacted to `target`
    /// before, has reacted with `reaction_type` at `now`.
    pub open spec fn reacted(
        &self,
        after: Self,
        caller: String,
        now: u64,
        target: Seq<char>,
        reaction_type: String,
    ) -> bool {
        &&& forall|a: Seq<char>| #[trigger]
            after.reactions_of(a) == if a == target {
                self.reactions_of(a).push(Reaction { account_id: caller, reaction_type, timestamp: now })
            } else {
                self.reactions_of(a)
            }
        &&& forall|a: Seq<char>| #[trigger]
            after.notifications_of(a) == if a == target {
                self.notifications_of(a).push(reaction_note(caller@))
            } else {
                self.notifications_of(a)
            }
        &&& after.records == self.records
        &&& after.history == self.history
        &&& after.profiles == self.profiles
        &&& after.public_statuses == self.public_statuses
        &&& after.followers == self.followers
        &&& after.status_expiry == self.status_expiry
        &&& after.analytics == self.analytics
    }

    /// `after` is this ledger once every status whose expiry `now` is past
    /// has been evicted.
    pub open spec fn swept(&self, after: Self, now: u64) -> bool {
        &&& forall|a: Seq<char>| #[trigger]
            after.status_of(a) == if self.expired_by(a, now) { None } else { self.status_of(a) }
        &&& forall|a: Seq<char>| #[trigger]
            after.is_listed(a) == (!self.expired_by(a, now) && self.is_listed(a))
        &&& forall|a: Seq<char>| #[trigger]
            after.expiry_of(a) == if self.expired_by(a, now) { None } else { self.expiry_of(a) }
        &&& forall|a: Seq<char>| #[trigger]
            after.notifications_of(a) == if self.expired_by(a, now) {
                self.notifications_of(a).push(expired_note())
            } else {
                self.notifications_of(a)
            }
        &&& after.history == self.history
        &&& after.profiles == self.profiles
        &&& after.followers == self.followers
        &&& after.reactions == self.reactions
        &&& after.analytics == self.analytics
    }

    /// No account has anything in this ledger.
    pub open spec fn is_empty(&self) -> bool {
        &&& forall|a: Seq<char>| #[trigger] self.status_of(a) is None
        &&& forall|a: Seq<char>| #[trigger] self.expiry_of(a) is None
        &&& forall|a: Seq<char>| #[trigger] self.history_of(a).len() == 0
        &&& forall|a: Seq<char>| !#[trigger] self.is_listed(a)
        &&& forall|a: Seq<char>| #[trigger] self.followers_of(a).len() == 0
        &&& forall|a: Seq<char>| #[trigger] self.reactions_of(a).len() == 0
        &&& forall|a: Seq<char>| #[trigger] self.notifications_of(a).len() == 0
        &&& forall|a: Seq<char>| #[trigger] self.views_of(a) == 0
        &&& forall|a: Seq<char>| #[trigger] self.profile_of(a) is None
    }

    /// An empty ledger.
    pub fn new() -> (r: Self)
        ensures
            r.wf(),
            r.is_empty(),
    {
        let r = StatusMessage {
            records: Vec::new(),
            history: Vec::new(),
            profiles: Vec::new(),
            public_statuses: Vec::new(),
            followers: Vec::new(),
            reactions: Vec::new(),
            notifications: Vec::new(),
            status_expiry: Vec::new(),
            analytics: Vec::new(),
        };
        assert(names(r.public_statuses@) =~= Seq::<Seq<char>>::empty());
        r
    }

    /// Appends `message` to the notification queue of `account_id`.
    pub fn add_notification(&mut self, account_id: &String, message: String)
        requires
            old(self).wf(),
        ensures
            final(self).wf(),
            final(self).same_but_notifications(old(self)),
            forall|a: Seq<char>|
                #[trigger] final(self).notifications_of(a) == if a == account_id@ {
                    old(self).notifications_of(a).push(message@)
                } else {
                    old(self).notifications_of(a)
                },
    {
        let mut queue = match take_value(&mut self.notifications, account_id) {
            Some(q) => q,
            None => Vec::new(),
        };
        let ghost before = names(queue@);
        queue.push(message);
        assert(names(queue@) =~= before.push(message@));
        put_value(&mut self.notifications, account_id.clone(), queue);
        proof {
            if !table_view(old(self).notifications@).contains_key(account_id@) {
                assert(before =~= Seq::<Seq<char>>::empty());
            }
        }
    }

    /// Sends `note` to every account in `to`, which holds each name once.
    fn notify_all(&mut self, to: &Vec<String>, note: &String)
        requires
            old(self).wf(),
            names(to@).no_duplicates(),
        ensures
            final(self).wf(),
            final(self).same_but_notifications(old(self)),
            forall|a: Seq<char>|
                #[trigger] final(self).notifications_of(a) == if names(to@).contains(a) {
                    old(self).notifications_of(a).push(note@)
                } else {
                    old(self).notifications_of(a)
                },
    {
        let mut i: usize = 0;
        while i < to.len()
            invariant
                i <= to@.len(),
                self.wf(),
                names(to@).no_duplicates(),
                self.same_but_notifications(old(self)),
                forall|a: Seq<char>|
                    #[trigger] self.notifications_of(a) == if names(to@).take(i as int).contains(a) {
                        old(self).notifications_of(a).push(note@)
                    } else {
                        old(self).notifications_of(a)
                    },
            decreases to@.len() - i,
        {
            self.add_notification(&to[i], note.clone());
            proof {
                lemma_take_next(names(to@), i as int);
            }
            i = i + 1;
        }
        assert(names(to@).take(to@.len() as int) =~= names(to@));
    }

    /// Copies of the followers of `account_id`.
    pub fn get_followers(&self, account_id: String) -> (r: Vec<String>)
        requires
            self.wf(),
        ensures
            names(r@) == self.followers_of(account_id@),
            names(r@).no_duplicates(),
    {
        match find(&self.followers, &account_id) {
            Some(i) => {
                proof {
                    lemma_view_at(self.followers@, i as int);
                }
                copy_names(&self.followers[i].1)
            },
            None => {
                let r: Vec<String> = Vec::new();
                assert(names(r@) =~= Seq::<Seq<char>>::empty());
                r
            },
        }
    }

    /// The current status of `account_id` unless it has expired by `now`.
    fn visible(&self, now: u64, account_id: &String) -> (r: Option<String>)
        requires
            self.wf(),
        ensures
            opt_text(r) == self.visible_status(account_id@, now),
    {
        match find(&self.status_expiry, account_id) {
            Some(i) => {
                proof {
                    lemma_view_at(self.status_expiry@, i as int);
                }
                if now > self.status_expiry[i].1 {
                    return None;
                }
            },
            None => {},
        }
        match find(&self.records, account_id) {
            Some(i) => {
                proof {
                    lemma_view_at(self.records@, i as int);
                }
                Some(self.records[i].1.clone())
            },
            None => None,
        }
    }

    /// The status of `account_id` as readers see it at `now`: none when
    /// there is none or when it has expired. Reading changes nothing.
    pub fn get_status(&self, now: u64, account_id: String) -> (r: Option<String>)
        requires
            self.wf(),
        ensures
            opt_text(r) == self.visible_status(account_id@, now),
    {
        self.visible(now, &account_id)
    }

    /// The most recent records of the history of `account_id`, oldest
    /// first, less those whose own expiry has passed by `now`.
    pub fn get_status_history(&self, now: u64, account_id: String) -> (r: Vec<StatusRecord>)
        requires
            self.wf(),
        ensures
            r@ == live_recent(self.history_of(account_id@), now),
    {
        let mut r: Vec<StatusRecord> = Vec::new();
        match find(&self.history, &account_id) {
            Some(k) => {
                proof {
                    lemma_view_at(self.history@, k as int);
                }
                let h = &self.history[k].1;
                let len = h.len();
                let start: usize = if len > RECENT_WINDOW { len - RECENT_WINDOW } else { 0 };
                let ghost w = last_n(h@, RECENT_WINDOW as int);
                let ghost f = |x: StatusRecord| if x.expired_at(now) { None } else { Some(x) };
                assert(w =~= h@.subrange(start as int, len as int));
                let mut i: usize = start;
                while i < len
                    invariant
                        start <= i <= len,
                        len == h@.len(),
                        w == h@.subrange(start as int, len as int),
                        f == (|x: StatusRecord| if x.expired_at(now) { None } else { Some(x) }),
                        r@ == w.take(i - start).filter_map(f),
                    decreases len - i,
                {
                    proof {
                        w.lemma_filter_map_take_succ(f, i - start);
                    }
                    if !h[i].is_expired(now) {
                        r.push(h[i].duplicate());
                    }
                    assert(w[i - start] == h@[i as int]);
                    i = i + 1;
                }
                assert(w.take(len - start) =~= w);
            },
            None => {},
        }
        r
    }

    /// Removes the current status of `caller` from reading, listing and the
    /// expiry index; the history stays.
    pub fn delete_status(&mut self, caller: &String)
        requires
            old(self).wf(),
        ensures
            final(self).wf(),
            forall|a: Seq<char>| #[trigger]
                final(self).status_of(a) == if a == caller@ { None } else { old(self).status_of(a) },
            forall|a: Seq<char>| #[trigger]
                final(self).is_listed(a) == (a != caller@ && old(self).is_listed(a)),
            forall|a: Seq<char>| #[trigger]
                final(self).expiry_of(a) == if a == caller@ { None } else { old(self).expiry_of(a) },
            final(self).history == old(self).history,
            final(self).profiles == old(self).profiles,
            final(self).followers == old(self).followers,
            final(self).reactions == old(self).reactions,
            final(self).notifications == old(self).notifications,
            final(self).analytics == old(self).analytics,
    {
        self.clear_current(caller);
    }

    /// Drops `account` from the current statuses, the public index and the
    /// expiry index.
    fn clear_current(&mut self, account: &String)
        requires
            old(self).wf(),
        ensures
            final(self).wf(),
            forall|a: Seq<char>| #[trigger]
                final(self).status_of(a) == if a == account@ { None } else { old(self).status_of(a) },
            forall|a: Seq<char>| #[trigger]
                final(self).is_listed(a) == (a != account@ && old(self).is_listed(a)),
            forall|a: Seq<char>| #[trigger]
                final(self).expiry_of(a) == if a == account@ { None } else { old(self).expiry_of(a) },
            final(self).history == old(self).history,
            final(self).profiles == old(self).profiles,
            final(self).followers == old(self).followers,
            final(self).reactions == old(self).reactions,
            final(self).notifications == old(self).notifications,
            final(self).analytics == old(self).analytics,
    {
        take_value(&mut self.records, account);
        remove_name(&mut self.public_statuses, account);
        take_value(&mut self.status_expiry, account);
        proof {
            let o = names(old(self).public_statuses@);
            let n = names(self.public_statuses@);
            assert forall|a: Seq<char>| #[trigger] self.is_listed(a) == (a != account@ && old(self).is_listed(a)) by {
                if o.contains(account@) && a != account@ {
                    let i = choose|i: int| 0 <= i < o.len() && o[i] == account@ && n == o.remove(i);
                    if n.contains(a) {
                        let j = choose|j: int| 0 <= j < n.len() && n[j] == a;
                        let j2 = if j < i { j } else { j + 1 };
                        assert(n[j] == o[j2]);
                    }
                    if o.contains(a) {
                        let j = choose|j: int| 0 <= j < o.len() && o[j] == a;
                        let j2 = if j < i { j } else { j - 1 };
                        assert(n[j2] == o[j]);
                    }
                }
            }
        }
    }

    /// How many statuses `account_id` has posted, expired ones included.
    pub fn get_status_count(&self, account_id: String) -> (r: u64)
        requires
            self.wf(),
        ensures
            r == self.history_of(account_id@).len(),
    {
        match find(&self.history, &account_id) {
            Some(i) => {
                proof {
                    lemma_view_at(self.history@, i as int);
                }
                self.history[i].1.len() as u64
            },
            None => 0,
        }
    }

    /// Replaces the profile of `caller`; profiles are always public.
    pub fn set_profile(&mut self, caller: &String, name: String, bio: String)
        requires
            old(self).wf(),
        ensures
            final(self).wf(),
            forall|a: Seq<char>| #[trigger]
                final(self).profile_of(a) == if a == caller@ {
                    Some(UserProfile { name, bio, is_public: true })
                } else {
                    old(self).profile_of(a)
                },
            final(self).records == old(self).records,
            final(self).history == old(self).history,
            final(self).public_statuses == old(self).public_statuses,
            final(self).followers == old(self).followers,
            final(self).reactions == old(self).reactions,
            final(self).notifications == old(self).notifications,
            final(self).status_expiry == old(self).status_expiry,
            final(self).analytics == old(self).analytics,
    {
        let profile = UserProfile { name, bio, is_public: true };
        put_value(&mut self.profiles, caller.clone(), profile);
    }

    pub fn get_profile(&self, account_id: String) -> (r: Option<UserProfile>)
        requires
            self.wf(),
        ensures
            r == self.profile_of(account_id@),
    {
        match find(&self.profiles, &account_id) {
            Some(i) => {
                proof {
                    lemma_view_at(self.profiles@, i as int);
                }
                Some(self.profiles[i].1.duplicate())
            },
            None => None,
        }
    }

    /// Each publicly listed account with its status, skipping those whose
    /// status has expired by `now`.
    pub fn get_public_statuses(&self, now: u64) -> (r: Vec<(String, String)>)
        requires
            self.wf(),
        ensures
            pair_names(r@) == self.public_listing(now),
    {
        let ghost n = names(self.public_statuses@);
        let ghost f = |a: Seq<char>|
            match self.visible_status(a, now) {
                Some(m) => Some((a, m)),
                None => None,
            };
        let mut r: Vec<(String, String)> = Vec::new();
        let mut i: usize = 0;
        while i < self.public_statuses.len()
            invariant
                self.wf(),
                i <= n.len(),
                n == names(self.public_statuses@),
                f == (|a: Seq<char>|
                    match self.visible_status(a, now) {
                        Some(m) => Some((a, m)),
                        None => None,
                    }),
                pair_names(r@) == n.take(i as int).filter_map(f),
            decreases n.len() - i,
        {
            proof {
                n.lemma_filter_map_take_succ(f, i as int);
            }
            let account = &self.public_statuses[i];
            let ghost before = pair_names(r@);
            match self.visible(now, account) {
                Some(m) => {
                    r.push((account.clone(), m));
                    assert(pair_names(r@) =~= before + seq![(n[i as int], m@)]);
                },
                None => {
                    assert(before =~= before + Seq::empty());
                },
            }
            i = i + 1;
        }
        assert(n.take(n.len() as int) =~= n);
        r
    }

    /// The public listing narrowed to statuses that hold `query`, letters
    /// compared without regard to case.
    pub fn search_status(&self, now: u64, query: String) -> (r: Vec<(String, String)>)
        requires
            self.wf(),
        ensures
            pair_names(r@) == self.search_listing(now, lower_of(query@)),
    {
        let folded_query = fold_case(&query);
        let ghost q = folded_query@;
        let ghost n = names(self.public_statuses@);
        let ghost f = |a: Seq<char>|
            match self.visible_status(a, now) {
                Some(m) => if occurs_in(q, lower_of(m)) { Some((a, m)) } else { None },
                None => None,
            };
        let mut r: Vec<(String, String)> = Vec::new();
        let mut i: usize = 0;
        while i < self.public_statuses.len()
            invariant
                self.wf(),
                i <= n.len(),
                n == names(self.public_statuses@),
                q == folded_query@,
                f == (|a: Seq<char>|
                    match self.visible_status(a, now) {
                        Some(m) => if occurs_in(q, lower_of(m)) { Some((a, m)) } else { None },
                        None => None,
                    }),
                pair_names(r@) == n.take(i as int).filter_map(f),
            decreases n.len() - i,
        {
            proof {
                n.lemma_filter_map_take_succ(f, i as int);
            }
            let account = &self.public_statuses[i];
            let ghost before = pair_names(r@);
            match self.visible(now, account) {
                Some(m) => {
                    let folded = fold_case(&m);
                    if matches_folded(&folded_query, &folded) {
                        r.push((account.clone(), m));
                        assert(pair_names(r@) =~= before + seq![(n[i as int], m@)]);
                    } else {
                        assert(before =~= before + Seq::empty());
                    }
                },
                None => {
                    assert(before =~= before + Seq::empty());
                },
            }
            i = i + 1;
        }
        assert(n.take(n.len() as int) =~= n);
        r
    }

    /// `c` has reacted to the status of `t`.
    pub open spec fn has_reacted(&self, t: Seq<char>, c: Seq<char>) -> bool {
        exists|i: int| 0 <= i < self.reactions_of(t).len() && (#[trigger] self.reactions_of(t)[i]).account_id@ == c
    }

    /// The status of `a` has an expiry that `now` is past.
    pub open spec fn expired_by(&self, a: Seq<char>, now: u64) -> bool {
        match self.expiry_of(a) {
            Some(e) => now > e,
            None => false,
        }
    }

    /// How many reactions in `rs` are of kind `k`.
    pub open spec fn kind_count(rs: Seq<Reaction>, k: Seq<char>) -> nat
        decreases rs.len(),
    {
        if rs.len() == 0 {
            0
        } else {
            Self::kind_count(rs.drop_last(), k) + if rs.last().reaction_type@ == k { 1nat } else { 0nat }
        }
    }

    /// `caller` starts following `account_id`, who is notified, also when
    /// `caller` already follows. Following oneself is rejected.
    pub fn follow(&mut self, caller: &String, account_id: String) -> (r: Result<(), StatusError>)
        requires
            old(self).wf(),
        ensures
            final(self).wf(),
            caller@ == account_id@ ==> r == Err::<(), StatusError>(StatusError::InvalidArgument) && *final(self) == *old(self),
            caller@ != account_id@ ==> r is Ok && old(self).followed(*final(self), caller@, account_id@),
    {
        if *caller == account_id {
            return Err(StatusError::InvalidArgument);
        }
        let mut set = match take_value(&mut self.followers, &account_id) {
            Some(s) => s,
            None => Vec::new(),
        };
        assert(names(set@) == old(self).followers_of(account_id@)) by {
            if !table_view(old(self).followers@).contains_key(account_id@) {
                assert(names(set@) =~= Seq::<Seq<char>>::empty());
            }
        }
        insert_name(&mut set, caller);
        put_value(&mut self.followers, account_id.clone(), set);
        let note = caller.clone().concat(" started following you");
        self.add_notification(&account_id, note);
        Ok(())
    }

    /// `caller` stops following `account_id`; nothing happens when it did not.
    pub fn unfollow(&mut self, caller: &String, account_id: String)
        requires
            old(self).wf(),
        ensures
            final(self).wf(),
            old(self).unfollowed(*final(self), caller@, account_id@),
    {
        match take_value(&mut self.followers, &account_id) {
            Some(set) => {
                let mut set = set;
                remove_name(&mut set, caller);
                put_value(&mut self.followers, account_id.clone(), set);
            },
            None => {
                assert(self.followers_of(account_id@) =~= Seq::<Seq<char>>::empty());
            },
        }
    }

    /// The accounts whose followers include `caller`.
    pub fn get_following(&self, caller: &String) -> (r: Vec<String>)
        requires
            self.wf(),
        ensures
            names(r@) == self.following_listing(caller@),
    {
        let ghost s = self.followers@;
        let ghost c = caller@;
        let ghost f = |e: (String, Vec<String>)| if names(e.1@).contains(c) { Some(e.0@) } else { None };
        let mut r: Vec<String> = Vec::new();
        let mut i: usize = 0;
        while i < self.followers.len()
            invariant
                i <= s.len(),
                s == self.followers@,
                c == caller@,
                f == (|e: (String, Vec<String>)| if names(e.1@).contains(c) { Some(e.0@) } else { None }),
                names(r@) == s.take(i as int).filter_map(f),
            decreases s.len() - i,
        {
            proof {
                s.lemma_filter_map_take_succ(f, i as int);
            }
            let ghost before = names(r@);
            match position(&self.followers[i].1, caller) {
                Some(j) => {
                    assert(names(s[i as int].1@)[j as int] == c);
                    r.push(self.followers[i].0.clone());
                    assert(names(r@) =~= before + seq![s[i as int].0@]);
                },
                None => {
                    assert(before =~= before + Seq::empty());
                },
            }
            i = i + 1;
        }
        assert(s.take(s.len() as int) =~= s);
        r
    }

    /// Whether `list` holds a reaction by `reactor`.
    fn reacted_in(list: &Vec<Reaction>, reactor: &String) -> (r: bool)
        ensures
            r == exists|i: int| 0 <= i < list@.len() && (#[trigger] list@[i]).account_id@ == reactor@,
    {
        let mut i: usize = 0;
        while i < list.len()
            invariant
                i <= list@.len(),
                forall|j: int| 0 <= j < i ==> (#[trigger] list@[j]).account_id@ != reactor@,
            decreases list@.len() - i,
        {
            if list[i].account_id == *reactor {
                return true;
            }
            i = i + 1;
        }
        false
    }

    /// `caller` reacts with `reaction_type` to the status of `account_id`,
    /// who is notified. A second reaction by the same account is ignored:
    /// the first one stays.
    pub fn add_reaction(&mut self, caller: &String, now: u64, account_id: String, reaction_type: String)
        requires
            old(self).wf(),
        ensures
            final(self).wf(),
            old(self).has_reacted(account_id@, caller@) ==> *final(self) == *old(self),
            !old(self).has_reacted(account_id@, caller@) ==> old(self).reacted(*final(self), *caller, now, account_id@, reaction_type),
    {
        let already = match find(&self.reactions, &account_id) {
            Some(i) => {
                proof {
                    lemma_view_at(self.reactions@, i as int);
                }
                let seen = Self::reacted_in(&self.reactions[i].1, caller);
                proof {
                    if seen {
                        let list = self.reactions@[i as int].1@;
                        let j = choose|j: int| 0 <= j < list.len() && (#[trigger] list[j]).account_id@ == caller@;
                        assert(self.reactions_of(account_id@)[j] == list[j]);
                    }
                }
                seen
            },
            None => false,
        };
        if already {
            return;
        }
        let mut list = match take_value(&mut self.reactions, &account_id) {
            Some(l) => l,
            None => Vec::new(),
        };
        let ghost before = list@;
        assert(before == old(self).reactions_of(account_id@)) by {
            if !table_view(old(self).reactions@).contains_key(account_id@) {
                assert(before =~= Seq::<Reaction>::empty());
            }
        }
        list.push(Reaction { account_id: caller.clone(), reaction_type, timestamp: now });
        put_value(&mut self.reactions, account_id.clone(), list);
        let note = caller.clone().concat(" reacted to your status");
        self.add_notification(&account_id, note);
    }

    /// The reactions to the status of `account_id`, in the order they came.
    pub fn get_reactions(&self, account_id: String) -> (r: Vec<Reaction>)
        requires
            self.wf(),
        ensures
            r@ == self.reactions_of(account_id@),
    {
        let mut r: Vec<Reaction> = Vec::new();
        match find(&self.reactions, &account_id) {
            Some(k) => {
                proof {
                    lemma_view_at(self.reactions@, k as int);
                }
                let list = &self.reactions[k].1;
                let mut i: usize = 0;
                while i < list.len()
                    invariant
                        i <= list@.len(),
                        r@ == list@.take(i as int),
                    decreases list@.len() - i,
                {
                    r.push(list[i].duplicate());
                    assert(r@ =~= list@.take(i + 1));
                    i = i + 1;
                }
                assert(list@.take(list@.len() as int) =~= list@);
            },
            None => {
                assert(r@ =~= Seq::<Reaction>::empty());
            },
        }
        r
    }

    /// The last notifications of `caller`, oldest first; reading removes none.
    pub fn get_notifications(&self, caller: &String) -> (r: Vec<String>)
        requires
            self.wf(),
        ensures
            names(r@) == last_n(self.notifications_of(caller@), RECENT_WINDOW as int),
            r@.len() <= RECENT_WINDOW,
    {
        match find(&self.notifications, caller) {
            Some(i) => {
                proof {
                    lemma_view_at(self.notifications@, i as int);
                }
                let r = copy_last(&self.notifications[i].1, RECENT_WINDOW);
                assert(names(r@) =~= last_n(names(self.notifications[i as int].1@), RECENT_WINDOW as int));
                r
            },
            None => {
                let r: Vec<String> = Vec::new();
                assert(names(r@) =~= last_n(Seq::<Seq<char>>::empty(), RECENT_WINDOW as int));
                r
            },
        }
    }

    /// Empties the notification queue of `caller`.
    pub fn clear_notifications(&mut self, caller: &String)
        requires
            old(self).wf(),
        ensures
            final(self).wf(),
            final(self).same_but_notifications(old(self)),
            forall|a: Seq<char>| #[trigger]
                final(self).notifications_of(a) == if a == caller@ {
                    Seq::<Seq<char>>::empty()
                } else {
                    old(self).notifications_of(a)
                },
    {
        match take_value(&mut self.notifications, caller) {
            Some(_) => {
                let empty: Vec<String> = Vec::new();
                assert(names(empty@) =~= Seq::<Seq<char>>::empty());
                put_value(&mut self.notifications, caller.clone(), empty);
            },
            None => {},
        }
    }

    /// Counts one more view of the status of `account_id`; the count stops
    /// at `u64::MAX`.
    pub fn view_status(&mut self, account_id: String)
        requires
            old(self).wf(),
        ensures
            final(self).wf(),
            forall|a: Seq<char>| #[trigger]
                final(self).views_of(a) == if a == account_id@ && old(self).views_of(a) < u64::MAX {
                    (old(self).views_of(a) + 1) as u64
                } else {
                    old(self).views_of(a)
                },
            final(self).records == old(self).records,
            final(self).history == old(self).history,
            final(self).profiles == old(self).profiles,
            final(self).public_statuses == old(self).public_statuses,
            final(self).followers == old(self).followers,
            final(self).reactions == old(self).reactions,
            final(self).notifications == old(self).notifications,
            final(self).status_expiry == old(self).status_expiry,
    {
        let current = self.get_view_count(account_id.clone());
        if current < u64::MAX {
            put_value(&mut self.analytics, account_id, current + 1);
        }
    }

    pub fn get_view_count(&self, account_id: String) -> (r: u64)
        requires
            self.wf(),
        ensures
            r == self.views_of(account_id@),
    {
        match find(&self.analytics, &account_id) {
            Some(i) => {
                proof {
                    lemma_view_at(self.analytics@, i as int);
                }
                self.analytics[i].1
            },
            None => 0,
        }
    }

    /// The number of statuses posted, of followers and of views of `account_id`.
    pub fn get_dashboard_stats(&self, account_id: String) -> (r: (u64, u64, u64))
        requires
            self.wf(),
        ensures
            r.0 == self.history_of(account_id@).len(),
            r.1 == self.followers_of(account_id@).len(),
            r.2 == self.views_of(account_id@),
    {
        let status_count = self.get_status_count(account_id.clone());
        let follower_count = self.get_followers(account_id.clone()).len() as u64;
        let view_count = self.get_view_count(account_id);
        (status_count, follower_count, view_count)
    }

    /// Evicts every current status whose expiry `now` is past: it leaves the
    /// current statuses, the public index and the expiry index, and its
    /// owner is notified. History is kept. Running it again at the same
    /// time changes nothing.
    pub fn cleanup_expired_statuses(&mut self, now: u64)
        requires
            old(self).wf(),
        ensures
            final(self).wf(),
            old(self).swept(*final(self), now),
    {
        let ghost s = self.status_expiry@;
        let mut due: Vec<String> = Vec::new();
        let mut i: usize = 0;
        assert(names(due@) =~= Seq::<Seq<char>>::empty());
        while i < self.status_expiry.len()
            invariant
                i <= s.len(),
                s == self.status_expiry@,
                keys_unique(s),
                names(due@).no_duplicates(),
                forall|a: Seq<char>|
                    #[trigger] names(due@).contains(a) == exists|j: int|
                        0 <= j < i && (#[trigger] s[j]).0@ == a && now > s[j].1,
            decreases s.len() - i,
        {
            if now > self.status_expiry[i].1 {
                let ghost before = names(due@);
                due.push(self.status_expiry[i].0.clone());
                let ghost k = s[i as int].0@;
                assert(names(due@) =~= before.push(k));
                assert(!before.contains(k)) by {
                    if before.contains(k) {
                        let j = choose|j: int| 0 <= j < i && (#[trigger] s[j]).0@ == k && now > s[j].1;
                    }
                }
                assert forall|a: Seq<char>|
                    #[trigger] names(due@).contains(a) == exists|j: int|
                        0 <= j < i + 1 && (#[trigger] s[j]).0@ == a && now > s[j].1 by {
                    if names(due@).contains(a) && a != k {
                        let m = choose|m: int| 0 <= m < names(due@).len() && names(due@)[m] == a;
                        assert(before[m] == a);
                    }
                    if before.contains(a) {
                        let m = choose|m: int| 0 <= m < before.len() && before[m] == a;
                        assert(names(due@)[m] == a);
                    }
                    if a == k {
                        assert(names(due@)[before.len() as int] == a);
                    }
                }
                assert(names(due@).no_duplicates()) by {
                    assert forall|x: int, y: int|
                        0 <= x < names(due@).len() && 0 <= y < names(due@).len() && x != y implies names(due@)[x]
                        != names(due@)[y] by {
                        if x < before.len() && y < before.len() {
                        } else if x < before.len() {
                            assert(before.contains(before[x]));
                        } else {
                            assert(before.contains(before[y]));
                        }
                    }
                }
            } else {
                assert forall|a: Seq<char>|
                    #[trigger] names(due@).contains(a) == exists|j: int|
                        0 <= j < i + 1 && (#[trigger] s[j]).0@ == a && now > s[j].1 by {
                    if exists|j: int| 0 <= j < i + 1 && (#[trigger] s[j]).0@ == a && now > s[j].1 {
                        let j = choose|j: int| 0 <= j < i + 1 && (#[trigger] s[j]).0@ == a && now > s[j].1;
                        assert(j != i);
                    }
                }
            }
            i = i + 1;
        }
        let ghost n = names(due@);
        assert forall|a: Seq<char>| #[trigger] n.contains(a) == old(self).expired_by(a, now) by {
            if n.contains(a) {
                let j = choose|j: int| 0 <= j < s.len() && (#[trigger] s[j]).0@ == a && now > s[j].1;
                lemma_view_at(s, j);
            }
            if old(self).expired_by(a, now) {
                let j = choose|j: int| 0 <= j < s.len() && (#[trigger] s[j]).0@ == a;
                lemma_view_at(s, j);
            }
        }
        let note = "Your status has expired".to_string();
        assert(note@ == expired_note());
        let mut k: usize = 0;
        while k < due.len()
            invariant
                k <= n.len(),
                n == names(due@),
                n.no_duplicates(),
                note@ == expired_note(),
                self.wf(),
                forall|a: Seq<char>| #[trigger] n.contains(a) == old(self).expired_by(a, now),
                forall|a: Seq<char>| #[trigger]
                    self.status_of(a) == if n.take(k as int).contains(a) { None } else { old(self).status_of(a) },
                forall|a: Seq<char>| #[trigger]
                    self.is_listed(a) == (!n.take(k as int).contains(a) && old(self).is_listed(a)),
                forall|a: Seq<char>| #[trigger]
                    self.expiry_of(a) == if n.take(k as int).contains(a) { None } else { old(self).expiry_of(a) },
                forall|a: Seq<char>| #[trigger]
                    self.notifications_of(a) == if n.take(k as int).contains(a) {
                        old(self).notifications_of(a).push(expired_note())
                    } else {
                        old(self).notifications_of(a)
                    },
                self.history == old(self).history,
                self.profiles == old(self).profiles,
                self.followers == old(self).followers,
                self.reactions == old(self).reactions,
                self.analytics == old(self).analytics,
            decreases n.len() - k,
        {
            proof {
                lemma_take_next(n, k as int);
                assert(n[k as int] == due@[k as int]@);
            }
            let ghost mid = *self;
            self.clear_current(&due[k]);
            let ghost cleared = *self;
            self.add_notification(&due[k], note.clone());
            assert(self.records == cleared.records && self.public_statuses == cleared.public_statuses);
            assert forall|a: Seq<char>| #[trigger] self.status_of(a) == if n.take(k + 1).contains(a) {
                None
            } else {
                old(self).status_of(a)
            } by {
                assert(self.status_of(a) == cleared.status_of(a));
                assert(mid.status_of(a) == if n.take(k as int).contains(a) { None } else { old(self).status_of(a) });
            }
            assert forall|a: Seq<char>| #[trigger] self.is_listed(a) == (!n.take(k + 1).contains(a) && old(self).is_listed(a)) by {
                assert(self.is_listed(a) == cleared.is_listed(a));
                assert(mid.is_listed(a) == (!n.take(k as int).contains(a) && old(self).is_listed(a)));
            }
            assert forall|a: Seq<char>| #[trigger] self.expiry_of(a) == if n.take(k + 1).contains(a) {
                None
            } else {
                old(self).expiry_of(a)
            } by {
                assert(self.expiry_of(a) == cleared.expiry_of(a));
                assert(mid.expiry_of(a) == if n.take(k as int).contains(a) { None } else { old(self).expiry_of(a) });
            }
            assert forall|a: Seq<char>| #[trigger] self.notifications_of(a) == if n.take(k + 1).contains(a) {
                old(self).notifications_of(a).push(expired_note())
            } else {
                old(self).notifications_of(a)
            } by {
                assert(cleared.notifications_of(a) == mid.notifications_of(a));
                assert(mid.notifications_of(a) == if n.take(k as int).contains(a) {
                    old(self).notifications_of(a).push(expired_note())
                } else {
                    old(self).notifications_of(a)
                });
            }
            k = k + 1;
        }
        assert(n.take(n.len() as int) =~= n);
    }

    /// How many reactions of each kind the status of `account_id` has, one
    /// entry per kind, kinds in the order they first came.
    pub fn get_reaction_counts(&self, account_id: String) -> (r: Vec<(String, u64)>)
        requires
            self.wf(),
        ensures
            keys_unique(r@),
            forall|k: Seq<char>|
                #[trigger] has_key(r@, k) == exists|j: int|
                    0 <= j < self.reactions_of(account_id@).len() && (#[trigger] self.reactions_of(
                        account_id@,
                    )[j]).reaction_type@ == k,
            forall|i: int|
                0 <= i < r@.len() ==> (#[trigger] r@[i]).1 == Self::kind_count(
                    self.reactions_of(account_id@),
                    r@[i].0@,
                ),
    {
        let list = self.get_reactions(account_id);
        let ghost rs = list@;
        let mut counts: Vec<(String, u64)> = Vec::new();
        let mut i: usize = 0;
        while i < list.len()
            invariant
                i <= rs.len(),
                rs == list@,
                keys_unique(counts@),
                forall|k: Seq<char>|
                    #[trigger] has_key(counts@, k) == exists|j: int|
                        0 <= j < i && (#[trigger] rs[j]).reaction_type@ == k,
                forall|m: int|
                    0 <= m < counts@.len() ==> (#[trigger] counts@[m]).1 == Self::kind_count(
                        rs.take(i as int),
                        counts@[m].0@,
                    ),
                forall|m: int| 0 <= m < counts@.len() ==> (#[trigger] counts@[m]).1 <= i,
            decreases rs.len() - i,
        {
            let kind = &list[i].reaction_type;
            let ghost old_counts = counts@;
            assert(rs.take(i + 1).drop_last() =~= rs.take(i as int));
            assert(forall|k: Seq<char>| #[trigger] Self::kind_count(rs.take(i + 1), k)
                == Self::kind_count(rs.take(i as int), k) + if rs[i as int].reaction_type@ == k { 1nat } else { 0nat });
            match find(&counts, kind) {
                Some(m) => {
                    let c = counts[m].1 + 1;
                    counts.set(m, (kind.clone(), c));
                    assert(counts@ == old_counts.update(m as int, (*kind, c)));
                    proof {
                        crate::table::lemma_update(old_counts, m as int, *kind, c);
                        assert forall|k: Seq<char>|
                            #[trigger] has_key(counts@, k) == exists|j: int|
                                0 <= j < i + 1 && (#[trigger] rs[j]).reaction_type@ == k by {
                            if has_key(counts@, k) {
                                let p = choose|p: int| 0 <= p < counts@.len() && (#[trigger] counts@[p]).0@ == k;
                                assert(old_counts[p].0@ == k);
                                assert(has_key(old_counts, k));
                                let j = choose|j: int| 0 <= j < i && (#[trigger] rs[j]).reaction_type@ == k;
                                assert(0 <= j < i + 1);
                            }
                            if exists|j: int| 0 <= j < i + 1 && (#[trigger] rs[j]).reaction_type@ == k {
                                let j = choose|j: int| 0 <= j < i + 1 && (#[trigger] rs[j]).reaction_type@ == k;
                                if j < i {
                                    assert(has_key(old_counts, k));
                                    let p = choose|p: int| 0 <= p < old_counts.len() && (#[trigger] old_counts[p]).0@ == k;
                                    assert(counts@[p].0@ == k);
                                } else {
                                    assert(counts@[m as int].0@ == k);
                                }
                            }
                        }
                        assert forall|p: int| 0 <= p < counts@.len() implies (#[trigger] counts@[p]).1 == Self::kind_count(
                            rs.take(i + 1),
                            counts@[p].0@,
                        ) by {
                            if p != m {
                                assert(counts@[p] == old_counts[p]);
                                assert(old_counts[p].0@ != old_counts[m as int].0@);
                            }
                        }
                    }
                },
                None => {
                    proof {
                        crate::table::lemma_push(old_counts, *kind, 1u64);
                        assert(Self::kind_count(rs.take(i as int), kind@) == 0) by {
                            Self::lemma_no_kind(rs.take(i as int), kind@);
                        }
                    }
                    counts.push((kind.clone(), 1));
                    proof {
                        assert forall|k: Seq<char>|
                            #[trigger] has_key(counts@, k) == exists|j: int|
                                0 <= j < i + 1 && (#[trigger] rs[j]).reaction_type@ == k by {
                            if has_key(counts@, k) {
                                let p = choose|p: int| 0 <= p < counts@.len() && (#[trigger] counts@[p]).0@ == k;
                                if p < old_counts.len() {
                                    assert(old_counts[p].0@ == k);
                                    assert(has_key(old_counts, k));
                                    let j = choose|j: int| 0 <= j < i && (#[trigger] rs[j]).reaction_type@ == k;
                                    assert(0 <= j < i + 1);
                                } else {
                                    assert(rs[i as int].reaction_type@ == k);
                                }
                            }
                            if exists|j: int| 0 <= j < i + 1 && (#[trigger] rs[j]).reaction_type@ == k {
                                let j = choose|j: int| 0 <= j < i + 1 && (#[trigger] rs[j]).reaction_type@ == k;
                                if j < i {
                                    assert(has_key(old_counts, k));
                                    let p = choose|p: int| 0 <= p < old_counts.len() && (#[trigger] old_counts[p]).0@ == k;
                                    assert(counts@[p].0@ == k);
                                } else {
                                    assert(counts@[old_counts.len() as int].0@ == k);
                                }
                            }
                        }
                        assert forall|p: int| 0 <= p < counts@.len() implies (#[trigger] counts@[p]).1 == Self::kind_count(
                            rs.take(i + 1),
                            counts@[p].0@,
                        ) by {
                            if p < old_counts.len() {
                                assert(counts@[p] == old_counts[p]);
                                assert(old_counts[p].0@ != kind@) by {
                                    if old_counts[p].0@ == kind@ {
                                        assert(has_key(old_counts, kind@));
                                    }
                                }
                            }
                        }
                    }
                },
            }
            i = i + 1;
        }
        assert(rs.take(rs.len() as int) =~= rs);
        counts
    }

    /// A kind that no reaction of `rs` has is counted zero times.
    proof fn lemma_no_kind(rs: Seq<Reaction>, k: Seq<char>)
        requires
            forall|j: int| 0 <= j < rs.len() ==> (#[trigger] rs[j]).reaction_type@ != k,
        ensures
            Self::kind_count(rs, k) == 0,
        decreases rs.len(),
    {
        if rs.len() > 0 {
            assert forall|j: int| 0 <= j < rs.drop_last().len() implies (#[trigger] rs.drop_last()[j]).reaction_type@ != k by {
                assert(rs.drop_last()[j] == rs[j]);
            }
            Self::lemma_no_kind(rs.drop_last(), k);
        }
    }

    /// Posts `message` as the current status of `caller`.
    ///
    /// An empty message is rejected. Otherwise the status becomes current,
    /// is appended to the caller's history, is listed publicly or not as
    /// `is_public` says (public by default), expires `expires_in_hours`
    /// hours from `now` when that is positive, and, when public, each
    /// current follower is notified.
    pub fn set_status(
        &mut self,
        caller: &String,
        now: u64,
        message: String,
        is_public: Option<bool>,
        expires_in_hours: Option<u64>,
    ) -> (r: Result<(), StatusError>)
        requires
            old(self).wf(),
            expiry_fits(now, expires_in_hours),
        ensures
            final(self).wf(),
            message@.len() == 0 ==> r == Err::<(), StatusError>(StatusError::InvalidArgument) && *final(self) == *old(self),
            message@.len() > 0 ==> r is Ok && old(self).posted(*final(self), caller@, now, message, is_public, expires_in_hours),
    {
        if message.as_str().is_empty() {
            return Err(StatusError::InvalidArgument);
        }
        let public = match is_public {
            Some(b) => b,
            None => true,
        };
        let expires_at: Option<u64> = match expires_in_hours {
            Some(h) => if h > 0 { Some(now + h * NANOS_PER_HOUR) } else { None },
            None => None,
        };
        put_value(&mut self.records, caller.clone(), message.clone());
        let mut past = match take_value(&mut self.history, caller) {
            Some(h) => h,
            None => Vec::new(),
        };
        let ghost before = past@;
        past.push(StatusRecord::new(message, now, expires_at));
        put_value(&mut self.history, caller.clone(), past);
        if public {
            insert_name(&mut self.public_statuses, caller);
        } else {
            remove_name(&mut self.public_statuses, caller);
        }
        match expires_at {
            Some(e) => put_value(&mut self.status_expiry, caller.clone(), e),
            None => {
                take_value(&mut self.status_expiry, caller);
            },
        }
        let ghost listed = *self;
        if public {
            let to = self.get_followers(caller.clone());
            let note = caller.clone().concat(" posted a new status");
            self.notify_all(&to, &note);
        }
        proof {
            if !table_view(old(self).history@).contains_key(caller@) {
                assert(before =~= Seq::<StatusRecord>::empty());
            }
            assert(self.public_statuses == listed.public_statuses);
            assert(public == public_flag(is_public));
            assert forall|a: Seq<char>| #[trigger] listed.is_listed(a) == if a == caller@ {
                public
            } else {
                old(self).is_listed(a)
            } by {
                let o = names(old(self).public_statuses@);
                let n = names(listed.public_statuses@);
                if !public && o.contains(caller@) && a != caller@ {
                    let i = choose|i: int| 0 <= i < o.len() && o[i] == caller@ && n == o.remove(i);
                    if n.contains(a) {
                        let j = choose|j: int| 0 <= j < n.len() && n[j] == a;
                        let j2 = if j < i { j } else { j + 1 };
                        assert(n[j] == o[j2]);
                    }
                    if o.contains(a) {
                        let j = choose|j: int| 0 <= j < o.len() && o[j] == a;
                        let j2 = if j < i { j } else { j - 1 };
                        assert(n[j2] == o[j]);
                    }
                }
                if public && !o.contains(caller@) {
                    assert(n == o.push(caller@));
                    if a == caller@ {
                        assert(n[o.len() as int] == a);
                    } else {
                        if n.contains(a) {
                            let j = choose|j: int| 0 <= j < n.len() && n[j] == a;
                            assert(o[j] == a);
                        }
                        if o.contains(a) {
                            let j = choose|j: int| 0 <= j < o.len() && o[j] == a;
                            assert(n[j] == a);
                        }
                    }
                }
            }
        }
        proof {
            assert forall|a: Seq<char>| #[trigger] self.is_listed(a) == if a == caller@ {
                public_flag(is_public)
            } else {
                old(self).is_listed(a)
            } by {
                assert(listed.is_listed(a) == self.is_listed(a));
            }
        }
        Ok(())
    }
}

impl Default for StatusMessage {
    /// An empty ledger.
    fn default() -> (r: Self)
        ensures
            r.wf(),
            r.is_empty(),
    {
        StatusMessage::new()
    }
}

} // verus!
