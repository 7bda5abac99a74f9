//! Facts that relate several operations of the ledger.
use vstd::prelude::*;
use crate::history::StatusRecord;
use crate::notifications::last_n;
use crate::reactions::Reaction;
use crate::{live_recent, StatusMessage, NANOS_PER_HOUR, RECENT_WINDOW};

verus! {

/// After a public post of `message` with no expiry, reading the account at
/// any time gives `message`, and its history as read ends with a record of
/// `message`.
pub proof fn lemma_post_then_read(
    before: StatusMessage,
    after: StatusMessage,
    a: Seq<char>,
    now: u64,
    message: String,
    later: u64,
)
    requires
        before.posted(after, a, now, message, Some(true), None),
    ensures
        after.visible_status(a, later) == Some(message@),
        live_recent(after.history_of(a), later).len() > 0,
        live_recent(after.history_of(a), later).last().message == message,
{
    let h = after.history_of(a);
    let rec = StatusRecord { message, timestamp: now, expires_at: None };
    assert(h == before.history_of(a).push(rec));
    let w = last_n(h, RECENT_WINDOW as int);
    assert(w.last() == rec);
    assert(w.drop_last().len() + 1 == w.len());
}

/// A post that lives one hour is read back at once, and once the hour is
/// over it is neither read nor listed.
pub proof fn lemma_post_expires(
    before: StatusMessage,
    after: StatusMessage,
    a: Seq<char>,
    now: u64,
    message: String,
    later: u64,
)
    requires
        before.posted(after, a, now, message, Some(true), Some(1)),
        later > now + NANOS_PER_HOUR,
    ensures
        after.visible_status(a, now) == Some(message@),
        after.visible_status(a, later) is None,
        forall|m: Seq<char>| !(#[trigger] after.public_listing(later).contains((a, m))),
{
    assert(after.expiry_of(a) == Some((now + NANOS_PER_HOUR) as u64));
    assert forall|m: Seq<char>| !(#[trigger] after.public_listing(later).contains((a, m))) by {
        let f = |x: Seq<char>|
            match after.visible_status(x, later) {
                Some(v) => Some((x, v)),
                None => None,
            };
        if after.public_listing(later).contains((a, m)) {
            crate::text::names(after.public_statuses@).lemma_filter_map_contains(f, (a, m));
        }
    }
}

/// Following an account one did not follow, then unfollowing it, leaves
/// every list of followers as it was.
pub proof fn lemma_follow_unfollow(
    s0: StatusMessage,
    s1: StatusMessage,
    s2: StatusMessage,
    caller: Seq<char>,
    target: Seq<char>,
)
    requires
        !s0.followers_of(target).contains(caller),
        s0.followed(s1, caller, target),
        s1.unfollowed(s2, caller, target),
    ensures
        forall|a: Seq<char>| #[trigger] s2.followers_of(a) == s0.followers_of(a),
{
    let f0 = s0.followers_of(target);
    let f1 = s1.followers_of(target);
    assert(f1 == f0.push(caller));
    assert(f1[f0.len() as int] == caller);
    let i = choose|i: int| 0 <= i < f1.len() && f1[i] == caller && s2.followers_of(target) == f1.remove(i);
    if i < f0.len() {
        assert(f0[i] == f1[i]);
        assert(f0.contains(caller));
    }
    assert(f1.remove(i) =~= f0);
}

/// A second reaction by the same account to the same status is ignored:
/// the status has exactly one reaction by it, of the first kind.
pub proof fn lemma_first_reaction_wins(
    s0: StatusMessage,
    s1: StatusMessage,
    s2: StatusMessage,
    caller: String,
    target: Seq<char>,
    t1: u64,
    k1: String,
    t2: u64,
    k2: String,
)
    requires
        !s0.has_reacted(target, caller@),
        s0.reacted(s1, caller, t1, target, k1),
        s1.has_reacted(target, caller@) ==> s2 == s1,
        !s1.has_reacted(target, caller@) ==> s1.reacted(s2, caller, t2, target, k2),
    ensures
        exists|i: int|
            0 <= i < s2.reactions_of(target).len() && (#[trigger] s2.reactions_of(target)[i]).account_id@ == caller@
                && s2.reactions_of(target)[i].reaction_type == k1 && forall|j: int|
                0 <= j < s2.reactions_of(target).len() && j != i ==> (#[trigger] s2.reactions_of(
                    target,
                )[j]).account_id@ != caller@,
{
    let r0 = s0.reactions_of(target);
    let r1 = s1.reactions_of(target);
    let n = r0.len() as int;
    assert(r1 == r0.push(Reaction { account_id: caller, reaction_type: k1, timestamp: t1 }));
    assert(r1[n].account_id@ == caller@);
    assert(s1.has_reacted(target, caller@));
    assert forall|j: int| 0 <= j < r1.len() && j != n implies (#[trigger] r1[j]).account_id@ != caller@ by {
        assert(r1[j] == r0[j]);
    }
}

/// A second sweep at the same time finds nothing left to evict and changes
/// no status, listing, expiry or notification.
pub proof fn lemma_sweep_idempotent(s0: StatusMessage, s1: StatusMessage, s2: StatusMessage, now: u64)
    requires
        s0.swept(s1, now),
        s1.swept(s2, now),
    ensures
        forall|a: Seq<char>| !#[trigger] s1.expired_by(a, now),
        forall|a: Seq<char>| #[trigger] s2.status_of(a) == s1.status_of(a),
        forall|a: Seq<char>| #[trigger] s2.is_listed(a) == s1.is_listed(a),
        forall|a: Seq<char>| #[trigger] s2.expiry_of(a) == s1.expiry_of(a),
        forall|a: Seq<char>| #[trigger] s2.notifications_of(a) == s1.notifications_of(a),
{
    assert forall|a: Seq<char>| !#[trigger] s1.expired_by(a, now) by {
        assert(s1.expiry_of(a) == if s0.expired_by(a, now) { None } else { s0.expiry_of(a) });
    }
    assert forall|a: Seq<char>| #[trigger] s2.status_of(a) == s1.status_of(a) by {
        assert(!s1.expired_by(a, now));
    }
    assert forall|a: Seq<char>| #[trigger] s2.is_listed(a) == s1.is_listed(a) by {
        assert(!s1.expired_by(a, now));
    }
    assert forall|a: Seq<char>| #[trigger] s2.expiry_of(a) == s1.expiry_of(a) by {
        assert(!s1.expired_by(a, now));
    }
    assert forall|a: Seq<char>| #[trigger] s2.notifications_of(a) == s1.notifications_of(a) by {
        assert(!s1.expired_by(a, now));
    }
}

/// Once a queue is cleared, reading it gives nothing.
pub proof fn lemma_clear_then_read(s0: StatusMessage, s1: StatusMessage, caller: Seq<char>)
    requires
        forall|a: Seq<char>| #[trigger]
            s1.notifications_of(a) == if a == caller {
                Seq::<Seq<char>>::empty()
            } else {
                s0.notifications_of(a)
            },
    ensures
        last_n(s1.notifications_of(caller), RECENT_WINDOW as int).len() == 0,
{
    assert(s1.notifications_of(caller).len() == 0);
}

} // verus!
