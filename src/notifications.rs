//! One account's notification queue.
use vstd::prelude::*;
use crate::text::names;

verus! {

/// An append-only queue of notification texts, read from its most recent end.
pub struct NotificationManager {
    pub notifications: Vec<String>,
}

/// The last `count` items of `s`, or all of them when there are fewer.
pub open spec fn last_n<A>(s: Seq<A>, count: int) -> Seq<A> {
    if s.len() > count {
        s.subrange(s.len() - count, s.len() as int)
    } else {
        s
    }
}

impl NotificationManager {
    pub fn new(account_id: &str) -> (r: Self)
        ensures
            r.notifications@.len() == 0,
    {
        NotificationManager { notifications: Vec::new() }
    }

    pub fn add_notification(&mut self, message: String)
        ensures
            final(self).notifications@ == old(self).notifications@.push(message),
    {
        self.notifications.push(message);
    }

    /// The most recent `count` notifications, oldest first.
    pub fn get_notifications(&self, count: usize) -> (r: Vec<String>)
        ensures
            names(r@) == names(last_n(self.notifications@, count as int)),
    {
        copy_last(&self.notifications, count)
    }

    pub fn clear_notifications(&mut self)
        ensures
            final(self).notifications@.len() == 0,
    {
        self.notifications.clear();
    }
}

/// Copies of the last `count` strings of `v`, oldest first.
pub fn copy_last(v: &Vec<String>, count: usize) -> (r: Vec<String>)
    ensures
        names(r@) == names(last_n(v@, count as int)),
        r@ == last_n(v@, count as int),
{
    let len = v.len();
    let start: usize = if len > count { len - count } else { 0 };
    let mut r: Vec<String> = Vec::new();
    let mut i: usize = start;
    while i < len
        invariant
            start <= i <= len,
            len == v@.len(),
            start == (if len > count { len - count } else { 0 }),
            r@ == v@.subrange(start as int, i as int),
        decreases len - i,
    {
        r.push(v[i].clone());
        assert(r@ =~= v@.subrange(start as int, i + 1));
        i = i + 1;
    }
    assert(r@ =~= last_n(v@, count as int));
    r
}

} // verus!
