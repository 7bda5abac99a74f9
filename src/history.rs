//! Status records kept in each account's history.
use vstd::prelude::*;

verus! {

/// One posted status: its text, when it was posted and when it stops being live.
#[derive(Clone, Debug, PartialEq, Eq)]
pub struct StatusRecord {
    pub message: String,
    pub timestamp: u64,
    pub expires_at: Option<u64>,
}

impl StatusRecord {
    /// A record has expired once the time is past its expiry, if it has one.
    pub open spec fn expired_at(&self, now: u64) -> bool {
        match self.expires_at {
            Some(e) => now > e,
            None => false,
        }
    }

    pub fn new(message: String, now: u64, expires_at: Option<u64>) -> (r: Self)
        ensures
            r == (StatusRecord { message, timestamp: now, expires_at }),
    {
        StatusRecord { message, timestamp: now, expires_at }
    }

    pub fn is_expired(&self, now: u64) -> (r: bool)
        ensures
            r == self.expired_at(now),
    {
        match self.expires_at {
            Some(e) => now > e,
            None => false,
        }
    }

    /// A copy equal to this record.
    pub fn duplicate(&self) -> (r: Self)
        ensures
            r == *self,
    {
        StatusRecord { message: self.message.clone(), timestamp: self.timestamp, expires_at: self.expires_at }
    }
}

} // verus!
