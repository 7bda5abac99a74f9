//! A view counter.
use vstd::prelude::*;

verus! {

/// Counts views of one status; the count never decreases.
pub struct AnalyticsManager {
    pub view_count: u64,
}

impl AnalyticsManager {
    pub fn new() -> (r: Self)
        ensures
            r.view_count == 0,
    {
        AnalyticsManager { view_count: 0 }
    }

    /// Counts one more view; the count stops at `u64::MAX`.
    pub fn increment_view(&mut self)
        ensures
            final(self).view_count == (if old(self).view_count < u64::MAX {
                old(self).view_count + 1
            } else {
                old(self).view_count as int
            }),
    {
        if self.view_count < u64::MAX {
            self.view_count = self.view_count + 1;
        }
    }

    pub fn get_view_count(&self) -> (r: u64)
        ensures
            r == self.view_count,
    {
        self.view_count
    }
}

} // verus!
