//! Reactions that accounts leave on one another's status.
use vstd::prelude::*;

verus! {

/// A reaction by `account_id`, of kind `reaction_type`, made at `timestamp`.
#[derive(Clone, Debug, PartialEq, Eq)]
pub struct Reaction {
    pub account_id: String,
    pub reaction_type: String,
    pub timestamp: u64,
}

impl Reaction {
    /// A copy equal to this reaction.
    pub fn duplicate(&self) -> (r: Self)
        ensures
            r == *self,
    {
        Reaction {
            account_id: self.account_id.clone(),
            reaction_type: self.reaction_type.clone(),
            timestamp: self.timestamp,
        }
    }
}

} // verus!
