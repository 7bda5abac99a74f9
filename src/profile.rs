//! Account profiles.
use vstd::prelude::*;

verus! {

/// What an account says about itself.
#[derive(Clone, Debug, PartialEq, Eq)]
pub struct UserProfile {
    pub name: String,
    pub bio: String,
    pub is_public: bool,
}

impl UserProfile {
    /// A copy equal to this profile.
    pub fn duplicate(&self) -> (r: Self)
        ensures
            r == *self,
    {
        UserProfile { name: self.name.clone(), bio: self.bio.clone(), is_public: self.is_public }
    }
}

impl Default for UserProfile {
    fn default() -> (r: Self)
        ensures
            r.name@.len() == 0,
            r.bio@.len() == 0,
            r.is_public,
    {
        UserProfile { name: String::new(), bio: String::new(), is_public: true }
    }
}

} // verus!
