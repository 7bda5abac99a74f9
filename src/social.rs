//! One account's set of followers.
use vstd::prelude::*;
use crate::text::{names, insert_name, remove_name, copy_names};

verus! {

/// The distinct accounts that follow one account.
pub struct SocialConnections {
    pub followers: Vec<String>,
}

impl SocialConnections {
    pub open spec fn wf(&self) -> bool {
        names(self.followers@).no_duplicates()
    }

    pub fn new(account_id: &str) -> (r: Self)
        ensures
            r.wf(),
            r.followers@.len() == 0,
    {
        let r = SocialConnections { followers: Vec::new() };
        assert(names(r.followers@) =~= Seq::<Seq<char>>::empty());
        r
    }

    pub fn follow(&mut self, follower_id: &String)
        requires
            old(self).wf(),
        ensures
            final(self).wf(),
            names(final(self).followers@).to_set() == names(old(self).followers@).to_set().insert(follower_id@),
    {
        insert_name(&mut self.followers, follower_id);
        proof {
            let o = names(old(self).followers@);
            if !o.contains(follower_id@) {
                o.lemma_push_to_set_commute(follower_id@);
            } else {
                assert(o.to_set() =~= o.to_set().insert(follower_id@));
            }
        }
    }

    pub fn unfollow(&mut self, follower_id: &String)
        requires
            old(self).wf(),
        ensures
            final(self).wf(),
            names(final(self).followers@).to_set() == names(old(self).followers@).to_set().remove(follower_id@),
    {
        let ghost o = names(self.followers@);
        remove_name(&mut self.followers, follower_id);
        proof {
            let n = names(self.followers@);
            assert forall|x| n.contains(x) == (o.contains(x) && x != follower_id@) by {
                if o.contains(follower_id@) {
                    let i = choose|i: int|
                        0 <= i < o.len() && o[i] == follower_id@ && n == o.remove(i);
                    if n.contains(x) {
                        let a = choose|a: int| 0 <= a < n.len() && n[a] == x;
                        let a2 = if a < i { a } else { a + 1 };
                        assert(n[a] == o[a2]);
                    }
                    if o.contains(x) && x != follower_id@ {
                        let b = choose|b: int| 0 <= b < o.len() && o[b] == x;
                        let b2 = if b < i { b } else { b - 1 };
                        assert(n[b2] == o[b]);
                    }
                }
            }
            assert(n.to_set() =~= o.to_set().remove(follower_id@));
        }
    }

    pub fn get_followers(&self) -> (r: Vec<String>)
        ensures
            names(r@) == names(self.followers@),
    {
        copy_names(&self.followers)
    }
}

} // verus!
