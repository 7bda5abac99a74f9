//! Account names, lists of names, and case-insensitive matching.
use vstd::prelude::*;

verus! {

/// The texts of a list of strings.
pub open spec fn names(v: Seq<String>) -> Seq<Seq<char>> {
    v.map_values(|s: String| s@)
}

/// `needle` occurs in `hay` as a contiguous run of characters.
pub open spec fn occurs_in(needle: Seq<char>, hay: Seq<char>) -> bool {
    exists|i: int| 0 <= i && i + needle.len() <= hay.len() && #[trigger] hay.subrange(i, i + needle.len()) == needle
}

/// What `str::to_lowercase` makes of a text.
pub uninterp spec fn lower_of(s: Seq<char>) -> Seq<char>;

/// Relies on `str::to_lowercase`: the result depends on the characters alone.
#[verifier::external_body]
fn lowercase(s: &str) -> (r: String)
    ensures
        r@ == lower_of(s@),
{
    s.to_lowercase()
}

/// Relies on `str::contains` with a `&str` pattern: true exactly when the
/// pattern occurs in the text.
#[verifier::external_body]
fn contains_text(hay: &str, needle: &str) -> (r: bool)
    ensures
        r == occurs_in(needle@, hay@),
{
    hay.contains(needle)
}

/// The text of `text`, lower-cased.
pub fn fold_case(text: &String) -> (r: String)
    ensures
        r@ == lower_of(text@),
{
    lowercase(text.as_str())
}

/// Whether a lower-cased query occurs in a lower-cased text.
pub fn matches_folded(folded_query: &String, folded_text: &String) -> (r: bool)
    ensures
        r == occurs_in(folded_query@, folded_text@),
{
    contains_text(folded_text.as_str(), folded_query.as_str())
}

/// Growing a prefix of a list of names by one adds exactly the next name,
/// which a list without duplicates did not hold before.
pub proof fn lemma_take_next(n: Seq<Seq<char>>, i: int)
    requires
        0 <= i < n.len(),
    ensures
        forall|a: Seq<char>| #[trigger] n.take(i + 1).contains(a) == (n.take(i).contains(a) || a == n[i]),
        n.no_duplicates() ==> !n.take(i).contains(n[i]),
{
    let t0 = n.take(i);
    let t1 = n.take(i + 1);
    assert forall|a: Seq<char>| #[trigger] t1.contains(a) == (t0.contains(a) || a == n[i]) by {
        if t1.contains(a) {
            let j = choose|j: int| 0 <= j < t1.len() && t1[j] == a;
            if j < i {
                assert(t0[j] == a);
            }
        }
        if t0.contains(a) {
            let j = choose|j: int| 0 <= j < t0.len() && t0[j] == a;
            assert(t1[j] == a);
        }
        if a == n[i] {
            assert(t1[i] == a);
        }
    }
    if n.no_duplicates() && t0.contains(n[i]) {
        let j = choose|j: int| 0 <= j < t0.len() && t0[j] == n[i];
        assert(n[j] == n[i]);
    }
}

/// Copies of the strings of `v`, in order.
pub fn copy_names(v: &Vec<String>) -> (r: Vec<String>)
    ensures
        r@ == v@,
{
    let mut r: Vec<String> = Vec::new();
    let mut i: usize = 0;
    while i < v.len()
        invariant
            i <= v@.len(),
            r@ == v@.take(i as int),
        decreases v@.len() - i,
    {
        r.push(v[i].clone());
        assert(r@ =~= v@.take(i + 1));
        i = i + 1;
    }
    assert(r@ =~= v@);
    r
}

/// Position of `s` in a list of names, if it is there.
pub fn position(v: &Vec<String>, s: &String) -> (r: Option<usize>)
    ensures
        match r {
            Some(i) => i < v@.len() && v@[i as int]@ == s@,
            None => !names(v@).contains(s@),
        },
{
    let mut i: usize = 0;
    while i < v.len()
        invariant
            i <= v@.len(),
            forall|j: int| 0 <= j < i ==> (#[trigger] v@[j])@ != s@,
        decreases v@.len() - i,
    {
        if v[i] == *s {
            return Some(i);
        }
        i = i + 1;
    }
    proof {
        if names(v@).contains(s@) {
            let j = choose|j: int| 0 <= j < names(v@).len() && names(v@)[j] == s@;
            assert(v@[j]@ == s@);
        }
    }
    None
}

/// Adds `s` to a list of distinct names unless it is already there.
pub fn insert_name(v: &mut Vec<String>, s: &String)
    requires
        names(old(v)@).no_duplicates(),
    ensures
        names(final(v)@).no_duplicates(),
        names(final(v)@) == (if names(old(v)@).contains(s@) {
            names(old(v)@)
        } else {
            names(old(v)@).push(s@)
        }),
{
    match position(v, s) {
        Some(i) => {
            assert(names(v@)[i as int] == s@);
        },
        None => {
            let ghost before = names(v@);
            v.push(s.clone());
            assert(names(v@) =~= before.push(s@));
            assert(names(v@).no_duplicates()) by {
                assert forall|a: int, b: int|
                    0 <= a < names(v@).len() && 0 <= b < names(v@).len() && a != b implies names(v@)[a]
                    != names(v@)[b] by {
                    if a < before.len() && b < before.len() {
                    } else if a < before.len() {
                        assert(before[a] != s@) by {
                            if before[a] == s@ { assert(before.contains(s@)); }
                        }
                    } else {
                        assert(before[b] != s@) by {
                            if before[b] == s@ { assert(before.contains(s@)); }
                        }
                    }
                }
            }
        },
    }
}

/// Takes `s` out of a list of distinct names, if it is there.
pub fn remove_name(v: &mut Vec<String>, s: &String)
    requires
        names(old(v)@).no_duplicates(),
    ensures
        names(final(v)@).no_duplicates(),
        !names(final(v)@).contains(s@),
        names(old(v)@).contains(s@) ==> exists|i: int|
            0 <= i < names(old(v)@).len() && names(old(v)@)[i] == s@ && names(final(v)@) == names(
                old(v)@,
            ).remove(i),
        !names(old(v)@).contains(s@) ==> names(final(v)@) == names(old(v)@),
{
    match position(v, s) {
        Some(i) => {
            let ghost before = names(v@);
            assert(before[i as int] == s@);
            v.remove(i);
            assert(names(v@) =~= before.remove(i as int));
            assert(names(v@).no_duplicates()) by {
                assert forall|a: int, b: int|
                    0 <= a < names(v@).len() && 0 <= b < names(v@).len() && a != b implies names(v@)[a]
                    != names(v@)[b] by {
                    let a2 = if a < i { a } else { a + 1 };
                    let b2 = if b < i { b } else { b + 1 };
                    assert(names(v@)[a] == before[a2] && names(v@)[b] == before[b2]);
                }
            }
            assert(!names(v@).contains(s@)) by {
                if names(v@).contains(s@) {
                    let a = choose|a: int| 0 <= a < names(v@).len() && names(v@)[a] == s@;
                    let a2 = if a < i { a } else { a + 1 };
                    assert(names(v@)[a] == before[a2]);
                }
            }
        },
        None => {},
    }
}

} // verus!
