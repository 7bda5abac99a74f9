//! Keyed tables: vectors of `(account, value)` pairs whose keys are unique,
//! viewed as finite maps from account names to values.
use vstd::prelude::*;

verus! {

/// Some entry of `s` has key `k`.
pub open spec fn has_key<V>(s: Seq<(String, V)>, k: Seq<char>) -> bool {
    exists|i: int| 0 <= i < s.len() && (#[trigger] s[i]).0@ == k
}

/// No two entries of `s` share a key.
pub open spec fn keys_unique<V>(s: Seq<(String, V)>) -> bool {
    forall|i: int, j: int|
        0 <= i < s.len() && 0 <= j < s.len() && i != j ==> (#[trigger] s[i]).0@ != (#[trigger] s[j]).0@
}

/// The map that a table stands for.
pub open spec fn table_view<V>(s: Seq<(String, V)>) -> Map<Seq<char>, V> {
    Map::new(
        |k: Seq<char>| has_key(s, k),
        |k: Seq<char>| s[choose|i: int| 0 <= i < s.len() && (#[trigger] s[i]).0@ == k].1,
    )
}

pub proof fn lemma_view_at<V>(s: Seq<(String, V)>, i: int)
    requires
        keys_unique(s),
        0 <= i < s.len(),
    ensures
        table_view(s).contains_key(s[i].0@),
        table_view(s)[s[i].0@] == s[i].1,
{
    let k = s[i].0@;
    assert(has_key(s, k));
    let j = choose|j: int| 0 <= j < s.len() && (#[trigger] s[j]).0@ == k;
    assert(j == i);
}

pub proof fn lemma_push<V>(s: Seq<(String, V)>, k: String, v: V)
    requires
        keys_unique(s),
        !has_key(s, k@),
    ensures
        keys_unique(s.push((k, v))),
        table_view(s.push((k, v))) =~= table_view(s).insert(k@, v),
{
    let t = s.push((k, v));
    assert(keys_unique(t)) by {
        assert forall|i: int, j: int|
            0 <= i < t.len() && 0 <= j < t.len() && i != j implies (#[trigger] t[i]).0@ != (#[trigger] t[j]).0@ by {
            if i < s.len() && j < s.len() {
                assert(t[i] == s[i] && t[j] == s[j]);
            } else if i < s.len() {
                assert(t[i] == s[i]);
            } else {
                assert(t[j] == s[j]);
            }
        }
    }
    assert forall|q: Seq<char>| #[trigger] table_view(t).contains_key(q) == table_view(s).insert(k@, v).contains_key(q) by {
        if has_key(s, q) {
            let i = choose|i: int| 0 <= i < s.len() && (#[trigger] s[i]).0@ == q;
            assert(t[i] == s[i]);
        }
        if has_key(t, q) && q != k@ {
            let i = choose|i: int| 0 <= i < t.len() && (#[trigger] t[i]).0@ == q;
            assert(i < s.len());
            assert(t[i] == s[i]);
        }
        if q == k@ {
            assert(t[s.len() as int].0@ == q);
        }
    }
    assert forall|q: Seq<char>| #[trigger] table_view(t).contains_key(q) implies table_view(t)[q] == table_view(
        s,
    ).insert(k@, v)[q] by {
        let i = choose|i: int| 0 <= i < t.len() && (#[trigger] t[i]).0@ == q;
        lemma_view_at(t, i);
        if q != k@ {
            assert(i < s.len());
            assert(t[i] == s[i]);
            lemma_view_at(s, i);
        }
    }
}

pub proof fn lemma_update<V>(s: Seq<(String, V)>, i: int, k: String, v: V)
    requires
        keys_unique(s),
        0 <= i < s.len(),
        s[i].0@ == k@,
    ensures
        keys_unique(s.update(i, (k, v))),
        table_view(s.update(i, (k, v))) =~= table_view(s).insert(k@, v),
{
    let t = s.update(i, (k, v));
    assert(keys_unique(t)) by {
        assert forall|a: int, b: int|
            0 <= a < t.len() && 0 <= b < t.len() && a != b implies (#[trigger] t[a]).0@ != (#[trigger] t[b]).0@ by {
            assert(t[a].0@ == s[a].0@ && t[b].0@ == s[b].0@);
        }
    }
    assert forall|q: Seq<char>| #[trigger] table_view(t).contains_key(q) == table_view(s).insert(k@, v).contains_key(q) by {
        if has_key(s, q) {
            let j = choose|j: int| 0 <= j < s.len() && (#[trigger] s[j]).0@ == q;
            assert(t[j].0@ == q);
        }
        if has_key(t, q) {
            let j = choose|j: int| 0 <= j < t.len() && (#[trigger] t[j]).0@ == q;
            assert(s[j].0@ == q);
        }
        if q == k@ {
            assert(t[i].0@ == q);
        }
    }
    assert forall|q: Seq<char>| #[trigger] table_view(t).contains_key(q) implies table_view(t)[q] == table_view(
        s,
    ).insert(k@, v)[q] by {
        let j = choose|j: int| 0 <= j < t.len() && (#[trigger] t[j]).0@ == q;
        lemma_view_at(t, j);
        if j != i {
            assert(t[j] == s[j]);
            lemma_view_at(s, j);
        }
    }
}

pub proof fn lemma_remove<V>(s: Seq<(String, V)>, i: int)
    requires
        keys_unique(s),
        0 <= i < s.len(),
    ensures
        keys_unique(s.remove(i)),
        table_view(s.remove(i)) =~= table_view(s).remove(s[i].0@),
{
    let t = s.remove(i);
    let k = s[i].0@;
    assert forall|a: int| 0 <= a < t.len() implies #[trigger] t[a] == (if a < i { s[a] } else { s[a + 1] }) by {}
    assert(keys_unique(t)) by {
        assert forall|a: int, b: int|
            0 <= a < t.len() && 0 <= b < t.len() && a != b implies (#[trigger] t[a]).0@ != (#[trigger] t[b]).0@ by {
            let a2 = if a < i { a } else { a + 1 };
            let b2 = if b < i { b } else { b + 1 };
            assert(t[a] == s[a2] && t[b] == s[b2]);
        }
    }
    assert forall|q: Seq<char>| #[trigger] table_view(t).contains_key(q) == table_view(s).remove(k).contains_key(q) by {
        if has_key(s, q) && q != k {
            let j = choose|j: int| 0 <= j < s.len() && (#[trigger] s[j]).0@ == q;
            assert(j != i);
            let a = if j < i { j } else { j - 1 };
            assert(t[a] == s[j]);
        }
        if has_key(t, q) {
            let a = choose|a: int| 0 <= a < t.len() && (#[trigger] t[a]).0@ == q;
            let a2 = if a < i { a } else { a + 1 };
            assert(t[a] == s[a2]);
        }
    }
    assert forall|q: Seq<char>| #[trigger] table_view(t).contains_key(q) implies table_view(t)[q] == table_view(
        s,
    ).remove(k)[q] by {
        let a = choose|a: int| 0 <= a < t.len() && (#[trigger] t[a]).0@ == q;
        let a2 = if a < i { a } else { a + 1 };
        assert(t[a] == s[a2]);
        lemma_view_at(t, a);
        lemma_view_at(s, a2);
    }
}

/// Position of the entry with key `k`, if any.
pub fn find<V>(t: &Vec<(String, V)>, k: &String) -> (r: Option<usize>)
    ensures
        match r {
            Some(i) => i < t@.len() && t@[i as int].0@ == k@,
            None => !has_key(t@, k@),
        },
{
    let mut i: usize = 0;
    while i < t.len()
        invariant
            i <= t@.len(),
            forall|j: int| 0 <= j < i ==> (#[trigger] t@[j]).0@ != k@,
        decreases t@.len() - i,
    {
        if t[i].0 == *k {
            return Some(i);
        }
        i = i + 1;
    }
    None
}

/// Sets the value under `k`, adding the key if it is new.
pub fn put_value<V>(t: &mut Vec<(String, V)>, k: String, v: V)
    requires
        keys_unique(old(t)@),
    ensures
        keys_unique(final(t)@),
        table_view(final(t)@) == table_view(old(t)@).insert(k@, v),
{
    match find(t, &k) {
        Some(i) => {
            proof {
                lemma_update(t@, i as int, k, v);
            }
            t.set(i, (k, v));
        },
        None => {
            proof {
                lemma_push(t@, k, v);
            }
            t.push((k, v));
        },
    }
}

/// Removes the entry under `k` and hands back its value.
pub fn take_value<V>(t: &mut Vec<(String, V)>, k: &String) -> (r: Option<V>)
    requires
        keys_unique(old(t)@),
    ensures
        keys_unique(final(t)@),
        table_view(final(t)@) == table_view(old(t)@).remove(k@),
        r == (if table_view(old(t)@).contains_key(k@) {
            Some(table_view(old(t)@)[k@])
        } else {
            None
        }),
{
    match find(t, k) {
        Some(i) => {
            proof {
                lemma_view_at(t@, i as int);
                lemma_remove(t@, i as int);
            }
            let (_, v) = t.remove(i);
            Some(v)
        },
        None => {
            assert(table_view(t@) =~= table_view(t@).remove(k@));
            None
        },
    }
}

} // verus!
