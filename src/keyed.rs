//! Tables keyed by strings, held as vectors of pairs with distinct keys and
//! viewed as maps.
use vstd::prelude::*;
use crate::text::str_eq;

verus! {

pub open spec fn has_key<X>(s: Seq<(String, X)>, k: Seq<char>) -> bool {
    exists|i: int| 0 <= i < s.len() && (#[trigger] s[i]).0@ == k
}

/// No two entries share a key.
pub open spec fn keys_unique<X>(s: Seq<(String, X)>) -> bool {
    forall|i: int, j: int|
        0 <= i < s.len() && 0 <= j < s.len() && i != j ==> (#[trigger] s[i]).0@ != (#[trigger] s[j]).0@
}

pub open spec fn key_index<X>(s: Seq<(String, X)>, k: Seq<char>) -> int {
    choose|i: int| 0 <= i < s.len() && (#[trigger] s[i]).0@ == k
}

/// The table as a map from key text to value.
pub open spec fn keyed_map<X>(s: Seq<(String, X)>) -> Map<Seq<char>, X> {
    Map::new(|k: Seq<char>| has_key(s, k), |k: Seq<char>| s[key_index(s, k)].1)
}

pub proof fn lemma_key_index<X>(s: Seq<(String, X)>, i: int)
    requires
        keys_unique(s),
        0 <= i < s.len(),
    ensures
        has_key(s, s[i].0@),
        key_index(s, s[i].0@) == i,
        keyed_map(s).contains_key(s[i].0@),
        keyed_map(s)[s[i].0@] == s[i].1,
{
    assert(has_key(s, s[i].0@));
    let c = key_index(s, s[i].0@);
    assert(0 <= c < s.len() && s[c].0@ == s[i].0@);
}

pub proof fn lemma_keyed_push<X>(s: Seq<(String, X)>, k: String, x: X)
    requires
        keys_unique(s),
        !has_key(s, k@),
    ensures
        keys_unique(s.push((k, x))),
        keyed_map(s.push((k, x))) == keyed_map(s).insert(k@, x),
{
    let t = s.push((k, x));
    assert forall|i: int, j: int|
        0 <= i < t.len() && 0 <= j < t.len() && i != j implies (#[trigger] t[i]).0@ != (#[trigger] t[j]).0@ by {
        if i < s.len() && j < s.len() {
            assert(t[i] == s[i] && t[j] == s[j]);
        } else if i < s.len() {
            assert(t[i] == s[i]);
        } else {
            assert(t[j] == s[j]);
        }
    }
    assert forall|q: Seq<char>| #[trigger] has_key(t, q) <==> (has_key(s, q) || q == k@) by {
        if has_key(s, q) {
            let i = choose|i: int| 0 <= i < s.len() && (#[trigger] s[i]).0@ == q;
            assert(t[i] == s[i]);
        }
        if q == k@ {
            assert(t[s.len() as int].0@ == q);
        }
        if has_key(t, q) && q != k@ {
            let i = choose|i: int| 0 <= i < t.len() && (#[trigger] t[i]).0@ == q;
            assert(i < s.len());
            assert(t[i] == s[i]);
        }
    }
    assert forall|q: Seq<char>| #[trigger] keyed_map(t).contains_key(q) implies keyed_map(t)[q]
        == keyed_map(s).insert(k@, x)[q] by {
        if q == k@ {
            lemma_key_index(t, s.len() as int);
        } else {
            let i = key_index(s, q);
            lemma_key_index(s, i);
            assert(t[i] == s[i]);
            lemma_key_index(t, i);
        }
    }
    assert(keyed_map(t) =~= keyed_map(s).insert(k@, x));
}

pub proof fn lemma_keyed_update<X>(s: Seq<(String, X)>, i: int, x: X)
    requires
        keys_unique(s),
        0 <= i < s.len(),
    ensures
        keys_unique(s.update(i, (s[i].0, x))),
        keyed_map(s.update(i, (s[i].0, x))) == keyed_map(s).insert(s[i].0@, x),
{
    let t = s.update(i, (s[i].0, x));
    assert forall|a: int, b: int|
        0 <= a < t.len() && 0 <= b < t.len() && a != b implies (#[trigger] t[a]).0@ != (#[trigger] t[b]).0@ by {
        assert(t[a].0 == s[a].0 && t[b].0 == s[b].0);
    }
    assert forall|q: Seq<char>| #[trigger] has_key(t, q) <==> has_key(s, q) by {
        if has_key(s, q) {
            let j = choose|j: int| 0 <= j < s.len() && (#[trigger] s[j]).0@ == q;
            assert(t[j].0 == s[j].0);
        }
        if has_key(t, q) {
            let j = choose|j: int| 0 <= j < t.len() && (#[trigger] t[j]).0@ == q;
            assert(t[j].0 == s[j].0);
        }
    }
    assert forall|q: Seq<char>| #[trigger] keyed_map(t).contains_key(q) implies keyed_map(t)[q]
        == keyed_map(s).insert(s[i].0@, x)[q] by {
        let j = key_index(s, q);
        lemma_key_index(s, j);
        assert(t[j].0 == s[j].0);
        lemma_key_index(t, j);
    }
    assert(keyed_map(t) =~= keyed_map(s).insert(s[i].0@, x));
}

pub proof fn lemma_keyed_remove<X>(s: Seq<(String, X)>, i: int)
    requires
        keys_unique(s),
        0 <= i < s.len(),
    ensures
        keys_unique(s.remove(i)),
        keyed_map(s.remove(i)) == keyed_map(s).remove(s[i].0@),
{
    let t = s.remove(i);
    s.remove_ensures(i);
    assert forall|a: int, b: int|
        0 <= a < t.len() && 0 <= b < t.len() && a != b implies (#[trigger] t[a]).0@ != (#[trigger] t[b]).0@ by {
        let a2 = if a < i { a } else { a + 1 };
        let b2 = if b < i { b } else { b + 1 };
        assert(t[a] == s[a2] && t[b] == s[b2]);
    }
    assert forall|q: Seq<char>| #[trigger] has_key(t, q) <==> (has_key(s, q) && q != s[i].0@) by {
        if has_key(s, q) && q != s[i].0@ {
            let j = choose|j: int| 0 <= j < s.len() && (#[trigger] s[j]).0@ == q;
            if j < i {
                assert(t[j] == s[j]);
            } else {
                assert(j != i);
                assert(t[j - 1] == s[j]);
            }
        }
        if has_key(t, q) {
            let j = choose|j: int| 0 <= j < t.len() && (#[trigger] t[j]).0@ == q;
            let j2 = if j < i { j } else { j + 1 };
            assert(t[j] == s[j2]);
        }
    }
    assert forall|q: Seq<char>| #[trigger] keyed_map(t).contains_key(q) implies keyed_map(t)[q]
        == keyed_map(s).remove(s[i].0@)[q] by {
        let j = key_index(s, q);
        lemma_key_index(s, j);
        let j1 = if j < i { j } else { j - 1 };
        assert(j != i);
        assert(t[j1] == s[j]);
        lemma_key_index(t, j1);
    }
    assert(keyed_map(t) =~= keyed_map(s).remove(s[i].0@));
}

/// A table with distinct keys has as many map entries as vector entries.
pub proof fn lemma_keyed_len<X>(s: Seq<(String, X)>)
    requires
        keys_unique(s),
    ensures
        keyed_map(s).dom().finite(),
        keyed_map(s).dom().len() == s.len(),
{
    let ks = s.map_values(|p: (String, X)| p.0@);
    assert forall|q: Seq<char>| #[trigger] keyed_map(s).dom().contains(q) <==> ks.to_set().contains(q) by {
        if has_key(s, q) {
            let j = choose|j: int| 0 <= j < s.len() && (#[trigger] s[j]).0@ == q;
            assert(ks[j] == q);
        }
        if ks.to_set().contains(q) {
            let j = choose|j: int| 0 <= j < ks.len() && ks[j] == q;
            assert(s[j].0@ == q);
        }
    }
    assert(keyed_map(s).dom() =~= ks.to_set());
    assert(ks.no_duplicates()) by {
        assert forall|a: int, b: int| 0 <= a < ks.len() && 0 <= b < ks.len() && a != b implies ks[a] != ks[b] by {
            assert(s[a].0@ != s[b].0@);
        }
    }
    ks.unique_seq_to_set();
}

/// The position of the entry with key `k`, if any.
pub fn find_key<X>(v: &Vec<(String, X)>, k: &str) -> (r: Option<usize>)
    ensures
        match r {
            Some(i) => i < v@.len() && v@[i as int].0@ == k@,
            None => !has_key(v@, k@),
        },
{
    let mut i: usize = 0;
    while i < v.len()
        invariant
            i <= v@.len(),
            forall|j: int| 0 <= j < i ==> (#[trigger] v@[j]).0@ != k@,
        decreases v@.len() - i,
    {
        if str_eq(v[i].0.as_str(), k) {
            return Some(i);
        }
        i = i + 1;
    }
    None
}

} // verus!
