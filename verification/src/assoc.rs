//! Association lists: sequences of key/value pairs read as maps.
use vstd::prelude::*;

verus! {

/// Whether some pair of `s` has key `k`.
pub open spec fn assoc_has<K, V>(s: Seq<(K, V)>, k: K) -> bool {
    exists|i: int| 0 <= i < s.len() && (#[trigger] s[i]).0 == k
}

/// The position of a pair of `s` with key `k` (meaningful when there is one).
pub open spec fn assoc_find<K, V>(s: Seq<(K, V)>, k: K) -> int {
    choose|i: int| 0 <= i < s.len() && (#[trigger] s[i]).0 == k
}

/// No key occurs twice in `s`.
pub open spec fn assoc_unique<K, V>(s: Seq<(K, V)>) -> bool {
    forall|i: int, j: int| 0 <= i < s.len() && 0 <= j < s.len() && i != j ==> (#[trigger] s[i]).0 != (#[trigger] s[j]).0
}

/// The map that `s` describes.
pub open spec fn assoc_map<K, V>(s: Seq<(K, V)>) -> Map<K, V> {
    Map::new(|k: K| assoc_has(s, k), |k: K| s[assoc_find(s, k)].1)
}

/// In a list without repeated keys, the map holds each pair of the list.
pub proof fn lemma_assoc_at<K, V>(s: Seq<(K, V)>, i: int)
    requires
        assoc_unique(s),
        0 <= i < s.len(),
    ensures
        assoc_map(s).contains_key(s[i].0),
        assoc_map(s)[s[i].0] == s[i].1,
{
    assert(assoc_has(s, s[i].0));
    let j = assoc_find(s, s[i].0);
    assert(s[j].0 == s[i].0);
}

/// Replacing the pair at `i` by one with the same key updates that key in the map.
pub proof fn lemma_assoc_update<K, V>(s: Seq<(K, V)>, i: int, p: (K, V))
    requires
        assoc_unique(s),
        0 <= i < s.len(),
        p.0 == s[i].0,
    ensures
        assoc_unique(s.update(i, p)),
        assoc_map(s.update(i, p)) == assoc_map(s).insert(p.0, p.1),
{
    let t = s.update(i, p);
    assert forall|a: int, b: int| 0 <= a < t.len() && 0 <= b < t.len() && a != b implies (#[trigger] t[a]).0 != (#[trigger] t[b]).0 by {
        assert(s[a].0 != s[b].0);
    }
    let m = assoc_map(s).insert(p.0, p.1);
    assert forall|k: K| #[trigger] assoc_map(t).contains_key(k) <==> m.contains_key(k) by {
        if assoc_has(t, k) {
            let j = choose|j: int| 0 <= j < t.len() && (#[trigger] t[j]).0 == k;
            if j != i {
                assert(s[j].0 == k);
                assert(assoc_has(s, k));
            }
        }
        if m.contains_key(k) {
            if k == p.0 {
                assert(t[i].0 == k);
            } else {
                let j = choose|j: int| 0 <= j < s.len() && (#[trigger] s[j]).0 == k;
                assert(t[j].0 == k);
            }
        }
    }
    assert forall|k: K| #[trigger] assoc_map(t).contains_key(k) implies assoc_map(t)[k] == m[k] by {
        let j = assoc_find(t, k);
        assert(t[j].0 == k);
        if k == p.0 {
            assert(j == i);
        } else {
            assert(j != i);
            lemma_assoc_at(s, j);
        }
    }
    assert(assoc_map(t) =~= m);
}

/// Appending a pair with a new key adds that key to the map.
pub proof fn lemma_assoc_push<K, V>(s: Seq<(K, V)>, p: (K, V))
    requires
        assoc_unique(s),
        !assoc_has(s, p.0),
    ensures
        assoc_unique(s.push(p)),
        assoc_map(s.push(p)) == assoc_map(s).insert(p.0, p.1),
{
    let t = s.push(p);
    let n = s.len() as int;
    assert forall|a: int, b: int| 0 <= a < t.len() && 0 <= b < t.len() && a != b implies (#[trigger] t[a]).0 != (#[trigger] t[b]).0 by {
        if a < n && b < n {
            assert(s[a].0 != s[b].0);
        } else if a < n {
            assert(s[a].0 != p.0);
        } else {
            assert(s[b].0 != p.0);
        }
    }
    let m = assoc_map(s).insert(p.0, p.1);
    assert forall|k: K| #[trigger] assoc_map(t).contains_key(k) <==> m.contains_key(k) by {
        if assoc_has(t, k) {
            let j = choose|j: int| 0 <= j < t.len() && (#[trigger] t[j]).0 == k;
            if j < n {
                assert(s[j].0 == k);
                assert(assoc_has(s, k));
            }
        }
        if m.contains_key(k) {
            if k == p.0 {
                assert(t[n].0 == k);
            } else {
                let j = choose|j: int| 0 <= j < s.len() && (#[trigger] s[j]).0 == k;
                assert(t[j].0 == k);
            }
        }
    }
    assert forall|k: K| #[trigger] assoc_map(t).contains_key(k) implies assoc_map(t)[k] == m[k] by {
        let j = assoc_find(t, k);
        assert(t[j].0 == k);
        if k == p.0 {
            assert(j == n);
        } else {
            assert(j < n);
            assert(s[j] == t[j]);
            lemma_assoc_at(s, j);
        }
    }
    assert(assoc_map(t) =~= m);
}

} // verus!
