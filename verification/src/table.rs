//! A small association table: a vector of key-value pairs with distinct keys,
//! read through the map it denotes.
//!
//! The bounded cache keeps its payloads here, because its recency index only
//! decides *which* keys stay; the fake remote store reuses the same shape.

use vstd::prelude::*;

verus! {

/// The map denoted by a sequence of key-value pairs; later pairs win.
pub open spec fn map_of<K, V>(s: Seq<(K, V)>) -> Map<K, V>
    decreases s.len(),
{
    if s.len() == 0 {
        Map::empty()
    } else {
        map_of(s.drop_last()).insert(s.last().0, s.last().1)
    }
}

/// Whether some pair in the sequence carries this key.
pub open spec fn has_key<K, V>(s: Seq<(K, V)>, k: K) -> bool {
    exists|i: int| 0 <= i < s.len() && (#[trigger] s[i]).0 == k
}

/// No two pairs share a key.
pub open spec fn distinct_keys<K, V>(s: Seq<(K, V)>) -> bool {
    forall|i: int, j: int| 0 <= i < j < s.len() ==> (#[trigger] s[i]).0 != (#[trigger] s[j]).0
}

/// The denoted map holds exactly the keys of the sequence, and, when keys are
/// distinct, exactly the value paired with each key.
pub proof fn lemma_map_of_characterization<K, V>(s: Seq<(K, V)>)
    ensures
        map_of(s).dom().finite(),
        forall|k: K| #[trigger] map_of(s).dom().contains(k) <==> has_key(s, k),
        distinct_keys(s) ==> forall|i: int|
            0 <= i < s.len() ==> map_of(s)[(#[trigger] s[i]).0] == s[i].1,
    decreases s.len(),
{
    if s.len() == 0 {
    } else {
        let prev = s.drop_last();
        lemma_map_of_characterization(prev);
        assert forall|k: K| #[trigger] map_of(s).dom().contains(k) implies has_key(s, k) by {
            if k == s.last().0 {
                assert(0 <= s.len() - 1 < s.len() && s[s.len() - 1].0 == k);
            } else {
                let i = choose|i: int| 0 <= i < prev.len() && (#[trigger] prev[i]).0 == k;
                assert(s[i].0 == k);
            }
        }
        assert forall|k: K| has_key(s, k) implies #[trigger] map_of(s).dom().contains(k) by {
            let i = choose|i: int| 0 <= i < s.len() && (#[trigger] s[i]).0 == k;
            if i < s.len() - 1 {
                assert(prev[i].0 == k);
            }
        }
        if distinct_keys(s) {
            assert(distinct_keys(prev));
            assert forall|i: int| 0 <= i < s.len() implies map_of(s)[(#[trigger] s[i]).0]
                == s[i].1 by {
                if i < s.len() - 1 {
                    assert(prev[i] == s[i]);
                    assert(s[i].0 != s.last().0);
                }
            }
        }
    }
}

/// Appending a pair with a fresh key inserts it into the denoted map.
pub proof fn lemma_map_of_push<K, V>(s: Seq<(K, V)>, k: K, v: V)
    requires
        !has_key(s, k),
    ensures
        map_of(s.push((k, v))) == map_of(s).insert(k, v),
        distinct_keys(s) ==> distinct_keys(s.push((k, v))),
        forall|k2: K| has_key(s.push((k, v)), k2) <==> has_key(s, k2) || k2 == k,
{
    let s2 = s.push((k, v));
    assert(s2.drop_last() =~= s);
    assert(s2.last() == (k, v));
    assert(map_of(s2) == map_of(s).insert(k, v));
    if distinct_keys(s) {
        assert forall|i: int, j: int| 0 <= i < j < s2.len() implies (#[trigger] s2[i]).0
            != (#[trigger] s2[j]).0 by {
            if j == s2.len() - 1 {
                assert(s2[i] == s[i]);
                assert(s[i].0 != k) by {
                    if s[i].0 == k {
                        assert(has_key(s, k));
                    }
                }
            }
        }
    }
    assert forall|k2: K| has_key(s2, k2) implies has_key(s, k2) || k2 == k by {
        let i = choose|i: int| 0 <= i < s2.len() && (#[trigger] s2[i]).0 == k2;
        if i < s.len() {
            assert(s[i].0 == k2);
        }
    }
    assert forall|k2: K| has_key(s, k2) || k2 == k implies has_key(s2, k2) by {
        if k2 == k {
            assert(s2[s2.len() - 1].0 == k2);
        } else {
            let i = choose|i: int| 0 <= i < s.len() && (#[trigger] s[i]).0 == k2;
            assert(s2[i].0 == k2);
        }
    }
}

/// Swap-removing the pair at `i` removes exactly its key from the denoted map.
pub proof fn lemma_map_of_swap_remove<K, V>(s: Seq<(K, V)>, i: int)
    requires
        distinct_keys(s),
        0 <= i < s.len(),
    ensures
        distinct_keys(s.update(i, s.last()).drop_last()),
        map_of(s.update(i, s.last()).drop_last()) == map_of(s).remove(s[i].0),
        forall|k2: K|
            has_key(s.update(i, s.last()).drop_last(), k2) <==> has_key(s, k2) && k2 != s[i].0,
{
    let k = s[i].0;
    let s2 = s.update(i, s.last()).drop_last();
    assert(s2.len() == s.len() - 1);
    assert forall|j: int| 0 <= j < s2.len() implies #[trigger] s2[j] == (if j == i {
        s[s.len() - 1]
    } else {
        s[j]
    }) by {}
    assert forall|j1: int, j2: int| 0 <= j1 < j2 < s2.len() implies (#[trigger] s2[j1]).0
        != (#[trigger] s2[j2]).0 by {}
    assert forall|k2: K| has_key(s2, k2) implies has_key(s, k2) && k2 != k by {
        let j = choose|j: int| 0 <= j < s2.len() && (#[trigger] s2[j]).0 == k2;
        if j == i {
            assert(s[s.len() - 1].0 == k2);
        } else {
            assert(s[j].0 == k2);
        }
    }
    assert forall|k2: K| has_key(s, k2) && k2 != k implies has_key(s2, k2) by {
        let j = choose|j: int| 0 <= j < s.len() && (#[trigger] s[j]).0 == k2;
        if j == s.len() - 1 {
            if i < s.len() - 1 {
                assert(s2[i].0 == k2);
            }
        } else {
            assert(s2[j].0 == k2);
        }
    }
    lemma_map_of_characterization(s);
    lemma_map_of_characterization(s2);
    assert forall|k2: K| map_of(s2).dom().contains(k2) implies map_of(s2)[k2] == map_of(s).remove(
        k,
    )[k2] by {
        let j = choose|j: int| 0 <= j < s2.len() && (#[trigger] s2[j]).0 == k2;
        if j == i {
            assert(s[s.len() - 1].0 == k2 && s[s.len() - 1].1 == s2[j].1);
        } else {
            assert(s[j].0 == k2 && s[j].1 == s2[j].1);
        }
        assert(map_of(s2)[k2] == s2[j].1);
    }
    assert(map_of(s2) =~= map_of(s).remove(k));
}

} // verus!
