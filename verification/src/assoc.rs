//! Association sequences with textual keys, and their map abstraction.
//!
//! The cache store and the attempt tracker both keep their data as a vector
//! of `(String, value)` pairs whose keys are pairwise distinct. This module
//! gives that representation its mathematical reading: a sequence of
//! `(Seq<char>, V)` pairs abstracts to a `Map<Seq<char>, V>`, and updating or
//! extending the sequence abstracts to `Map::insert`.

use vstd::prelude::*;
use vstd::map::*;

verus! {

/// No two pairs carry the same key.
pub open spec fn keys_distinct<V>(s: Seq<(Seq<char>, V)>) -> bool {
    forall|i: int, j: int| 0 <= i < j < s.len() ==> s[i].0 != s[j].0
}

/// Some pair carries the key `k`.
pub open spec fn assoc_has<V>(s: Seq<(Seq<char>, V)>, k: Seq<char>) -> bool {
    exists|i: int| 0 <= i < s.len() && s[i].0 == k
}

/// The value paired with the key `k` (meaningful when `assoc_has(s, k)` and
/// the keys are distinct).
pub open spec fn assoc_at<V>(s: Seq<(Seq<char>, V)>, k: Seq<char>) -> V {
    s[choose|i: int| 0 <= i < s.len() && s[i].0 == k].1
}

/// The map that an association sequence stands for.
pub open spec fn map_of<V>(s: Seq<(Seq<char>, V)>) -> Map<Seq<char>, V> {
    Map::new(|k: Seq<char>| assoc_has(s, k), |k: Seq<char>| assoc_at(s, k))
}

/// The map built by inserting the pairs in order (later pairs win).
pub open spec fn folded_map<V>(s: Seq<(Seq<char>, V)>) -> Map<Seq<char>, V>
    decreases s.len(),
{
    if s.len() == 0 {
        Map::empty()
    } else {
        folded_map(s.drop_last()).insert(s.last().0, s.last().1)
    }
}

/// With distinct keys, a pair's position determines the associated value.
pub proof fn lemma_assoc_at_found<V>(s: Seq<(Seq<char>, V)>, k: Seq<char>, i: int)
    requires
        keys_distinct(s),
        0 <= i < s.len(),
        s[i].0 == k,
    ensures
        assoc_has(s, k),
        assoc_at(s, k) == s[i].1,
{
    assert(assoc_has(s, k));
    let j = choose|j: int| 0 <= j < s.len() && s[j].0 == k;
    assert(s[j].0 == k);
    if i < j {
        assert(s[i].0 != s[j].0);
        assert(false);
    } else if j < i {
        assert(s[j].0 != s[i].0);
        assert(false);
    }
}

/// Replacing the pair that already carries `k` abstracts to `Map::insert`.
pub proof fn lemma_assoc_update<V>(s: Seq<(Seq<char>, V)>, i: int, k: Seq<char>, v: V)
    requires
        keys_distinct(s),
        0 <= i < s.len(),
        s[i].0 == k,
    ensures
        keys_distinct(s.update(i, (k, v))),
        map_of(s.update(i, (k, v))) == map_of(s).insert(k, v),
{
    let s2 = s.update(i, (k, v));
    assert(forall|x: int| 0 <= x < s2.len() ==> #[trigger] s2[x].0 == s[x].0);
    assert(keys_distinct(s2)) by {
        assert forall|x: int, y: int| 0 <= x < y < s2.len() implies s2[x].0 != s2[y].0 by {
            assert(s[x].0 != s[y].0);
        }
    }
    assert_maps_equal!(map_of(s2), map_of(s).insert(k, v), key => {
        if key == k {
            lemma_assoc_at_found(s2, k, i);
        } else {
            if assoc_has(s, key) {
                let w = choose|w: int| 0 <= w < s.len() && s[w].0 == key;
                assert(s2[w].0 == key);
                lemma_assoc_at_found(s, key, w);
                lemma_assoc_at_found(s2, key, w);
            } else if assoc_has(s2, key) {
                let w = choose|w: int| 0 <= w < s2.len() && s2[w].0 == key;
                assert(s[w].0 == key);
                assert(false);
            }
        }
    });
}

/// Appending a pair whose key is absent abstracts to `Map::insert`.
pub proof fn lemma_assoc_push<V>(s: Seq<(Seq<char>, V)>, k: Seq<char>, v: V)
    requires
        keys_distinct(s),
        !assoc_has(s, k),
    ensures
        keys_distinct(s.push((k, v))),
        map_of(s.push((k, v))) == map_of(s).insert(k, v),
{
    let s2 = s.push((k, v));
    assert(keys_distinct(s2)) by {
        assert forall|x: int, y: int| 0 <= x < y < s2.len() implies s2[x].0 != s2[y].0 by {
            if y < s.len() {
                assert(s[x].0 != s[y].0);
            } else {
                assert(s2[y].0 == k);
                assert(s2[x].0 == s[x].0);
            }
        }
    }
    assert_maps_equal!(map_of(s2), map_of(s).insert(k, v), key => {
        if key == k {
            assert(s2[s.len() as int].0 == k);
            lemma_assoc_at_found(s2, k, s.len() as int);
        } else {
            if assoc_has(s, key) {
                let w = choose|w: int| 0 <= w < s.len() && s[w].0 == key;
                assert(s2[w].0 == key);
                lemma_assoc_at_found(s, key, w);
                lemma_assoc_at_found(s2, key, w);
            } else if assoc_has(s2, key) {
                let w = choose|w: int| 0 <= w < s2.len() && s2[w].0 == key;
                assert(w < s.len() ==> s[w].0 == key);
                assert(w == s.len() ==> s2[w].0 == k);
                assert(false);
            }
        }
    });
}

/// With distinct keys, inserting the pairs in order rebuilds the same map.
pub proof fn lemma_folded_map_of<V>(s: Seq<(Seq<char>, V)>)
    requires
        keys_distinct(s),
    ensures
        folded_map(s) == map_of(s),
    decreases s.len(),
{
    if s.len() == 0 {
        assert_maps_equal!(folded_map(s), map_of(s), key => {
            if assoc_has(s, key) {
                let w = choose|w: int| 0 <= w < s.len() && s[w].0 == key;
                assert(false);
            }
        });
    } else {
        let s0 = s.drop_last();
        let last = s.last();
        assert(keys_distinct(s0)) by {
            assert forall|x: int, y: int| 0 <= x < y < s0.len() implies s0[x].0 != s0[y].0 by {
                assert(s[x].0 != s[y].0);
            }
        }
        assert(!assoc_has(s0, last.0)) by {
            if assoc_has(s0, last.0) {
                let w = choose|w: int| 0 <= w < s0.len() && s0[w].0 == last.0;
                assert(s[w].0 == s[s.len() - 1].0);
                assert(false);
            }
        }
        lemma_folded_map_of(s0);
        lemma_assoc_push(s0, last.0, last.1);
        assert(s0.push(last) =~= s);
    }
}

/// With distinct keys, the abstract map has exactly one entry per pair.
pub proof fn lemma_map_of_len<V>(s: Seq<(Seq<char>, V)>)
    requires
        keys_distinct(s),
    ensures
        map_of(s).dom().finite(),
        map_of(s).dom().len() == s.len(),
    decreases s.len(),
{
    if s.len() == 0 {
        assert(map_of(s).dom() =~= Set::<Seq<char>>::empty()) by {
            assert forall|key: Seq<char>| !map_of(s).dom().contains(key) by {
                if assoc_has(s, key) {
                    let w = choose|w: int| 0 <= w < s.len() && s[w].0 == key;
                    assert(false);
                }
            }
        }
    } else {
        let s0 = s.drop_last();
        let last = s.last();
        assert(keys_distinct(s0)) by {
            assert forall|x: int, y: int| 0 <= x < y < s0.len() implies s0[x].0 != s0[y].0 by {
                assert(s[x].0 != s[y].0);
            }
        }
        assert(!assoc_has(s0, last.0)) by {
            if assoc_has(s0, last.0) {
                let w = choose|w: int| 0 <= w < s0.len() && s0[w].0 == last.0;
                assert(s[w].0 == s[s.len() - 1].0);
                assert(false);
            }
        }
        lemma_map_of_len(s0);
        lemma_assoc_push(s0, last.0, last.1);
        assert(s0.push(last) =~= s);
        assert(map_of(s).dom() =~= map_of(s0).dom().insert(last.0));
    }
}

} // verus!
