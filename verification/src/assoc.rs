//! Lists of pairs in which no key stands twice, read as maps.

use vstd::prelude::*;

verus! {

/// No key stands at two places.
pub open spec fn distinct<K, V>(entries: Seq<(K, V)>) -> bool {
    forall|i: int, j: int|
        0 <= i < j < entries.len() ==> (#[trigger] entries[i]).0 != (#[trigger] entries[j]).0
}

/// Some entry has this key.
pub open spec fn holds<K, V>(entries: Seq<(K, V)>, key: K) -> bool {
    exists|i: int| 0 <= i < entries.len() && (#[trigger] entries[i]).0 == key
}

/// A place at which the key stands.
pub open spec fn position_of<K, V>(entries: Seq<(K, V)>, key: K) -> int {
    choose|i: int| 0 <= i < entries.len() && (#[trigger] entries[i]).0 == key
}

/// The entries as a map from key to value.
pub open spec fn as_map<K, V>(entries: Seq<(K, V)>) -> Map<K, V> {
    Map::new(
        |key: K| holds(entries, key),
        |key: K| entries[position_of(entries, key)].1,
    )
}

/// Where a key stands at `k`, the map gives the value at `k`.
pub proof fn lemma_lookup<K, V>(entries: Seq<(K, V)>, k: int)
    requires
        distinct(entries),
        0 <= k < entries.len(),
    ensures
        holds(entries, entries[k].0),
        position_of(entries, entries[k].0) == k,
        as_map(entries).contains_key(entries[k].0),
        as_map(entries)[entries[k].0] == entries[k].1,
{
    let key = entries[k].0;
    let p = position_of(entries, key);
    assert(0 <= p < entries.len() && entries[p].0 == key);
    if p < k {
        assert(entries[p].0 != entries[k].0);
    } else if k < p {
        assert(entries[k].0 != entries[p].0);
    }
}

/// Replacing the value at the place of `key` is an insertion into the map.
pub proof fn lemma_replace<K, V>(
    entries: Seq<(K, V)>,
    k: int,
    key: K,
    value: V,
)
    requires
        distinct(entries),
        0 <= k < entries.len(),
        entries[k].0 == key,
    ensures
        distinct(entries.update(k, (key, value))),
        as_map(entries.update(k, (key, value))) == as_map(entries).insert(key, value),
{
    let after = entries.update(k, (key, value));
    assert(distinct(after)) by {
        assert forall|i: int, j: int| 0 <= i < j < after.len() implies (#[trigger] after[i]).0 != (
        #[trigger] after[j]).0 by {
            assert(after[i].0 == entries[i].0);
            assert(after[j].0 == entries[j].0);
        }
    }
    assert forall|x: K| holds(after, x) == holds(entries, x) by {
        if holds(after, x) {
            let p = position_of(after, x);
            assert(entries[p].0 == x);
        }
        if holds(entries, x) {
            let p = position_of(entries, x);
            assert(after[p].0 == x);
        }
    }
    assert forall|x: K| holds(after, x) implies #[trigger] as_map(after)[x] == as_map(
        entries,
    ).insert(key, value)[x] by {
        let p = position_of(after, x);
        lemma_lookup(after, p);
        lemma_lookup(entries, p);
    }
    assert(as_map(after) =~= as_map(entries).insert(key, value));
}

/// Appending a value under a key that is not held is an insertion
/// into the map.
pub proof fn lemma_append<K, V>(entries: Seq<(K, V)>, key: K, value: V)
    requires
        distinct(entries),
        !holds(entries, key),
    ensures
        distinct(entries.push((key, value))),
        as_map(entries.push((key, value))) == as_map(entries).insert(key, value),
{
    let after = entries.push((key, value));
    let last = entries.len() as int;
    assert(distinct(after)) by {
        assert forall|i: int, j: int| 0 <= i < j < after.len() implies (#[trigger] after[i]).0 != (
        #[trigger] after[j]).0 by {
            assert(after[i] == entries[i]);
            if j < last {
                assert(after[j] == entries[j]);
            }
        }
    }
    assert(after[last].0 == key);
    assert forall|x: K| holds(after, x) == (holds(entries, x) || x == key) by {
        if holds(after, x) {
            let p = position_of(after, x);
            if p < last {
                assert(entries[p].0 == x);
            }
        }
        if holds(entries, x) {
            let p = position_of(entries, x);
            assert(after[p].0 == x);
        }
    }
    assert forall|x: K| holds(after, x) implies #[trigger] as_map(after)[x] == as_map(
        entries,
    ).insert(key, value)[x] by {
        let p = position_of(after, x);
        lemma_lookup(after, p);
        if p < last {
            assert(after[p] == entries[p]);
            lemma_lookup(entries, p);
        }
    }
    assert(as_map(after) =~= as_map(entries).insert(key, value));
}

} // verus!
