//! Records stored in insertion order and read as a map from their keys.

use vstd::prelude::*;

verus! {

/// The map that sends `keys[i]` to `vals[i]`.
pub open spec fn table_map<K, V>(keys: Seq<K>, vals: Seq<V>) -> Map<K, V> {
    Map::new(|k: K| keys.contains(k), |k: K| vals[keys.index_of(k)])
}

/// The set of the keys in `keys`.
pub open spec fn key_set<K>(keys: Seq<K>) -> Set<K> {
    Set::new(|k: K| keys.contains(k))
}

/// In a table without repeated keys, the entry at index `i` is the value of
/// `keys[i]`.
pub proof fn lemma_table_entry<K, V>(keys: Seq<K>, vals: Seq<V>, i: int)
    requires
        keys.no_duplicates(),
        keys.len() == vals.len(),
        0 <= i < keys.len(),
    ensures
        table_map(keys, vals).contains_key(keys[i]),
        table_map(keys, vals)[keys[i]] == vals[i],
{
    assert(keys.index_of(keys[i]) == i);
}

/// A key that is at no index is not in the table.
pub proof fn lemma_table_absent<K, V>(keys: Seq<K>, vals: Seq<V>, k: K)
    requires
        forall|i: int| 0 <= i < keys.len() ==> keys[i] != k,
    ensures
        !table_map(keys, vals).contains_key(k),
        !key_set(keys).contains(k),
{
}

/// The keys behind an appended key are the old keys and the new one.
pub proof fn lemma_push_contains<K>(keys: Seq<K>, k: K, q: K)
    ensures
        keys.push(k).contains(q) <==> keys.contains(q) || q == k,
{
    let pushed = keys.push(k);
    if pushed.contains(q) {
        let i = pushed.index_of(q);
        assert(i < keys.len() ==> keys[i] == q);
    }
    if keys.contains(q) {
        assert(pushed[keys.index_of(q)] == q);
    }
    assert(pushed[keys.len() as int] == k);
}

/// Appending an entry under a new key inserts it into the map.
pub proof fn lemma_table_push<K, V>(keys: Seq<K>, vals: Seq<V>, k: K, v: V)
    requires
        keys.no_duplicates(),
        keys.len() == vals.len(),
        !keys.contains(k),
    ensures
        keys.push(k).no_duplicates(),
        table_map(keys.push(k), vals.push(v)) == table_map(keys, vals).insert(k, v),
{
    let pushed = keys.push(k);
    let after = table_map(pushed, vals.push(v));
    let expected = table_map(keys, vals).insert(k, v);
    assert forall|q: K| after.contains_key(q) <==> expected.contains_key(q) by {
        lemma_push_contains(keys, k, q);
    }
    assert forall|q: K| after.contains_key(q) implies after[q] == expected[q] by {
        let i = pushed.index_of(q);
        if q != k {
            lemma_table_entry(keys, vals, i);
        }
    }
}

/// Appending a key inserts it into the set of keys.
pub proof fn lemma_key_set_push<K>(keys: Seq<K>, k: K)
    ensures
        key_set(keys.push(k)) == key_set(keys).insert(k),
{
    assert forall|q: K| key_set(keys.push(k)).contains(q) <==> key_set(keys).insert(k).contains(
        q,
    ) by {
        lemma_push_contains(keys, k, q);
    }
}

/// Replacing the value at index `i` replaces the value of `keys[i]`.
pub proof fn lemma_table_update<K, V>(keys: Seq<K>, vals: Seq<V>, i: int, v: V)
    requires
        keys.no_duplicates(),
        keys.len() == vals.len(),
        0 <= i < keys.len(),
    ensures
        table_map(keys, vals.update(i, v)) == table_map(keys, vals).insert(keys[i], v),
{
    let after = table_map(keys, vals.update(i, v));
    let expected = table_map(keys, vals).insert(keys[i], v);
    assert forall|q: K| after.contains_key(q) implies after[q] == expected[q] by {
        assert(keys[keys.index_of(q)] == q);
    }
}

} // verus!
