//! Walking over the keys of a map.

use std::collections::HashMap;
use vstd::prelude::*;
use vstd::std_specs::hash::obeys_key_model;

verus! {

broadcast use vstd::std_specs::hash::group_hash_axioms;

/// Whether `keys` lists each key of `map` once. Nothing is said of their order.
pub open spec fn lists_keys<K, V>(keys: Seq<K>, map: Map<K, V>) -> bool {
    &&& keys.no_duplicates()
    &&& forall|k: K| #[trigger] keys.contains(k) <==> map.contains_key(k)
}

/// Lists the keys of a map, in whatever order it is walked.
pub fn collect_keys<K: Copy, V>(map: &HashMap<K, V>) -> (keys: Vec<K>)
    requires
        obeys_key_model::<K>(),
    ensures
        lists_keys(keys@, map@),
{
    let mut keys: Vec<K> = Vec::new();
    for k in it: map.keys()
        invariant
            keys@ == it.seq().unref().take(it.index() as int),
            it.seq().no_duplicates(),
            it.seq().unref().to_set() == map@.dom(),
            it.index() == it.seq().len() ==> lists_keys(keys@, map@),
    {
        keys.push(*k);
        assert(keys@ =~= it.seq().unref().take(it.index() + 1));
        assert(it.index() + 1 == it.seq().len() ==> keys@ =~= it.seq().unref());
        assert(it.index() + 1 == it.seq().len() ==> keys@.to_set() == map@.dom());
        assert(forall|c: K| #[trigger] keys@.to_set().contains(c) <==> keys@.contains(c));
    }
    keys
}

/// A list of the keys of a map holds every key at exactly one place, and nothing else.
pub proof fn keys_are_listed_once<K, V>(keys: Seq<K>, map: Map<K, V>, i: int, j: int, k: K)
    requires
        lists_keys(keys, map),
    ensures
        0 <= i < j < keys.len() ==> keys[i] != keys[j],
        0 <= i < keys.len() ==> map.contains_key(keys[i]),
        map.contains_key(k) ==> exists|a: int| 0 <= a < keys.len() && #[trigger] keys[a] == k,
        keys.len() == map.dom().len(),
{
    if 0 <= i < keys.len() {
        assert(keys.contains(keys[i]));
    }
    if map.contains_key(k) {
        assert(keys.contains(k));
    }
    keys.unique_seq_to_set();
    assert(keys.to_set() =~= map.dom());
}

} // verus!
