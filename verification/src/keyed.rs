//! Sequences of key/value pairs, keyed by text: the common model of the
//! endpoint map and the connection log, both of which keep their keys in
//! insertion order.

use vstd::prelude::*;

verus! {

/// Whether some pair in `s` carries `key`.
pub open spec fn has_key<V>(s: Seq<(Seq<char>, V)>, key: Seq<char>) -> bool {
    exists|i: int| 0 <= i < s.len() && s[i].0 == key
}

/// The position of the pair carrying `key`; meaningful only under
/// [`has_key`], and unique under [`distinct_keys`].
pub open spec fn key_index<V>(s: Seq<(Seq<char>, V)>, key: Seq<char>) -> int {
    choose|i: int| 0 <= i < s.len() && s[i].0 == key
}

/// Whether no two pairs in `s` carry the same key.
pub open spec fn distinct_keys<V>(s: Seq<(Seq<char>, V)>) -> bool {
    forall|i: int, j: int| 0 <= i < j < s.len() ==> s[i].0 != s[j].0
}

/// The value stored under `key`, where a pair carries it.
pub open spec fn key_find<V>(s: Seq<(Seq<char>, V)>, key: Seq<char>) -> Option<V> {
    if has_key(s, key) {
        Some(s[key_index(s, key)].1)
    } else {
        None
    }
}

/// Under distinct keys, any position whose pair carries `key` is the one
/// [`key_index`] picks.
pub proof fn lemma_key_index_unique<V>(s: Seq<(Seq<char>, V)>, key: Seq<char>, i: int)
    requires
        distinct_keys(s),
        0 <= i < s.len(),
        s[i].0 == key,
    ensures
        has_key(s, key),
        key_index(s, key) == i,
{
    assert(has_key(s, key));
    let j = key_index(s, key);
    assert(0 <= j < s.len() && s[j].0 == key);
    if i < j {
        assert(s[i].0 != s[j].0);
    }
    if j < i {
        assert(s[j].0 != s[i].0);
    }
}

} // verus!
