//! Trusted boundary to the `indexmap` crate.
//!
//! Both the connection log and the endpoint map need a mapping that hands
//! keys back in insertion order.  They share one shape of it: an
//! `indexmap::IndexMap` from a text key to a position, whose contents are
//! named by the uninterpreted sequence [`index_entries`].  Every method the
//! verified code calls goes through a wrapper below whose contract states,
//! over that sequence, what the crate's documentation promises.

use vstd::prelude::*;

verus! {

#[verifier::external_type_specification]
#[verifier::external_body]
#[verifier::reject_recursive_types(K)]
#[verifier::reject_recursive_types(V)]
#[verifier::reject_recursive_types(S)]
pub struct ExIndexMap<K, V, S>(indexmap::IndexMap<K, V, S>);

/// What an `indexmap::IndexMap<String, usize>` holds: its key/value pairs
/// in insertion order.
pub uninterp spec fn index_entries(m: indexmap::IndexMap<String, usize>) -> Seq<(Seq<char>, usize)>;

/// Relies on `IndexMap::new`: a map with no entries.
#[verifier::external_body]
pub(crate) fn map_new() -> (r: indexmap::IndexMap<String, usize>)
    ensures
        index_entries(r).len() == 0,
{
    indexmap::IndexMap::new()
}

/// Relies on `IndexMap::get`: the value stored under an equal key, if one
/// is there.
#[verifier::external_body]
pub(crate) fn map_get(m: &indexmap::IndexMap<String, usize>, key: &String) -> (r: Option<usize>)
    ensures
        r matches Some(v) ==> exists|i: int|
            0 <= i < index_entries(*m).len() && index_entries(*m)[i] == (key@, v),
        r is None ==> forall|i: int|
            0 <= i < index_entries(*m).len() ==> index_entries(*m)[i].0 != key@,
{
    m.get(key).copied()
}

/// Relies on `IndexMap::insert`: an existing key keeps its place and gets
/// the new value, with the old value handed back; a new key is appended
/// last in order.
#[verifier::external_body]
pub(crate) fn map_insert(m: &mut indexmap::IndexMap<String, usize>, key: String, value: usize) -> (r: Option<usize>)
    ensures
        (forall|i: int|
            0 <= i < index_entries(*old(m)).len() ==> index_entries(*old(m))[i].0 != key@)
            ==> {
            &&& index_entries(*final(m)) == index_entries(*old(m)).push((key@, value))
            &&& r is None
        },
        (exists|i: int|
            0 <= i < index_entries(*old(m)).len() && index_entries(*old(m))[i].0 == key@)
            ==> (exists|i: int|
            {
                &&& 0 <= i < index_entries(*old(m)).len()
                &&& index_entries(*old(m))[i].0 == key@
                &&& index_entries(*final(m)) == index_entries(*old(m)).update(i, (key@, value))
                &&& r == Some(index_entries(*old(m))[i].1)
            }),
{
    m.insert(key, value)
}

} // verus!
