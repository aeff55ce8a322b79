//! Attribute containers: insertion-ordered multivalued string maps.
//!
//! Attributes are held in `multimap::MultiMap<String, String>`, modeled as a
//! map from key to the sequence of values inserted under that key, in
//! insertion order per key.

use vstd::prelude::*;

use multimap::MultiMap;

verus! {

#[verifier::external_type_specification]
#[verifier::external_body]
#[verifier::reject_recursive_types(K)]
#[verifier::reject_recursive_types(V)]
#[verifier::reject_recursive_types(S)]
pub struct ExMultiMap<K, V, S>(MultiMap<K, V, S>);

/// Relies on multimap's derived Clone. Nothing is assumed of the copy; the
/// declaration only lets entities holding attributes derive Clone themselves.
pub assume_specification<K: Clone, V: Clone, S: Clone>[ <MultiMap<K, V, S> as Clone>::clone ](
    m: &MultiMap<K, V, S>,
) -> MultiMap<K, V, S>;

/// The contents of an attribute map: each key maps to the values inserted
/// under it, in insertion order.
pub uninterp spec fn attrs_entries(m: MultiMap<String, String>) -> Map<Seq<char>, Seq<Seq<char>>>;

/// An attribute map's contents with no entries.
pub open spec fn attrs_empty() -> Map<Seq<char>, Seq<Seq<char>>> {
    Map::empty()
}

/// The contents of `m` after one more value `v` is inserted under key `k`.
pub open spec fn attrs_entries_after_insert(
    entries: Map<Seq<char>, Seq<Seq<char>>>,
    k: Seq<char>,
    v: Seq<char>,
) -> Map<Seq<char>, Seq<Seq<char>>> {
    if entries.contains_key(k) {
        entries.insert(k, entries[k].push(v))
    } else {
        entries.insert(k, seq![v])
    }
}

/// Relies on multimap::MultiMap::new: the new map is empty.
#[verifier::external_body]
pub fn attrs_new() -> (r: MultiMap<String, String>)
    ensures
        attrs_entries(r) == attrs_empty(),
{
    MultiMap::new()
}

/// Relies on multimap::MultiMap::insert: the value is appended to the key's
/// vector when the key exists, else the key is added with that one value.
#[verifier::external_body]
pub fn attrs_insert(m: &mut MultiMap<String, String>, k: String, v: String)
    ensures
        attrs_entries(*final(m)) == attrs_entries_after_insert(attrs_entries(*old(m)), k@, v@),
{
    m.insert(k, v);
}

} // verus!
