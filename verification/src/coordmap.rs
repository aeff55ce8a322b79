//! Insertion-ordered transcript coordinate maps.
//!
//! Gene builders take their transcripts' raw coordinates in a
//! `linked_hash_map::LinkedHashMap` keyed by transcript identifier, modeled
//! as the sequence of its entries in insertion order.

use vstd::prelude::*;

use linked_hash_map::LinkedHashMap;

use crate::infer::Coord;

verus! {

/// The raw coordinates a transcript is built from: the transcript
/// coordinate, the exon coordinates, and an optional coding coordinate.
pub type RawTrxCoords = (Coord, Vec<Coord>, Option<Coord>);

#[verifier::external_type_specification]
#[verifier::external_body]
#[verifier::reject_recursive_types(K)]
#[verifier::reject_recursive_types(V)]
#[verifier::reject_recursive_types(S)]
pub struct ExLinkedHashMap<K, V, S>(LinkedHashMap<K, V, S>);

/// The contents of a coordinate map: its key-value pairs in insertion
/// order, oldest first.
pub uninterp spec fn coordmap_entries(m: LinkedHashMap<String, RawTrxCoords>) -> Seq<
    (String, RawTrxCoords),
>;

/// A coordinate map's contents with no entries.
pub open spec fn coordmap_empty() -> Seq<(String, RawTrxCoords)> {
    Seq::empty()
}

/// The entries with every pair under key `k` removed.
pub open spec fn entries_without_key(
    entries: Seq<(String, RawTrxCoords)>,
    k: String,
) -> Seq<(String, RawTrxCoords)>
    decreases entries.len(),
{
    if entries.len() == 0 {
        Seq::empty()
    } else if entries[0].0 == k {
        entries_without_key(entries.drop_first(), k)
    } else {
        seq![entries[0]] + entries_without_key(entries.drop_first(), k)
    }
}

/// Relies on linked_hash_map::LinkedHashMap::new: the new map is empty.
#[verifier::external_body]
pub fn coordmap_new() -> (r: LinkedHashMap<String, RawTrxCoords>)
    ensures
        coordmap_entries(r) == coordmap_empty(),
{
    LinkedHashMap::new()
}

/// Relies on linked_hash_map::LinkedHashMap::insert: a fresh key is
/// appended at the back of the insertion order; an existing key's entry is
/// replaced and moved to the back.
#[verifier::external_body]
pub fn coordmap_insert(m: &mut LinkedHashMap<String, RawTrxCoords>, k: String, v: RawTrxCoords)
    ensures
        coordmap_entries(*final(m)) == entries_without_key(
            coordmap_entries(*old(m)),
            k,
        ).push((k, v)),
{
    let _ = m.insert(k, v);
}

/// Relies on linked_hash_map::LinkedHashMap::iter: the entries come out in
/// insertion order, oldest first.
#[verifier::external_body]
pub fn coordmap_to_vec(m: &LinkedHashMap<String, RawTrxCoords>) -> (r: Vec<(String, RawTrxCoords)>)
    ensures
        r@ == coordmap_entries(*m),
{
    let mut out: Vec<(String, RawTrxCoords)> = Vec::new();
    for (k, v) in m.iter() {
        out.push((k.clone(), v.clone()));
    }
    out
}

} // verus!
