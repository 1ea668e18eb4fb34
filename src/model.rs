//! The mathematical picture of a policy table: a map from key to record.
use vstd::prelude::*;

verus! {

/// What one record holds besides its key: the document, the version label and the stamp.
pub type Record = (Seq<char>, Seq<char>, i64);

/// A policy table, by key. A map has one entry per key, so keys are unique by construction.
pub type Rows = Map<Seq<char>, Record>;

/// A table without rows.
pub open spec fn no_rows() -> Rows {
    Map::empty()
}

/// The record that `save(key, value, version, stamp)` leaves under `key`.
pub open spec fn record(value: Seq<char>, version: Seq<char>, stamp: i64) -> Record {
    (value, version, stamp)
}

/// The keys whose stamp is at least `stamp`.
pub open spec fn keys_at_least(rows: Rows, stamp: i64) -> Set<Seq<char>> {
    rows.dom().filter(|k: Seq<char>| rows[k].2 >= stamp)
}

/// The keys whose stamp is at most `stamp`.
pub open spec fn keys_at_most(rows: Rows, stamp: i64) -> Set<Seq<char>> {
    rows.dom().filter(|k: Seq<char>| rows[k].2 <= stamp)
}

/// The keys of a list of strings, as character sequences.
pub open spec fn key_views(keys: Seq<String>) -> Seq<Seq<char>> {
    keys.map_values(|s: String| s@)
}

/// `keys` names every key of `expected` exactly once, in some order.
pub open spec fn lists_exactly(keys: Seq<String>, expected: Set<Seq<char>>) -> bool {
    &&& key_views(keys).no_duplicates()
    &&& key_views(keys).to_set() == expected
}

/// The offset of a 1-based page of `size` entries.
pub open spec fn page_offset(page: i64, size: i64) -> int {
    (page - 1) * size
}

/// A page request that names a real page: numbered from 1, of a positive size,
/// with an offset that fits in an `i64`.
pub open spec fn valid_page(page: i64, size: i64) -> bool {
    &&& page >= 1
    &&& size > 0
    &&& page_offset(page, size) <= i64::MAX
}

} // verus!
