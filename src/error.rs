//! The ways a store operation can fail.
use vstd::prelude::*;

verus! {

/// Why a store operation failed.
#[derive(Debug)]
pub enum StoreError {
    /// A point lookup found no record for the key.
    NotFound,
    /// The database rejected a statement, or opening it or creating its schema failed.
    Backing(rusqlite::Error),
    /// The store was closed before the call.
    Closed,
    /// The store's lock was poisoned by a panic in an earlier critical section.
    Lock,
    /// A page request was not numbered from 1, had a negative size, or its offset overflowed.
    InvalidPage,
}

} // verus!
