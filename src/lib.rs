//! A versioned policy store: named policy documents, each with a version
//! label and an ordering stamp, kept in an SQLite table with one row per key.
//!
//! - `model`: the table as a map from key to record, and the key sets and
//!   page numbers that queries use.
//! - `order`: the key order of listings (UTF-8 bytes, that is code points),
//!   and the verified sort and paging that follow it.
//! - `backing`: the statements run through rusqlite, with what each does to
//!   the table.
//! - `session`: a store owned by one caller, open or closed, with the exact
//!   outcome of every operation.
//! - `store`: `SqliteStore`, the same operations for callers on several
//!   threads, one at a time behind a lock.
//! - `laws`: properties of the operations, proved from their outcomes.
pub mod model;
pub mod order;
pub mod error;
pub mod backing;
pub mod session;
pub mod store;
pub mod laws;

pub use error::StoreError;
pub use session::Session;
pub use store::SqliteStore;
