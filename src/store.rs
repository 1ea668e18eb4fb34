//! The store as several callers share it: one session behind a lock, taken
//! for the whole of each operation.
use vstd::prelude::*;
use crate::error::StoreError;
use crate::model::Rows;
use crate::session::{
    Session, close_outcome, delete_outcome, evict_be_outcome, evict_le_outcome, get_outcome,
    keys_be_outcome, keys_le_outcome, page_outcome, save_outcome, version_outcome,
    version_value_outcome,
};

verus! {

#[verifier::external_type_specification]
#[verifier::external_body]
#[verifier::reject_recursive_types(T)]
pub struct ExMutex<T: ?Sized>(std::sync::Mutex<T>);

#[verifier::external_type_specification]
#[verifier::external_body]
#[verifier::reject_recursive_types(T)]
pub struct ExMutexGuard<'a, T: ?Sized + 'a>(std::sync::MutexGuard<'a, T>);

/// Relies on `std::sync::Mutex::new`: a lock around `s`.
#[verifier::external_body]
fn new_lock(s: Session) -> (r: std::sync::Mutex<Session>) {
    std::sync::Mutex::new(s)
}

/// Relies on `std::sync::Mutex::lock`: blocks until the lock is free and
/// holds it until the guard is dropped; `None` where the lock is poisoned,
/// in which case the guard inside the error is dropped at once.
#[verifier::external_body]
fn acquire(m: &std::sync::Mutex<Session>) -> (r: Option<std::sync::MutexGuard<'_, Session>>) {
    m.lock().ok()
}

/// Relies on `std::mem::replace` through the guard: puts `s` under the lock
/// and returns what was there, which another caller may have left in any state.
#[verifier::external_body]
fn replace_held(g: &mut std::sync::MutexGuard<'_, Session>, s: Session) -> (r: Session) {
    std::mem::replace(&mut **g, s)
}

/// A policy store that several threads may call at once. Each operation holds
/// the lock from before its first statement to after its last, so operations
/// take effect one at a time, each as `Session` describes it on the state the
/// previous one left. Since other callers may act between two calls, a
/// contract here says that the result is the one the `Session` operation gives
/// on the state found under the lock (the `before` of its outcome), whatever
/// that state was. A panic inside an operation poisons the lock, and every
/// later operation then fails with `Lock`.
pub struct SqliteStore {
    conn: std::sync::Mutex<Session>,
}

impl SqliteStore {
    /// Opens, or creates, the store kept in the database file at `path`.
    pub fn new(path: &str) -> (r: Result<SqliteStore, StoreError>)
        ensures
            r is Err ==> r->Err_0 is Backing,
    {
        match Session::open(path) {
            Err(e) => Err(e),
            Ok(s) => Ok(SqliteStore { conn: new_lock(s) }),
        }
    }

    /// Opens a new, empty store in memory.
    pub fn new_in_memory() -> (r: Result<SqliteStore, StoreError>)
        ensures
            r is Err ==> r->Err_0 is Backing,
    {
        match Session::open_in_memory() {
            Err(e) => Err(e),
            Ok(s) => Ok(SqliteStore { conn: new_lock(s) }),
        }
    }

    /// Stores `policy` and `version` with `timestamp` under `key`, replacing
    /// the record of `key` where there is one.
    pub fn save(&self, key: String, policy: String, version: String, timestamp: i64) -> (r: Result<
        usize,
        StoreError,
    >)
        ensures
            r matches Err(StoreError::Lock) || exists|before: Option<Rows>, after: Option<Rows>|
                save_outcome(before, after, key@, policy@, version@, timestamp, r),
    {
        let ghost (k, p, v) = (key@, policy@, version@);
        match acquire(&self.conn) {
            None => Err(StoreError::Lock),
            Some(mut guard) => {
                let mut s = replace_held(&mut guard, Session::closed());
                let ghost before = s@;
                let r = s.save(key, policy, version, timestamp);
                assert(save_outcome(before, s@, k, p, v, timestamp, r));
                let _ = replace_held(&mut guard, s);
                r
            },
        }
    }

    /// The document stored under `key`.
    pub fn get(&self, key: String) -> (r: Result<String, StoreError>)
        ensures
            r matches Err(StoreError::Lock) || exists|before: Option<Rows>| get_outcome(before, key@, r),
    {
        let ghost k = key@;
        match acquire(&self.conn) {
            None => Err(StoreError::Lock),
            Some(mut guard) => {
                let s = replace_held(&mut guard, Session::closed());
                let r = s.get(key);
                assert(get_outcome(s@, k, r));
                let _ = replace_held(&mut guard, s);
                r
            },
        }
    }

    /// The version label stored under `key`.
    pub fn version(&self, key: String) -> (r: Result<String, StoreError>)
        ensures
            r matches Err(StoreError::Lock) || exists|before: Option<Rows>| version_outcome(before, key@, r),
    {
        let ghost k = key@;
        match acquire(&self.conn) {
            None => Err(StoreError::Lock),
            Some(mut guard) => {
                let s = replace_held(&mut guard, Session::closed());
                let r = s.version(key);
                assert(version_outcome(s@, k, r));
                let _ = replace_held(&mut guard, s);
                r
            },
        }
    }

    /// The document and version label stored under `key`, read together.
    pub fn version_value(&self, key: String) -> (r: Result<(String, String), StoreError>)
        ensures
            r matches Err(StoreError::Lock) || exists|before: Option<Rows>|
                version_value_outcome(before, key@, r),
    {
        let ghost k = key@;
        match acquire(&self.conn) {
            None => Err(StoreError::Lock),
            Some(mut guard) => {
                let s = replace_held(&mut guard, Session::closed());
                let r = s.version_value(key);
                assert(version_value_outcome(s@, k, r));
                let _ = replace_held(&mut guard, s);
                r
            },
        }
    }

    /// The keys of the records stamped at `timestamp` or earlier, in key order.
    pub fn all_keys_le(&self, timestamp: i64) -> (r: Result<Vec<String>, StoreError>)
        ensures
            r matches Err(StoreError::Lock) || exists|before: Option<Rows>|
                keys_le_outcome(before, timestamp, r),
    {
        match acquire(&self.conn) {
            None => Err(StoreError::Lock),
            Some(mut guard) => {
                let s = replace_held(&mut guard, Session::closed());
                let r = s.all_keys_le(timestamp);
                assert(keys_le_outcome(s@, timestamp, r));
                let _ = replace_held(&mut guard, s);
                r
            },
        }
    }

    /// The keys of the records stamped at `timestamp` or later, in key order.
    pub fn all_keys_be(&self, timestamp: i64) -> (r: Result<Vec<String>, StoreError>)
        ensures
            r matches Err(StoreError::Lock) || exists|before: Option<Rows>|
                keys_be_outcome(before, timestamp, r),
    {
        match acquire(&self.conn) {
            None => Err(StoreError::Lock),
            Some(mut guard) => {
                let s = replace_held(&mut guard, Session::closed());
                let r = s.all_keys_be(timestamp);
                assert(keys_be_outcome(s@, timestamp, r));
                let _ = replace_held(&mut guard, s);
                r
            },
        }
    }

    /// Page `page` (from 1) of `size` keys among the records stamped at
    /// `timestamp` or later; see `Session::all_keys_be_pageable`.
    pub fn all_keys_be_pageable(&self, timestamp: i64, page: i64, size: i64) -> (r: Result<
        Vec<String>,
        StoreError,
    >)
        ensures
            r matches Err(StoreError::Lock) || exists|before: Option<Rows>|
                page_outcome(before, timestamp, page, size, r),
    {
        match acquire(&self.conn) {
            None => Err(StoreError::Lock),
            Some(mut guard) => {
                let s = replace_held(&mut guard, Session::closed());
                let r = s.all_keys_be_pageable(timestamp, page, size);
                assert(page_outcome(s@, timestamp, page, size, r));
                let _ = replace_held(&mut guard, s);
                r
            },
        }
    }

    /// Removes every record stamped at `timestamp` or later; returns how many went.
    pub fn evict_be(&self, timestamp: i64) -> (r: Result<usize, StoreError>)
        ensures
            r matches Err(StoreError::Lock) || exists|before: Option<Rows>, after: Option<Rows>|
                evict_be_outcome(before, after, timestamp, r),
    {
        match acquire(&self.conn) {
            None => Err(StoreError::Lock),
            Some(mut guard) => {
                let mut s = replace_held(&mut guard, Session::closed());
                let ghost before = s@;
                let r = s.evict_be(timestamp);
                assert(evict_be_outcome(before, s@, timestamp, r));
                let _ = replace_held(&mut guard, s);
                r
            },
        }
    }

    /// Removes every record stamped at `timestamp` or earlier; returns how many went.
    pub fn evict_le(&self, timestamp: i64) -> (r: Result<usize, StoreError>)
        ensures
            r matches Err(StoreError::Lock) || exists|before: Option<Rows>, after: Option<Rows>|
                evict_le_outcome(before, after, timestamp, r),
    {
        match acquire(&self.conn) {
            None => Err(StoreError::Lock),
            Some(mut guard) => {
                let mut s = replace_held(&mut guard, Session::closed());
                let ghost before = s@;
                let r = s.evict_le(timestamp);
                assert(evict_le_outcome(before, s@, timestamp, r));
                let _ = replace_held(&mut guard, s);
                r
            },
        }
    }

    /// Removes the record of `key`, if there is one; returns how many records went.
    pub fn delete(&self, key: String) -> (r: Result<usize, StoreError>)
        ensures
            r matches Err(StoreError::Lock) || exists|before: Option<Rows>, after: Option<Rows>|
                delete_outcome(before, after, key@, r),
    {
        let ghost k = key@;
        match acquire(&self.conn) {
            None => Err(StoreError::Lock),
            Some(mut guard) => {
                let mut s = replace_held(&mut guard, Session::closed());
                let ghost before = s@;
                let r = s.delete(key);
                assert(delete_outcome(before, s@, k, r));
                let _ = replace_held(&mut guard, s);
                r
            },
        }
    }

    /// Releases the connection. Every later operation fails with `Closed`,
    /// a second `close` included.
    pub fn close(&self) -> (r: Result<(), StoreError>)
        ensures
            r matches Err(StoreError::Lock) || exists|before: Option<Rows>, after: Option<Rows>|
                close_outcome(before, after, r),
    {
        match acquire(&self.conn) {
            None => Err(StoreError::Lock),
            Some(mut guard) => {
                let mut s = replace_held(&mut guard, Session::closed());
                let ghost before = s@;
                let r = s.close();
                assert(close_outcome(before, s@, r));
                let _ = replace_held(&mut guard, s);
                r
            },
        }
    }
}

} // verus!
