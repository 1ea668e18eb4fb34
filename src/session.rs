//! A store session owned by one caller: the connection while it is open, and
//! nothing once it is closed.
use vstd::prelude::*;
use crate::backing::{
    close_connection, create_policy_schema, delete_at_least, delete_at_most, delete_record,
    find_record, has_policy_table, insert_record, lock_file_exclusively, open_file, open_memory,
    policy_rows, probe_policy_table, select_keys_at_least, select_keys_at_most, update_record,
};
use crate::error::StoreError;
use crate::model::{
    Record, Rows, key_views, keys_at_least, keys_at_most, lists_exactly, no_rows, page_offset,
    record, valid_page,
};
use crate::order::{sort_keys, sorted_listing, take_window, window};

verus! {

/// What `save(key, value, version, stamp)` may report on a store that held
/// `before` and now holds `after` (`None`: closed).
pub open spec fn save_outcome(
    before: Option<Rows>,
    after: Option<Rows>,
    key: Seq<char>,
    value: Seq<char>,
    version: Seq<char>,
    stamp: i64,
    r: Result<usize, StoreError>,
) -> bool {
    match before {
        None => after is None && r matches Err(StoreError::Closed),
        Some(rows) => after is Some && match r {
            Ok(n) => n == 1 && after == Some(rows.insert(key, record(value, version, stamp))),
            Err(e) => e is Backing && after == before,
        },
    }
}

/// What a point lookup of `key` may report on a store that holds `before`,
/// where `fits(v, rec)` says that `v` is what the lookup reads of the record `rec`.
pub open spec fn lookup_outcome<T>(
    before: Option<Rows>,
    key: Seq<char>,
    r: Result<T, StoreError>,
    fits: spec_fn(T, Record) -> bool,
) -> bool {
    match before {
        None => r matches Err(StoreError::Closed),
        Some(rows) => match r {
            Ok(v) => rows.contains_key(key) && fits(v, rows[key]),
            Err(e) => (e is NotFound && !rows.contains_key(key)) || e is Backing,
        },
    }
}

/// What `get(key)` may report: the document.
pub open spec fn get_outcome(before: Option<Rows>, key: Seq<char>, r: Result<String, StoreError>) -> bool {
    lookup_outcome(before, key, r, |v: String, rec: Record| v@ == rec.0)
}

/// What `version(key)` may report: the version label.
pub open spec fn version_outcome(before: Option<Rows>, key: Seq<char>, r: Result<String, StoreError>) -> bool {
    lookup_outcome(before, key, r, |v: String, rec: Record| v@ == rec.1)
}

/// What `version_value(key)` may report: the document and the version label, of one record.
pub open spec fn version_value_outcome(
    before: Option<Rows>,
    key: Seq<char>,
    r: Result<(String, String), StoreError>,
) -> bool {
    lookup_outcome(before, key, r, |p: (String, String), rec: Record| p.0@ == rec.0 && p.1@ == rec.1)
}

/// What `delete(key)` may report on a store that held `before` and now holds `after`.
pub open spec fn delete_outcome(
    before: Option<Rows>,
    after: Option<Rows>,
    key: Seq<char>,
    r: Result<usize, StoreError>,
) -> bool {
    match before {
        None => after is None && r matches Err(StoreError::Closed),
        Some(rows) => after is Some && match r {
            Ok(n) => {
                &&& after == Some(rows.remove(key))
                &&& n == (if rows.contains_key(key) { 1int } else { 0int })
            },
            Err(e) => e is Backing && after == before,
        },
    }
}

/// What a listing may report on a store that holds `before`, where
/// `expected(rows)` is the set of keys it names, each once, in key order.
pub open spec fn listing_outcome(
    before: Option<Rows>,
    expected: spec_fn(Rows) -> Set<Seq<char>>,
    r: Result<Vec<String>, StoreError>,
) -> bool {
    match before {
        None => r matches Err(StoreError::Closed),
        Some(rows) => match r {
            Ok(keys) => lists_exactly(keys@, expected(rows)) && key_views(keys@) == sorted_listing(
                expected(rows),
            ),
            Err(e) => e is Backing,
        },
    }
}

/// What `all_keys_be(stamp)` may report: the keys stamped at `stamp` or later.
pub open spec fn keys_be_outcome(before: Option<Rows>, stamp: i64, r: Result<Vec<String>, StoreError>) -> bool {
    listing_outcome(before, |rows: Rows| keys_at_least(rows, stamp), r)
}

/// What `all_keys_le(stamp)` may report: the keys stamped at `stamp` or earlier.
pub open spec fn keys_le_outcome(before: Option<Rows>, stamp: i64, r: Result<Vec<String>, StoreError>) -> bool {
    listing_outcome(before, |rows: Rows| keys_at_most(rows, stamp), r)
}

/// What `all_keys_be_pageable(stamp, page, size)` may report: nothing for a
/// page of size 0, a refusal for a page that does not exist, and otherwise
/// page `page` (from 1) of `size` keys: the window at offset `(page - 1) * size`
/// of the listing in key order of the keys stamped at `stamp` or later.
pub open spec fn page_outcome(
    before: Option<Rows>,
    stamp: i64,
    page: i64,
    size: i64,
    r: Result<Vec<String>, StoreError>,
) -> bool {
    match before {
        None => r matches Err(StoreError::Closed),
        Some(rows) => if size == 0 {
            r is Ok && r->Ok_0@.len() == 0
        } else if !valid_page(page, size) {
            r matches Err(StoreError::InvalidPage)
        } else {
            match r {
                Ok(keys) => key_views(keys@) == window(
                    sorted_listing(keys_at_least(rows, stamp)),
                    page_offset(page, size),
                    size as int,
                ),
                Err(e) => e is Backing,
            }
        },
    }
}

/// What an eviction may report on a store that held `before` and now holds
/// `after`, where `gone(rows)` is the set of keys it removes.
pub open spec fn eviction_outcome(
    before: Option<Rows>,
    after: Option<Rows>,
    gone: spec_fn(Rows) -> Set<Seq<char>>,
    r: Result<usize, StoreError>,
) -> bool {
    match before {
        None => after is None && r matches Err(StoreError::Closed),
        Some(rows) => after is Some && match r {
            Ok(n) => after == Some(rows.remove_keys(gone(rows))) && n == gone(rows).len(),
            Err(e) => e is Backing && after == before,
        },
    }
}

/// What `evict_be(stamp)` may report: it removes the records stamped at `stamp` or later.
pub open spec fn evict_be_outcome(
    before: Option<Rows>,
    after: Option<Rows>,
    stamp: i64,
    r: Result<usize, StoreError>,
) -> bool {
    eviction_outcome(before, after, |rows: Rows| keys_at_least(rows, stamp), r)
}

/// What `evict_le(stamp)` may report: it removes the records stamped at `stamp` or earlier.
pub open spec fn evict_le_outcome(
    before: Option<Rows>,
    after: Option<Rows>,
    stamp: i64,
    r: Result<usize, StoreError>,
) -> bool {
    eviction_outcome(before, after, |rows: Rows| keys_at_most(rows, stamp), r)
}

/// What `close()` may report: the store is closed afterwards in any case; a
/// store closed already reports so.
pub open spec fn close_outcome(before: Option<Rows>, after: Option<Rows>, r: Result<(), StoreError>) -> bool {
    &&& after is None
    &&& match before {
        None => r matches Err(StoreError::Closed),
        Some(_) => r is Ok || (r is Err && r->Err_0 is Backing),
    }
}

/// The connection of an open session, or nothing once it is closed.
enum Slot {
    Open(rusqlite::Connection),
    Closed,
}

/// A store session, owned by one caller. It is made only by `open` and
/// `open_in_memory`, on a connection that no other connection can change.
pub struct Session {
    slot: Slot,
}

impl View for Session {
    type V = Option<Rows>;

    /// The rows of the session's table; `None` once it is closed.
    closed spec fn view(&self) -> Option<Rows> {
        match self.slot {
            Slot::Open(c) => Some(policy_rows(c)),
            Slot::Closed => None,
        }
    }
}

impl Session {
    /// Whether the session is open on a database that has the policy table.
    pub closed spec fn has_schema(&self) -> bool {
        match self.slot {
            Slot::Open(c) => has_policy_table(c),
            Slot::Closed => false,
        }
    }

    /// Makes sure the database behind `c` has the policy table with its unique
    /// index on `key`, creating what is missing, and keeps the rows it holds.
    fn bootstrap(c: rusqlite::Connection) -> (r: Result<Session, StoreError>)
        ensures
            r is Ok ==> r->Ok_0@ is Some && r->Ok_0.has_schema(),
            r is Ok && !has_policy_table(c) ==> r->Ok_0@ == Some(no_rows()),
            r is Err ==> r->Err_0 is Backing,
    {
        let ghost given = c;
        let mut c = c;
        match create_policy_schema(&mut c) {
            Err(e) => Err(StoreError::Backing(e)),
            Ok(()) => {
                let s = Session { slot: Slot::Open(c) };
                assert(!has_policy_table(given) ==> policy_rows(c) =~= no_rows());
                Ok(s)
            },
        }
    }

    /// Opens, or creates, the store kept in the database file at `path`, and
    /// holds the file for this session alone until it is closed.
    pub fn open(path: &str) -> (r: Result<Session, StoreError>)
        ensures
            r is Ok ==> r->Ok_0@ is Some && r->Ok_0.has_schema(),
            r is Err ==> r->Err_0 is Backing,
    {
        match open_file(path) {
            Err(e) => Err(StoreError::Backing(e)),
            Ok(c) => {
                let mut c = c;
                match lock_file_exclusively(&mut c) {
                    Err(e) => Err(StoreError::Backing(e)),
                    Ok(()) => Session::bootstrap(c),
                }
            },
        }
    }

    /// Opens a new store in memory, with no records.
    pub fn open_in_memory() -> (r: Result<Session, StoreError>)
        ensures
            r is Ok ==> r->Ok_0@ == Some(no_rows()) && r->Ok_0.has_schema(),
            r is Err ==> r->Err_0 is Backing,
    {
        match open_memory() {
            Err(e) => Err(StoreError::Backing(e)),
            Ok(c) => {
                let ghost given = c;
                assert(!has_policy_table(given));
                let r = Session::bootstrap(c);
                assert(r is Ok ==> r->Ok_0@ == Some(no_rows()));
                r
            },
        }
    }

    /// A closed session, which holds nothing.
    pub(crate) fn closed() -> (r: Session)
        ensures
            r@ is None,
    {
        Session { slot: Slot::Closed }
    }

    /// Whether the session is still open.
    pub fn is_open(&self) -> (r: bool)
        ensures
            r == self@ is Some,
    {
        match self.slot {
            Slot::Open(_) => true,
            Slot::Closed => false,
        }
    }

    /// Stores `value` and `version` with `stamp` under `key`: replaces the
    /// record of `key` where there is one, and adds it otherwise.
    pub fn save(&mut self, key: String, value: String, version: String, stamp: i64) -> (r: Result<
        usize,
        StoreError,
    >)
        ensures
            save_outcome(old(self)@, final(self)@, key@, value@, version@, stamp, r),
    {
        match &mut self.slot {
            Slot::Closed => Err(StoreError::Closed),
            Slot::Open(c) => {
                match update_record(c, key.as_str(), value.as_str(), version.as_str(), stamp) {
                    Err(e) => Err(StoreError::Backing(e)),
                    Ok(n) => {
                        if n > 0 {
                            Ok(n)
                        } else {
                            match insert_record(c, key.as_str(), value.as_str(), version.as_str(), stamp) {
                                Err(e) => Err(StoreError::Backing(e)),
                                Ok(m) => Ok(m),
                            }
                        }
                    },
                }
            },
        }
    }

    /// Looks up the document and version label of `key` in one read.
    pub fn version_value(&self, key: String) -> (r: Result<(String, String), StoreError>)
        ensures
            version_value_outcome(self@, key@, r),
    {
        match &self.slot {
            Slot::Closed => Err(StoreError::Closed),
            Slot::Open(c) => match find_record(c, key.as_str()) {
                Err(e) => Err(StoreError::Backing(e)),
                Ok(None) => Err(StoreError::NotFound),
                Ok(Some(found)) => Ok(found),
            },
        }
    }

    /// The document stored under `key`.
    pub fn get(&self, key: String) -> (r: Result<String, StoreError>)
        ensures
            get_outcome(self@, key@, r),
    {
        match self.version_value(key) {
            Err(e) => Err(e),
            Ok((value, _)) => Ok(value),
        }
    }

    /// The version label stored under `key`.
    pub fn version(&self, key: String) -> (r: Result<String, StoreError>)
        ensures
            version_outcome(self@, key@, r),
    {
        match self.version_value(key) {
            Err(e) => Err(e),
            Ok((_, version)) => Ok(version),
        }
    }
    /// Removes the record of `key`, if there is one; returns how many records went.
    pub fn delete(&mut self, key: String) -> (r: Result<usize, StoreError>)
        ensures
            delete_outcome(old(self)@, final(self)@, key@, r),
    {
        match &mut self.slot {
            Slot::Closed => Err(StoreError::Closed),
            Slot::Open(c) => match delete_record(c, key.as_str()) {
                Err(e) => Err(StoreError::Backing(e)),
                Ok(n) => Ok(n),
            },
        }
    }

    /// The keys of the records stamped at `stamp` or later, in key order.
    pub fn all_keys_be(&self, stamp: i64) -> (r: Result<Vec<String>, StoreError>)
        ensures
            keys_be_outcome(self@, stamp, r),
    {
        match &self.slot {
            Slot::Closed => Err(StoreError::Closed),
            Slot::Open(c) => match select_keys_at_least(c, stamp) {
                Err(e) => Err(StoreError::Backing(e)),
                Ok(keys) => Ok(sort_keys(&keys)),
            },
        }
    }

    /// The keys of the records stamped at `stamp` or earlier, in key order.
    pub fn all_keys_le(&self, stamp: i64) -> (r: Result<Vec<String>, StoreError>)
        ensures
            keys_le_outcome(self@, stamp, r),
    {
        match &self.slot {
            Slot::Closed => Err(StoreError::Closed),
            Slot::Open(c) => match select_keys_at_most(c, stamp) {
                Err(e) => Err(StoreError::Backing(e)),
                Ok(keys) => Ok(sort_keys(&keys)),
            },
        }
    }

    /// Page `page` (counted from 1) of `size` keys of the listing, in key order,
    /// of the records stamped at `stamp` or later. A page of size 0 is empty; a page below 1, a negative
    /// size, or an offset `(page - 1) * size` beyond `i64` is refused.
    pub fn all_keys_be_pageable(&self, stamp: i64, page: i64, size: i64) -> (r: Result<
        Vec<String>,
        StoreError,
    >)
        ensures
            page_outcome(self@, stamp, page, size, r),
    {
        match &self.slot {
            Slot::Closed => Err(StoreError::Closed),
            Slot::Open(c) => {
                if size == 0 {
                    return Ok(Vec::new());
                }
                if page < 1 || size < 0 {
                    return Err(StoreError::InvalidPage);
                }
                match (page - 1).checked_mul(size) {
                    None => Err(StoreError::InvalidPage),
                    Some(offset) => match select_keys_at_least(c, stamp) {
                        Err(e) => Err(StoreError::Backing(e)),
                        Ok(keys) => Ok(take_window(&sort_keys(&keys), offset, size)),
                    },
                }
            },
        }
    }

    /// Removes every record stamped at `stamp` or later; returns how many went.
    /// Without the policy table there is nothing to remove.
    pub fn evict_be(&mut self, stamp: i64) -> (r: Result<usize, StoreError>)
        ensures
            evict_be_outcome(old(self)@, final(self)@, stamp, r),
    {
        match &mut self.slot {
            Slot::Closed => Err(StoreError::Closed),
            Slot::Open(c) => match probe_policy_table(c) {
                Err(e) => Err(StoreError::Backing(e)),
                Ok(false) => {
                    assert(keys_at_least(policy_rows(*c), stamp) =~= Set::empty());
                    assert(policy_rows(*c).remove_keys(Set::empty()) =~= policy_rows(*c));
                    Ok(0)
                },
                Ok(true) => match delete_at_least(c, stamp) {
                    Err(e) => Err(StoreError::Backing(e)),
                    Ok(n) => Ok(n),
                },
            },
        }
    }

    /// Removes every record stamped at `stamp` or earlier; returns how many went.
    /// Without the policy table there is nothing to remove.
    pub fn evict_le(&mut self, stamp: i64) -> (r: Result<usize, StoreError>)
        ensures
            evict_le_outcome(old(self)@, final(self)@, stamp, r),
    {
        match &mut self.slot {
            Slot::Closed => Err(StoreError::Closed),
            Slot::Open(c) => match probe_policy_table(c) {
                Err(e) => Err(StoreError::Backing(e)),
                Ok(false) => {
                    assert(keys_at_most(policy_rows(*c), stamp) =~= Set::empty());
                    assert(policy_rows(*c).remove_keys(Set::empty()) =~= policy_rows(*c));
                    Ok(0)
                },
                Ok(true) => match delete_at_most(c, stamp) {
                    Err(e) => Err(StoreError::Backing(e)),
                    Ok(n) => Ok(n),
                },
            },
        }
    }

    /// Releases the connection. The session is closed afterwards, also where
    /// releasing failed; closing a closed session reports `Closed`.
    pub fn close(&mut self) -> (r: Result<(), StoreError>)
        ensures
            close_outcome(old(self)@, final(self)@, r),
    {
        let mut current = Slot::Closed;
        std::mem::swap(&mut self.slot, &mut current);
        match current {
            Slot::Closed => Err(StoreError::Closed),
            Slot::Open(c) => match close_connection(c) {
                Err(e) => Err(StoreError::Backing(e)),
                Ok(()) => Ok(()),
            },
        }
    }
}

} // verus!
