//! The SQLite database under a store, reached through rusqlite.
//!
//! Everything in this module is taken on trust: each function runs one
//! statement and states, over `policy_rows` and `has_policy_table`, what
//! SQLite does with it. The statements name the schema that `create_policy_schema`
//! lays down: a `policy` table with a unique index on `key`, so that a key has
//! one row at most and the rows can be read as a map.
//!
//! The library builds sessions only on connections that no other connection
//! can change: a private in-memory database, or a file on which
//! `lock_file_exclusively` has taken SQLite's exclusive lock, which is held
//! until the connection closes. So the table read through a connection
//! changes only by the statements run through it.
use vstd::prelude::*;
use rusqlite::OptionalExtension;
use crate::model::{keys_at_least, keys_at_most, lists_exactly, record};

verus! {

#[verifier::external_type_specification]
#[verifier::external_body]
pub struct ExConnection(rusqlite::Connection);

#[verifier::external_type_specification]
#[verifier::external_body]
pub struct ExSqlError(rusqlite::Error);

/// The rows of the `policy` table in a connection's database, by key: the
/// document, the version label and the stamp of each.
pub uninterp spec fn policy_rows(c: rusqlite::Connection) -> Map<Seq<char>, (Seq<char>, Seq<char>, i64)>;

/// Whether a connection's database has the `policy` table.
pub uninterp spec fn has_policy_table(c: rusqlite::Connection) -> bool;

/// Relies on `rusqlite::Connection::open`: opens the database file at `path`,
/// creating it if it is missing. What the file holds is not known here.
#[verifier::external_body]
pub(crate) fn open_file(path: &str) -> (r: Result<rusqlite::Connection, rusqlite::Error>) {
    rusqlite::Connection::open(path)
}

/// Relies on `rusqlite::Connection::execute_batch` running
/// `PRAGMA locking_mode = EXCLUSIVE; BEGIN EXCLUSIVE; COMMIT;`. In exclusive
/// locking mode SQLite keeps every lock it takes until the connection closes,
/// and `BEGIN EXCLUSIVE` takes the exclusive lock, so afterwards no other
/// connection, in this process or another, can read or write the file. On
/// failure the caller drops the connection. Nothing is said of the rows.
#[verifier::external_body]
pub(crate) fn lock_file_exclusively(c: &mut rusqlite::Connection) -> (r: Result<(), rusqlite::Error>) {
    c.execute_batch("PRAGMA locking_mode = EXCLUSIVE; BEGIN EXCLUSIVE; COMMIT;")
}

/// Relies on `rusqlite::Connection::open_in_memory`: a new private in-memory
/// database, which has no tables and so no rows.
#[verifier::external_body]
pub(crate) fn open_memory() -> (r: Result<rusqlite::Connection, rusqlite::Error>)
    ensures
        r is Ok ==> !has_policy_table(r->Ok_0),
        r is Ok ==> policy_rows(r->Ok_0).dom().is_empty(),
{
    rusqlite::Connection::open_in_memory()
}

/// Relies on `rusqlite::Connection::query_row` running
/// `SELECT EXISTS(SELECT 1 FROM sqlite_master WHERE type = 'table' AND name = 'policy' COLLATE NOCASE)`:
/// whether the `policy` table exists. Without the table there are no rows.
#[verifier::external_body]
pub(crate) fn probe_policy_table(c: &rusqlite::Connection) -> (r: Result<bool, rusqlite::Error>)
    ensures
        r is Ok ==> r->Ok_0 == has_policy_table(*c),
        r is Ok && !r->Ok_0 ==> policy_rows(*c).dom().is_empty(),
{
    c.query_row(
        "SELECT EXISTS(SELECT 1 FROM sqlite_master WHERE type = 'table' AND name = 'policy' COLLATE NOCASE)",
        (),
        |row| row.get(0),
    )
}

/// Relies on `rusqlite::Connection::execute_batch` running
/// `CREATE TABLE IF NOT EXISTS policy (...)` and then
/// `CREATE UNIQUE INDEX IF NOT EXISTS ... ON policy ("key")`. On success the
/// table exists with its unique index on `key`, so a key has one row at most;
/// rows already there are kept, and a table that was missing starts empty.
/// The index cannot be created over duplicate keys: that is an error.
#[verifier::external_body]
pub(crate) fn create_policy_schema(c: &mut rusqlite::Connection) -> (r: Result<(), rusqlite::Error>)
    ensures
        r is Ok ==> has_policy_table(*final(c)),
        r is Ok && has_policy_table(*old(c)) ==> policy_rows(*final(c)) == policy_rows(*old(c)),
        r is Ok && !has_policy_table(*old(c)) ==> policy_rows(*final(c)).dom().is_empty(),
{
    c.execute_batch(
        "CREATE TABLE IF NOT EXISTS policy (
            id INTEGER PRIMARY KEY,
            stamp LONG NOT NULL,
            key TEXT NOT NULL,
            version TEXT NOT NULL,
            policy TEXT NOT NULL
        );
        CREATE UNIQUE INDEX IF NOT EXISTS policy_key_IDX ON policy (\"key\");",
    )
}

/// Relies on `rusqlite::Connection::execute` running
/// `UPDATE policy SET policy = ?1, version = ?2, stamp = ?3 WHERE key = ?4`,
/// which returns the number of rows changed: the record of `key` is replaced
/// where there is one (one row, by the unique index), and nothing changes otherwise.
/// A statement that fails changes nothing: SQLite undoes its changes.
#[verifier::external_body]
pub(crate) fn update_record(
    c: &mut rusqlite::Connection,
    key: &str,
    value: &str,
    version: &str,
    stamp: i64,
) -> (r: Result<usize, rusqlite::Error>)
    ensures
        r is Ok && policy_rows(*old(c)).contains_key(key@) ==> r->Ok_0 == 1 && policy_rows(*final(c))
            == policy_rows(*old(c)).insert(key@, record(value@, version@, stamp)),
        r is Ok && !policy_rows(*old(c)).contains_key(key@) ==> r->Ok_0 == 0 && policy_rows(*final(c))
            == policy_rows(*old(c)),
        r is Err ==> policy_rows(*final(c)) == policy_rows(*old(c)),
{
    c.execute(
        "UPDATE policy SET policy = ?1, version = ?2, stamp = ?3 WHERE key = ?4",
        (value, version, stamp, key),
    )
}

/// Relies on `rusqlite::Connection::execute` running
/// `INSERT INTO policy (key, policy, version, stamp) VALUES (?1, ?2, ?3, ?4)`:
/// the unique index on `key` makes it fail where `key` has a record already;
/// otherwise it adds one row and returns 1. A statement that fails changes nothing.
#[verifier::external_body]
pub(crate) fn insert_record(
    c: &mut rusqlite::Connection,
    key: &str,
    value: &str,
    version: &str,
    stamp: i64,
) -> (r: Result<usize, rusqlite::Error>)
    ensures
        r is Ok ==> !policy_rows(*old(c)).contains_key(key@),
        r is Ok ==> r->Ok_0 == 1 && policy_rows(*final(c)) == policy_rows(*old(c)).insert(
            key@,
            record(value@, version@, stamp),
        ),
        r is Err ==> policy_rows(*final(c)) == policy_rows(*old(c)),
{
    c.execute(
        "INSERT INTO policy (key, policy, version, stamp) VALUES (?1, ?2, ?3, ?4)",
        (key, value, version, stamp),
    )
}

/// Relies on `rusqlite::Connection::query_row` running
/// `SELECT policy, version FROM policy WHERE key = ?1`, with `optional` turning
/// the error for "no row" into `None`: the document and version label of `key`.
#[verifier::external_body]
pub(crate) fn find_record(c: &rusqlite::Connection, key: &str) -> (r: Result<
    Option<(String, String)>,
    rusqlite::Error,
>)
    ensures
        r is Ok ==> (r->Ok_0 is Some <==> policy_rows(*c).contains_key(key@)),
        r is Ok && r->Ok_0 is Some ==> (r->Ok_0->Some_0).0@ == policy_rows(*c)[key@].0,
        r is Ok && r->Ok_0 is Some ==> (r->Ok_0->Some_0).1@ == policy_rows(*c)[key@].1,
{
    c.query_row(
        "SELECT policy, version FROM policy WHERE key = ?1",
        (key,),
        |row| Ok((row.get(0)?, row.get(1)?)),
    ).optional()
}

/// Relies on `rusqlite::Statement::query_map` running
/// `SELECT key FROM policy WHERE stamp >= ?1`: the keys of the records whose
/// stamp is at least `stamp`, each once, in whatever order SQLite reads them.
#[verifier::external_body]
pub(crate) fn select_keys_at_least(c: &rusqlite::Connection, stamp: i64) -> (r: Result<
    Vec<String>,
    rusqlite::Error,
>)
    ensures
        r is Ok ==> lists_exactly(r->Ok_0@, keys_at_least(policy_rows(*c), stamp)),
{
    let mut stmt = c.prepare("SELECT key FROM policy WHERE stamp >= ?1")?;
    let keys = stmt.query_map((stamp,), |row| row.get(0))?.collect::<Result<Vec<String>, _>>();
    keys
}

/// Relies on `rusqlite::Statement::query_map` running
/// `SELECT key FROM policy WHERE stamp <= ?1`: the keys of the records whose
/// stamp is at most `stamp`, each once, in whatever order SQLite reads them.
#[verifier::external_body]
pub(crate) fn select_keys_at_most(c: &rusqlite::Connection, stamp: i64) -> (r: Result<
    Vec<String>,
    rusqlite::Error,
>)
    ensures
        r is Ok ==> lists_exactly(r->Ok_0@, keys_at_most(policy_rows(*c), stamp)),
{
    let mut stmt = c.prepare("SELECT key FROM policy WHERE stamp <= ?1")?;
    let keys = stmt.query_map((stamp,), |row| row.get(0))?.collect::<Result<Vec<String>, _>>();
    keys
}

/// Relies on `rusqlite::Connection::execute` running
/// `DELETE FROM policy WHERE key = ?1`, which returns the number of rows
/// deleted: one where `key` had a record, none otherwise. A statement that
/// fails changes nothing.
#[verifier::external_body]
pub(crate) fn delete_record(c: &mut rusqlite::Connection, key: &str) -> (r: Result<usize, rusqlite::Error>)
    ensures
        r is Ok ==> policy_rows(*final(c)) == policy_rows(*old(c)).remove(key@),
        r is Ok ==> r->Ok_0 == (if policy_rows(*old(c)).contains_key(key@) { 1int } else { 0int }),
        r is Err ==> policy_rows(*final(c)) == policy_rows(*old(c)),
{
    c.execute("DELETE FROM policy WHERE key = ?1", (key,))
}

/// Relies on `rusqlite::Connection::execute` running
/// `DELETE FROM policy WHERE stamp >= ?1`, which returns the number of rows
/// deleted. A statement that fails changes nothing.
#[verifier::external_body]
pub(crate) fn delete_at_least(c: &mut rusqlite::Connection, stamp: i64) -> (r: Result<usize, rusqlite::Error>)
    ensures
        r is Ok ==> policy_rows(*final(c)) == policy_rows(*old(c)).remove_keys(
            keys_at_least(policy_rows(*old(c)), stamp),
        ),
        r is Ok ==> r->Ok_0 == keys_at_least(policy_rows(*old(c)), stamp).len(),
        r is Err ==> policy_rows(*final(c)) == policy_rows(*old(c)),
{
    c.execute("DELETE FROM policy WHERE stamp >= ?1", (stamp,))
}

/// Relies on `rusqlite::Connection::execute` running
/// `DELETE FROM policy WHERE stamp <= ?1`, which returns the number of rows
/// deleted. A statement that fails changes nothing.
#[verifier::external_body]
pub(crate) fn delete_at_most(c: &mut rusqlite::Connection, stamp: i64) -> (r: Result<usize, rusqlite::Error>)
    ensures
        r is Ok ==> policy_rows(*final(c)) == policy_rows(*old(c)).remove_keys(
            keys_at_most(policy_rows(*old(c)), stamp),
        ),
        r is Ok ==> r->Ok_0 == keys_at_most(policy_rows(*old(c)), stamp).len(),
        r is Err ==> policy_rows(*final(c)) == policy_rows(*old(c)),
{
    c.execute("DELETE FROM policy WHERE stamp <= ?1", (stamp,))
}

/// Relies on `rusqlite::Connection::close`: releases the connection. On
/// failure rusqlite hands the connection back with the error; it is dropped
/// here, which closes it as well as it can.
#[verifier::external_body]
pub(crate) fn close_connection(c: rusqlite::Connection) -> (r: Result<(), rusqlite::Error>) {
    c.close().map_err(|(_, e)| e)
}

} // verus!
