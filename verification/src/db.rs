//! Trusted boundary to the relational database driver. Each wrapper makes
//! one rusqlite call; nothing is claimed of the database file's content,
//! which the importer tracks for itself in its model.

use vstd::prelude::*;

verus! {

#[verifier::external_type_specification]
#[verifier::external_body]
pub struct ExConnection(rusqlite::Connection);

#[verifier::external_type_specification]
#[verifier::external_body]
pub struct ExSqliteError(rusqlite::Error);

/// Relies on rusqlite's Connection::open: opens the database file at `path`,
/// creating it when missing.
#[verifier::external_body]
pub fn open_connection(path: &str) -> Result<rusqlite::Connection, rusqlite::Error> {
    rusqlite::Connection::open(path)
}

/// Relies on rusqlite's Connection::open_in_memory: opens a transient
/// database that lives only as long as the connection.
#[verifier::external_body]
pub fn open_memory_connection() -> Result<rusqlite::Connection, rusqlite::Error> {
    rusqlite::Connection::open_in_memory()
}

/// Relies on rusqlite's Connection::execute_batch: runs statements that bind
/// no parameters (table creation, BEGIN, COMMIT).
#[verifier::external_body]
pub fn exec_batch(conn: &rusqlite::Connection, sql: &str) -> Result<(), rusqlite::Error> {
    conn.execute_batch(sql)
}

/// Relies on rusqlite's Connection::execute, binding two text parameters.
#[verifier::external_body]
pub fn exec_text_text(
    conn: &rusqlite::Connection,
    sql: &str,
    a: &[u8],
    b: &[u8],
) -> Result<(), rusqlite::Error> {
    let a = match core::str::from_utf8(a) {
        Ok(s) => s,
        Err(e) => return Err(rusqlite::Error::from(e)),
    };
    let b = match core::str::from_utf8(b) {
        Ok(s) => s,
        Err(e) => return Err(rusqlite::Error::from(e)),
    };
    match conn.execute(sql, (a, b)) {
        Ok(_) => Ok(()),
        Err(e) => Err(e),
    }
}

/// Relies on rusqlite's Connection::execute, binding an integer and a text
/// parameter.
#[verifier::external_body]
pub fn exec_i64_text(
    conn: &rusqlite::Connection,
    sql: &str,
    id: i64,
    t: &[u8],
) -> Result<(), rusqlite::Error> {
    let t = match core::str::from_utf8(t) {
        Ok(s) => s,
        Err(e) => return Err(rusqlite::Error::from(e)),
    };
    match conn.execute(sql, (id, t)) {
        Ok(_) => Ok(()),
        Err(e) => Err(e),
    }
}

/// Relies on rusqlite's Connection::execute, binding a text and an integer
/// parameter.
#[verifier::external_body]
pub fn exec_text_i64(
    conn: &rusqlite::Connection,
    sql: &str,
    t: &[u8],
    id: i64,
) -> Result<(), rusqlite::Error> {
    let t = match core::str::from_utf8(t) {
        Ok(s) => s,
        Err(e) => return Err(rusqlite::Error::from(e)),
    };
    match conn.execute(sql, (t, id)) {
        Ok(_) => Ok(()),
        Err(e) => Err(e),
    }
}

/// Relies on rusqlite's Connection::execute, binding integer, text and
/// integer parameters.
#[verifier::external_body]
pub fn exec_i64_text_i64(
    conn: &rusqlite::Connection,
    sql: &str,
    a: i64,
    t: &[u8],
    b: i64,
) -> Result<(), rusqlite::Error> {
    let t = match core::str::from_utf8(t) {
        Ok(s) => s,
        Err(e) => return Err(rusqlite::Error::from(e)),
    };
    match conn.execute(sql, (a, t, b)) {
        Ok(_) => Ok(()),
        Err(e) => Err(e),
    }
}

} // verus!
