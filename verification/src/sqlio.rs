//! Trusted bridge to the embedded SQLite engine (rusqlite).
//!
//! The database a package embeds is built in memory: a fresh connection, the
//! fixed schema, one parameterized statement per row, and a final
//! serialization of the whole database to its single-file byte form. Each
//! row wrapper takes the statement text and plain column values, so that
//! what reaches the engine is fixed by the caller's contracts; nothing is
//! promised of the engine's behavior beyond the class of its errors.

use crate::error::Error;
use vstd::prelude::*;

verus! {

/// Declares rusqlite's `Connection` so that signatures may carry it; values
/// of it are opaque.
#[verifier::external_type_specification]
#[verifier::external_body]
pub struct ExConnection(rusqlite::Connection);

/// Opens a fresh in-memory database.
///
/// Relies on rusqlite's `Connection::open_in_memory`.
#[verifier::external_body]
pub(crate) fn db_open() -> (r: Result<rusqlite::Connection, Error>)
    ensures
        r matches Err(e) ==> e is Database,
{
    match rusqlite::Connection::open_in_memory() {
        Ok(c) => Ok(c),
        Err(e) => Err(Error::Database(format!("{}", e))),
    }
}

/// Runs a batch of SQL statements.
///
/// Relies on rusqlite's `Connection::execute_batch`.
#[verifier::external_body]
pub(crate) fn db_execute_batch(conn: &rusqlite::Connection, sql: &str) -> (r: Result<(), Error>)
    ensures
        r matches Err(e) ==> e is Database,
{
    match conn.execute_batch(sql) {
        Ok(()) => Ok(()),
        Err(e) => Err(Error::Database(format!("{}", e))),
    }
}

/// Runs the configuration-row statement `sql`, binding the five serialized
/// blobs, in order, to its placeholders.
///
/// Relies on rusqlite's `Connection::execute` with `params_from_iter`.
#[verifier::external_body]
pub(crate) fn db_insert_col(
    conn: &rusqlite::Connection,
    sql: &str,
    conf: &str,
    models: &str,
    decks: &str,
    dconf: &str,
    tags: &str,
) -> (r: Result<(), Error>)
    ensures
        r matches Err(e) ==> e is Database,
{
    let params = vec![
        rusqlite::types::Value::Text(conf.to_string()),
        rusqlite::types::Value::Text(models.to_string()),
        rusqlite::types::Value::Text(decks.to_string()),
        rusqlite::types::Value::Text(dconf.to_string()),
        rusqlite::types::Value::Text(tags.to_string()),
    ];
    match conn.execute(sql, rusqlite::params_from_iter(params.into_iter())) {
        Ok(_) => Ok(()),
        Err(e) => Err(Error::Database(format!("{}", e))),
    }
}

/// Runs the notes-row statement `sql`, binding the identifier, content
/// identifier, note-type identifier, modification time, tag text, joined
/// field values and sort-field flag, in order, to its placeholders.
///
/// Relies on rusqlite's `Connection::execute` with `params_from_iter`.
#[verifier::external_body]
pub(crate) fn db_insert_note(
    conn: &rusqlite::Connection,
    sql: &str,
    id: i64,
    guid: &str,
    mid: i64,
    mod_secs: i64,
    tags: &str,
    flds: &str,
    sfld: i64,
) -> (r: Result<(), Error>)
    ensures
        r matches Err(e) ==> e is Database,
{
    let params = vec![
        rusqlite::types::Value::Integer(id),
        rusqlite::types::Value::Text(guid.to_string()),
        rusqlite::types::Value::Integer(mid),
        rusqlite::types::Value::Integer(mod_secs),
        rusqlite::types::Value::Text(tags.to_string()),
        rusqlite::types::Value::Text(flds.to_string()),
        rusqlite::types::Value::Integer(sfld),
    ];
    match conn.execute(sql, rusqlite::params_from_iter(params.into_iter())) {
        Ok(_) => Ok(()),
        Err(e) => Err(Error::Database(format!("{}", e))),
    }
}

/// Runs the cards-row statement `sql`, binding the identifier, note row,
/// deck, ordinal, modification time and queue state, in order, to its
/// placeholders.
///
/// Relies on rusqlite's `Connection::execute` with `params_from_iter`.
#[verifier::external_body]
pub(crate) fn db_insert_card(
    conn: &rusqlite::Connection,
    sql: &str,
    id: i64,
    nid: i64,
    did: i64,
    ord: i64,
    mod_secs: i64,
    queue: i64,
) -> (r: Result<(), Error>)
    ensures
        r matches Err(e) ==> e is Database,
{
    let params = vec![
        rusqlite::types::Value::Integer(id),
        rusqlite::types::Value::Integer(nid),
        rusqlite::types::Value::Integer(did),
        rusqlite::types::Value::Integer(ord),
        rusqlite::types::Value::Integer(mod_secs),
        rusqlite::types::Value::Integer(queue),
    ];
    match conn.execute(sql, rusqlite::params_from_iter(params.into_iter())) {
        Ok(_) => Ok(()),
        Err(e) => Err(Error::Database(format!("{}", e))),
    }
}

/// Serializes the whole database to its single-file byte form.
///
/// Relies on rusqlite's `Connection::serialize` on the main schema.
#[verifier::external_body]
pub(crate) fn db_serialize(conn: &rusqlite::Connection) -> (r: Result<Vec<u8>, Error>)
    ensures
        r matches Err(e) ==> e is Database,
{
    match conn.serialize(rusqlite::MAIN_DB) {
        Ok(data) => Ok(data.to_vec()),
        Err(e) => Err(Error::Database(format!("{}", e))),
    }
}

} // verus!
