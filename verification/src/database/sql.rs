//! The SQLite boundary: the few rusqlite operations the library performs,
//! each behind a trusted wrapper, and the plain values that cross it.
//!
//! What SQLite answers depends on the database file, so no wrapper promises
//! more of a result than its shape; the verified code above decodes rows.
use vstd::prelude::*;

verus! {

#[verifier::external_type_specification]
#[verifier::external_body]
pub struct ExConnection(rusqlite::Connection);

#[verifier::external_type_specification]
#[verifier::external_body]
pub struct ExStatement<'conn>(rusqlite::Statement<'conn>);

#[verifier::external_type_specification]
#[verifier::external_body]
pub struct ExRows<'stmt>(rusqlite::Rows<'stmt>);

#[verifier::external_type_specification]
#[verifier::external_body]
pub struct ExSqlError(rusqlite::Error);

/// A value bound to a statement parameter.
#[derive(Debug, Clone)]
pub enum SqlParam {
    Null,
    Integer(i64),
    Text(String),
}

/// A value read from a result column. Floating-point columns are reported
/// without their payload: nothing in the library reads them.
pub enum SqlValue {
    Null,
    Integer(i64),
    Real,
    Text(String),
    Blob(Vec<u8>),
}

/// `rusqlite::Connection::open`: opens (or creates) the database file.
#[verifier::external_body]
pub(crate) fn sql_open(path: &str) -> (result: Result<rusqlite::Connection, rusqlite::Error>) {
    rusqlite::Connection::open(path)
}

/// `rusqlite::Connection::busy_timeout`: waits up to `seconds` on a locked
/// database before failing.  The crate turns the wait into `i32`
/// milliseconds and panics past that, so `seconds` stays within it.
#[verifier::external_body]
pub(crate) fn sql_busy_timeout(connection: &rusqlite::Connection, seconds: u64) -> (result: Result<
    (),
    rusqlite::Error,
>)
    requires
        seconds <= 2147483,
{
    connection.busy_timeout(std::time::Duration::from_secs(seconds))
}

/// `rusqlite::Connection::execute_batch`: runs the statements of `sql` in turn.
#[verifier::external_body]
pub(crate) fn sql_execute_batch(connection: &rusqlite::Connection, sql: &str) -> (result: Result<
    (),
    rusqlite::Error,
>) {
    connection.execute_batch(sql)
}

/// `rusqlite::Connection::execute`: runs one statement with `params` bound
/// in order and reports how many rows it changed.
#[verifier::external_body]
pub(crate) fn sql_execute(
    connection: &rusqlite::Connection,
    sql: &str,
    params: &[SqlParam],
) -> (result: Result<usize, rusqlite::Error>) {
    let values: Vec<rusqlite::types::Value> = params.iter().map(|p| match p {
        SqlParam::Null => rusqlite::types::Value::Null,
        SqlParam::Integer(i) => rusqlite::types::Value::Integer(*i),
        SqlParam::Text(t) => rusqlite::types::Value::Text(t.clone()),
    }).collect();
    connection.execute(sql, rusqlite::params_from_iter(values))
}

/// `rusqlite::Connection::last_insert_rowid`: the rowid of the latest insert
/// on this connection.
#[verifier::external_body]
pub(crate) fn sql_last_insert_rowid(connection: &rusqlite::Connection) -> (result: i64) {
    connection.last_insert_rowid()
}

/// `rusqlite::Connection::prepare`: compiles one statement.
#[verifier::external_body]
pub(crate) fn sql_prepare<'conn>(connection: &'conn rusqlite::Connection, sql: &str) -> (result:
    Result<rusqlite::Statement<'conn>, rusqlite::Error>) {
    connection.prepare(sql)
}

/// `rusqlite::Statement::column_count`: the number of result columns.
#[verifier::external_body]
pub(crate) fn sql_column_count(statement: &rusqlite::Statement) -> (result: usize) {
    statement.column_count()
}

/// `rusqlite::Statement::query`: starts the statement with `params` bound in
/// order.
#[verifier::external_body]
pub(crate) fn sql_query<'stmt>(
    statement: &'stmt mut rusqlite::Statement,
    params: &[SqlParam],
) -> (result: Result<rusqlite::Rows<'stmt>, rusqlite::Error>) {
    let values: Vec<rusqlite::types::Value> = params.iter().map(|p| match p {
        SqlParam::Null => rusqlite::types::Value::Null,
        SqlParam::Integer(i) => rusqlite::types::Value::Integer(*i),
        SqlParam::Text(t) => rusqlite::types::Value::Text(t.clone()),
    }).collect();
    statement.query(rusqlite::params_from_iter(values))
}

/// `rusqlite::Rows::next`, reading the first `columns` cells of the row with
/// `rusqlite::Row::get_ref` (text through `Row::get::<String>`, which refuses
/// text that is not UTF-8). A row, when there is one, has exactly `columns`
/// cells.
#[verifier::external_body]
pub(crate) fn sql_next_row(rows: &mut rusqlite::Rows, columns: usize) -> (result: Result<
    Option<Vec<SqlValue>>,
    rusqlite::Error,
>)
    ensures
        result matches Ok(Some(cells)) ==> cells.len() == columns,
{
    let Some(row) = rows.next()? else { return Ok(None) };
    let mut cells = Vec::new();
    for i in 0..columns {
        cells.push(match row.get_ref(i)? {
            rusqlite::types::ValueRef::Null => SqlValue::Null,
            rusqlite::types::ValueRef::Integer(v) => SqlValue::Integer(v),
            rusqlite::types::ValueRef::Real(_) => SqlValue::Real,
            rusqlite::types::ValueRef::Text(_) => SqlValue::Text(row.get::<usize, String>(i)?),
            rusqlite::types::ValueRef::Blob(b) => SqlValue::Blob(b.to_vec()),
        });
    }
    Ok(Some(cells))
}

/// The `Display` text of a `rusqlite::Error`.
#[verifier::external_body]
pub(crate) fn sql_error_message(error: &rusqlite::Error) -> (result: String) {
    error.to_string()
}

} // verus!
