use vstd::prelude::*;

verus! {

#[verifier::external_type_specification]
#[verifier::external_body]
pub struct ExConnection(rusqlite::Connection);

#[verifier::external_type_specification]
#[verifier::external_body]
pub struct ExError(rusqlite::Error);

/// Relies on rusqlite's `Connection::open`: opens, creating it if absent,
/// the database file at `path`.
#[verifier::external_body]
pub(crate) fn open_connection(path: &str) -> (r: Result<rusqlite::Connection, rusqlite::Error>) {
    rusqlite::Connection::open(path)
}

/// Relies on rusqlite's `Connection::execute`: runs one statement with the
/// given texts bound to its parameters, in order.
#[verifier::external_body]
pub(crate) fn execute_statement(
    conn: &rusqlite::Connection,
    sql: &str,
    params: &Vec<String>,
) -> (r: Result<usize, rusqlite::Error>) {
    conn.execute(sql, rusqlite::params_from_iter(params.iter()))
}

/// Relies on rusqlite's `Connection::execute_batch`: runs every statement of `sql`.
#[verifier::external_body]
pub(crate) fn execute_script(conn: &rusqlite::Connection, sql: &str) -> (r: Result<(), rusqlite::Error>) {
    conn.execute_batch(sql)
}

/// Relies on rusqlite's `Connection::query_row`: the integer in the first
/// column of the first row that `sql` yields.
#[verifier::external_body]
pub(crate) fn query_integer(conn: &rusqlite::Connection, sql: &str) -> (r: Result<i64, rusqlite::Error>) {
    conn.query_row(sql, [], |row| row.get::<usize, i64>(0))
}

/// Relies on rusqlite's `Statement::query_map`: the first three columns, as
/// text, of every row that `sql` yields.
#[verifier::external_body]
pub(crate) fn query_text_rows(
    conn: &rusqlite::Connection,
    sql: &str,
) -> (r: Result<Vec<(String, String, String)>, rusqlite::Error>) {
    let mut statement = conn.prepare(sql)?;
    let rows = statement.query_map([], |row| Ok((row.get(0)?, row.get(1)?, row.get(2)?)))?;
    rows.collect()
}

/// Relies on the `Display` impl of `rusqlite::Error`: a description of the error.
#[verifier::external_body]
pub(crate) fn error_text(e: &rusqlite::Error) -> (r: String) {
    e.to_string()
}

} // verus!
