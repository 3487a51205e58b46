//! The store: one SQLite file with one table of entries. The store assigns
//! each row its id and its time; the client's three fields go in as bound
//! parameters, never spliced into the statement's text.
use vstd::prelude::*;
use crate::entry::DiaryEntry;

verus! {

#[verifier::external_type_specification]
#[verifier::external_body]
pub struct ExConnection(sqlite::Connection);

#[verifier::external_type_specification]
#[verifier::external_body]
pub struct ExSqliteError(sqlite::Error);

#[verifier::external_type_specification]
#[verifier::external_body]
pub struct ExStatement<'l>(sqlite::Statement<'l>);

#[verifier::external_type_specification]
#[verifier::external_body]
pub struct ExState(sqlite::State);

/// Creates the entry table where it is missing, and leaves it as it is
/// where it exists.
pub const SCHEMA_SQL: &'static str = "CREATE TABLE IF NOT EXISTS diary_entries (id INTEGER PRIMARY KEY AUTOINCREMENT, datetime TEXT, feeling_quant INTEGER, feeling_word TEXT, freeform_text TEXT)";

/// Adds one row; the store's clock gives its time, the three parameters
/// give the rating, the word and the text.
pub const INSERT_SQL: &'static str = "INSERT INTO diary_entries (datetime, feeling_quant, feeling_word, freeform_text) VALUES (datetime('now'), ?, ?, ?)";

/// The step at which the store failed, with the store's own error.
#[derive(Debug)]
pub enum StorageError {
    /// The file could not be opened or created.
    Open(sqlite::Error),
    /// The table could not be created.
    Schema(sqlite::Error),
    /// The insert statement could not be prepared.
    Prepare(sqlite::Error),
    /// A parameter could not be bound.
    Bind(sqlite::Error),
    /// The insert could not be run.
    Execute(sqlite::Error),
}

/// Relies on `sqlite::open`: opens the file at `path` for reading and
/// writing, and creates it where it is missing; fails with an error rather
/// than panicking.
#[verifier::external_body]
fn sqlite_open(path: &str) -> (r: Result<sqlite::Connection, sqlite::Error>) {
    sqlite::open(path)
}

/// Relies on `sqlite::Connection::execute`: runs the statements of `sql`.
#[verifier::external_body]
fn sqlite_execute(conn: &sqlite::Connection, sql: &str) -> (r: Result<(), sqlite::Error>) {
    conn.execute(sql)
}

/// Relies on `sqlite::Connection::prepare`: compiles one statement.
#[verifier::external_body]
fn sqlite_prepare<'a>(conn: &'a sqlite::Connection, sql: &str) -> (r: Result<
    sqlite::Statement<'a>,
    sqlite::Error,
>) {
    conn.prepare(sql)
}

/// Relies on `sqlite::Statement::bind` with an index and an `i64`: binds
/// the integer to the parameter at that index, counted from 1; index 0
/// is refused with an error.
#[verifier::external_body]
fn sqlite_bind_int(stmt: &mut sqlite::Statement, index: usize, value: i64) -> (r: Result<
    (),
    sqlite::Error,
>)
    ensures
        index == 0 ==> r is Err,
{
    stmt.bind((index, value))
}

/// Relies on `sqlite::Statement::bind` with an index and a `&str`: binds
/// a copy of the text to the parameter at that index, counted from 1;
/// index 0 is refused with an error.
#[verifier::external_body]
fn sqlite_bind_text(stmt: &mut sqlite::Statement, index: usize, value: &str) -> (r: Result<
    (),
    sqlite::Error,
>)
    ensures
        index == 0 ==> r is Err,
{
    stmt.bind((index, value))
}

/// Relies on `sqlite::Statement::next`: runs the statement one step.
#[verifier::external_body]
fn sqlite_step(stmt: &mut sqlite::Statement) -> (r: Result<sqlite::State, sqlite::Error>) {
    stmt.next()
}

/// Opens the store at `path`, creating the file where it is missing.
pub fn open_store(path: &str) -> (r: Result<sqlite::Connection, StorageError>)
    ensures
        r is Err ==> r->Err_0 is Open,
{
    match sqlite_open(path) {
        Ok(conn) => Ok(conn),
        Err(e) => Err(StorageError::Open(e)),
    }
}

/// Creates the entry table where it is missing. Running it again on the
/// same store changes nothing.
pub fn ensure_schema(conn: &sqlite::Connection) -> (r: Result<(), StorageError>)
    ensures
        r is Err ==> r->Err_0 is Schema,
{
    match sqlite_execute(conn, SCHEMA_SQL) {
        Ok(()) => Ok(()),
        Err(e) => Err(StorageError::Schema(e)),
    }
}

/// A value bound to a parameter of a statement.
#[derive(Debug)]
pub enum SqlParam {
    Int(i64),
    Text(String),
}

/// The parameters of `INSERT_SQL` for an entry, with their indices: the
/// rating as an integer at 1, the word at 2 and the text at 3, each as it
/// stands in the entry.
pub fn insert_params(entry: &DiaryEntry) -> (r: Vec<(usize, SqlParam)>)
    ensures
        r@.len() == 3,
        r@[0].0 == 1 && r@[0].1 == SqlParam::Int(entry.feeling_quant as i64),
        r@[1].0 == 2 && r@[1].1 is Text && r@[1].1->Text_0@ == entry.feeling_word@,
        r@[2].0 == 3 && r@[2].1 is Text && r@[2].1->Text_0@ == entry.freeform_text@,
{
    let mut r: Vec<(usize, SqlParam)> = Vec::new();
    r.push((1, SqlParam::Int(entry.feeling_quant as i64)));
    r.push((2, SqlParam::Text(entry.feeling_word.clone())));
    r.push((3, SqlParam::Text(entry.freeform_text.clone())));
    r
}

/// Appends one entry as one row, in a single statement: `INSERT_SQL` with
/// exactly the items of `insert_params(entry)` bound, in order. The store
/// assigns the id and the time; a failure leaves no row behind.
pub fn append(conn: &sqlite::Connection, entry: &DiaryEntry) -> (r: Result<(), StorageError>)
    requires
        entry.wf(),
    ensures
        r is Err ==> (r->Err_0 is Prepare || r->Err_0 is Bind || r->Err_0 is Execute),
{
    let params = insert_params(entry);
    let mut stmt = match sqlite_prepare(conn, INSERT_SQL) {
        Ok(s) => s,
        Err(e) => return Err(StorageError::Prepare(e)),
    };
    let mut i: usize = 0;
    while i < params.len()
        invariant
            i <= params@.len(),
            forall|k: int| 0 <= k < params@.len() ==> params@[k].0 >= 1,
        decreases params@.len() - i,
    {
        let (index, param) = &params[i];
        let bound = match param {
            SqlParam::Int(v) => sqlite_bind_int(&mut stmt, *index, *v),
            SqlParam::Text(t) => sqlite_bind_text(&mut stmt, *index, t.as_str()),
        };
        if let Err(e) = bound {
            return Err(StorageError::Bind(e));
        }
        i = i + 1;
    }
    match sqlite_step(&mut stmt) {
        Ok(_) => Ok(()),
        Err(e) => Err(StorageError::Execute(e)),
    }
}

/// Stores one entry in the file at `path`: opens it, makes sure the table
/// exists, then appends the row as `append` does. Stops at the first step
/// that fails.
pub fn save_entry(path: &str, entry: &DiaryEntry) -> (r: Result<(), StorageError>)
    requires
        entry.wf(),
{
    let conn = open_store(path)?;
    ensure_schema(&conn)?;
    append(&conn, entry)
}

} // verus!
