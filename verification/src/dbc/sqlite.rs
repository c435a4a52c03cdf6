//! The SQLite backend: the native client runs the statement, and the
//! verified mapper turns its dynamically-typed cells and declared column
//! types into the canonical model. SQLite types cells, not columns: the
//! declared type string is only a hint, mapped best-effort (`INTEGER`,
//! `REAL`, `TEXT`, `BLOB`), and a column without a declaration reports
//! `UNKNOWN`. Text cells decode to the byte-string variant, keeping one
//! convention across backends. Whether rows are materialized is decided by
//! the statement's leading keyword: only a statement that begins with
//! `SELECT` is run for rows; anything else is run for its affected-row
//! count.

use std::sync::Arc;

use rusqlite;
use rusqlite::types::ValueRef;

use vstd::prelude::*;

use crate::dbc::Error;
use crate::dbc::is_select;
use crate::dbc::spec_is_select;
use crate::dbc::result::QueryResult;
use crate::dbc::value::Column;
use crate::dbc::value::ColumnType;
use crate::dbc::value::Value;
use crate::dbc::value::ValueModel;

verus! {

/// The native SQLite handle, held opaquely.
#[verifier::external_body]
pub struct SqliteHandle {
    conn: rusqlite::Connection,
}

#[verifier::external_type_specification]
#[verifier::external_body]
pub struct ExSqliteStatement<'conn>(rusqlite::Statement<'conn>);

#[verifier::external_type_specification]
#[verifier::external_body]
pub struct ExSqliteRows<'stmt>(rusqlite::Rows<'stmt>);

/// One native cell as SQLite reports it, with a real carried as its
/// IEEE-754 bit pattern so the verified mapper works on plain values.
pub enum SqliteCell {
    Null,
    Int(i64),
    RealBits(u64),
    Text(Vec<u8>),
    Blob(Vec<u8>),
}

/// The mathematical model of a [`SqliteCell`].
pub enum SqliteCellModel {
    Null,
    Int(i64),
    RealBits(u64),
    Text(Seq<u8>),
    Blob(Seq<u8>),
}

impl View for SqliteCell {
    type V = SqliteCellModel;

    open spec fn view(&self) -> SqliteCellModel {
        match self {
            SqliteCell::Null => SqliteCellModel::Null,
            SqliteCell::Int(n) => SqliteCellModel::Int(*n),
            SqliteCell::RealBits(b) => SqliteCellModel::RealBits(*b),
            SqliteCell::Text(b) => SqliteCellModel::Text(b@),
            SqliteCell::Blob(b) => SqliteCellModel::Blob(b@),
        }
    }
}

/// Relies on rusqlite::Connection::open_in_memory: a fresh private store,
/// independent of every other connection.
#[verifier::external_body]
fn sqlite_open_memory() -> (r: Result<SqliteHandle, String>)
{
    match rusqlite::Connection::open_in_memory() {
        Ok(conn) => Ok(SqliteHandle { conn }),
        Err(e) => Err(e.to_string()),
    }
}

/// Relies on rusqlite::Connection::open: a store backed by the named path.
#[verifier::external_body]
fn sqlite_open(path: &str) -> (r: Result<SqliteHandle, String>)
{
    match rusqlite::Connection::open(path) {
        Ok(conn) => Ok(SqliteHandle { conn }),
        Err(e) => Err(e.to_string()),
    }
}

/// Relies on rusqlite::Connection::prepare: compiles one SQL statement.
#[verifier::external_body]
fn sqlite_prepare<'c>(handle: &'c SqliteHandle, query: &str) -> (r: Result<
    rusqlite::Statement<'c>,
    String,
>)
{
    handle.conn.prepare(query).map_err(|e| e.to_string())
}

/// Relies on rusqlite::Statement::columns: the result set's column names
/// and declared type strings, in column order. One caveat the native crate
/// imposes: its column accessors panic on a schema whose column name or
/// declared type is not valid UTF-8 (SQLite itself does not validate
/// identifier bytes), and it offers no non-panicking route to them, so a
/// store written with such identifiers aborts here exactly as it would
/// when read with the native client directly.
#[verifier::external_body]
fn sqlite_columns(stmt: &rusqlite::Statement) -> (r: Vec<(String, Option<String>)>)
{
    stmt.columns().iter().map(
        |c| (c.name().to_string(), c.decl_type().map(|d| d.to_string())),
    ).collect()
}

/// Relies on rusqlite::Statement::execute: runs a statement that produces
/// no rows and reports how many rows it changed.
#[verifier::external_body]
fn sqlite_execute(stmt: &mut rusqlite::Statement) -> (r: Result<usize, String>)
{
    stmt.execute([]).map_err(|e| e.to_string())
}

/// Relies on rusqlite::Statement::query: starts the row cursor.
#[verifier::external_body]
fn sqlite_query<'s>(stmt: &'s mut rusqlite::Statement) -> (r: Result<rusqlite::Rows<'s>, String>)
{
    stmt.query([]).map_err(|e| e.to_string())
}

/// Relies on rusqlite::Rows::next and rusqlite's cell accessor: the next
/// row of the cursor as one native cell per column (`None` when the result
/// set is exhausted), each cell one of SQLite's five storage classes, a
/// real as its bit pattern. Reading each of the `ncols` cells of a row the
/// cursor yielded gives exactly `ncols` cells.
#[verifier::external_body]
fn sqlite_next_row(rows: &mut rusqlite::Rows, ncols: usize) -> (r: Result<
    Option<Vec<SqliteCell>>,
    String,
>)
    ensures
        r matches Ok(Some(cells)) ==> cells@.len() == ncols,
{
    match rows.next().map_err(|e| e.to_string())? {
        None => Ok(None),
        Some(row) => (0..ncols).map(|i| match row.get_ref(i) {
            Ok(ValueRef::Null) => Ok(SqliteCell::Null),
            Ok(ValueRef::Integer(n)) => Ok(SqliteCell::Int(n)),
            Ok(ValueRef::Real(f)) => Ok(SqliteCell::RealBits(f.to_bits())),
            Ok(ValueRef::Text(b)) => Ok(SqliteCell::Text(b.to_vec())),
            Ok(ValueRef::Blob(b)) => Ok(SqliteCell::Blob(b.to_vec())),
            Err(e) => Err(e.to_string()),
        }).collect::<Result<Vec<_>, _>>().map(Some),
    }
}

/// The canonical type a declared SQLite column type maps to: the four
/// storage-class names are recognized, anything else (or no declaration at
/// all) degrades to `UNKNOWN`.
pub open spec fn spec_sqlite_column_type(decl: Option<Seq<char>>) -> ColumnType {
    match decl {
        None => ColumnType::UNKNOWN,
        Some(d) => if d == "INTEGER"@ {
            ColumnType::INT
        } else if d == "REAL"@ {
            ColumnType::DOUBLE
        } else if d == "TEXT"@ {
            ColumnType::VARCHAR
        } else if d == "BLOB"@ {
            ColumnType::BLOB
        } else {
            ColumnType::UNKNOWN
        },
    }
}

/// Maps one declared type string, as `spec_sqlite_column_type` has it.
pub fn map_sqlite_column_type(decl: &Option<String>) -> (r: ColumnType)
    ensures
        r == spec_sqlite_column_type(match decl {
            Some(d) => Some(d@),
            None => None,
        }),
{
    match decl {
        None => ColumnType::UNKNOWN,
        Some(d) => {
            if crate::dbc::result::str_eq(d.as_str(), "INTEGER") {
                ColumnType::INT
            } else if crate::dbc::result::str_eq(d.as_str(), "REAL") {
                ColumnType::DOUBLE
            } else if crate::dbc::result::str_eq(d.as_str(), "TEXT") {
                ColumnType::VARCHAR
            } else if crate::dbc::result::str_eq(d.as_str(), "BLOB") {
                ColumnType::BLOB
            } else {
                ColumnType::UNKNOWN
            }
        },
    }
}

/// The canonical value of one native cell: a SQL NULL is canonical null,
/// never a zero of the column's type; integers stay integers; reals keep
/// their bit pattern; text and blobs both become byte strings.
pub open spec fn spec_sqlite_canonical(c: SqliteCellModel) -> ValueModel {
    match c {
        SqliteCellModel::Null => ValueModel::Null,
        SqliteCellModel::Int(n) => ValueModel::Int(n),
        SqliteCellModel::RealBits(b) => ValueModel::Double(b),
        SqliteCellModel::Text(b) => ValueModel::Bytes(b),
        SqliteCellModel::Blob(b) => ValueModel::Bytes(b),
    }
}

/// Maps one native cell, as `spec_sqlite_canonical` has it.
pub fn map_sqlite_cell(c: SqliteCell) -> (r: Value)
    ensures
        r.deep_view() == spec_sqlite_canonical(c@),
{
    match c {
        SqliteCell::Null => Value::NULL,
        SqliteCell::Int(n) => Value::Int(n),
        SqliteCell::RealBits(b) => Value::Double(b),
        SqliteCell::Text(b) => Value::Bytes(b),
        SqliteCell::Blob(b) => Value::Bytes(b),
    }
}

/// A connection to a SQLite store, file-backed or in-memory.
pub struct SQLiteConnection {
    connection: SqliteHandle,
}

impl SQLiteConnection {
    /// Opens the store the URL names. The in-memory sentinel opens a fresh
    /// private store; any other URL is handed to the native client as a
    /// path.
    pub fn get_connection(url: &str) -> (r: Result<SQLiteConnection, Error>)
        ensures
            r is Err ==> r->Err_0 is BackendError,
    {
        proof {
            reveal_strlit("sqlite://:memory:");
        }
        let opened: Result<SqliteHandle, String> = if crate::dbc::result::str_eq(
            url,
            "sqlite://:memory:",
        ) {
            sqlite_open_memory()
        } else {
            sqlite_open(url)
        };
        match opened {
            Ok(connection) => Ok(SQLiteConnection { connection }),
            Err(m) => Err(Error::BackendError(m)),
        }
    }

    /// Runs one statement. A `SELECT` materializes rows under one shared
    /// schema and reports no affected rows; anything else runs for its
    /// affected-row count and yields no rows.
    pub fn execute(&mut self, query: &str) -> (r: Result<QueryResult, Error>)
        ensures
            r matches Ok(qr) ==> qr@.wf(),
            r matches Ok(qr) ==> (!spec_is_select(query@) ==> qr@.rows.len() == 0),
            r matches Ok(qr) ==> (spec_is_select(query@) ==> qr@.affected_row_count == 0),
            r matches Err(e) ==> (e is BackendError || e is ConversionError),
    {
        let stmt = sqlite_prepare(&self.connection, query);
        let mut stmt = match stmt {
            Ok(s) => s,
            Err(m) => {
                return Err(Error::BackendError(m));
            },
        };
        let native_cols = sqlite_columns(&stmt);
        let mut cols: Vec<Column> = Vec::new();
        let mut k: usize = 0;
        let ncols = native_cols.len();
        while k < ncols
            invariant
                k <= ncols,
                ncols == native_cols@.len(),
                cols@.len() == k,
            decreases ncols - k,
        {
            let name = native_cols[k].0.clone();
            let column_type = map_sqlite_column_type(&native_cols[k].1);
            cols.push(Column { name, column_type });
            k += 1;
        }
        if !is_select(query) {
            match sqlite_execute(&mut stmt) {
                Ok(n) => {
                    let qr = QueryResult { rows: Vec::new(), affected_row_count: n };
                    proof {
                        assert(qr@.rows =~= Seq::<crate::dbc::result::RowModel>::empty());
                    }
                    Ok(qr)
                },
                Err(m) => Err(Error::BackendError(m)),
            }
        } else {
            let schema = Arc::new(cols);
            let mut out_rows: Vec<crate::dbc::result::Row> = Vec::new();
            let mut rows = match sqlite_query(&mut stmt) {
                Ok(rs) => rs,
                Err(m) => {
                    return Err(Error::BackendError(m));
                },
            };
            // More rows than a machine word can count cannot arise; the
            // budget only bounds the loop for the termination check.
            let mut budget: usize = usize::MAX;
            loop
                invariant
                    ncols == schema.deep_view().len(),
                    forall|i: int| 0 <= i < out_rows.deep_view().len() ==> (#[trigger] out_rows.deep_view()[i]).values.len()
                        == schema.deep_view().len(),
                    forall|i: int| 0 <= i < out_rows.deep_view().len() ==> (#[trigger] out_rows.deep_view()[i]).columns
                        == schema.deep_view(),
                decreases budget,
            {
                if budget == 0 {
                    return Err(
                        Error::BackendError(String::from_str("result set too large")),
                    );
                }
                budget = budget - 1;
                let next = sqlite_next_row(&mut rows, ncols);
                match next {
                    Err(m) => {
                        return Err(Error::BackendError(m));
                    },
                    Ok(None) => {
                        break;
                    },
                    Ok(Some(mut cells)) => {
                        let mut vals: Vec<Value> = Vec::new();
                        let mut i: usize = 0;
                        let n = cells.len();
                        while i < n
                            invariant
                                i <= n,
                                i + cells@.len() == n,
                                vals.deep_view().len() == i,
                            decreases n - i,
                        {
                            let c = cells.remove(0);
                            vals.push(map_sqlite_cell(c));
                            i += 1;
                        }
                        let ghost prev = out_rows.deep_view();
                        let row = crate::dbc::result::Row::new(vals, crate::dbc::result::arc_clone(&schema));
                        out_rows.push(row);
                        proof {
                            assert(out_rows.deep_view() =~= prev.push(row.deep_view()));
                        }
                    },
                }
            }
            let qr = QueryResult { rows: out_rows, affected_row_count: 0 };
            proof {
                assert(ncols == schema.deep_view().len());
            }
            Ok(qr)
        }
    }
}

} // verus!
