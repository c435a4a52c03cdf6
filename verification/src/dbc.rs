//! Backend-agnostic database access: open a connection by URL, issue SQL
//! text, and receive a normalized tabular result whatever engine answered.

pub mod base64;
pub mod jtext;
mod mysql_backend;
mod params;
mod postgres_backend;
mod de;
mod ser;
mod sqlite;
mod result;
mod roundtrip;
pub mod wire;
mod value;

pub use params::spec_find_qmark;
pub use params::spec_quote_param;
pub use params::spec_replace_first;
pub use params::spec_substitute;
pub use params::substitute_params;
pub use result::QueryResult;
pub use result::QueryResultModel;
pub use result::Row;
pub use result::RowModel;
pub use result::lemma_schema_sharing;
pub use result::spec_find_column;
pub use mysql_backend::MySQLConnection;
pub use mysql_backend::MysqlCell;
pub use mysql_backend::MysqlCellModel;
pub use mysql_backend::map_mysql_cell;
pub use mysql_backend::spec_mysql_canonical;
pub use mysql_backend::map_mysql_column_type;
pub use mysql_backend::spec_mysql_column_type;
pub use postgres_backend::PgCell;
pub use postgres_backend::PgCellModel;
pub use postgres_backend::PostgresConnection;
pub use postgres_backend::map_pg_cell;
pub use postgres_backend::spec_pg_canonical;
pub use postgres_backend::spec_pg_cell_shape;
pub use postgres_backend::map_pg_column_type;
pub use postgres_backend::spec_pg_column_type;
pub use postgres_backend::spec_pg_decodable;
pub use roundtrip::lemma_coltype_roundtrip;
pub use roundtrip::lemma_column_roundtrip;
pub use roundtrip::lemma_result_roundtrip;
pub use roundtrip::lemma_row_roundtrip;
pub use roundtrip::lemma_value_roundtrip;
pub use sqlite::SQLiteConnection;
pub use sqlite::SqliteCell;
pub use sqlite::SqliteCellModel;
pub use sqlite::map_sqlite_cell;
pub use sqlite::map_sqlite_column_type;
pub use sqlite::spec_sqlite_canonical;
pub use sqlite::spec_sqlite_column_type;
pub use value::Column;
pub use value::ColumnModel;
pub use value::ColumnType;
pub use value::Value;
pub use value::ValueModel;

use vstd::prelude::*;

verus! {

/// The error taxonomy of this layer: an unrecognized URL scheme, an opaque
/// failure reported by the native client, or a native value that could not be
/// represented in the canonical model.
#[derive(Debug)]
pub enum Error {
    UnsupportedSchemeError,
    BackendError(String),
    ConversionError(String),
}

impl Error {
    /// A human-readable description of the error.
    pub fn message(&self) -> (r: String)
        ensures
            self is UnsupportedSchemeError ==> r@ == "unsupported database scheme"@,
            self is BackendError ==> r@ == self->BackendError_0@,
            self is ConversionError ==> r@ == self->ConversionError_0@,
    {
        match self {
            Error::UnsupportedSchemeError => {
                let r: String = String::from_str("unsupported database scheme");
                r
            },
            Error::BackendError(m) => m.clone(),
            Error::ConversionError(m) => m.clone(),
        }
    }
}

/// The family of engines a connection URL names.
#[derive(Clone, Copy, Debug, PartialEq, Eq, Structural)]
pub enum Scheme {
    MySql,
    Postgres,
    Sqlite,
    Unknown,
}

/// Whether `u` begins with the characters of `p`.
pub open spec fn spec_has_prefix(u: Seq<char>, p: Seq<char>) -> bool {
    u.len() >= p.len() && u.subrange(0, p.len() as int) == p
}

/// Checks a prefix, as `spec_has_prefix` has it.
fn str_has_prefix(s: &str, p: &str) -> (r: bool)
    ensures
        r == spec_has_prefix(s@, p@),
{
    let n = s.unicode_len();
    let pn = p.unicode_len();
    if n < pn {
        return false;
    }
    let mut k: usize = 0;
    while k < pn
        invariant
            k <= pn,
            pn <= n == s@.len(),
            pn == p@.len(),
            forall|m: int| 0 <= m < k ==> s@[m] == p@[m],
        decreases pn - k,
    {
        if s.get_char(k) != p.get_char(k) {
            proof {
                assert(s@.subrange(0, p@.len() as int)[k as int] != p@[k as int]);
            }
            return false;
        }
        k += 1;
    }
    proof {
        assert(s@.subrange(0, p@.len() as int) =~= p@);
    }
    true
}

/// The scheme a connection URL opens with: `mysql://`, `sqlite://`, or the
/// two spellings of PostgreSQL; anything else is unsupported.
pub open spec fn spec_scheme(u: Seq<char>) -> Scheme {
    if spec_has_prefix(u, "mysql://"@) {
        Scheme::MySql
    } else if spec_has_prefix(u, "sqlite://"@) {
        Scheme::Sqlite
    } else if spec_has_prefix(u, "postgres://"@) || spec_has_prefix(u, "postgresql://"@) {
        Scheme::Postgres
    } else {
        Scheme::Unknown
    }
}

/// The capability contract every backend satisfies: one operation that
/// runs SQL text and yields a normalized, well-formed result. The query is
/// not validated here; any native failure comes back as a backend error.
pub trait Connection {
    fn execute(&mut self, query: &str) -> (r: Result<QueryResult, Error>)
        ensures
            r matches Ok(qr) ==> qr@.wf(),
            r matches Err(e) ==> (e is BackendError || e is ConversionError),
    ;
}

impl Connection for MySQLConnection {
    fn execute(&mut self, query: &str) -> (r: Result<QueryResult, Error>)
        ensures
            r matches Ok(qr) ==> qr@.wf(),
            r matches Err(e) ==> (e is BackendError || e is ConversionError),
    {
        MySQLConnection::execute(self, query)
    }
}

impl Connection for PostgresConnection {
    fn execute(&mut self, query: &str) -> (r: Result<QueryResult, Error>)
        ensures
            r matches Ok(qr) ==> qr@.wf(),
            r matches Err(e) ==> (e is BackendError || e is ConversionError),
    {
        PostgresConnection::execute(self, query)
    }
}

impl Connection for SQLiteConnection {
    fn execute(&mut self, query: &str) -> (r: Result<QueryResult, Error>)
        ensures
            r matches Ok(qr) ==> qr@.wf(),
            r matches Err(e) ==> (e is BackendError || e is ConversionError),
    {
        SQLiteConnection::execute(self, query)
    }
}

/// The closed set of backends a URL can select.
enum BackendConnection {
    MySql(MySQLConnection),
    Postgres(PostgresConnection),
    Sqlite(SQLiteConnection),
}

/// A database handle: one native connection behind the uniform interface.
/// A handle owns its native client exclusively; running a statement takes
/// the handle by mutable borrow, so two statements cannot interleave on one
/// connection.
pub struct Database {
    connection: BackendConnection,
}

impl Database {
    /// Which backend family this handle runs on.
    pub closed spec fn backend(&self) -> Scheme {
        match self.connection {
            BackendConnection::MySql(_) => Scheme::MySql,
            BackendConnection::Postgres(_) => Scheme::Postgres,
            BackendConnection::Sqlite(_) => Scheme::Sqlite,
        }
    }

    /// Opens a connection to whatever engine the URL's scheme names. An
    /// unsupported scheme is rejected at once, before any native client is
    /// constructed; a supported scheme can still fail with whatever the
    /// native client reported.
    pub fn new(url: &str) -> (r: Result<Database, Error>)
        ensures
            (spec_scheme(url@) is Unknown) <==> (r matches Err(e) && e is UnsupportedSchemeError),
            r matches Ok(db) ==> db.backend() == spec_scheme(url@),
            r matches Err(e) ==> (e is UnsupportedSchemeError || e is BackendError),
    {
        proof {
            reveal_strlit("mysql://");
            reveal_strlit("sqlite://");
            reveal_strlit("postgres://");
            reveal_strlit("postgresql://");
        }
        if str_has_prefix(url, "mysql://") {
            match MySQLConnection::get_connection(url) {
                Ok(c) => Ok(Database { connection: BackendConnection::MySql(c) }),
                Err(e) => Err(e),
            }
        } else if str_has_prefix(url, "sqlite://") {
            match SQLiteConnection::get_connection(url) {
                Ok(c) => Ok(Database { connection: BackendConnection::Sqlite(c) }),
                Err(e) => Err(e),
            }
        } else if str_has_prefix(url, "postgres://") || str_has_prefix(url, "postgresql://") {
            match PostgresConnection::get_connection(url) {
                Ok(c) => Ok(Database { connection: BackendConnection::Postgres(c) }),
                Err(e) => Err(e),
            }
        } else {
            Err(Error::UnsupportedSchemeError)
        }
    }

    /// Runs one statement on this handle's backend and returns the
    /// normalized result: failures from the native client pass through
    /// verbatim as backend errors, with no local recovery and no partial
    /// result.
    pub fn execute_query(&mut self, query: &str) -> (r: Result<QueryResult, Error>)
        ensures
            r matches Ok(qr) ==> qr@.wf(),
            r matches Ok(qr) ==> ((old(self).backend() is Sqlite || old(self).backend()
                is Postgres) && !spec_is_select(query@) ==> qr@.rows.len() == 0),
            r matches Ok(qr) ==> ((old(self).backend() is Sqlite || old(self).backend()
                is Postgres) && spec_is_select(query@) ==> qr@.affected_row_count == 0),
            r matches Err(e) ==> (e is BackendError || e is ConversionError),
            final(self).backend() == old(self).backend(),
    {
        match &mut self.connection {
            BackendConnection::MySql(c) => MySQLConnection::execute(c, query),
            BackendConnection::Postgres(c) => PostgresConnection::execute(c, query),
            BackendConnection::Sqlite(c) => SQLiteConnection::execute(c, query),
        }
    }

    /// Runs one statement after substituting the parameters into the text,
    /// leftmost `?` first, exactly as `spec_substitute` states it. This is
    /// textual substitution, not parameter binding: unsuitable for
    /// untrusted input.
    pub fn execute_query_with_params(&mut self, query: &str, params: &[&str]) -> (r: Result<
        QueryResult,
        Error,
    >)
        ensures
            r matches Ok(qr) ==> qr@.wf(),
            r matches Err(e) ==> (e is BackendError || e is ConversionError),
            final(self).backend() == old(self).backend(),
    {
        let substituted = substitute_params(query, params);
        self.execute_query(substituted.as_str())
    }

    /// Runs one statement and hands the result straight to the serializer;
    /// a failure from either stage propagates as it is.
    pub fn execute_and_serialize(&mut self, query: &str) -> (r: Result<Vec<u8>, Error>)
        ensures
            r matches Ok(bytes) ==> exists|m: QueryResultModel|
                m.wf() && bytes@ == crate::dbc::wire::spec_ser_result(m) && ((old(self).backend()
                    is Sqlite || old(self).backend() is Postgres) && !spec_is_select(query@)
                    ==> m.rows.len() == 0) && ((old(self).backend() is Sqlite || old(
                    self,
                ).backend() is Postgres) && spec_is_select(query@) ==> m.affected_row_count == 0),
            r matches Err(e) ==> (e is BackendError || e is ConversionError),
            final(self).backend() == old(self).backend(),
    {
        match self.execute_query(query) {
            Ok(qr) => {
                let bytes = qr.serialize();
                proof {
                    assert(qr@.wf() && bytes@ == crate::dbc::wire::spec_ser_result(qr@));
                }
                Ok(bytes)
            },
            Err(e) => Err(e),
        }
    }
}

/// Whether the statement text begins with the keyword `SELECT`.
pub open spec fn spec_is_select(q: Seq<char>) -> bool {
    q.len() >= 6 && q.subrange(0, 6) == "SELECT"@
}

/// Checks the statement's leading keyword, as `spec_is_select` has it.
pub fn is_select(query: &str) -> (r: bool)
    ensures
        r == spec_is_select(query@),
{
    proof {
        reveal_strlit("SELECT");
    }
    let n = query.unicode_len();
    if n < 6 {
        return false;
    }
    let mut k: usize = 0;
    while k < 6
        invariant
            k <= 6,
            6 <= n == query@.len(),
            "SELECT"@.len() == 6,
            forall|m: int| 0 <= m < k ==> query@[m] == "SELECT"@[m],
        decreases 6 - k,
    {
        if query.get_char(k) != "SELECT".get_char(k) {
            proof {
                assert(query@.subrange(0, 6)[k as int] != "SELECT"@[k as int]);
            }
            return false;
        }
        k += 1;
    }
    proof {
        assert(query@.subrange(0, 6) =~= "SELECT"@);
    }
    true
}

} // verus!
