//! The PostgreSQL backend: the native client runs the statement, and the
//! verified mapper projects the catalog's type OIDs onto the canonical
//! model. PostgreSQL's richer native catalog keeps its distinctions —
//! integer widths, network address types, UUID, the JSON flavours — rather
//! than collapsing into strings; anything outside the enumerated set maps
//! to `UNKNOWN`. Cell decoding is typed: the common scalar types decode to
//! canonical values (text to byte strings), a SQL NULL always to the
//! canonical null, and a column type the decoder does not support is a
//! conversion error, as are float cells: the verified core carries no
//! native floats, and this backend's typed getters leave the two float
//! types undecoded rather than inventing a value for them.

use vstd::prelude::*;

use std::sync::Arc;

use postgres;

use crate::dbc::Error;
use crate::dbc::result::QueryResult;
use crate::dbc::is_select;
use crate::dbc::spec_is_select;
use crate::dbc::value::Column;
use crate::dbc::value::ColumnType;
use crate::dbc::value::Value;
use crate::dbc::value::ValueModel;

verus! {

#[verifier::external_type_specification]
#[verifier::external_body]
pub struct ExPgClient(postgres::Client);

/// The rows one statement produced, held as the native client returned
/// them; the handle is opaque and read through the accessors below.
#[verifier::external_body]
pub struct PgRowSet {
    rows: Vec<postgres::Row>,
}

/// Relies on postgres::Client::connect: connects, without TLS, to the
/// server the URL names.
#[verifier::external_body]
fn pg_connect(url: &str) -> (r: Result<postgres::Client, String>)
{
    postgres::Client::connect(url, postgres::NoTls).map_err(|e| e.to_string())
}

/// Relies on postgres::Client::query: runs one statement and materializes
/// its rows.
#[verifier::external_body]
fn pg_query(client: &mut postgres::Client, query: &str) -> (r: Result<PgRowSet, String>)
{
    match client.query(query, &[]) {
        Ok(rows) => Ok(PgRowSet { rows }),
        Err(e) => Err(e.to_string()),
    }
}

/// Relies on postgres::Client::execute: runs one statement and reports how
/// many rows it changed.
#[verifier::external_body]
fn pg_execute(client: &mut postgres::Client, query: &str) -> (r: Result<u64, String>)
{
    client.execute(query, &[]).map_err(|e| e.to_string())
}

/// The number of rows in the set.
#[verifier::external_body]
fn pg_rowset_len(rs: &PgRowSet) -> (r: usize)
{
    rs.rows.len()
}

/// Relies on postgres's Row::columns and Column accessors: each column's
/// result-set name and its catalog type OID.
#[verifier::external_body]
fn pg_rowset_columns(rs: &PgRowSet) -> (r: Vec<(String, u32)>)
{
    match rs.rows.first() {
        None => Vec::new(),
        Some(row) => row.columns().iter().map(
            |c| (c.name().to_string(), c.type_().oid()),
        ).collect(),
    }
}

/// Relies on postgres's Row::try_get at a 64-bit integer column.
#[verifier::external_body]
fn pg_cell_i64(rs: &PgRowSet, row: usize, col: usize) -> (r: Result<Option<i64>, String>)
{
    match rs.rows.get(row) {
        None => Err("row index out of range".to_string()),
        Some(native) => native.try_get::<usize, Option<i64>>(col).map_err(|e| e.to_string()),
    }
}

/// Relies on postgres's Row::try_get at a 32-bit integer column.
#[verifier::external_body]
fn pg_cell_i32(rs: &PgRowSet, row: usize, col: usize) -> (r: Result<Option<i32>, String>)
{
    match rs.rows.get(row) {
        None => Err("row index out of range".to_string()),
        Some(native) => native.try_get::<usize, Option<i32>>(col).map_err(|e| e.to_string()),
    }
}

/// Relies on postgres's Row::try_get at a 16-bit integer column.
#[verifier::external_body]
fn pg_cell_i16(rs: &PgRowSet, row: usize, col: usize) -> (r: Result<Option<i16>, String>)
{
    match rs.rows.get(row) {
        None => Err("row index out of range".to_string()),
        Some(native) => native.try_get::<usize, Option<i16>>(col).map_err(|e| e.to_string()),
    }
}

/// Relies on postgres's Row::try_get at a boolean column.
#[verifier::external_body]
fn pg_cell_bool(rs: &PgRowSet, row: usize, col: usize) -> (r: Result<Option<bool>, String>)
{
    match rs.rows.get(row) {
        None => Err("row index out of range".to_string()),
        Some(native) => native.try_get::<usize, Option<bool>>(col).map_err(|e| e.to_string()),
    }
}

/// Relies on postgres's Row::try_get at a text column, handing the text's
/// bytes out.
#[verifier::external_body]
fn pg_cell_text(rs: &PgRowSet, row: usize, col: usize) -> (r: Result<Option<Vec<u8>>, String>)
{
    match rs.rows.get(row) {
        None => Err("row index out of range".to_string()),
        Some(native) => native.try_get::<usize, Option<String>>(col).map(
            |o| o.map(|s| s.into_bytes()),
        ).map_err(|e| e.to_string()),
    }
}

/// Relies on postgres's Row::try_get at a bytea column.
#[verifier::external_body]
fn pg_cell_bytes(rs: &PgRowSet, row: usize, col: usize) -> (r: Result<Option<Vec<u8>>, String>)
{
    match rs.rows.get(row) {
        None => Err("row index out of range".to_string()),
        Some(native) => native.try_get::<usize, Option<Vec<u8>>>(col).map_err(|e| e.to_string()),
    }
}

/// Relies on postgres's Row::try_get at an OID column.
#[verifier::external_body]
fn pg_cell_u32(rs: &PgRowSet, row: usize, col: usize) -> (r: Result<Option<u32>, String>)
{
    match rs.rows.get(row) {
        None => Err("row index out of range".to_string()),
        Some(native) => native.try_get::<usize, Option<u32>>(col).map_err(|e| e.to_string()),
    }
}

/// The canonical type for one catalog OID, total over every OID: each of
/// the enumerated catalog entries keeps its own canonical type, and any
/// other OID degrades to `UNKNOWN`.
pub open spec fn spec_pg_column_type(oid: u32) -> ColumnType {
    if oid == 16 {
        ColumnType::BOOL
    } else if oid == 17 {
        ColumnType::BYTEA
    } else if oid == 18 {
        ColumnType::CHAR
    } else if oid == 20 {
        ColumnType::INT8
    } else if oid == 21 {
        ColumnType::INT2
    } else if oid == 23 {
        ColumnType::INT4
    } else if oid == 25 {
        ColumnType::TEXT
    } else if oid == 26 {
        ColumnType::OID
    } else if oid == 114 {
        ColumnType::JSON
    } else if oid == 142 {
        ColumnType::XML
    } else if oid == 650 {
        ColumnType::CIDR
    } else if oid == 700 {
        ColumnType::FLOAT4
    } else if oid == 701 {
        ColumnType::FLOAT8
    } else if oid == 829 {
        ColumnType::MACADDR
    } else if oid == 869 {
        ColumnType::INET
    } else if oid == 1043 {
        ColumnType::VARCHAR
    } else if oid == 1082 {
        ColumnType::DATE
    } else if oid == 1083 {
        ColumnType::TIME
    } else if oid == 1114 {
        ColumnType::TIMESTAMP
    } else if oid == 1184 {
        ColumnType::TIMESTAMPTZ
    } else if oid == 1186 {
        ColumnType::INTERVAL
    } else if oid == 1266 {
        ColumnType::TIMETZ
    } else if oid == 1560 {
        ColumnType::BIT
    } else if oid == 1562 {
        ColumnType::VARBIT
    } else if oid == 1700 {
        ColumnType::NUMERIC
    } else if oid == 2950 {
        ColumnType::UUID
    } else if oid == 3802 {
        ColumnType::JSONB
    } else {
        ColumnType::UNKNOWN
    }
}

/// Maps one catalog OID, as `spec_pg_column_type` has it.
pub fn map_pg_column_type(oid: u32) -> (r: ColumnType)
    ensures
        r == spec_pg_column_type(oid),
{
    if oid == 16 {
        ColumnType::BOOL
    } else if oid == 17 {
        ColumnType::BYTEA
    } else if oid == 18 {
        ColumnType::CHAR
    } else if oid == 20 {
        ColumnType::INT8
    } else if oid == 21 {
        ColumnType::INT2
    } else if oid == 23 {
        ColumnType::INT4
    } else if oid == 25 {
        ColumnType::TEXT
    } else if oid == 26 {
        ColumnType::OID
    } else if oid == 114 {
        ColumnType::JSON
    } else if oid == 142 {
        ColumnType::XML
    } else if oid == 650 {
        ColumnType::CIDR
    } else if oid == 700 {
        ColumnType::FLOAT4
    } else if oid == 701 {
        ColumnType::FLOAT8
    } else if oid == 829 {
        ColumnType::MACADDR
    } else if oid == 869 {
        ColumnType::INET
    } else if oid == 1043 {
        ColumnType::VARCHAR
    } else if oid == 1082 {
        ColumnType::DATE
    } else if oid == 1083 {
        ColumnType::TIME
    } else if oid == 1114 {
        ColumnType::TIMESTAMP
    } else if oid == 1184 {
        ColumnType::TIMESTAMPTZ
    } else if oid == 1186 {
        ColumnType::INTERVAL
    } else if oid == 1266 {
        ColumnType::TIMETZ
    } else if oid == 1560 {
        ColumnType::BIT
    } else if oid == 1562 {
        ColumnType::VARBIT
    } else if oid == 1700 {
        ColumnType::NUMERIC
    } else if oid == 2950 {
        ColumnType::UUID
    } else if oid == 3802 {
        ColumnType::JSONB
    } else {
        ColumnType::UNKNOWN
    }
}

/// Whether the typed decoder can represent cells of this canonical type.
pub open spec fn spec_pg_decodable(ct: ColumnType) -> bool {
    ||| ct is INT8
    ||| ct is INT4
    ||| ct is INT2
    ||| ct is BOOL
    ||| ct is TEXT
    ||| ct is VARCHAR
    ||| ct is CHAR
    ||| ct is BYTEA
    ||| ct is OID
}

/// One fetched cell as the typed getters hand it out: the SQL NULL, or the
/// plain value of whichever decodable type the column has.
pub enum PgCell {
    Null,
    Int64(i64),
    Int32(i32),
    Int16(i16),
    Bool(bool),
    Text(Vec<u8>),
    Bytes(Vec<u8>),
    Oid(u32),
}

/// The mathematical model of a [`PgCell`].
pub enum PgCellModel {
    Null,
    Int64(i64),
    Int32(i32),
    Int16(i16),
    Bool(bool),
    Text(Seq<u8>),
    Bytes(Seq<u8>),
    Oid(u32),
}

impl View for PgCell {
    type V = PgCellModel;

    open spec fn view(&self) -> PgCellModel {
        match self {
            PgCell::Null => PgCellModel::Null,
            PgCell::Int64(n) => PgCellModel::Int64(*n),
            PgCell::Int32(n) => PgCellModel::Int32(*n),
            PgCell::Int16(n) => PgCellModel::Int16(*n),
            PgCell::Bool(b) => PgCellModel::Bool(*b),
            PgCell::Text(b) => PgCellModel::Text(b@),
            PgCell::Bytes(b) => PgCellModel::Bytes(b@),
            PgCell::Oid(n) => PgCellModel::Oid(*n),
        }
    }
}

/// The canonical value of one fetched cell: a SQL NULL is canonical null,
/// never a zero of the column's type; the narrow integer widths widen into
/// the canonical signed integer; text and bytea both become byte strings;
/// an OID becomes the canonical unsigned integer.
pub open spec fn spec_pg_canonical(c: PgCellModel) -> ValueModel {
    match c {
        PgCellModel::Null => ValueModel::Null,
        PgCellModel::Int64(n) => ValueModel::Int(n),
        PgCellModel::Int32(n) => ValueModel::Int(n as i64),
        PgCellModel::Int16(n) => ValueModel::Int(n as i64),
        PgCellModel::Bool(b) => ValueModel::Bool(b),
        PgCellModel::Text(b) => ValueModel::Bytes(b),
        PgCellModel::Bytes(b) => ValueModel::Bytes(b),
        PgCellModel::Oid(n) => ValueModel::UInt(n as u64),
    }
}

/// Maps one fetched cell, as `spec_pg_canonical` has it.
pub fn map_pg_cell(c: PgCell) -> (r: Value)
    ensures
        r.deep_view() == spec_pg_canonical(c@),
{
    match c {
        PgCell::Null => Value::NULL,
        PgCell::Int64(n) => Value::Int(n),
        PgCell::Int32(n) => Value::Int(n as i64),
        PgCell::Int16(n) => Value::Int(n as i64),
        PgCell::Bool(b) => Value::Bool(b),
        PgCell::Text(b) => Value::Bytes(b),
        PgCell::Bytes(b) => Value::Bytes(b),
        PgCell::Oid(n) => Value::UInt(n as u64),
    }
}

/// The canonical variant shape a non-null cell of this column type takes.
pub open spec fn spec_pg_cell_shape(ct: ColumnType, m: ValueModel) -> bool {
    if ct is INT8 || ct is INT4 || ct is INT2 {
        m is Int
    } else if ct is BOOL {
        m is Bool
    } else if ct is TEXT || ct is VARCHAR || ct is CHAR || ct is BYTEA {
        m is Bytes
    } else if ct is OID {
        m is UInt
    } else {
        false
    }
}

/// A connection to a PostgreSQL server.
pub struct PostgresConnection {
    pub(crate) connection: postgres::Client,
}

impl PostgresConnection {
    /// Connects to the server the URL names.
    pub fn get_connection(url: &str) -> (r: Result<PostgresConnection, Error>)
        ensures
            r is Err ==> r->Err_0 is BackendError,
    {
        match pg_connect(url) {
            Ok(connection) => Ok(PostgresConnection { connection }),
            Err(m) => Err(Error::BackendError(m)),
        }
    }

    /// Decodes one cell through the typed getter its canonical column type
    /// calls for, and maps whatever was fetched through [`map_pg_cell`]: a
    /// SQL NULL decodes to the canonical null whatever the column's type, a
    /// value to the canonical variant its column type shapes. A type
    /// outside the decodable set is a conversion error, never a made-up
    /// value.
    fn decode_cell(rs: &PgRowSet, row: usize, col: usize, ct: ColumnType) -> (r: Result<
        Value,
        Error,
    >)
        ensures
            !spec_pg_decodable(ct) ==> r is Err,
            r matches Ok(v) ==> spec_pg_decodable(ct),
            r matches Ok(v) ==> (v.deep_view() is Null || spec_pg_cell_shape(ct, v.deep_view())),
            r matches Err(e) ==> (e is ConversionError || e is BackendError),
    {
        match ct {
            ColumnType::INT8 => match pg_cell_i64(rs, row, col) {
                Ok(Some(n)) => Ok(map_pg_cell(PgCell::Int64(n))),
                Ok(None) => Ok(map_pg_cell(PgCell::Null)),
                Err(m) => Err(Error::BackendError(m)),
            },
            ColumnType::INT4 => match pg_cell_i32(rs, row, col) {
                Ok(Some(n)) => Ok(map_pg_cell(PgCell::Int32(n))),
                Ok(None) => Ok(map_pg_cell(PgCell::Null)),
                Err(m) => Err(Error::BackendError(m)),
            },
            ColumnType::INT2 => match pg_cell_i16(rs, row, col) {
                Ok(Some(n)) => Ok(map_pg_cell(PgCell::Int16(n))),
                Ok(None) => Ok(map_pg_cell(PgCell::Null)),
                Err(m) => Err(Error::BackendError(m)),
            },
            ColumnType::BOOL => match pg_cell_bool(rs, row, col) {
                Ok(Some(b)) => Ok(map_pg_cell(PgCell::Bool(b))),
                Ok(None) => Ok(map_pg_cell(PgCell::Null)),
                Err(m) => Err(Error::BackendError(m)),
            },
            ColumnType::TEXT => match pg_cell_text(rs, row, col) {
                Ok(Some(b)) => Ok(map_pg_cell(PgCell::Text(b))),
                Ok(None) => Ok(map_pg_cell(PgCell::Null)),
                Err(m) => Err(Error::BackendError(m)),
            },
            ColumnType::VARCHAR => match pg_cell_text(rs, row, col) {
                Ok(Some(b)) => Ok(map_pg_cell(PgCell::Text(b))),
                Ok(None) => Ok(map_pg_cell(PgCell::Null)),
                Err(m) => Err(Error::BackendError(m)),
            },
            ColumnType::CHAR => match pg_cell_text(rs, row, col) {
                Ok(Some(b)) => Ok(map_pg_cell(PgCell::Text(b))),
                Ok(None) => Ok(map_pg_cell(PgCell::Null)),
                Err(m) => Err(Error::BackendError(m)),
            },
            ColumnType::BYTEA => match pg_cell_bytes(rs, row, col) {
                Ok(Some(b)) => Ok(map_pg_cell(PgCell::Bytes(b))),
                Ok(None) => Ok(map_pg_cell(PgCell::Null)),
                Err(m) => Err(Error::BackendError(m)),
            },
            ColumnType::OID => match pg_cell_u32(rs, row, col) {
                Ok(Some(n)) => Ok(map_pg_cell(PgCell::Oid(n))),
                Ok(None) => Ok(map_pg_cell(PgCell::Null)),
                Err(m) => Err(Error::BackendError(m)),
            },
            _ => Err(
                Error::ConversionError(
                    String::from_str("unsupported column type for value decoding"),
                ),
            ),
        }
    }

    /// Runs one statement. A `SELECT` materializes rows under one shared
    /// schema and reports no affected rows; anything else runs for its
    /// affected-row count and yields no rows.
    pub fn execute(&mut self, query: &str) -> (r: Result<QueryResult, Error>)
        ensures
            r matches Ok(qr) ==> qr@.wf(),
            r matches Ok(qr) ==> (!spec_is_select(query@) ==> qr@.rows.len() == 0),
            r matches Ok(qr) ==> (spec_is_select(query@) ==> qr@.affected_row_count == 0),
            r matches Err(e) ==> (e is BackendError || e is ConversionError),
    {
        if !is_select(query) {
            match pg_execute(&mut self.connection, query) {
                Ok(n) => {
                    if n > usize::MAX as u64 {
                        return Err(
                            Error::ConversionError(
                                String::from_str("affected row count overflow"),
                            ),
                        );
                    }
                    let qr = QueryResult { rows: Vec::new(), affected_row_count: n as usize };
                    proof {
                        assert(qr@.rows =~= Seq::<crate::dbc::result::RowModel>::empty());
                    }
                    Ok(qr)
                },
                Err(m) => Err(Error::BackendError(m)),
            }
        } else {
            let rs = match pg_query(&mut self.connection, query) {
                Ok(rs) => rs,
                Err(m) => {
                    return Err(Error::BackendError(m));
                },
            };
            let native_cols = pg_rowset_columns(&rs);
            let mut cols: Vec<Column> = Vec::new();
            let ncols = native_cols.len();
            let mut k: usize = 0;
            while k < ncols
                invariant
                    k <= ncols,
                    ncols == native_cols@.len(),
                    cols@.len() == k,
                decreases ncols - k,
            {
                let name = native_cols[k].0.clone();
                let column_type = map_pg_column_type(native_cols[k].1);
                cols.push(Column { name, column_type });
                k += 1;
            }
            let schema = Arc::new(cols);
            let schema_vec: &Vec<Column> = &schema;
            let nrows = pg_rowset_len(&rs);
            let mut out_rows: Vec<crate::dbc::result::Row> = Vec::new();
            let mut row_i: usize = 0;
            while row_i < nrows
                invariant
                    row_i <= nrows,
                    ncols == schema.deep_view().len(),
                    schema_vec.deep_view() == schema.deep_view(),
                    forall|i: int| 0 <= i < out_rows.deep_view().len() ==> (#[trigger] out_rows.deep_view()[i]).values.len()
                        == schema.deep_view().len(),
                    forall|i: int| 0 <= i < out_rows.deep_view().len() ==> (#[trigger] out_rows.deep_view()[i]).columns
                        == schema.deep_view(),
                decreases nrows - row_i,
            {
                let mut vals: Vec<Value> = Vec::new();
                let mut col_i: usize = 0;
                while col_i < ncols
                    invariant
                        col_i <= ncols,
                        ncols == schema.deep_view().len(),
                        schema_vec.deep_view() == schema.deep_view(),
                        vals.deep_view().len() == col_i,
                    decreases ncols - col_i,
                {
                    let ct = schema_vec[col_i].column_type;
                    let v = match Self::decode_cell(&rs, row_i, col_i, ct) {
                        Ok(v) => v,
                        Err(e) => {
                            return Err(e);
                        },
                    };
                    vals.push(v);
                    col_i += 1;
                }
                let ghost prev = out_rows.deep_view();
                let row = crate::dbc::result::Row::new(
                    vals,
                    crate::dbc::result::arc_clone(&schema),
                );
                out_rows.push(row);
                proof {
                    assert(out_rows.deep_view() =~= prev.push(row.deep_view()));
                }
                row_i += 1;
            }
            let qr = QueryResult { rows: out_rows, affected_row_count: 0 };
            Ok(qr)
        }
    }
}

} // verus!
