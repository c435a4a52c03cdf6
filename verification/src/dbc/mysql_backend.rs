//! The MySQL-family backend: the native client runs the statement, and the
//! verified mapper projects the wire protocol's column type codes onto the
//! canonical model. The narrow integer widths collapse into the one `INT`
//! category, the string-ish types into `VARCHAR`, the blob widths into
//! `BLOB`; `DATETIME` and `TIMESTAMP` stay distinguishable; any code the
//! mapper does not recognize degrades to `UNKNOWN` rather than failing.

use vstd::prelude::*;

use std::sync::Arc;

use mysql;
use mysql::Value as MySqlValue;
use mysql::prelude::Queryable;

use crate::dbc::Error;
use crate::dbc::result::QueryResult;
use crate::dbc::value::Column;
use crate::dbc::value::ColumnType;
use crate::dbc::value::Value;
use crate::dbc::value::ValueModel;

verus! {

#[verifier::external_type_specification]
#[verifier::external_body]
pub struct ExMysqlConn(mysql::Conn);

/// The rows one statement produced, held as the native client returned
/// them; the handle is opaque and read through the accessors below.
#[verifier::external_body]
pub struct MysqlRowSet {
    rows: Vec<mysql::Row>,
}

/// Relies on mysql::Conn::new: connects to the server the URL names.
#[verifier::external_body]
fn mysql_connect(url: &str) -> (r: Result<mysql::Conn, String>)
{
    mysql::Conn::new(url).map_err(|e| e.to_string())
}

/// Relies on mysql's Queryable::query: runs one statement over the text
/// protocol and materializes its rows.
#[verifier::external_body]
fn mysql_query(conn: &mut mysql::Conn, query: &str) -> (r: Result<MysqlRowSet, String>)
{
    match conn.query::<mysql::Row, _>(query) {
        Ok(rows) => Ok(MysqlRowSet { rows }),
        Err(e) => Err(e.to_string()),
    }
}

/// Relies on mysql::Conn::affected_rows: the row count the last statement
/// reported.
#[verifier::external_body]
fn mysql_affected(conn: &mysql::Conn) -> (r: u64)
{
    conn.affected_rows()
}

/// The number of rows in the set.
#[verifier::external_body]
fn rowset_len(rs: &MysqlRowSet) -> (r: usize)
{
    rs.rows.len()
}

/// Relies on mysql's Row::columns_ref and Column accessors: each column's
/// result-set name and its protocol type code.
#[verifier::external_body]
fn rowset_columns(rs: &MysqlRowSet) -> (r: Vec<(String, u8)>)
{
    match rs.rows.first() {
        None => Vec::new(),
        Some(row) => row.columns_ref().iter().map(
            |c| (c.name_str().to_string(), c.column_type() as u8),
        ).collect(),
    }
}

/// Relies on mysql's Row::as_ref: the cell at the index, one native
/// variant for one, floats as their bit patterns; `None` when the row has
/// no such cell.
#[verifier::external_body]
fn rowset_cell(rs: &MysqlRowSet, row: usize, col: usize) -> (r: Option<MysqlCell>)
{
    let v = rs.rows.get(row)?.as_ref(col)?.clone();
    Some(match v {
        MySqlValue::NULL => MysqlCell::Null,
        MySqlValue::Bytes(b) => MysqlCell::Bytes(b),
        MySqlValue::Int(n) => MysqlCell::Int(n),
        MySqlValue::UInt(n) => MysqlCell::UInt(n),
        MySqlValue::Float(f) => MysqlCell::FloatBits(f.to_bits()),
        MySqlValue::Double(f) => MysqlCell::DoubleBits(f.to_bits()),
        MySqlValue::Date(y, mo, d, h, mi, s, us) => MysqlCell::Date(y, mo, d, h, mi, s, us),
        MySqlValue::Time(neg, d, h, mi, s, us) => MysqlCell::Time(neg, d, h, mi, s, us),
    })
}

/// One native cell as the MySQL protocol reports it, with floats carried
/// as their IEEE-754 bit patterns so the verified mapper works on plain
/// values. Date fields are year, month, day, hour, minutes, seconds,
/// microseconds; time fields are is-negative, days, hours, minutes,
/// seconds, microseconds.
pub enum MysqlCell {
    Null,
    Bytes(Vec<u8>),
    Int(i64),
    UInt(u64),
    FloatBits(u32),
    DoubleBits(u64),
    Date(u16, u8, u8, u8, u8, u8, u32),
    Time(bool, u32, u8, u8, u8, u32),
}

/// The mathematical model of a [`MysqlCell`].
pub enum MysqlCellModel {
    Null,
    Bytes(Seq<u8>),
    Int(i64),
    UInt(u64),
    FloatBits(u32),
    DoubleBits(u64),
    Date(u16, u8, u8, u8, u8, u8, u32),
    Time(bool, u32, u8, u8, u8, u32),
}

impl View for MysqlCell {
    type V = MysqlCellModel;

    open spec fn view(&self) -> MysqlCellModel {
        match self {
            MysqlCell::Null => MysqlCellModel::Null,
            MysqlCell::Bytes(b) => MysqlCellModel::Bytes(b@),
            MysqlCell::Int(n) => MysqlCellModel::Int(*n),
            MysqlCell::UInt(n) => MysqlCellModel::UInt(*n),
            MysqlCell::FloatBits(b) => MysqlCellModel::FloatBits(*b),
            MysqlCell::DoubleBits(b) => MysqlCellModel::DoubleBits(*b),
            MysqlCell::Date(y, mo, d, h, mi, s, us) => MysqlCellModel::Date(
                *y,
                *mo,
                *d,
                *h,
                *mi,
                *s,
                *us,
            ),
            MysqlCell::Time(neg, d, h, mi, s, us) => MysqlCellModel::Time(
                *neg,
                *d,
                *h,
                *mi,
                *s,
                *us,
            ),
        }
    }
}

/// The canonical value of one native cell: a SQL NULL is canonical null,
/// never a zero of the column's type; every other variant keeps its
/// payload under the same-shaped canonical variant.
pub open spec fn spec_mysql_canonical(c: MysqlCellModel) -> ValueModel {
    match c {
        MysqlCellModel::Null => ValueModel::Null,
        MysqlCellModel::Bytes(b) => ValueModel::Bytes(b),
        MysqlCellModel::Int(n) => ValueModel::Int(n),
        MysqlCellModel::UInt(n) => ValueModel::UInt(n),
        MysqlCellModel::FloatBits(b) => ValueModel::Float(b),
        MysqlCellModel::DoubleBits(b) => ValueModel::Double(b),
        MysqlCellModel::Date(y, mo, d, h, mi, s, us) => ValueModel::Date(y, mo, d, h, mi, s, us),
        MysqlCellModel::Time(neg, d, h, mi, s, us) => ValueModel::Time(neg, d, h, mi, s, us),
    }
}

/// Maps one native cell, as `spec_mysql_canonical` has it.
pub fn map_mysql_cell(c: MysqlCell) -> (r: Value)
    ensures
        r.deep_view() == spec_mysql_canonical(c@),
{
    match c {
        MysqlCell::Null => Value::NULL,
        MysqlCell::Bytes(b) => Value::Bytes(b),
        MysqlCell::Int(n) => Value::Int(n),
        MysqlCell::UInt(n) => Value::UInt(n),
        MysqlCell::FloatBits(b) => Value::Float(b),
        MysqlCell::DoubleBits(b) => Value::Double(b),
        MysqlCell::Date(y, mo, d, h, mi, s, us) => Value::Date(y, mo, d, h, mi, s, us),
        MysqlCell::Time(neg, d, h, mi, s, us) => Value::Time(neg, d, h, mi, s, us),
    }
}

/// The canonical type for one protocol type code, total over every code:
/// the decimal pair maps to `DECIMAL`, every integer width (and `YEAR`) to
/// the collective `INT`, the string-ish codes to `VARCHAR`, the blob widths
/// to `BLOB`, date and time codes to their same-named counterparts with
/// `DATETIME` kept apart from `TIMESTAMP`, and any unrecognized code to
/// `UNKNOWN`.
pub open spec fn spec_mysql_column_type(tag: u8) -> ColumnType {
    if tag == 0 || tag == 246 {
        ColumnType::DECIMAL
    } else if tag == 1 || tag == 2 || tag == 3 || tag == 8 || tag == 9 || tag == 13 {
        ColumnType::INT
    } else if tag == 4 {
        ColumnType::FLOAT
    } else if tag == 5 {
        ColumnType::DOUBLE
    } else if tag == 6 {
        ColumnType::NULL
    } else if tag == 7 || tag == 17 {
        ColumnType::TIMESTAMP
    } else if tag == 10 || tag == 14 {
        ColumnType::DATE
    } else if tag == 11 || tag == 19 {
        ColumnType::TIME
    } else if tag == 12 || tag == 18 {
        ColumnType::DATETIME
    } else if tag == 15 || tag == 253 || tag == 254 {
        ColumnType::VARCHAR
    } else if tag == 16 {
        ColumnType::BIT
    } else if tag == 245 {
        ColumnType::JSON
    } else if tag == 247 {
        ColumnType::ENUM
    } else if tag == 248 {
        ColumnType::SET
    } else if tag == 249 || tag == 250 || tag == 251 || tag == 252 {
        ColumnType::BLOB
    } else if tag == 255 {
        ColumnType::GEOMETRY
    } else {
        ColumnType::UNKNOWN
    }
}

/// Maps one protocol type code, as `spec_mysql_column_type` has it.
pub fn map_mysql_column_type(tag: u8) -> (r: ColumnType)
    ensures
        r == spec_mysql_column_type(tag),
{
    if tag == 0 || tag == 246 {
        ColumnType::DECIMAL
    } else if tag == 1 || tag == 2 || tag == 3 || tag == 8 || tag == 9 || tag == 13 {
        ColumnType::INT
    } else if tag == 4 {
        ColumnType::FLOAT
    } else if tag == 5 {
        ColumnType::DOUBLE
    } else if tag == 6 {
        ColumnType::NULL
    } else if tag == 7 || tag == 17 {
        ColumnType::TIMESTAMP
    } else if tag == 10 || tag == 14 {
        ColumnType::DATE
    } else if tag == 11 || tag == 19 {
        ColumnType::TIME
    } else if tag == 12 || tag == 18 {
        ColumnType::DATETIME
    } else if tag == 15 || tag == 253 || tag == 254 {
        ColumnType::VARCHAR
    } else if tag == 16 {
        ColumnType::BIT
    } else if tag == 245 {
        ColumnType::JSON
    } else if tag == 247 {
        ColumnType::ENUM
    } else if tag == 248 {
        ColumnType::SET
    } else if tag == 249 || tag == 250 || tag == 251 || tag == 252 {
        ColumnType::BLOB
    } else if tag == 255 {
        ColumnType::GEOMETRY
    } else {
        ColumnType::UNKNOWN
    }
}

/// A connection to a MySQL-family server.
pub struct MySQLConnection {
    connection: mysql::Conn,
}

impl MySQLConnection {
    /// Connects to the server the URL names.
    pub fn get_connection(url: &str) -> (r: Result<MySQLConnection, Error>)
        ensures
            r is Err ==> r->Err_0 is BackendError,
    {
        match mysql_connect(url) {
            Ok(connection) => Ok(MySQLConnection { connection }),
            Err(m) => Err(Error::BackendError(m)),
        }
    }

    /// Runs one statement: its rows, if it produced any, under one shared
    /// schema, and the affected-row count the server reported.
    pub fn execute(&mut self, query: &str) -> (r: Result<QueryResult, Error>)
        ensures
            r matches Ok(qr) ==> qr@.wf(),
            r matches Err(e) ==> (e is BackendError || e is ConversionError),
    {
        let rs = match mysql_query(&mut self.connection, query) {
            Ok(rs) => rs,
            Err(m) => {
                return Err(Error::BackendError(m));
            },
        };
        let affected = mysql_affected(&self.connection);
        if affected > usize::MAX as u64 {
            return Err(Error::ConversionError(String::from_str("affected row count overflow")));
        }
        let native_cols = rowset_columns(&rs);
        let mut cols: Vec<Column> = Vec::new();
        let ncols = native_cols.len();
        let mut k: usize = 0;
        while k < ncols
            invariant
                k <= ncols,
                ncols == native_cols@.len(),
                cols@.len() == k,
            decreases ncols - k,
        {
            let name = native_cols[k].0.clone();
            let column_type = map_mysql_column_type(native_cols[k].1);
            cols.push(Column { name, column_type });
            k += 1;
        }
        let schema = Arc::new(cols);
        let nrows = rowset_len(&rs);
        let mut out_rows: Vec<crate::dbc::result::Row> = Vec::new();
        let mut row_i: usize = 0;
        while row_i < nrows
            invariant
                row_i <= nrows,
                ncols == schema.deep_view().len(),
                forall|i: int| 0 <= i < out_rows.deep_view().len() ==> (#[trigger] out_rows.deep_view()[i]).values.len()
                    == schema.deep_view().len(),
                forall|i: int| 0 <= i < out_rows.deep_view().len() ==> (#[trigger] out_rows.deep_view()[i]).columns
                    == schema.deep_view(),
            decreases nrows - row_i,
        {
            let mut vals: Vec<Value> = Vec::new();
            let mut col_i: usize = 0;
            while col_i < ncols
                invariant
                    col_i <= ncols,
                    vals.deep_view().len() == col_i,
                decreases ncols - col_i,
            {
                let v = match rowset_cell(&rs, row_i, col_i) {
                    Some(c) => map_mysql_cell(c),
                    None => Value::NULL,
                };
                vals.push(v);
                col_i += 1;
            }
            let ghost prev = out_rows.deep_view();
            let row = crate::dbc::result::Row::new(vals, crate::dbc::result::arc_clone(&schema));
            out_rows.push(row);
            proof {
                assert(out_rows.deep_view() =~= prev.push(row.deep_view()));
            }
            row_i += 1;
        }
        Ok(QueryResult { rows: out_rows, affected_row_count: affected as usize })
    }
}

} // verus!
