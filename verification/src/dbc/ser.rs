//! The serializer: turns a query result into its wire-format bytes, exactly
//! as the wire specification states them.

use vstd::prelude::*;

use crate::dbc::base64;
use crate::dbc::jtext::write_jstring_body;
use crate::dbc::jtext::write_lit;
use crate::dbc::jtext::write_u64;
use crate::dbc::result::QueryResult;
use crate::dbc::result::Row;
use crate::dbc::value::Column;
use crate::dbc::value::ColumnType;
use crate::dbc::value::Value;
use crate::dbc::value::ValueModel;
use crate::dbc::wire::spec_coltype_tag;
use crate::dbc::wire::spec_int_digits;
use crate::dbc::wire::spec_ser_column;
use crate::dbc::wire::spec_ser_column_list;
use crate::dbc::wire::spec_ser_column_list_tail;
use crate::dbc::wire::spec_ser_result;
use crate::dbc::wire::spec_ser_row;
use crate::dbc::wire::spec_ser_row_list;
use crate::dbc::wire::spec_ser_row_list_tail;
use crate::dbc::wire::spec_ser_value;
use crate::dbc::wire::spec_ser_value_list;
use crate::dbc::wire::spec_ser_value_list_tail;

verus! {

/// Appends the decimal rendering of a signed number.
fn write_i64(out: &mut Vec<u8>, n: i64)
    ensures
        final(out)@ == old(out)@ + spec_int_digits(n as int),
{
    if n < 0 {
        out.push(45);
        let m: u64 = if n == i64::MIN {
            9223372036854775808u64
        } else {
            (-n) as u64
        };
        write_u64(out, m);
        proof {
            assert(out@ =~= old(out)@ + spec_int_digits(n as int));
        }
    } else {
        write_u64(out, n as u64);
    }
}

/// Appends the bare name of a column type.
fn write_coltype_tag(out: &mut Vec<u8>, ct: ColumnType)
    ensures
        final(out)@ == old(out)@ + spec_coltype_tag(ct),
{
    match ct {
        ColumnType::NULL => {
            proof {
                reveal_strlit("NULL");
            }
            write_lit(out, "NULL");
        },
        ColumnType::DECIMAL => {
            proof {
                reveal_strlit("DECIMAL");
            }
            write_lit(out, "DECIMAL");
        },
        ColumnType::INT => {
            proof {
                reveal_strlit("INT");
            }
            write_lit(out, "INT");
        },
        ColumnType::FLOAT => {
            proof {
                reveal_strlit("FLOAT");
            }
            write_lit(out, "FLOAT");
        },
        ColumnType::BIT => {
            proof {
                reveal_strlit("BIT");
            }
            write_lit(out, "BIT");
        },
        ColumnType::DOUBLE => {
            proof {
                reveal_strlit("DOUBLE");
            }
            write_lit(out, "DOUBLE");
        },
        ColumnType::STRING => {
            proof {
                reveal_strlit("STRING");
            }
            write_lit(out, "STRING");
        },
        ColumnType::VARCHAR => {
            proof {
                reveal_strlit("VARCHAR");
            }
            write_lit(out, "VARCHAR");
        },
        ColumnType::TIMESTAMP => {
            proof {
                reveal_strlit("TIMESTAMP");
            }
            write_lit(out, "TIMESTAMP");
        },
        ColumnType::DATE => {
            proof {
                reveal_strlit("DATE");
            }
            write_lit(out, "DATE");
        },
        ColumnType::TIME => {
            proof {
                reveal_strlit("TIME");
            }
            write_lit(out, "TIME");
        },
        ColumnType::YEAR => {
            proof {
                reveal_strlit("YEAR");
            }
            write_lit(out, "YEAR");
        },
        ColumnType::DATETIME => {
            proof {
                reveal_strlit("DATETIME");
            }
            write_lit(out, "DATETIME");
        },
        ColumnType::JSON => {
            proof {
                reveal_strlit("JSON");
            }
            write_lit(out, "JSON");
        },
        ColumnType::ENUM => {
            proof {
                reveal_strlit("ENUM");
            }
            write_lit(out, "ENUM");
        },
        ColumnType::SET => {
            proof {
                reveal_strlit("SET");
            }
            write_lit(out, "SET");
        },
        ColumnType::BLOB => {
            proof {
                reveal_strlit("BLOB");
            }
            write_lit(out, "BLOB");
        },
        ColumnType::GEOMETRY => {
            proof {
                reveal_strlit("GEOMETRY");
            }
            write_lit(out, "GEOMETRY");
        },
        ColumnType::UNKNOWN => {
            proof {
                reveal_strlit("UNKNOWN");
            }
            write_lit(out, "UNKNOWN");
        },
        ColumnType::BOOL => {
            proof {
                reveal_strlit("BOOL");
            }
            write_lit(out, "BOOL");
        },
        ColumnType::INT2 => {
            proof {
                reveal_strlit("INT2");
            }
            write_lit(out, "INT2");
        },
        ColumnType::INT4 => {
            proof {
                reveal_strlit("INT4");
            }
            write_lit(out, "INT4");
        },
        ColumnType::INT8 => {
            proof {
                reveal_strlit("INT8");
            }
            write_lit(out, "INT8");
        },
        ColumnType::FLOAT4 => {
            proof {
                reveal_strlit("FLOAT4");
            }
            write_lit(out, "FLOAT4");
        },
        ColumnType::FLOAT8 => {
            proof {
                reveal_strlit("FLOAT8");
            }
            write_lit(out, "FLOAT8");
        },
        ColumnType::NUMERIC => {
            proof {
                reveal_strlit("NUMERIC");
            }
            write_lit(out, "NUMERIC");
        },
        ColumnType::TIMESTAMPTZ => {
            proof {
                reveal_strlit("TIMESTAMPTZ");
            }
            write_lit(out, "TIMESTAMPTZ");
        },
        ColumnType::TIMETZ => {
            proof {
                reveal_strlit("TIMETZ");
            }
            write_lit(out, "TIMETZ");
        },
        ColumnType::INTERVAL => {
            proof {
                reveal_strlit("INTERVAL");
            }
            write_lit(out, "INTERVAL");
        },
        ColumnType::TEXT => {
            proof {
                reveal_strlit("TEXT");
            }
            write_lit(out, "TEXT");
        },
        ColumnType::CHAR => {
            proof {
                reveal_strlit("CHAR");
            }
            write_lit(out, "CHAR");
        },
        ColumnType::BYTEA => {
            proof {
                reveal_strlit("BYTEA");
            }
            write_lit(out, "BYTEA");
        },
        ColumnType::UUID => {
            proof {
                reveal_strlit("UUID");
            }
            write_lit(out, "UUID");
        },
        ColumnType::JSONB => {
            proof {
                reveal_strlit("JSONB");
            }
            write_lit(out, "JSONB");
        },
        ColumnType::XML => {
            proof {
                reveal_strlit("XML");
            }
            write_lit(out, "XML");
        },
        ColumnType::OID => {
            proof {
                reveal_strlit("OID");
            }
            write_lit(out, "OID");
        },
        ColumnType::CIDR => {
            proof {
                reveal_strlit("CIDR");
            }
            write_lit(out, "CIDR");
        },
        ColumnType::INET => {
            proof {
                reveal_strlit("INET");
            }
            write_lit(out, "INET");
        },
        ColumnType::MACADDR => {
            proof {
                reveal_strlit("MACADDR");
            }
            write_lit(out, "MACADDR");
        },
        ColumnType::VARBIT => {
            proof {
                reveal_strlit("VARBIT");
            }
            write_lit(out, "VARBIT");
        },
    }
}

/// Appends the wire form of one cell value.
#[verifier::rlimit(50)]
fn write_value(out: &mut Vec<u8>, v: &Value)
    ensures
        final(out)@ == old(out)@ + spec_ser_value(v.deep_view()),
{
    match v {
        Value::NULL => {
            proof {
                reveal_strlit("\"NULL\"");
            }
            write_lit(out, "\"NULL\"");
        },
        Value::Bytes(b) => {
            proof {
                reveal_strlit("{\"Bytes\":\"");
                reveal_strlit("\"");
                reveal_strlit("}");
            }
            write_lit(out, "{\"Bytes\":\"");
            let e = base64::serialize(b.as_slice());
            write_jstring_body(out, e.as_slice());
            write_lit(out, "\"");
            write_lit(out, "}");
            proof {
                assert(out@ =~= old(out)@ + spec_ser_value(v.deep_view()));
            }
        },
        Value::String(st) => {
            proof {
                reveal_strlit("{\"String\":\"");
                reveal_strlit("\"");
                reveal_strlit("}");
            }
            write_lit(out, "{\"String\":\"");
            write_jstring_body(out, st.as_str().as_bytes());
            write_lit(out, "\"");
            write_lit(out, "}");
            proof {
                assert(out@ =~= old(out)@ + spec_ser_value(v.deep_view()));
            }
        },
        Value::Bool(b) => {
            if *b {
                proof {
                    reveal_strlit("{\"Bool\":true}");
                }
                write_lit(out, "{\"Bool\":true}");
            } else {
                proof {
                    reveal_strlit("{\"Bool\":false}");
                }
                write_lit(out, "{\"Bool\":false}");
            }
        },
        Value::Int(n) => {
            proof {
                reveal_strlit("{\"Int\":");
                reveal_strlit("}");
            }
            write_lit(out, "{\"Int\":");
            write_i64(out, *n);
            write_lit(out, "}");
            proof {
                assert(out@ =~= old(out)@ + spec_ser_value(v.deep_view()));
            }
        },
        Value::UInt(n) => {
            proof {
                reveal_strlit("{\"UInt\":");
                reveal_strlit("}");
            }
            write_lit(out, "{\"UInt\":");
            write_u64(out, *n);
            write_lit(out, "}");
            proof {
                assert(out@ =~= old(out)@ + spec_ser_value(v.deep_view()));
            }
        },
        Value::Float(bits) => {
            proof {
                reveal_strlit("{\"Float\":");
                reveal_strlit("}");
            }
            write_lit(out, "{\"Float\":");
            write_u64(out, *bits as u64);
            write_lit(out, "}");
            proof {
                assert(out@ =~= old(out)@ + spec_ser_value(v.deep_view()));
            }
        },
        Value::Double(bits) => {
            proof {
                reveal_strlit("{\"Double\":");
                reveal_strlit("}");
            }
            write_lit(out, "{\"Double\":");
            write_u64(out, *bits);
            write_lit(out, "}");
            proof {
                assert(out@ =~= old(out)@ + spec_ser_value(v.deep_view()));
            }
        },
        Value::Date(y, mo, d, h, mi, sec, us) => {
            write_date(out, *y, *mo, *d, *h, *mi, *sec, *us);
        },
        Value::Time(neg, d, h, mi, sec, us) => {
            write_time(out, *neg, *d, *h, *mi, *sec, *us);
        },
    }
}

/// Appends the wire form of a date value.
#[verifier::rlimit(50)]
fn write_date(out: &mut Vec<u8>, y: u16, mo: u8, d: u8, h: u8, mi: u8, sec: u8, us: u32)
    ensures
        final(out)@ == old(out)@ + spec_ser_value(ValueModel::Date(y, mo, d, h, mi, sec, us)),
{
    proof {
        reveal_strlit("{\"Date\":[");
        reveal_strlit("]}");
    }
    write_lit(out, "{\"Date\":[");
    write_u64(out, y as u64);
    out.push(44);
    write_u64(out, mo as u64);
    out.push(44);
    write_u64(out, d as u64);
    out.push(44);
    write_u64(out, h as u64);
    out.push(44);
    write_u64(out, mi as u64);
    out.push(44);
    write_u64(out, sec as u64);
    out.push(44);
    write_u64(out, us as u64);
    write_lit(out, "]}");
    proof {
        assert(out@ =~= old(out)@ + spec_ser_value(ValueModel::Date(y, mo, d, h, mi, sec, us)));
    }
}

/// Appends the wire form of a time value.
#[verifier::rlimit(100)]
fn write_time(out: &mut Vec<u8>, neg: bool, d: u32, h: u8, mi: u8, sec: u8, us: u32)
    ensures
        final(out)@ == old(out)@ + spec_ser_value(ValueModel::Time(neg, d, h, mi, sec, us)),
{
    proof {
        reveal_strlit("{\"Time\":[");
        reveal_strlit("true");
        reveal_strlit("false");
        reveal_strlit("]}");
    }
    write_lit(out, "{\"Time\":[");
    if neg {
        write_lit(out, "true");
    } else {
        write_lit(out, "false");
    }
    out.push(44);
    write_u64(out, d as u64);
    out.push(44);
    write_u64(out, h as u64);
    out.push(44);
    write_u64(out, mi as u64);
    out.push(44);
    write_u64(out, sec as u64);
    out.push(44);
    write_u64(out, us as u64);
    write_lit(out, "]}");
    proof {
        assert(out@ =~= old(out)@ + spec_ser_value(ValueModel::Time(neg, d, h, mi, sec, us)));
    }
}

/// Appends the comma-separated wire forms of a row's values.
fn write_value_list(out: &mut Vec<u8>, vs: &Vec<Value>)
    ensures
        final(out)@ == old(out)@ + spec_ser_value_list(vs.deep_view()),
{
    let n = vs.len();
    if n == 0 {
        proof {
            assert(out@ =~= old(out)@ + spec_ser_value_list(vs.deep_view()));
        }
        return ;
    }
    write_value(out, &vs[0]);
    let mut k: usize = 1;
    proof {
        assert(vs.deep_view().skip(1) =~= vs.deep_view().drop_first());
        assert(old(out)@ + spec_ser_value_list(vs.deep_view()) =~= out@
            + spec_ser_value_list_tail(vs.deep_view().skip(1)));
    }
    while k < n
        invariant
            1 <= k <= n,
            n == vs.deep_view().len(),
            n == vs@.len(),
            old(out)@ + spec_ser_value_list(vs.deep_view()) == out@ + spec_ser_value_list_tail(
                vs.deep_view().skip(k as int),
            ),
        decreases n - k,
    {
        proof {
            assert(vs.deep_view().skip(k as int)[0] == vs.deep_view()[k as int]);
            assert(vs.deep_view().skip(k as int).drop_first() =~= vs.deep_view().skip(k + 1));
        }
        out.push(44);
        write_value(out, &vs[k]);
        proof {
            assert(old(out)@ + spec_ser_value_list(vs.deep_view()) =~= out@
                + spec_ser_value_list_tail(vs.deep_view().skip(k + 1)));
        }
        k += 1;
    }
    proof {
        assert(spec_ser_value_list_tail(vs.deep_view().skip(n as int)) =~= Seq::<u8>::empty());
        assert(out@ =~= old(out)@ + spec_ser_value_list(vs.deep_view()));
    }
}

/// Appends the wire form of one column descriptor.
fn write_column(out: &mut Vec<u8>, c: &Column)
    ensures
        final(out)@ == old(out)@ + spec_ser_column(c.deep_view()),
{
    proof {
        reveal_strlit("{\"name\":\"");
        reveal_strlit("\"");
        reveal_strlit(",\"column_type\":\"");
        reveal_strlit("}");
    }
    write_lit(out, "{\"name\":\"");
    write_jstring_body(out, c.name.as_str().as_bytes());
    write_lit(out, "\"");
    write_lit(out, ",\"column_type\":\"");
    let mut tag: Vec<u8> = Vec::new();
    write_coltype_tag(&mut tag, c.column_type);
    write_jstring_body(out, tag.as_slice());
    write_lit(out, "\"");
    write_lit(out, "}");
    proof {
        assert(out@ =~= old(out)@ + spec_ser_column(c.deep_view()));
    }
}

/// Appends the comma-separated wire forms of a schema's columns.
fn write_column_list(out: &mut Vec<u8>, cs: &Vec<Column>)
    ensures
        final(out)@ == old(out)@ + spec_ser_column_list(cs.deep_view()),
{
    let n = cs.len();
    if n == 0 {
        proof {
            assert(out@ =~= old(out)@ + spec_ser_column_list(cs.deep_view()));
        }
        return ;
    }
    write_column(out, &cs[0]);
    let mut k: usize = 1;
    proof {
        assert(cs.deep_view().skip(1) =~= cs.deep_view().drop_first());
        assert(old(out)@ + spec_ser_column_list(cs.deep_view()) =~= out@
            + spec_ser_column_list_tail(cs.deep_view().skip(1)));
    }
    while k < n
        invariant
            1 <= k <= n,
            n == cs.deep_view().len(),
            n == cs@.len(),
            old(out)@ + spec_ser_column_list(cs.deep_view()) == out@ + spec_ser_column_list_tail(
                cs.deep_view().skip(k as int),
            ),
        decreases n - k,
    {
        proof {
            assert(cs.deep_view().skip(k as int)[0] == cs.deep_view()[k as int]);
            assert(cs.deep_view().skip(k as int).drop_first() =~= cs.deep_view().skip(k + 1));
        }
        out.push(44);
        write_column(out, &cs[k]);
        proof {
            assert(old(out)@ + spec_ser_column_list(cs.deep_view()) =~= out@
                + spec_ser_column_list_tail(cs.deep_view().skip(k + 1)));
        }
        k += 1;
    }
    proof {
        assert(spec_ser_column_list_tail(cs.deep_view().skip(n as int)) =~= Seq::<u8>::empty());
        assert(out@ =~= old(out)@ + spec_ser_column_list(cs.deep_view()));
    }
}

/// Appends the wire form of one row.
fn write_row(out: &mut Vec<u8>, r: &Row)
    ensures
        final(out)@ == old(out)@ + spec_ser_row(r.deep_view()),
{
    proof {
        reveal(crate::dbc::wire::spec_ser_row);
        reveal_strlit("{\"values\":[");
        reveal_strlit("]");
        reveal_strlit(",\"columns\":[");
        reveal_strlit("}");
    }
    write_lit(out, "{\"values\":[");
    write_value_list(out, r.values_ref());
    write_lit(out, "]");
    write_lit(out, ",\"columns\":[");
    write_column_list(out, r.columns_ref());
    write_lit(out, "]");
    write_lit(out, "}");
    proof {
        assert(out@ =~= old(out)@ + spec_ser_row(r.deep_view()));
    }
}

/// Appends the comma-separated wire forms of a result's rows.
fn write_row_list(out: &mut Vec<u8>, rs: &Vec<Row>)
    ensures
        final(out)@ == old(out)@ + spec_ser_row_list(rs.deep_view()),
{
    let n = rs.len();
    if n == 0 {
        proof {
            assert(out@ =~= old(out)@ + spec_ser_row_list(rs.deep_view()));
        }
        return ;
    }
    write_row(out, &rs[0]);
    let mut k: usize = 1;
    proof {
        assert(rs.deep_view().skip(1) =~= rs.deep_view().drop_first());
        assert(old(out)@ + spec_ser_row_list(rs.deep_view()) =~= out@ + spec_ser_row_list_tail(
            rs.deep_view().skip(1),
        ));
    }
    while k < n
        invariant
            1 <= k <= n,
            n == rs.deep_view().len(),
            n == rs@.len(),
            old(out)@ + spec_ser_row_list(rs.deep_view()) == out@ + spec_ser_row_list_tail(
                rs.deep_view().skip(k as int),
            ),
        decreases n - k,
    {
        proof {
            assert(rs.deep_view().skip(k as int)[0] == rs.deep_view()[k as int]);
            assert(rs.deep_view().skip(k as int).drop_first() =~= rs.deep_view().skip(k + 1));
        }
        out.push(44);
        write_row(out, &rs[k]);
        proof {
            assert(old(out)@ + spec_ser_row_list(rs.deep_view()) =~= out@
                + spec_ser_row_list_tail(rs.deep_view().skip(k + 1)));
        }
        k += 1;
    }
    proof {
        assert(spec_ser_row_list_tail(rs.deep_view().skip(n as int)) =~= Seq::<u8>::empty());
        assert(out@ =~= old(out)@ + spec_ser_row_list(rs.deep_view()));
    }
}

impl QueryResult {
    /// The wire-format bytes of this result.
    pub fn serialize(&self) -> (r: Vec<u8>)
        ensures
            r@ == spec_ser_result(self@),
    {
        proof {
            reveal_strlit("{\"rows\":[");
            reveal_strlit("]");
            reveal_strlit(",\"affected_row_count\":");
            reveal_strlit("}");
        }
        let mut out: Vec<u8> = Vec::new();
        write_lit(&mut out, "{\"rows\":[");
        write_row_list(&mut out, &self.rows);
        write_lit(&mut out, "]");
        write_lit(&mut out, ",\"affected_row_count\":");
        write_u64(&mut out, self.affected_row_count as u64);
        write_lit(&mut out, "}");
        proof {
            assert(out@ =~= spec_ser_result(self@));
        }
        out
    }
}

} // verus!
