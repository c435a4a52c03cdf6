//! The parser: reads the wire-format bytes back into a query result,
//! exactly as the wire specification states the reading.

use std::sync::Arc;

use vstd::prelude::*;

use crate::dbc::Error;
use crate::dbc::base64;
use crate::dbc::jtext::expect_lit;
use crate::dbc::jtext::parse_jstring_body;
use crate::dbc::jtext::parse_u64;
use crate::dbc::result::QueryResult;
use crate::dbc::result::Row;
use crate::dbc::value::Column;
use crate::dbc::value::ColumnType;
use crate::dbc::value::Value;
use crate::dbc::wire::spec_coltype_from_name;
use crate::dbc::wire::spec_parse_column;
use crate::dbc::wire::spec_parse_column_list;
use crate::dbc::wire::spec_parse_column_list_more;
use crate::dbc::wire::spec_parse_date_fields;
use crate::dbc::wire::spec_parse_i64;
use crate::dbc::wire::spec_parse_result;
use crate::dbc::wire::spec_parse_row;
use crate::dbc::wire::spec_parse_row_list;
use crate::dbc::wire::spec_parse_row_list_more;
use crate::dbc::wire::spec_parse_time_fields;
use crate::dbc::wire::spec_parse_value;
use crate::dbc::wire::spec_parse_value_list;
use crate::dbc::wire::spec_parse_value_list_more;

verus! {

/// Relies on String::from_utf8: it accepts exactly the valid UTF-8 byte
/// sequences and returns the string those bytes encode.
#[verifier::external_body]
fn string_from_utf8(v: Vec<u8>) -> (r: Option<String>)
    ensures
        r is Some <==> vstd::utf8::valid_utf8(v@),
        r matches Some(s) ==> vstd::utf8::encode_utf8(s@) == v@,
{
    match String::from_utf8(v) {
        Ok(s) => Some(s),
        Err(_) => None,
    }
}

/// Reads a signed 64-bit number, as `spec_parse_i64` has it.
fn parse_i64(s: &[u8], i: usize) -> (r: Option<(i64, usize)>)
    requires
        i <= s@.len(),
    ensures
        match spec_parse_i64(s@, i as int) {
            Some((v, j)) => r matches Some(p) && p.0 == v && p.1 == j && i < j <= s@.len(),
            None => r is None,
        },
{
    if i < s.len() && s[i] == 45 {
        match parse_u64(s, i + 1) {
            Some((v, j)) => {
                if v <= 9223372036854775808u64 {
                    let n: i64 = if v == 9223372036854775808u64 {
                        i64::MIN
                    } else {
                        -(v as i64)
                    };
                    Some((n, j))
                } else {
                    None
                }
            },
            None => None,
        }
    } else {
        match parse_u64(s, i) {
            Some((v, j)) => {
                if v <= i64::MAX as u64 {
                    Some((v as i64, j))
                } else {
                    None
                }
            },
            None => None,
        }
    }
}

/// Whether `v` holds exactly the bytes of the ASCII string `t`.
fn bytes_is_lit(v: &[u8], t: &str) -> (r: bool)
    requires
        vstd::utf8::is_ascii_chars(t@),
    ensures
        r == (v@ == crate::dbc::jtext::lit_bytes(t)),
{
    let n = t.unicode_len();
    if v.len() != n {
        proof {
            assert(v@ != crate::dbc::jtext::lit_bytes(t));
        }
        return false;
    }
    let mut k: usize = 0;
    while k < n
        invariant
            vstd::utf8::is_ascii_chars(t@),
            k <= n,
            n == t@.len(),
            n == v@.len(),
            forall|m: int| 0 <= m < k ==> v@[m] == crate::dbc::jtext::lit_bytes(t)[m],
        decreases n - k,
    {
        if v[k] != t.get_ascii(k) {
            return false;
        }
        k += 1;
    }
    proof {
        assert(v@ =~= crate::dbc::jtext::lit_bytes(t));
    }
    true
}

/// The column type a tag names, as `spec_coltype_from_name` has it.
fn coltype_from_name(b: &[u8]) -> (r: Option<ColumnType>)
    ensures
        r == spec_coltype_from_name(b@),
{
    proof {
        reveal_strlit("INT");
        reveal_strlit("SET");
        reveal_strlit("BIT");
        reveal_strlit("XML");
        reveal_strlit("OID");
        reveal_strlit("NULL");
        reveal_strlit("DATE");
        reveal_strlit("TIME");
        reveal_strlit("TEXT");
        reveal_strlit("YEAR");
        reveal_strlit("JSON");
        reveal_strlit("ENUM");
        reveal_strlit("BLOB");
        reveal_strlit("BOOL");
        reveal_strlit("INT2");
        reveal_strlit("INT4");
        reveal_strlit("INT8");
        reveal_strlit("INET");
        reveal_strlit("UUID");
        reveal_strlit("CIDR");
        reveal_strlit("CHAR");
        reveal_strlit("FLOAT");
        reveal_strlit("BYTEA");
        reveal_strlit("JSONB");
        reveal_strlit("DOUBLE");
        reveal_strlit("STRING");
        reveal_strlit("TIMETZ");
        reveal_strlit("FLOAT4");
        reveal_strlit("FLOAT8");
        reveal_strlit("VARBIT");
        reveal_strlit("DECIMAL");
        reveal_strlit("VARCHAR");
        reveal_strlit("UNKNOWN");
        reveal_strlit("NUMERIC");
        reveal_strlit("MACADDR");
        reveal_strlit("GEOMETRY");
        reveal_strlit("INTERVAL");
        reveal_strlit("DATETIME");
        reveal_strlit("TIMESTAMP");
        reveal_strlit("TIMESTAMPTZ");
    }
    let n = b.len();
    if n == 3 {
        if bytes_is_lit(b, "INT") {
            Some(ColumnType::INT)
        } else if bytes_is_lit(b, "SET") {
            Some(ColumnType::SET)
        } else if bytes_is_lit(b, "BIT") {
            Some(ColumnType::BIT)
        } else if bytes_is_lit(b, "XML") {
            Some(ColumnType::XML)
        } else if bytes_is_lit(b, "OID") {
            Some(ColumnType::OID)
        } else {
            None
        }
    } else if n == 4 {
        if bytes_is_lit(b, "NULL") {
            Some(ColumnType::NULL)
        } else if bytes_is_lit(b, "DATE") {
            Some(ColumnType::DATE)
        } else if bytes_is_lit(b, "TIME") {
            Some(ColumnType::TIME)
        } else if bytes_is_lit(b, "TEXT") {
            Some(ColumnType::TEXT)
        } else if bytes_is_lit(b, "YEAR") {
            Some(ColumnType::YEAR)
        } else if bytes_is_lit(b, "JSON") {
            Some(ColumnType::JSON)
        } else if bytes_is_lit(b, "ENUM") {
            Some(ColumnType::ENUM)
        } else if bytes_is_lit(b, "BLOB") {
            Some(ColumnType::BLOB)
        } else if bytes_is_lit(b, "BOOL") {
            Some(ColumnType::BOOL)
        } else if bytes_is_lit(b, "INT2") {
            Some(ColumnType::INT2)
        } else if bytes_is_lit(b, "INT4") {
            Some(ColumnType::INT4)
        } else if bytes_is_lit(b, "INT8") {
            Some(ColumnType::INT8)
        } else if bytes_is_lit(b, "INET") {
            Some(ColumnType::INET)
        } else if bytes_is_lit(b, "UUID") {
            Some(ColumnType::UUID)
        } else if bytes_is_lit(b, "CIDR") {
            Some(ColumnType::CIDR)
        } else if bytes_is_lit(b, "CHAR") {
            Some(ColumnType::CHAR)
        } else {
            None
        }
    } else if n == 5 {
        if bytes_is_lit(b, "FLOAT") {
            Some(ColumnType::FLOAT)
        } else if bytes_is_lit(b, "BYTEA") {
            Some(ColumnType::BYTEA)
        } else if bytes_is_lit(b, "JSONB") {
            Some(ColumnType::JSONB)
        } else {
            None
        }
    } else if n == 6 {
        if bytes_is_lit(b, "DOUBLE") {
            Some(ColumnType::DOUBLE)
        } else if bytes_is_lit(b, "STRING") {
            Some(ColumnType::STRING)
        } else if bytes_is_lit(b, "TIMETZ") {
            Some(ColumnType::TIMETZ)
        } else if bytes_is_lit(b, "FLOAT4") {
            Some(ColumnType::FLOAT4)
        } else if bytes_is_lit(b, "FLOAT8") {
            Some(ColumnType::FLOAT8)
        } else if bytes_is_lit(b, "VARBIT") {
            Some(ColumnType::VARBIT)
        } else {
            None
        }
    } else if n == 7 {
        if bytes_is_lit(b, "DECIMAL") {
            Some(ColumnType::DECIMAL)
        } else if bytes_is_lit(b, "VARCHAR") {
            Some(ColumnType::VARCHAR)
        } else if bytes_is_lit(b, "UNKNOWN") {
            Some(ColumnType::UNKNOWN)
        } else if bytes_is_lit(b, "NUMERIC") {
            Some(ColumnType::NUMERIC)
        } else if bytes_is_lit(b, "MACADDR") {
            Some(ColumnType::MACADDR)
        } else {
            None
        }
    } else if n == 8 {
        if bytes_is_lit(b, "GEOMETRY") {
            Some(ColumnType::GEOMETRY)
        } else if bytes_is_lit(b, "INTERVAL") {
            Some(ColumnType::INTERVAL)
        } else if bytes_is_lit(b, "DATETIME") {
            Some(ColumnType::DATETIME)
        } else {
            None
        }
    } else if n == 9 {
        if bytes_is_lit(b, "TIMESTAMP") {
            Some(ColumnType::TIMESTAMP)
        } else {
            None
        }
    } else if n == 11 {
        if bytes_is_lit(b, "TIMESTAMPTZ") {
            Some(ColumnType::TIMESTAMPTZ)
        } else {
            None
        }
    } else {
        None
    }
}

/// Reads the seven bracketed fields of a date value.
#[verifier::rlimit(100)]
fn parse_date_fields(s: &[u8], i: usize) -> (r: Option<(Value, usize)>)
    requires
        i <= s@.len(),
    ensures
        match spec_parse_date_fields(s@, i as int) {
            Some((m, j)) => r matches Some(p) && p.0.deep_view() == m && p.1 == j && i < j
                <= s@.len(),
            None => r is None,
        },
{
    proof {
        reveal_strlit(",");
        reveal_strlit("]}");
    }
    let (y, j1) = match parse_u64(s, i) {
        Some(p) => p,
        None => {
            return None;
        },
    };
    if y > u16::MAX as u64 {
        return None;
    }
    let j1 = match expect_lit(s, j1, ",") {
        Some(j) => j,
        None => {
            return None;
        },
    };
    let (mo, j2) = match parse_u64(s, j1) {
        Some(p) => p,
        None => {
            return None;
        },
    };
    if mo > u8::MAX as u64 {
        return None;
    }
    let j2 = match expect_lit(s, j2, ",") {
        Some(j) => j,
        None => {
            return None;
        },
    };
    let (d, j3) = match parse_u64(s, j2) {
        Some(p) => p,
        None => {
            return None;
        },
    };
    if d > u8::MAX as u64 {
        return None;
    }
    let j3 = match expect_lit(s, j3, ",") {
        Some(j) => j,
        None => {
            return None;
        },
    };
    let (h, j4) = match parse_u64(s, j3) {
        Some(p) => p,
        None => {
            return None;
        },
    };
    if h > u8::MAX as u64 {
        return None;
    }
    let j4 = match expect_lit(s, j4, ",") {
        Some(j) => j,
        None => {
            return None;
        },
    };
    let (mi, j5) = match parse_u64(s, j4) {
        Some(p) => p,
        None => {
            return None;
        },
    };
    if mi > u8::MAX as u64 {
        return None;
    }
    let j5 = match expect_lit(s, j5, ",") {
        Some(j) => j,
        None => {
            return None;
        },
    };
    let (sec, j6) = match parse_u64(s, j5) {
        Some(p) => p,
        None => {
            return None;
        },
    };
    if sec > u8::MAX as u64 {
        return None;
    }
    let j6 = match expect_lit(s, j6, ",") {
        Some(j) => j,
        None => {
            return None;
        },
    };
    let (us, j7) = match parse_u64(s, j6) {
        Some(p) => p,
        None => {
            return None;
        },
    };
    if us > u32::MAX as u64 {
        return None;
    }
    let j8 = match expect_lit(s, j7, "]}") {
        Some(j) => j,
        None => {
            return None;
        },
    };
    Some(
        (
            Value::Date(
                y as u16,
                mo as u8,
                d as u8,
                h as u8,
                mi as u8,
                sec as u8,
                us as u32,
            ),
            j8,
        ),
    )
}

/// Reads the six bracketed fields of a time value.
#[verifier::rlimit(100)]
fn parse_time_fields(s: &[u8], i: usize) -> (r: Option<(Value, usize)>)
    requires
        i <= s@.len(),
    ensures
        match spec_parse_time_fields(s@, i as int) {
            Some((m, j)) => r matches Some(p) && p.0.deep_view() == m && p.1 == j && i < j
                <= s@.len(),
            None => r is None,
        },
{
    proof {
        reveal_strlit("true");
        reveal_strlit("false");
        reveal_strlit(",");
        reveal_strlit("]}");
    }
    let (neg, j0) = match expect_lit(s, i, "true") {
        Some(j) => (true, j),
        None => match expect_lit(s, i, "false") {
            Some(j) => (false, j),
            None => {
                return None;
            },
        },
    };
    let j0 = match expect_lit(s, j0, ",") {
        Some(j) => j,
        None => {
            return None;
        },
    };
    let (d, j1) = match parse_u64(s, j0) {
        Some(p) => p,
        None => {
            return None;
        },
    };
    if d > u32::MAX as u64 {
        return None;
    }
    let j1 = match expect_lit(s, j1, ",") {
        Some(j) => j,
        None => {
            return None;
        },
    };
    let (h, j2) = match parse_u64(s, j1) {
        Some(p) => p,
        None => {
            return None;
        },
    };
    if h > u8::MAX as u64 {
        return None;
    }
    let j2 = match expect_lit(s, j2, ",") {
        Some(j) => j,
        None => {
            return None;
        },
    };
    let (mi, j3) = match parse_u64(s, j2) {
        Some(p) => p,
        None => {
            return None;
        },
    };
    if mi > u8::MAX as u64 {
        return None;
    }
    let j3 = match expect_lit(s, j3, ",") {
        Some(j) => j,
        None => {
            return None;
        },
    };
    let (sec, j4) = match parse_u64(s, j3) {
        Some(p) => p,
        None => {
            return None;
        },
    };
    if sec > u8::MAX as u64 {
        return None;
    }
    let j4 = match expect_lit(s, j4, ",") {
        Some(j) => j,
        None => {
            return None;
        },
    };
    let (us, j5) = match parse_u64(s, j4) {
        Some(p) => p,
        None => {
            return None;
        },
    };
    if us > u32::MAX as u64 {
        return None;
    }
    let j6 = match expect_lit(s, j5, "]}") {
        Some(j) => j,
        None => {
            return None;
        },
    };
    Some((Value::Time(neg, d as u32, h as u8, mi as u8, sec as u8, us as u32), j6))
}

/// Reads one cell value, as `spec_parse_value` has it.
#[verifier::rlimit(100)]
fn parse_value(s: &[u8], i: usize) -> (r: Option<(Value, usize)>)
    requires
        i <= s@.len(),
    ensures
        match spec_parse_value(s@, i as int) {
            Some((m, j)) => r matches Some(p) && p.0.deep_view() == m && p.1 == j && i < j
                <= s@.len(),
            None => r is None,
        },
{
    proof {
        reveal_strlit("\"NULL\"");
        reveal_strlit("{\"Bytes\":\"");
        reveal_strlit("{\"Bool\":true}");
        reveal_strlit("{\"Bool\":false}");
        reveal_strlit("{\"String\":\"");
        reveal_strlit("{\"Int\":");
        reveal_strlit("{\"UInt\":");
        reveal_strlit("{\"Float\":");
        reveal_strlit("{\"Double\":");
        reveal_strlit("{\"Date\":[");
        reveal_strlit("{\"Time\":[");
        reveal_strlit("}");
    }
    let slen = s.len();
    if i >= slen || slen - i <= 2 {
        return None;
    }
    if s[i] == 34 {
        match expect_lit(s, i, "\"NULL\"") {
            Some(j) => Some((Value::NULL, j)),
            None => None,
        }
    } else if s[i] != 123 {
        None
    } else if s[i + 2] == 66 {
        if i + 3 < slen && s[i + 3] == 121 {
            let j0 = match expect_lit(s, i, "{\"Bytes\":\"") {
                Some(j) => j,
                None => {
                    return None;
                },
            };
            let (content, j) = match parse_jstring_body(s, j0) {
                Some(p) => p,
                None => {
                    return None;
                },
            };
            let bytes = match base64::deserialize(content.as_slice()) {
                Some(b) => b,
                None => {
                    return None;
                },
            };
            match expect_lit(s, j, "}") {
                Some(k) => Some((Value::Bytes(bytes), k)),
                None => None,
            }
        } else {
            match expect_lit(s, i, "{\"Bool\":true}") {
                Some(j) => Some((Value::Bool(true), j)),
                None => match expect_lit(s, i, "{\"Bool\":false}") {
                    Some(j) => Some((Value::Bool(false), j)),
                    None => None,
                },
            }
        }
    } else if s[i + 2] == 83 {
        let j0 = match expect_lit(s, i, "{\"String\":\"") {
            Some(j) => j,
            None => {
                return None;
            },
        };
        let (content, j) = match parse_jstring_body(s, j0) {
            Some(p) => p,
            None => {
                return None;
            },
        };
        let text = match string_from_utf8(content) {
            Some(t) => t,
            None => {
                return None;
            },
        };
        proof {
            vstd::utf8::encode_utf8_decode_utf8(text@);
        }
        match expect_lit(s, j, "}") {
            Some(k) => Some((Value::String(text), k)),
            None => None,
        }
    } else if s[i + 2] == 73 {
        let j0 = match expect_lit(s, i, "{\"Int\":") {
            Some(j) => j,
            None => {
                return None;
            },
        };
        let (n, j) = match parse_i64(s, j0) {
            Some(p) => p,
            None => {
                return None;
            },
        };
        match expect_lit(s, j, "}") {
            Some(k) => Some((Value::Int(n), k)),
            None => None,
        }
    } else if s[i + 2] == 85 {
        let j0 = match expect_lit(s, i, "{\"UInt\":") {
            Some(j) => j,
            None => {
                return None;
            },
        };
        let (n, j) = match parse_u64(s, j0) {
            Some(p) => p,
            None => {
                return None;
            },
        };
        match expect_lit(s, j, "}") {
            Some(k) => Some((Value::UInt(n), k)),
            None => None,
        }
    } else if s[i + 2] == 70 {
        let j0 = match expect_lit(s, i, "{\"Float\":") {
            Some(j) => j,
            None => {
                return None;
            },
        };
        let (n, j) = match parse_u64(s, j0) {
            Some(p) => p,
            None => {
                return None;
            },
        };
        if n > u32::MAX as u64 {
            return None;
        }
        match expect_lit(s, j, "}") {
            Some(k) => Some((Value::Float(n as u32), k)),
            None => None,
        }
    } else if s[i + 2] == 68 {
        if i + 3 < slen && s[i + 3] == 97 {
            let j0 = match expect_lit(s, i, "{\"Date\":[") {
                Some(j) => j,
                None => {
                    return None;
                },
            };
            parse_date_fields(s, j0)
        } else {
            let j0 = match expect_lit(s, i, "{\"Double\":") {
                Some(j) => j,
                None => {
                    return None;
                },
            };
            let (n, j) = match parse_u64(s, j0) {
                Some(p) => p,
                None => {
                    return None;
                },
            };
            match expect_lit(s, j, "}") {
                Some(k) => Some((Value::Double(n), k)),
                None => None,
            }
        }
    } else if s[i + 2] == 84 {
        let j0 = match expect_lit(s, i, "{\"Time\":[") {
            Some(j) => j,
            None => {
                return None;
            },
        };
        parse_time_fields(s, j0)
    } else {
        None
    }
}

/// Reads a whole bracketed value list, as `spec_parse_value_list` has it.
fn parse_value_list(s: &[u8], i: usize) -> (r: Option<(Vec<Value>, usize)>)
    requires
        i <= s@.len(),
    ensures
        match spec_parse_value_list(s@, i as int) {
            Some((ms, j)) => r matches Some(p) && p.0.deep_view() == ms && p.1 == j && i < j
                <= s@.len(),
            None => r is None,
        },
{
    proof {
        reveal_strlit("]");
        reveal_strlit(",");
    }
    let slen = s.len();
    match expect_lit(s, i, "]") {
        Some(j) => {
            let out: Vec<Value> = Vec::new();
            proof {
                assert(out.deep_view() =~= Seq::<crate::dbc::value::ValueModel>::empty());
            }
            return Some((out, j));
        },
        None => {},
    }
    let (v, mut j) = match parse_value(s, i) {
        Some(p) => p,
        None => {
            return None;
        },
    };
    let mut out: Vec<Value> = Vec::new();
    let ghost first = spec_parse_value(s@, i as int).unwrap().0;
    out.push(v);
    proof {
        assert(out.deep_view() =~= seq![first]);
    }
    loop
        invariant
            i < j <= slen,
            slen == s@.len(),
            vstd::utf8::is_ascii_chars("]"@),
            vstd::utf8::is_ascii_chars(","@),
            "]"@.len() == 1,
            ","@.len() == 1,
            spec_parse_value_list(s@, i as int) == spec_parse_value_list_more(
                s@,
                j as int,
                out.deep_view(),
            ),
        decreases slen - j,
    {
        match expect_lit(s, j, "]") {
            Some(k) => {
                return Some((out, k));
            },
            None => {},
        }
        let k = match expect_lit(s, j, ",") {
            Some(k) => k,
            None => {
                return None;
            },
        };
        let (v, j2) = match parse_value(s, k) {
            Some(p) => p,
            None => {
                return None;
            },
        };
        let ghost prev = out.deep_view();
        let ghost nextm = spec_parse_value(s@, k as int).unwrap().0;
        out.push(v);
        proof {
            assert(out.deep_view() =~= prev.push(nextm));
        }
        j = j2;
    }
}

/// Reads one column descriptor, as `spec_parse_column` has it.
fn parse_column(s: &[u8], i: usize) -> (r: Option<(Column, usize)>)
    requires
        i <= s@.len(),
    ensures
        match spec_parse_column(s@, i as int) {
            Some((m, j)) => r matches Some(p) && p.0.deep_view() == m && p.1 == j && i < j
                <= s@.len(),
            None => r is None,
        },
{
    proof {
        reveal_strlit("{\"name\":\"");
        reveal_strlit(",\"column_type\":\"");
        reveal_strlit("}");
    }
    let j0 = match expect_lit(s, i, "{\"name\":\"") {
        Some(j) => j,
        None => {
            return None;
        },
    };
    let (content, j1) = match parse_jstring_body(s, j0) {
        Some(p) => p,
        None => {
            return None;
        },
    };
    let name = match string_from_utf8(content) {
        Some(t) => t,
        None => {
            return None;
        },
    };
    proof {
        vstd::utf8::encode_utf8_decode_utf8(name@);
    }
    let j2 = match expect_lit(s, j1, ",\"column_type\":\"") {
        Some(j) => j,
        None => {
            return None;
        },
    };
    let (tag, j3) = match parse_jstring_body(s, j2) {
        Some(p) => p,
        None => {
            return None;
        },
    };
    let ct = match coltype_from_name(tag.as_slice()) {
        Some(c) => c,
        None => {
            return None;
        },
    };
    match expect_lit(s, j3, "}") {
        Some(k) => Some((Column { name, column_type: ct }, k)),
        None => None,
    }
}

/// Reads a whole bracketed column list, as `spec_parse_column_list` has it.
fn parse_column_list(s: &[u8], i: usize) -> (r: Option<(Vec<Column>, usize)>)
    requires
        i <= s@.len(),
    ensures
        match spec_parse_column_list(s@, i as int) {
            Some((ms, j)) => r matches Some(p) && p.0.deep_view() == ms && p.1 == j && i < j
                <= s@.len(),
            None => r is None,
        },
{
    proof {
        reveal_strlit("]");
        reveal_strlit(",");
    }
    let slen = s.len();
    match expect_lit(s, i, "]") {
        Some(j) => {
            let out: Vec<Column> = Vec::new();
            proof {
                assert(out.deep_view() =~= Seq::<crate::dbc::value::ColumnModel>::empty());
            }
            return Some((out, j));
        },
        None => {},
    }
    let (c, mut j) = match parse_column(s, i) {
        Some(p) => p,
        None => {
            return None;
        },
    };
    let mut out: Vec<Column> = Vec::new();
    let ghost first = spec_parse_column(s@, i as int).unwrap().0;
    out.push(c);
    proof {
        assert(out.deep_view() =~= seq![first]);
    }
    loop
        invariant
            i < j <= slen,
            slen == s@.len(),
            vstd::utf8::is_ascii_chars("]"@),
            vstd::utf8::is_ascii_chars(","@),
            "]"@.len() == 1,
            ","@.len() == 1,
            spec_parse_column_list(s@, i as int) == spec_parse_column_list_more(
                s@,
                j as int,
                out.deep_view(),
            ),
        decreases slen - j,
    {
        match expect_lit(s, j, "]") {
            Some(k) => {
                return Some((out, k));
            },
            None => {},
        }
        let k = match expect_lit(s, j, ",") {
            Some(k) => k,
            None => {
                return None;
            },
        };
        let (c, j2) = match parse_column(s, k) {
            Some(p) => p,
            None => {
                return None;
            },
        };
        let ghost prev = out.deep_view();
        let ghost nextm = spec_parse_column(s@, k as int).unwrap().0;
        out.push(c);
        proof {
            assert(out.deep_view() =~= prev.push(nextm));
        }
        j = j2;
    }
}

/// Reads one row object, as `spec_parse_row` has it.
fn parse_row(s: &[u8], i: usize) -> (r: Option<(Row, usize)>)
    requires
        i <= s@.len(),
    ensures
        match spec_parse_row(s@, i as int) {
            Some((m, j)) => r matches Some(p) && p.0.deep_view() == m && p.1 == j && i < j
                <= s@.len(),
            None => r is None,
        },
{
    proof {
        reveal_strlit("{\"values\":[");
        reveal_strlit(",\"columns\":[");
        reveal_strlit("}");
    }
    let j0 = match expect_lit(s, i, "{\"values\":[") {
        Some(j) => j,
        None => {
            return None;
        },
    };
    let (vs, j1) = match parse_value_list(s, j0) {
        Some(p) => p,
        None => {
            return None;
        },
    };
    let j2 = match expect_lit(s, j1, ",\"columns\":[") {
        Some(j) => j,
        None => {
            return None;
        },
    };
    let (cs, j3) = match parse_column_list(s, j2) {
        Some(p) => p,
        None => {
            return None;
        },
    };
    let ghost vsm = vs.deep_view();
    let ghost csm = cs.deep_view();
    let row = Row::new(vs, Arc::new(cs));
    proof {
        assert(row.deep_view().values =~~= vsm);
        assert(row.deep_view().columns =~~= csm);
    }
    match expect_lit(s, j3, "}") {
        Some(k) => Some((row, k)),
        None => None,
    }
}

/// Reads a whole bracketed row list, as `spec_parse_row_list` has it.
fn parse_row_list(s: &[u8], i: usize) -> (r: Option<(Vec<Row>, usize)>)
    requires
        i <= s@.len(),
    ensures
        match spec_parse_row_list(s@, i as int) {
            Some((ms, j)) => r matches Some(p) && p.0.deep_view() == ms && p.1 == j && i < j
                <= s@.len(),
            None => r is None,
        },
{
    proof {
        reveal_strlit("]");
        reveal_strlit(",");
    }
    let slen = s.len();
    match expect_lit(s, i, "]") {
        Some(j) => {
            let out: Vec<Row> = Vec::new();
            proof {
                assert(out.deep_view() =~= Seq::<crate::dbc::result::RowModel>::empty());
            }
            return Some((out, j));
        },
        None => {},
    }
    let (row, mut j) = match parse_row(s, i) {
        Some(p) => p,
        None => {
            return None;
        },
    };
    let mut out: Vec<Row> = Vec::new();
    let ghost first = spec_parse_row(s@, i as int).unwrap().0;
    out.push(row);
    proof {
        assert(out.deep_view() =~= seq![first]);
    }
    loop
        invariant
            i < j <= slen,
            slen == s@.len(),
            vstd::utf8::is_ascii_chars("]"@),
            vstd::utf8::is_ascii_chars(","@),
            "]"@.len() == 1,
            ","@.len() == 1,
            spec_parse_row_list(s@, i as int) == spec_parse_row_list_more(
                s@,
                j as int,
                out.deep_view(),
            ),
        decreases slen - j,
    {
        match expect_lit(s, j, "]") {
            Some(k) => {
                return Some((out, k));
            },
            None => {},
        }
        let k = match expect_lit(s, j, ",") {
            Some(k) => k,
            None => {
                return None;
            },
        };
        let (row, j2) = match parse_row(s, k) {
            Some(p) => p,
            None => {
                return None;
            },
        };
        let ghost prev = out.deep_view();
        let ghost nextm = spec_parse_row(s@, k as int).unwrap().0;
        out.push(row);
        proof {
            assert(out.deep_view() =~= prev.push(nextm));
        }
        j = j2;
    }
}

impl QueryResult {
    /// Reads a result back from its wire-format bytes. The whole input must
    /// be one serialized result; anything else is a conversion error.
    #[verifier::rlimit(100)]
    pub fn deserialize(s: &[u8]) -> (r: Result<QueryResult, Error>)
        ensures
            match spec_parse_result(s@) {
                Some(m) => r matches Ok(q) && q@ == m,
                None => r matches Err(e) && e is ConversionError,
            },
    {
        proof {
            reveal_strlit("{\"rows\":[");
            reveal_strlit(",\"affected_row_count\":");
            reveal_strlit("}");
        }
        let j0 = match expect_lit(s, 0, "{\"rows\":[") {
            Some(j) => j,
            None => {
                return Err(
                    Error::ConversionError(String::from_str("malformed serialized result")),
                );
            },
        };
        let (rows, j1) = match parse_row_list(s, j0) {
            Some(p) => p,
            None => {
                return Err(
                    Error::ConversionError(String::from_str("malformed serialized result")),
                );
            },
        };
        let j2 = match expect_lit(s, j1, ",\"affected_row_count\":") {
            Some(j) => j,
            None => {
                return Err(
                    Error::ConversionError(String::from_str("malformed serialized result")),
                );
            },
        };
        let (n, j3) = match parse_u64(s, j2) {
            Some(p) => p,
            None => {
                return Err(
                    Error::ConversionError(String::from_str("malformed serialized result")),
                );
            },
        };
        if n > usize::MAX as u64 {
            return Err(Error::ConversionError(String::from_str("malformed serialized result")));
        }
        let j4 = match expect_lit(s, j3, "}") {
            Some(j) => j,
            None => {
                return Err(
                    Error::ConversionError(String::from_str("malformed serialized result")),
                );
            },
        };
        if j4 != s.len() {
            return Err(Error::ConversionError(String::from_str("malformed serialized result")));
        }
        Ok(QueryResult { rows, affected_row_count: n as usize })
    }
}

} // verus!
