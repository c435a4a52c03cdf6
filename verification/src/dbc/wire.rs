//! The wire format of a query result, specified at the byte level: a
//! JSON-shaped text with the keys `rows` and `affected_row_count`, each row
//! an object with `values` and `columns`, each value a tagged object (or the
//! bare string `"NULL"`), byte strings transport-encoded as unpadded
//! standard-alphabet base64, and `Float`/`Double` carried as the decimal
//! rendering of their IEEE-754 bit patterns. One spec function pair per
//! shape: what the serializer emits, and what the parser reads.

use vstd::prelude::*;

use crate::dbc::base64::spec_b64_decode;
use crate::dbc::base64::spec_b64_encode;
use crate::dbc::jtext::lit_bytes;
use crate::dbc::jtext::spec_dec_digits;
use crate::dbc::jtext::spec_escape;
use crate::dbc::jtext::spec_lit_at;
use crate::dbc::jtext::spec_parse_jstring_body;
use crate::dbc::jtext::spec_parse_u64;
use crate::dbc::result::QueryResultModel;
use crate::dbc::result::RowModel;
use crate::dbc::value::ColumnModel;
use crate::dbc::value::ColumnType;
use crate::dbc::value::ValueModel;

verus! {

/// The decimal rendering of a signed number: a minus sign and the digits of
/// the magnitude, or just the digits.
pub open spec fn spec_int_digits(n: int) -> Seq<u8> {
    if n < 0 {
        seq![45u8] + spec_dec_digits((-n) as nat)
    } else {
        spec_dec_digits(n as nat)
    }
}

/// The tag under which a column type is serialized: its bare name.
pub open spec fn spec_coltype_tag(ct: ColumnType) -> Seq<u8> {
    match ct {
        ColumnType::NULL => lit_bytes("NULL"),
        ColumnType::DECIMAL => lit_bytes("DECIMAL"),
        ColumnType::INT => lit_bytes("INT"),
        ColumnType::FLOAT => lit_bytes("FLOAT"),
        ColumnType::BIT => lit_bytes("BIT"),
        ColumnType::DOUBLE => lit_bytes("DOUBLE"),
        ColumnType::STRING => lit_bytes("STRING"),
        ColumnType::VARCHAR => lit_bytes("VARCHAR"),
        ColumnType::TIMESTAMP => lit_bytes("TIMESTAMP"),
        ColumnType::DATE => lit_bytes("DATE"),
        ColumnType::TIME => lit_bytes("TIME"),
        ColumnType::YEAR => lit_bytes("YEAR"),
        ColumnType::DATETIME => lit_bytes("DATETIME"),
        ColumnType::JSON => lit_bytes("JSON"),
        ColumnType::ENUM => lit_bytes("ENUM"),
        ColumnType::SET => lit_bytes("SET"),
        ColumnType::BLOB => lit_bytes("BLOB"),
        ColumnType::GEOMETRY => lit_bytes("GEOMETRY"),
        ColumnType::UNKNOWN => lit_bytes("UNKNOWN"),
        ColumnType::BOOL => lit_bytes("BOOL"),
        ColumnType::INT2 => lit_bytes("INT2"),
        ColumnType::INT4 => lit_bytes("INT4"),
        ColumnType::INT8 => lit_bytes("INT8"),
        ColumnType::FLOAT4 => lit_bytes("FLOAT4"),
        ColumnType::FLOAT8 => lit_bytes("FLOAT8"),
        ColumnType::NUMERIC => lit_bytes("NUMERIC"),
        ColumnType::TIMESTAMPTZ => lit_bytes("TIMESTAMPTZ"),
        ColumnType::TIMETZ => lit_bytes("TIMETZ"),
        ColumnType::INTERVAL => lit_bytes("INTERVAL"),
        ColumnType::TEXT => lit_bytes("TEXT"),
        ColumnType::CHAR => lit_bytes("CHAR"),
        ColumnType::BYTEA => lit_bytes("BYTEA"),
        ColumnType::UUID => lit_bytes("UUID"),
        ColumnType::JSONB => lit_bytes("JSONB"),
        ColumnType::XML => lit_bytes("XML"),
        ColumnType::OID => lit_bytes("OID"),
        ColumnType::CIDR => lit_bytes("CIDR"),
        ColumnType::INET => lit_bytes("INET"),
        ColumnType::MACADDR => lit_bytes("MACADDR"),
        ColumnType::VARBIT => lit_bytes("VARBIT"),
    }
}

/// The column type a tag names, read back through a dispatch on the tag's
/// length and first distinguishing bytes, with the full tag checked at the
/// leaf. `None` for anything that is no tag.
pub open spec fn spec_coltype_from_name(b: Seq<u8>) -> Option<ColumnType> {
    if b.len() == 3 {
        if b == lit_bytes("INT") {
            Some(ColumnType::INT)
        } else if b == lit_bytes("SET") {
            Some(ColumnType::SET)
        } else if b == lit_bytes("BIT") {
            Some(ColumnType::BIT)
        } else if b == lit_bytes("XML") {
            Some(ColumnType::XML)
        } else if b == lit_bytes("OID") {
            Some(ColumnType::OID)
        } else {
            None
        }
    } else if b.len() == 4 {
        if b == lit_bytes("NULL") {
            Some(ColumnType::NULL)
        } else if b == lit_bytes("DATE") {
            Some(ColumnType::DATE)
        } else if b == lit_bytes("TIME") {
            Some(ColumnType::TIME)
        } else if b == lit_bytes("TEXT") {
            Some(ColumnType::TEXT)
        } else if b == lit_bytes("YEAR") {
            Some(ColumnType::YEAR)
        } else if b == lit_bytes("JSON") {
            Some(ColumnType::JSON)
        } else if b == lit_bytes("ENUM") {
            Some(ColumnType::ENUM)
        } else if b == lit_bytes("BLOB") {
            Some(ColumnType::BLOB)
        } else if b == lit_bytes("BOOL") {
            Some(ColumnType::BOOL)
        } else if b == lit_bytes("INT2") {
            Some(ColumnType::INT2)
        } else if b == lit_bytes("INT4") {
            Some(ColumnType::INT4)
        } else if b == lit_bytes("INT8") {
            Some(ColumnType::INT8)
        } else if b == lit_bytes("INET") {
            Some(ColumnType::INET)
        } else if b == lit_bytes("UUID") {
            Some(ColumnType::UUID)
        } else if b == lit_bytes("CIDR") {
            Some(ColumnType::CIDR)
        } else if b == lit_bytes("CHAR") {
            Some(ColumnType::CHAR)
        } else {
            None
        }
    } else if b.len() == 5 {
        if b == lit_bytes("FLOAT") {
            Some(ColumnType::FLOAT)
        } else if b == lit_bytes("BYTEA") {
            Some(ColumnType::BYTEA)
        } else if b == lit_bytes("JSONB") {
            Some(ColumnType::JSONB)
        } else {
            None
        }
    } else if b.len() == 6 {
        if b == lit_bytes("DOUBLE") {
            Some(ColumnType::DOUBLE)
        } else if b == lit_bytes("STRING") {
            Some(ColumnType::STRING)
        } else if b == lit_bytes("TIMETZ") {
            Some(ColumnType::TIMETZ)
        } else if b == lit_bytes("FLOAT4") {
            Some(ColumnType::FLOAT4)
        } else if b == lit_bytes("FLOAT8") {
            Some(ColumnType::FLOAT8)
        } else if b == lit_bytes("VARBIT") {
            Some(ColumnType::VARBIT)
        } else {
            None
        }
    } else if b.len() == 7 {
        if b == lit_bytes("DECIMAL") {
            Some(ColumnType::DECIMAL)
        } else if b == lit_bytes("VARCHAR") {
            Some(ColumnType::VARCHAR)
        } else if b == lit_bytes("UNKNOWN") {
            Some(ColumnType::UNKNOWN)
        } else if b == lit_bytes("NUMERIC") {
            Some(ColumnType::NUMERIC)
        } else if b == lit_bytes("MACADDR") {
            Some(ColumnType::MACADDR)
        } else {
            None
        }
    } else if b.len() == 8 {
        if b == lit_bytes("GEOMETRY") {
            Some(ColumnType::GEOMETRY)
        } else if b == lit_bytes("INTERVAL") {
            Some(ColumnType::INTERVAL)
        } else if b == lit_bytes("DATETIME") {
            Some(ColumnType::DATETIME)
        } else {
            None
        }
    } else if b.len() == 9 {
        if b == lit_bytes("TIMESTAMP") {
            Some(ColumnType::TIMESTAMP)
        } else {
            None
        }
    } else if b.len() == 11 {
        if b == lit_bytes("TIMESTAMPTZ") {
            Some(ColumnType::TIMESTAMPTZ)
        } else {
            None
        }
    } else {
        None
    }
}

/// What the serializer emits for one cell value.
pub open spec fn spec_ser_value(v: ValueModel) -> Seq<u8> {
    match v {
        ValueModel::Null => lit_bytes("\"NULL\""),
        ValueModel::Bytes(b) => lit_bytes("{\"Bytes\":\"") + spec_escape(spec_b64_encode(b))
            + lit_bytes("\"") + lit_bytes("}"),
        ValueModel::Text(t) => lit_bytes("{\"String\":\"") + spec_escape(
            vstd::utf8::encode_utf8(t),
        ) + lit_bytes("\"") + lit_bytes("}"),
        ValueModel::Bool(b) => if b {
            lit_bytes("{\"Bool\":true}")
        } else {
            lit_bytes("{\"Bool\":false}")
        },
        ValueModel::Int(n) => lit_bytes("{\"Int\":") + spec_int_digits(n as int) + lit_bytes("}"),
        ValueModel::UInt(n) => lit_bytes("{\"UInt\":") + spec_dec_digits(n as nat) + lit_bytes(
            "}",
        ),
        ValueModel::Float(bits) => lit_bytes("{\"Float\":") + spec_dec_digits(bits as nat)
            + lit_bytes("}"),
        ValueModel::Double(bits) => lit_bytes("{\"Double\":") + spec_dec_digits(bits as nat)
            + lit_bytes("}"),
        ValueModel::Date(y, mo, d, h, mi, s, us) => lit_bytes("{\"Date\":[") + spec_dec_digits(
            y as nat,
        ) + seq![44u8] + spec_dec_digits(mo as nat) + seq![44u8] + spec_dec_digits(d as nat)
            + seq![44u8] + spec_dec_digits(h as nat) + seq![44u8] + spec_dec_digits(mi as nat)
            + seq![44u8] + spec_dec_digits(s as nat) + seq![44u8] + spec_dec_digits(us as nat)
            + lit_bytes("]}"),
        ValueModel::Time(neg, d, h, mi, s, us) => lit_bytes("{\"Time\":[") + (if neg {
            lit_bytes("true")
        } else {
            lit_bytes("false")
        }) + seq![44u8] + spec_dec_digits(d as nat) + seq![44u8] + spec_dec_digits(h as nat)
            + seq![44u8] + spec_dec_digits(mi as nat) + seq![44u8] + spec_dec_digits(s as nat)
            + seq![44u8] + spec_dec_digits(us as nat) + lit_bytes("]}"),
    }
}

/// The values of one row, comma-separated.
pub open spec fn spec_ser_value_list(vs: Seq<ValueModel>) -> Seq<u8>
    decreases vs.len(),
{
    if vs.len() == 0 {
        Seq::empty()
    } else {
        spec_ser_value(vs[0]) + spec_ser_value_list_tail(vs.drop_first())
    }
}

/// The remaining values, each preceded by a comma.
pub open spec fn spec_ser_value_list_tail(vs: Seq<ValueModel>) -> Seq<u8>
    decreases vs.len(),
{
    if vs.len() == 0 {
        Seq::empty()
    } else {
        seq![44u8] + spec_ser_value(vs[0]) + spec_ser_value_list_tail(vs.drop_first())
    }
}

/// What the serializer emits for one column descriptor.
pub open spec fn spec_ser_column(c: ColumnModel) -> Seq<u8> {
    lit_bytes("{\"name\":\"") + spec_escape(vstd::utf8::encode_utf8(c.name)) + lit_bytes("\"")
        + lit_bytes(",\"column_type\":\"") + spec_escape(spec_coltype_tag(c.column_type))
        + lit_bytes("\"") + lit_bytes("}")
}

/// The columns of one schema, comma-separated.
pub open spec fn spec_ser_column_list(cs: Seq<ColumnModel>) -> Seq<u8>
    decreases cs.len(),
{
    if cs.len() == 0 {
        Seq::empty()
    } else {
        spec_ser_column(cs[0]) + spec_ser_column_list_tail(cs.drop_first())
    }
}

/// The remaining columns, each preceded by a comma.
pub open spec fn spec_ser_column_list_tail(cs: Seq<ColumnModel>) -> Seq<u8>
    decreases cs.len(),
{
    if cs.len() == 0 {
        Seq::empty()
    } else {
        seq![44u8] + spec_ser_column(cs[0]) + spec_ser_column_list_tail(cs.drop_first())
    }
}

/// What the serializer emits for one row. Opaque so that proofs about row
/// lists need not unfold a whole row's serialization; revealed where the
/// row's own shape is the subject.
#[verifier::opaque]
pub open spec fn spec_ser_row(r: RowModel) -> Seq<u8> {
    lit_bytes("{\"values\":[") + spec_ser_value_list(r.values) + lit_bytes("]") + lit_bytes(
        ",\"columns\":[",
    ) + spec_ser_column_list(r.columns) + lit_bytes("]") + lit_bytes("}")
}

/// The rows of one result, comma-separated.
pub open spec fn spec_ser_row_list(rs: Seq<RowModel>) -> Seq<u8>
    decreases rs.len(),
{
    if rs.len() == 0 {
        Seq::empty()
    } else {
        spec_ser_row(rs[0]) + spec_ser_row_list_tail(rs.drop_first())
    }
}

/// The remaining rows, each preceded by a comma.
pub open spec fn spec_ser_row_list_tail(rs: Seq<RowModel>) -> Seq<u8>
    decreases rs.len(),
{
    if rs.len() == 0 {
        Seq::empty()
    } else {
        seq![44u8] + spec_ser_row(rs[0]) + spec_ser_row_list_tail(rs.drop_first())
    }
}

/// What the serializer emits for a whole result.
pub open spec fn spec_ser_result(q: QueryResultModel) -> Seq<u8> {
    lit_bytes("{\"rows\":[") + spec_ser_row_list(q.rows) + lit_bytes("]") + lit_bytes(
        ",\"affected_row_count\":",
    ) + spec_dec_digits(q.affected_row_count) + lit_bytes("}")
}

/// Reads a signed 64-bit number: an optional minus sign and a digit run.
pub open spec fn spec_parse_i64(s: Seq<u8>, i: int) -> Option<(i64, int)> {
    if 0 <= i < s.len() && s[i] == 45 {
        match spec_parse_u64(s, i + 1) {
            Some((v, j)) => if v <= 0x8000000000000000u64 {
                Some(((-(v as int)) as i64, j))
            } else {
                None
            },
            None => None,
        }
    } else {
        match spec_parse_u64(s, i) {
            Some((v, j)) => if v <= i64::MAX as u64 {
                Some((v as i64, j))
            } else {
                None
            },
            None => None,
        }
    }
}

/// Reads the seven bracketed fields of a date value, after its opening tag.
pub open spec fn spec_parse_date_fields(s: Seq<u8>, i: int) -> Option<(ValueModel, int)> {
    match spec_parse_u64(s, i) {
        Some((y, j1)) => if y <= u16::MAX as u64 && spec_lit_at(s, j1, ",") {
            match spec_parse_u64(s, j1 + 1) {
                Some((mo, j2)) => if mo <= u8::MAX as u64 && spec_lit_at(s, j2, ",") {
                    match spec_parse_u64(s, j2 + 1) {
                        Some((d, j3)) => if d <= u8::MAX as u64 && spec_lit_at(s, j3, ",") {
                            match spec_parse_u64(s, j3 + 1) {
                                Some((h, j4)) => if h <= u8::MAX as u64 && spec_lit_at(
                                    s,
                                    j4,
                                    ",",
                                ) {
                                    match spec_parse_u64(s, j4 + 1) {
                                        Some((mi, j5)) => if mi <= u8::MAX as u64 && spec_lit_at(
                                            s,
                                            j5,
                                            ",",
                                        ) {
                                            match spec_parse_u64(s, j5 + 1) {
                                                Some((sec, j6)) => if sec <= u8::MAX as u64
                                                    && spec_lit_at(s, j6, ",") {
                                                    match spec_parse_u64(s, j6 + 1) {
                                                        Some((us, j7)) => if us <= u32::MAX as u64
                                                            && spec_lit_at(s, j7, "]}") {
                                                            Some(
                                                                (
                                                                    ValueModel::Date(
                                                                        y as u16,
                                                                        mo as u8,
                                                                        d as u8,
                                                                        h as u8,
                                                                        mi as u8,
                                                                        sec as u8,
                                                                        us as u32,
                                                                    ),
                                                                    j7 + 2,
                                                                ),
                                                            )
                                                        } else {
                                                            None
                                                        },
                                                        None => None,
                                                    }
                                                } else {
                                                    None
                                                },
                                                None => None,
                                            }
                                        } else {
                                            None
                                        },
                                        None => None,
                                    }
                                } else {
                                    None
                                },
                                None => None,
                            }
                        } else {
                            None
                        },
                        None => None,
                    }
                } else {
                    None
                },
                None => None,
            }
        } else {
            None
        },
        None => None,
    }
}

/// Reads the six bracketed fields of a time value, after its opening tag.
pub open spec fn spec_parse_time_fields(s: Seq<u8>, i: int) -> Option<(ValueModel, int)> {
    let neg_j = if spec_lit_at(s, i, "true") {
        Some((true, i + 4))
    } else if spec_lit_at(s, i, "false") {
        Some((false, i + 5))
    } else {
        None::<(bool, int)>
    };
    match neg_j {
        Some((neg, j0)) => if spec_lit_at(s, j0, ",") {
            match spec_parse_u64(s, j0 + 1) {
                Some((d, j1)) => if d <= u32::MAX as u64 && spec_lit_at(s, j1, ",") {
                    match spec_parse_u64(s, j1 + 1) {
                        Some((h, j2)) => if h <= u8::MAX as u64 && spec_lit_at(s, j2, ",") {
                            match spec_parse_u64(s, j2 + 1) {
                                Some((mi, j3)) => if mi <= u8::MAX as u64 && spec_lit_at(
                                    s,
                                    j3,
                                    ",",
                                ) {
                                    match spec_parse_u64(s, j3 + 1) {
                                        Some((sec, j4)) => if sec <= u8::MAX as u64 && spec_lit_at(
                                            s,
                                            j4,
                                            ",",
                                        ) {
                                            match spec_parse_u64(s, j4 + 1) {
                                                Some((us, j5)) => if us <= u32::MAX as u64
                                                    && spec_lit_at(s, j5, "]}") {
                                                    Some(
                                                        (
                                                            ValueModel::Time(
                                                                neg,
                                                                d as u32,
                                                                h as u8,
                                                                mi as u8,
                                                                sec as u8,
                                                                us as u32,
                                                            ),
                                                            j5 + 2,
                                                        ),
                                                    )
                                                } else {
                                                    None
                                                },
                                                None => None,
                                            }
                                        } else {
                                            None
                                        },
                                        None => None,
                                    }
                                } else {
                                    None
                                },
                                None => None,
                            }
                        } else {
                            None
                        },
                        None => None,
                    }
                } else {
                    None
                },
                None => None,
            }
        } else {
            None
        },
        None => None,
    }
}

/// Reads one cell value. The branch is picked by the first bytes: a bare
/// `"` opens the null tag, `{` a tagged object whose tag's first letters
/// decide the variant.
pub open spec fn spec_parse_value(s: Seq<u8>, i: int) -> Option<(ValueModel, int)> {
    if i < 0 || i + 2 >= s.len() {
        None
    } else if s[i] == 34 {
        if spec_lit_at(s, i, "\"NULL\"") {
            Some((ValueModel::Null, i + 6))
        } else {
            None
        }
    } else if s[i] != 123 {
        None
    } else if s[i + 2] == 66 {
        // `B`: Bytes or Bool
        if i + 3 < s.len() && s[i + 3] == 121 {
            if spec_lit_at(s, i, "{\"Bytes\":\"") {
                match spec_parse_jstring_body(s, i + 10, Seq::empty()) {
                    Some((c, j)) => match spec_b64_decode(c) {
                        Some(bytes) => if spec_lit_at(s, j, "}") {
                            Some((ValueModel::Bytes(bytes), j + 1))
                        } else {
                            None
                        },
                        None => None,
                    },
                    None => None,
                }
            } else {
                None
            }
        } else if spec_lit_at(s, i, "{\"Bool\":true}") {
            Some((ValueModel::Bool(true), i + 13))
        } else if spec_lit_at(s, i, "{\"Bool\":false}") {
            Some((ValueModel::Bool(false), i + 14))
        } else {
            None
        }
    } else if s[i + 2] == 83 {
        // `S`: String
        if spec_lit_at(s, i, "{\"String\":\"") {
            match spec_parse_jstring_body(s, i + 11, Seq::empty()) {
                Some((c, j)) => if vstd::utf8::valid_utf8(c) && spec_lit_at(s, j, "}") {
                    Some((ValueModel::Text(vstd::utf8::decode_utf8(c)), j + 1))
                } else {
                    None
                },
                None => None,
            }
        } else {
            None
        }
    } else if s[i + 2] == 73 {
        // `I`: Int
        if spec_lit_at(s, i, "{\"Int\":") {
            match spec_parse_i64(s, i + 7) {
                Some((n, j)) => if spec_lit_at(s, j, "}") {
                    Some((ValueModel::Int(n), j + 1))
                } else {
                    None
                },
                None => None,
            }
        } else {
            None
        }
    } else if s[i + 2] == 85 {
        // `U`: UInt
        if spec_lit_at(s, i, "{\"UInt\":") {
            match spec_parse_u64(s, i + 8) {
                Some((n, j)) => if spec_lit_at(s, j, "}") {
                    Some((ValueModel::UInt(n), j + 1))
                } else {
                    None
                },
                None => None,
            }
        } else {
            None
        }
    } else if s[i + 2] == 70 {
        // `F`: Float bits
        if spec_lit_at(s, i, "{\"Float\":") {
            match spec_parse_u64(s, i + 9) {
                Some((n, j)) => if n <= u32::MAX as u64 && spec_lit_at(s, j, "}") {
                    Some((ValueModel::Float(n as u32), j + 1))
                } else {
                    None
                },
                None => None,
            }
        } else {
            None
        }
    } else if s[i + 2] == 68 {
        // `D`: Date or Double
        if i + 3 < s.len() && s[i + 3] == 97 {
            if spec_lit_at(s, i, "{\"Date\":[") {
                spec_parse_date_fields(s, i + 9)
            } else {
                None
            }
        } else if spec_lit_at(s, i, "{\"Double\":") {
            match spec_parse_u64(s, i + 10) {
                Some((n, j)) => if spec_lit_at(s, j, "}") {
                    Some((ValueModel::Double(n), j + 1))
                } else {
                    None
                },
                None => None,
            }
        } else {
            None
        }
    } else if s[i + 2] == 84 {
        // `T`: Time
        if spec_lit_at(s, i, "{\"Time\":[") {
            spec_parse_time_fields(s, i + 9)
        } else {
            None
        }
    } else {
        None
    }
}

/// Reads the comma-separated values left in a row, up to and including the
/// closing bracket, after a first value has been read into `acc`.
pub open spec fn spec_parse_value_list_more(s: Seq<u8>, i: int, acc: Seq<ValueModel>) -> Option<
    (Seq<ValueModel>, int),
>
    decreases s.len() - i,
{
    if spec_lit_at(s, i, "]") {
        Some((acc, i + 1))
    } else if spec_lit_at(s, i, ",") {
        match spec_parse_value(s, i + 1) {
            Some((v, j)) => if i + 1 < j <= s.len() {
                spec_parse_value_list_more(s, j, acc.push(v))
            } else {
                None
            },
            None => None,
        }
    } else {
        None
    }
}

/// Reads a whole bracketed value list, the opening bracket already behind.
pub open spec fn spec_parse_value_list(s: Seq<u8>, i: int) -> Option<(Seq<ValueModel>, int)> {
    if spec_lit_at(s, i, "]") {
        Some((Seq::empty(), i + 1))
    } else {
        match spec_parse_value(s, i) {
            Some((v, j)) => if i < j <= s.len() {
                spec_parse_value_list_more(s, j, seq![v])
            } else {
                None
            },
            None => None,
        }
    }
}

/// Reads one column descriptor.
pub open spec fn spec_parse_column(s: Seq<u8>, i: int) -> Option<(ColumnModel, int)> {
    if spec_lit_at(s, i, "{\"name\":\"") {
        match spec_parse_jstring_body(s, i + 9, Seq::empty()) {
            Some((c, j)) => if vstd::utf8::valid_utf8(c) && spec_lit_at(
                s,
                j,
                ",\"column_type\":\"",
            ) {
                match spec_parse_jstring_body(s, j + 16, Seq::empty()) {
                    Some((tag, k)) => match spec_coltype_from_name(tag) {
                        Some(ct) => if spec_lit_at(s, k, "}") {
                            Some(
                                (
                                    ColumnModel {
                                        name: vstd::utf8::decode_utf8(c),
                                        column_type: ct,
                                    },
                                    k + 1,
                                ),
                            )
                        } else {
                            None
                        },
                        None => None,
                    },
                    None => None,
                }
            } else {
                None
            },
            None => None,
        }
    } else {
        None
    }
}

/// Reads the comma-separated columns left in a schema, up to and including
/// the closing bracket.
pub open spec fn spec_parse_column_list_more(s: Seq<u8>, i: int, acc: Seq<ColumnModel>) -> Option<
    (Seq<ColumnModel>, int),
>
    decreases s.len() - i,
{
    if spec_lit_at(s, i, "]") {
        Some((acc, i + 1))
    } else if spec_lit_at(s, i, ",") {
        match spec_parse_column(s, i + 1) {
            Some((c, j)) => if i + 1 < j <= s.len() {
                spec_parse_column_list_more(s, j, acc.push(c))
            } else {
                None
            },
            None => None,
        }
    } else {
        None
    }
}

/// Reads a whole bracketed column list, the opening bracket already behind.
pub open spec fn spec_parse_column_list(s: Seq<u8>, i: int) -> Option<(Seq<ColumnModel>, int)> {
    if spec_lit_at(s, i, "]") {
        Some((Seq::empty(), i + 1))
    } else {
        match spec_parse_column(s, i) {
            Some((c, j)) => if i < j <= s.len() {
                spec_parse_column_list_more(s, j, seq![c])
            } else {
                None
            },
            None => None,
        }
    }
}

/// Reads one row object.
pub open spec fn spec_parse_row(s: Seq<u8>, i: int) -> Option<(RowModel, int)> {
    if spec_lit_at(s, i, "{\"values\":[") {
        match spec_parse_value_list(s, i + 11) {
            Some((vs, j)) => if spec_lit_at(s, j, ",\"columns\":[") {
                match spec_parse_column_list(s, j + 12) {
                    Some((cs, k)) => if spec_lit_at(s, k, "}") {
                        Some((RowModel { values: vs, columns: cs }, k + 1))
                    } else {
                        None
                    },
                    None => None,
                }
            } else {
                None
            },
            None => None,
        }
    } else {
        None
    }
}

/// Reads the comma-separated rows left in a result, up to and including the
/// closing bracket.
pub open spec fn spec_parse_row_list_more(s: Seq<u8>, i: int, acc: Seq<RowModel>) -> Option<
    (Seq<RowModel>, int),
>
    decreases s.len() - i,
{
    if spec_lit_at(s, i, "]") {
        Some((acc, i + 1))
    } else if spec_lit_at(s, i, ",") {
        match spec_parse_row(s, i + 1) {
            Some((r, j)) => if i + 1 < j <= s.len() {
                spec_parse_row_list_more(s, j, acc.push(r))
            } else {
                None
            },
            None => None,
        }
    } else {
        None
    }
}

/// Reads a whole bracketed row list, the opening bracket already behind.
pub open spec fn spec_parse_row_list(s: Seq<u8>, i: int) -> Option<(Seq<RowModel>, int)> {
    if spec_lit_at(s, i, "]") {
        Some((Seq::empty(), i + 1))
    } else {
        match spec_parse_row(s, i) {
            Some((r, j)) => if i < j <= s.len() {
                spec_parse_row_list_more(s, j, seq![r])
            } else {
                None
            },
            None => None,
        }
    }
}

/// Reads a whole serialized result. The entire input must be consumed.
pub open spec fn spec_parse_result(s: Seq<u8>) -> Option<QueryResultModel> {
    if spec_lit_at(s, 0, "{\"rows\":[") {
        match spec_parse_row_list(s, 9) {
            Some((rs, j)) => if spec_lit_at(s, j, ",\"affected_row_count\":") {
                match spec_parse_u64(s, j + 22) {
                    Some((n, k)) => if n <= usize::MAX as u64 && spec_lit_at(s, k, "}") && k + 1
                        == s.len() {
                        Some(QueryResultModel { rows: rs, affected_row_count: n as nat })
                    } else {
                        None
                    },
                    None => None,
                }
            } else {
                None
            },
            None => None,
        }
    } else {
        None
    }
}

} // verus!
