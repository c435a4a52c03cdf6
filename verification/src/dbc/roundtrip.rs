//! The round-trip law: parsing what the serializer emitted gives back the
//! very result that went in, field for field, byte for byte. The proof walks
//! the wire format shape by shape.

use vstd::prelude::*;

use crate::dbc::base64::lemma_b64_roundtrip;
use crate::dbc::base64::spec_b64_encode;
use crate::dbc::jtext::is_digit;
use crate::dbc::jtext::lemma_dec_digits_are_digits;
use crate::dbc::jtext::lemma_dec_digits_roundtrip;
use crate::dbc::jtext::lemma_jstring_roundtrip;
use crate::dbc::jtext::lit_bytes;
use crate::dbc::jtext::spec_dec_digits;
use crate::dbc::jtext::spec_escape;
use crate::dbc::jtext::spec_lit_at;
use crate::dbc::jtext::spec_parse_u64;
use crate::dbc::result::QueryResultModel;
use crate::dbc::result::RowModel;
use crate::dbc::value::ColumnModel;
use crate::dbc::value::ColumnType;
use crate::dbc::value::ValueModel;
use crate::dbc::wire::spec_coltype_from_name;
use crate::dbc::wire::spec_coltype_tag;
use crate::dbc::wire::spec_int_digits;
use crate::dbc::wire::spec_parse_column;
use crate::dbc::wire::spec_parse_column_list;
use crate::dbc::wire::spec_parse_column_list_more;
use crate::dbc::wire::spec_parse_date_fields;
use crate::dbc::wire::spec_parse_result;
use crate::dbc::wire::spec_parse_row;
use crate::dbc::wire::spec_parse_row_list;
use crate::dbc::wire::spec_parse_row_list_more;
use crate::dbc::wire::spec_parse_time_fields;
use crate::dbc::wire::spec_parse_value;
use crate::dbc::wire::spec_parse_value_list;
use crate::dbc::wire::spec_parse_value_list_more;
use crate::dbc::wire::spec_ser_column;
use crate::dbc::wire::spec_ser_column_list;
use crate::dbc::wire::spec_ser_column_list_tail;
use crate::dbc::wire::spec_ser_result;
use crate::dbc::wire::spec_ser_row;
use crate::dbc::wire::spec_ser_row_list;
use crate::dbc::wire::spec_ser_row_list_tail;
use crate::dbc::wire::spec_ser_value;
use crate::dbc::wire::spec_ser_value_list;
use crate::dbc::wire::spec_ser_value_list_tail;

verus! {

/// A known concatenation at `i` splits at its seam.
proof fn lemma_split(s: Seq<u8>, i: int, a: Seq<u8>, b: Seq<u8>)
    requires
        0 <= i,
        i + a.len() + b.len() <= s.len(),
        s.subrange(i, i + a.len() + b.len()) == a + b,
    ensures
        s.subrange(i, i + a.len() as int) == a,
        s.subrange(i + a.len(), i + a.len() + b.len()) == b,
{
    assert forall|m: int| 0 <= m < a.len() implies s.subrange(i, i + a.len() as int)[m] == a[m] by {
        assert(s.subrange(i, i + a.len() + b.len())[m] == (a + b)[m]);
    }
    assert(s.subrange(i, i + a.len() as int) =~= a);
    assert forall|m: int| 0 <= m < b.len() implies s.subrange(
        i + a.len(),
        i + a.len() + b.len(),
    )[m] == b[m] by {
        assert(s.subrange(i + a.len(), i + a.len() + b.len())[m] == s[i + a.len() + m]);
        assert(s.subrange(i, i + a.len() + b.len())[a.len() + m] == s[i + a.len() + m]);
        assert((a + b)[a.len() + m] == b[m]);
    }
    assert(s.subrange(i + a.len(), i + a.len() + b.len()) =~= b);
}

/// A byte that differs from the literal anywhere under it refutes the
/// literal standing there.
proof fn lemma_not_lit_at(s: Seq<u8>, i: int, t: &str, k: int)
    requires
        0 <= i,
        0 <= k < t@.len(),
        i + k < s.len(),
        s[i + k] != lit_bytes(t)[k],
    ensures
        !spec_lit_at(s, i, t),
{
    if spec_lit_at(s, i, t) {
        assert(s.subrange(i, i + t@.len() as int)[k] == s[i + k]);
    }
}

/// A one-character literal stands wherever its byte stands.
proof fn lemma_lit1_at(s: Seq<u8>, i: int, t: &str)
    requires
        t@.len() == 1,
        0 <= i < s.len(),
        s[i] == lit_bytes(t)[0],
    ensures
        spec_lit_at(s, i, t),
{
    assert(s.subrange(i, i + 1) =~= lit_bytes(t));
}

/// A number whose digits stand at `i`, bounded by a non-digit, reads back.
proof fn lemma_num_at(s: Seq<u8>, i: int, n: nat)
    requires
        n <= u64::MAX,
        0 <= i,
        i + spec_dec_digits(n).len() <= s.len(),
        s.subrange(i, i + spec_dec_digits(n).len() as int) == spec_dec_digits(n),
        i + spec_dec_digits(n).len() < s.len() ==> !is_digit(
            s[i + spec_dec_digits(n).len() as int],
        ),
    ensures
        spec_parse_u64(s, i) == Some((n as u64, i + spec_dec_digits(n).len() as int)),
{
    lemma_dec_digits_roundtrip(n, s, i);
}

/// Two ASCII literals that differ at one position have different bytes.
proof fn lemma_lit_ne(a: &str, b: &str, k: int)
    requires
        0 <= k < a@.len(),
        k < b@.len(),
        (a@[k] as u8) != (b@[k] as u8),
    ensures
        lit_bytes(a) != lit_bytes(b),
{
    assert(lit_bytes(a)[k] == (a@[k] as u8));
    assert(lit_bytes(b)[k] == (b@[k] as u8));
}

/// Each tag reads back to its own column type.
pub proof fn lemma_coltype_roundtrip(ct: ColumnType)
    ensures
        spec_coltype_from_name(spec_coltype_tag(ct)) == Some(ct),
{
    reveal_strlit("INT");
    reveal_strlit("SET");
    reveal_strlit("BIT");
    reveal_strlit("XML");
    reveal_strlit("OID");
    reveal_strlit("NULL");
    reveal_strlit("DATE");
    reveal_strlit("TIME");
    reveal_strlit("TEXT");
    reveal_strlit("YEAR");
    reveal_strlit("JSON");
    reveal_strlit("ENUM");
    reveal_strlit("BLOB");
    reveal_strlit("BOOL");
    reveal_strlit("INT2");
    reveal_strlit("INT4");
    reveal_strlit("INT8");
    reveal_strlit("INET");
    reveal_strlit("UUID");
    reveal_strlit("CIDR");
    reveal_strlit("CHAR");
    reveal_strlit("FLOAT");
    reveal_strlit("BYTEA");
    reveal_strlit("JSONB");
    reveal_strlit("DOUBLE");
    reveal_strlit("STRING");
    reveal_strlit("TIMETZ");
    reveal_strlit("FLOAT4");
    reveal_strlit("FLOAT8");
    reveal_strlit("VARBIT");
    reveal_strlit("DECIMAL");
    reveal_strlit("VARCHAR");
    reveal_strlit("UNKNOWN");
    reveal_strlit("NUMERIC");
    reveal_strlit("MACADDR");
    reveal_strlit("GEOMETRY");
    reveal_strlit("INTERVAL");
    reveal_strlit("DATETIME");
    reveal_strlit("TIMESTAMP");
    reveal_strlit("TIMESTAMPTZ");
    match ct {
        ColumnType::NULL => {
        },
        ColumnType::DECIMAL => {
        },
        ColumnType::INT => {
        },
        ColumnType::FLOAT => {
        },
        ColumnType::BIT => {
            lemma_lit_ne("BIT", "INT", 0);
            lemma_lit_ne("BIT", "SET", 0);
        },
        ColumnType::DOUBLE => {
        },
        ColumnType::STRING => {
            lemma_lit_ne("STRING", "DOUBLE", 0);
        },
        ColumnType::VARCHAR => {
            lemma_lit_ne("VARCHAR", "DECIMAL", 0);
        },
        ColumnType::TIMESTAMP => {
        },
        ColumnType::DATE => {
            lemma_lit_ne("DATE", "NULL", 0);
        },
        ColumnType::TIME => {
            lemma_lit_ne("TIME", "NULL", 0);
            lemma_lit_ne("TIME", "DATE", 0);
        },
        ColumnType::YEAR => {
            lemma_lit_ne("YEAR", "NULL", 0);
            lemma_lit_ne("YEAR", "DATE", 0);
            lemma_lit_ne("YEAR", "TIME", 0);
            lemma_lit_ne("YEAR", "TEXT", 0);
        },
        ColumnType::DATETIME => {
            lemma_lit_ne("DATETIME", "GEOMETRY", 0);
            lemma_lit_ne("DATETIME", "INTERVAL", 0);
        },
        ColumnType::JSON => {
            lemma_lit_ne("JSON", "NULL", 0);
            lemma_lit_ne("JSON", "DATE", 0);
            lemma_lit_ne("JSON", "TIME", 0);
            lemma_lit_ne("JSON", "TEXT", 0);
            lemma_lit_ne("JSON", "YEAR", 0);
        },
        ColumnType::ENUM => {
            lemma_lit_ne("ENUM", "NULL", 0);
            lemma_lit_ne("ENUM", "DATE", 0);
            lemma_lit_ne("ENUM", "TIME", 0);
            lemma_lit_ne("ENUM", "TEXT", 0);
            lemma_lit_ne("ENUM", "YEAR", 0);
            lemma_lit_ne("ENUM", "JSON", 0);
        },
        ColumnType::SET => {
            lemma_lit_ne("SET", "INT", 0);
        },
        ColumnType::BLOB => {
            lemma_lit_ne("BLOB", "NULL", 0);
            lemma_lit_ne("BLOB", "DATE", 0);
            lemma_lit_ne("BLOB", "TIME", 0);
            lemma_lit_ne("BLOB", "TEXT", 0);
            lemma_lit_ne("BLOB", "YEAR", 0);
            lemma_lit_ne("BLOB", "JSON", 0);
            lemma_lit_ne("BLOB", "ENUM", 0);
        },
        ColumnType::GEOMETRY => {
        },
        ColumnType::UNKNOWN => {
            lemma_lit_ne("UNKNOWN", "DECIMAL", 0);
            lemma_lit_ne("UNKNOWN", "VARCHAR", 0);
        },
        ColumnType::BOOL => {
            lemma_lit_ne("BOOL", "NULL", 0);
            lemma_lit_ne("BOOL", "DATE", 0);
            lemma_lit_ne("BOOL", "TIME", 0);
            lemma_lit_ne("BOOL", "TEXT", 0);
            lemma_lit_ne("BOOL", "YEAR", 0);
            lemma_lit_ne("BOOL", "JSON", 0);
            lemma_lit_ne("BOOL", "ENUM", 0);
            lemma_lit_ne("BOOL", "BLOB", 1);
        },
        ColumnType::INT2 => {
            lemma_lit_ne("INT2", "NULL", 0);
            lemma_lit_ne("INT2", "DATE", 0);
            lemma_lit_ne("INT2", "TIME", 0);
            lemma_lit_ne("INT2", "TEXT", 0);
            lemma_lit_ne("INT2", "YEAR", 0);
            lemma_lit_ne("INT2", "JSON", 0);
            lemma_lit_ne("INT2", "ENUM", 0);
            lemma_lit_ne("INT2", "BLOB", 0);
            lemma_lit_ne("INT2", "BOOL", 0);
        },
        ColumnType::INT4 => {
            lemma_lit_ne("INT4", "NULL", 0);
            lemma_lit_ne("INT4", "DATE", 0);
            lemma_lit_ne("INT4", "TIME", 0);
            lemma_lit_ne("INT4", "TEXT", 0);
            lemma_lit_ne("INT4", "YEAR", 0);
            lemma_lit_ne("INT4", "JSON", 0);
            lemma_lit_ne("INT4", "ENUM", 0);
            lemma_lit_ne("INT4", "BLOB", 0);
            lemma_lit_ne("INT4", "BOOL", 0);
            lemma_lit_ne("INT4", "INT2", 3);
        },
        ColumnType::INT8 => {
            lemma_lit_ne("INT8", "NULL", 0);
            lemma_lit_ne("INT8", "DATE", 0);
            lemma_lit_ne("INT8", "TIME", 0);
            lemma_lit_ne("INT8", "TEXT", 0);
            lemma_lit_ne("INT8", "YEAR", 0);
            lemma_lit_ne("INT8", "JSON", 0);
            lemma_lit_ne("INT8", "ENUM", 0);
            lemma_lit_ne("INT8", "BLOB", 0);
            lemma_lit_ne("INT8", "BOOL", 0);
            lemma_lit_ne("INT8", "INT2", 3);
            lemma_lit_ne("INT8", "INT4", 3);
        },
        ColumnType::FLOAT4 => {
            lemma_lit_ne("FLOAT4", "DOUBLE", 0);
            lemma_lit_ne("FLOAT4", "STRING", 0);
            lemma_lit_ne("FLOAT4", "TIMETZ", 0);
        },
        ColumnType::FLOAT8 => {
            lemma_lit_ne("FLOAT8", "DOUBLE", 0);
            lemma_lit_ne("FLOAT8", "STRING", 0);
            lemma_lit_ne("FLOAT8", "TIMETZ", 0);
            lemma_lit_ne("FLOAT8", "FLOAT4", 5);
        },
        ColumnType::NUMERIC => {
            lemma_lit_ne("NUMERIC", "DECIMAL", 0);
            lemma_lit_ne("NUMERIC", "VARCHAR", 0);
            lemma_lit_ne("NUMERIC", "UNKNOWN", 0);
        },
        ColumnType::TIMESTAMPTZ => {
        },
        ColumnType::TIMETZ => {
            lemma_lit_ne("TIMETZ", "DOUBLE", 0);
            lemma_lit_ne("TIMETZ", "STRING", 0);
        },
        ColumnType::INTERVAL => {
            lemma_lit_ne("INTERVAL", "GEOMETRY", 0);
        },
        ColumnType::TEXT => {
            lemma_lit_ne("TEXT", "NULL", 0);
            lemma_lit_ne("TEXT", "DATE", 0);
            lemma_lit_ne("TEXT", "TIME", 1);
        },
        ColumnType::CHAR => {
            lemma_lit_ne("CHAR", "NULL", 0);
            lemma_lit_ne("CHAR", "DATE", 0);
            lemma_lit_ne("CHAR", "TIME", 0);
            lemma_lit_ne("CHAR", "TEXT", 0);
            lemma_lit_ne("CHAR", "YEAR", 0);
            lemma_lit_ne("CHAR", "JSON", 0);
            lemma_lit_ne("CHAR", "ENUM", 0);
            lemma_lit_ne("CHAR", "BLOB", 0);
            lemma_lit_ne("CHAR", "BOOL", 0);
            lemma_lit_ne("CHAR", "INT2", 0);
            lemma_lit_ne("CHAR", "INT4", 0);
            lemma_lit_ne("CHAR", "INT8", 0);
            lemma_lit_ne("CHAR", "INET", 0);
            lemma_lit_ne("CHAR", "UUID", 0);
            lemma_lit_ne("CHAR", "CIDR", 1);
        },
        ColumnType::BYTEA => {
            lemma_lit_ne("BYTEA", "FLOAT", 0);
        },
        ColumnType::UUID => {
            lemma_lit_ne("UUID", "NULL", 0);
            lemma_lit_ne("UUID", "DATE", 0);
            lemma_lit_ne("UUID", "TIME", 0);
            lemma_lit_ne("UUID", "TEXT", 0);
            lemma_lit_ne("UUID", "YEAR", 0);
            lemma_lit_ne("UUID", "JSON", 0);
            lemma_lit_ne("UUID", "ENUM", 0);
            lemma_lit_ne("UUID", "BLOB", 0);
            lemma_lit_ne("UUID", "BOOL", 0);
            lemma_lit_ne("UUID", "INT2", 0);
            lemma_lit_ne("UUID", "INT4", 0);
            lemma_lit_ne("UUID", "INT8", 0);
            lemma_lit_ne("UUID", "INET", 0);
        },
        ColumnType::JSONB => {
            lemma_lit_ne("JSONB", "FLOAT", 0);
            lemma_lit_ne("JSONB", "BYTEA", 0);
        },
        ColumnType::XML => {
            lemma_lit_ne("XML", "INT", 0);
            lemma_lit_ne("XML", "SET", 0);
            lemma_lit_ne("XML", "BIT", 0);
        },
        ColumnType::OID => {
            lemma_lit_ne("OID", "INT", 0);
            lemma_lit_ne("OID", "SET", 0);
            lemma_lit_ne("OID", "BIT", 0);
            lemma_lit_ne("OID", "XML", 0);
        },
        ColumnType::CIDR => {
            lemma_lit_ne("CIDR", "NULL", 0);
            lemma_lit_ne("CIDR", "DATE", 0);
            lemma_lit_ne("CIDR", "TIME", 0);
            lemma_lit_ne("CIDR", "TEXT", 0);
            lemma_lit_ne("CIDR", "YEAR", 0);
            lemma_lit_ne("CIDR", "JSON", 0);
            lemma_lit_ne("CIDR", "ENUM", 0);
            lemma_lit_ne("CIDR", "BLOB", 0);
            lemma_lit_ne("CIDR", "BOOL", 0);
            lemma_lit_ne("CIDR", "INT2", 0);
            lemma_lit_ne("CIDR", "INT4", 0);
            lemma_lit_ne("CIDR", "INT8", 0);
            lemma_lit_ne("CIDR", "INET", 0);
            lemma_lit_ne("CIDR", "UUID", 0);
        },
        ColumnType::INET => {
            lemma_lit_ne("INET", "NULL", 0);
            lemma_lit_ne("INET", "DATE", 0);
            lemma_lit_ne("INET", "TIME", 0);
            lemma_lit_ne("INET", "TEXT", 0);
            lemma_lit_ne("INET", "YEAR", 0);
            lemma_lit_ne("INET", "JSON", 0);
            lemma_lit_ne("INET", "ENUM", 0);
            lemma_lit_ne("INET", "BLOB", 0);
            lemma_lit_ne("INET", "BOOL", 0);
            lemma_lit_ne("INET", "INT2", 2);
            lemma_lit_ne("INET", "INT4", 2);
            lemma_lit_ne("INET", "INT8", 2);
        },
        ColumnType::MACADDR => {
            lemma_lit_ne("MACADDR", "DECIMAL", 0);
            lemma_lit_ne("MACADDR", "VARCHAR", 0);
            lemma_lit_ne("MACADDR", "UNKNOWN", 0);
            lemma_lit_ne("MACADDR", "NUMERIC", 0);
        },
        ColumnType::VARBIT => {
            lemma_lit_ne("VARBIT", "DOUBLE", 0);
            lemma_lit_ne("VARBIT", "STRING", 0);
            lemma_lit_ne("VARBIT", "TIMETZ", 0);
            lemma_lit_ne("VARBIT", "FLOAT4", 0);
            lemma_lit_ne("VARBIT", "FLOAT8", 0);
        },
    }
}

/// A number followed by a comma reads back, and what follows the comma
/// stands where it should.
proof fn lemma_field_comma(s: Seq<u8>, i: int, n: nat, rest: Seq<u8>)
    requires
        n <= u64::MAX,
        0 <= i,
        i + spec_dec_digits(n).len() + 1 + rest.len() <= s.len(),
        s.subrange(i, i + spec_dec_digits(n).len() + 1 + rest.len()) == spec_dec_digits(n)
            + seq![44u8] + rest,
    ensures
        spec_parse_u64(s, i) == Some((n as u64, i + spec_dec_digits(n).len() as int)),
        spec_lit_at(s, i + spec_dec_digits(n).len() as int, ","),
        s.subrange(
            i + spec_dec_digits(n).len() + 1,
            i + spec_dec_digits(n).len() + 1 + rest.len(),
        ) == rest,
{
    reveal_strlit(",");
    let d = spec_dec_digits(n);
    assert(d + seq![44u8] + rest =~= d + (seq![44u8] + rest));
    lemma_split(s, i, d, seq![44u8] + rest);
    assert(s.subrange(i + d.len(), i + d.len() + 1 + rest.len())[0] == (seq![44u8] + rest)[0]);
    assert(s[i + d.len()] == 44);
    lemma_num_at(s, i, n);
    lemma_lit1_at(s, i + d.len(), ",");
    lemma_split(s, i + d.len(), seq![44u8], rest);
}

/// A number followed by the closing `]}` reads back.
proof fn lemma_field_close(s: Seq<u8>, i: int, n: nat)
    requires
        n <= u64::MAX,
        0 <= i,
        i + spec_dec_digits(n).len() + 2 <= s.len(),
        s.subrange(i, i + spec_dec_digits(n).len() + 2) == spec_dec_digits(n) + lit_bytes("]}"),
    ensures
        spec_parse_u64(s, i) == Some((n as u64, i + spec_dec_digits(n).len() as int)),
        spec_lit_at(s, i + spec_dec_digits(n).len() as int, "]}"),
{
    reveal_strlit("]}");
    let d = spec_dec_digits(n);
    lemma_split(s, i, d, lit_bytes("]}"));
    assert(s.subrange(i + d.len(), i + d.len() + 2)[0] == lit_bytes("]}")[0]);
    assert(s[i + d.len()] == 93);
    lemma_num_at(s, i, n);
}

/// The seven serialized date fields read back.
#[verifier::rlimit(100)]
proof fn lemma_date_roundtrip(
    s: Seq<u8>,
    i: int,
    y: u16,
    mo: u8,
    d: u8,
    h: u8,
    mi: u8,
    sec: u8,
    us: u32,
)
    requires
        0 <= i,
        ({
            let f = spec_dec_digits(y as nat) + seq![44u8] + spec_dec_digits(mo as nat)
                + seq![44u8] + spec_dec_digits(d as nat) + seq![44u8] + spec_dec_digits(h as nat)
                + seq![44u8] + spec_dec_digits(mi as nat) + seq![44u8] + spec_dec_digits(
                sec as nat,
            ) + seq![44u8] + spec_dec_digits(us as nat) + lit_bytes("]}");
            i + f.len() <= s.len() && s.subrange(i, i + f.len() as int) == f
        }),
    ensures
        ({
            let f = spec_dec_digits(y as nat) + seq![44u8] + spec_dec_digits(mo as nat)
                + seq![44u8] + spec_dec_digits(d as nat) + seq![44u8] + spec_dec_digits(h as nat)
                + seq![44u8] + spec_dec_digits(mi as nat) + seq![44u8] + spec_dec_digits(
                sec as nat,
            ) + seq![44u8] + spec_dec_digits(us as nat) + lit_bytes("]}");
            spec_parse_date_fields(s, i) == Some(
                (ValueModel::Date(y, mo, d, h, mi, sec, us), i + f.len()),
            )
        }),
{
    reveal_strlit("]}");
    let dy = spec_dec_digits(y as nat);
    let dmo = spec_dec_digits(mo as nat);
    let dd = spec_dec_digits(d as nat);
    let dh = spec_dec_digits(h as nat);
    let dmi = spec_dec_digits(mi as nat);
    let dsec = spec_dec_digits(sec as nat);
    let dus = spec_dec_digits(us as nat);
    let c = seq![44u8];
    let l2 = lit_bytes("]}");
    let f = dy + c + dmo + c + dd + c + dh + c + dmi + c + dsec + c + dus + l2;
    let r6 = dus + l2;
    let r5 = dsec + c + r6;
    let r4 = dmi + c + r5;
    let r3 = dh + c + r4;
    let r2 = dd + c + r3;
    let r1 = dmo + c + r2;
    assert(f =~= dy + c + r1);
    lemma_field_comma(s, i, y as nat, r1);
    let p1 = i + dy.len() + 1;
    assert(r1 =~= dmo + c + r2);
    lemma_field_comma(s, p1, mo as nat, r2);
    let p2 = p1 + dmo.len() + 1;
    assert(r2 =~= dd + c + r3);
    lemma_field_comma(s, p2, d as nat, r3);
    let p3 = p2 + dd.len() + 1;
    assert(r3 =~= dh + c + r4);
    lemma_field_comma(s, p3, h as nat, r4);
    let p4 = p3 + dh.len() + 1;
    assert(r4 =~= dmi + c + r5);
    lemma_field_comma(s, p4, mi as nat, r5);
    let p5 = p4 + dmi.len() + 1;
    assert(r5 =~= dsec + c + r6);
    lemma_field_comma(s, p5, sec as nat, r6);
    let p6 = p5 + dsec.len() + 1;
    lemma_field_close(s, p6, us as nat);
}

/// The six serialized time fields read back.
#[verifier::rlimit(100)]
proof fn lemma_time_roundtrip(s: Seq<u8>, i: int, neg: bool, d: u32, h: u8, mi: u8, sec: u8, us: u32)
    requires
        0 <= i,
        ({
            let f = (if neg {
                lit_bytes("true")
            } else {
                lit_bytes("false")
            }) + seq![44u8] + spec_dec_digits(d as nat) + seq![44u8] + spec_dec_digits(h as nat)
                + seq![44u8] + spec_dec_digits(mi as nat) + seq![44u8] + spec_dec_digits(
                sec as nat,
            ) + seq![44u8] + spec_dec_digits(us as nat) + lit_bytes("]}");
            i + f.len() <= s.len() && s.subrange(i, i + f.len() as int) == f
        }),
    ensures
        ({
            let f = (if neg {
                lit_bytes("true")
            } else {
                lit_bytes("false")
            }) + seq![44u8] + spec_dec_digits(d as nat) + seq![44u8] + spec_dec_digits(h as nat)
                + seq![44u8] + spec_dec_digits(mi as nat) + seq![44u8] + spec_dec_digits(
                sec as nat,
            ) + seq![44u8] + spec_dec_digits(us as nat) + lit_bytes("]}");
            spec_parse_time_fields(s, i) == Some(
                (ValueModel::Time(neg, d, h, mi, sec, us), i + f.len()),
            )
        }),
{
    reveal_strlit("true");
    reveal_strlit("false");
    reveal_strlit(",");
    reveal_strlit("]}");
    let bt = if neg {
        lit_bytes("true")
    } else {
        lit_bytes("false")
    };
    let dd = spec_dec_digits(d as nat);
    let dh = spec_dec_digits(h as nat);
    let dmi = spec_dec_digits(mi as nat);
    let dsec = spec_dec_digits(sec as nat);
    let dus = spec_dec_digits(us as nat);
    let c = seq![44u8];
    let l2 = lit_bytes("]}");
    let f = bt + c + dd + c + dh + c + dmi + c + dsec + c + dus + l2;
    let r5 = dus + l2;
    let r4 = dsec + c + r5;
    let r3 = dmi + c + r4;
    let r2 = dh + c + r3;
    let r1 = dd + c + r2;
    assert(f =~= bt + (c + r1));
    lemma_split(s, i, bt, c + r1);
    if neg {
        assert(s.subrange(i, i + bt.len() as int) == lit_bytes("true"));
        assert(spec_lit_at(s, i, "true"));
    } else {
        assert(s.subrange(i, i + bt.len() as int) == lit_bytes("false"));
        assert(spec_lit_at(s, i, "false"));
        assert(s[i + 0] == lit_bytes("false")[0]);
        lemma_not_lit_at(s, i, "true", 0);
    }
    let p0 = i + bt.len();
    assert(s.subrange(p0, p0 + 1 + r1.len())[0] == (c + r1)[0]);
    assert(s[p0] == 44);
    lemma_lit1_at(s, p0, ",");
    lemma_split(s, p0, c, r1);
    assert(r1 =~= dd + c + r2);
    lemma_field_comma(s, p0 + 1, d as nat, r2);
    let p1 = p0 + 1 + dd.len() + 1;
    assert(r2 =~= dh + c + r3);
    lemma_field_comma(s, p1, h as nat, r3);
    let p2 = p1 + dh.len() + 1;
    assert(r3 =~= dmi + c + r4);
    lemma_field_comma(s, p2, mi as nat, r4);
    let p3 = p2 + dmi.len() + 1;
    assert(r4 =~= dsec + c + r5);
    lemma_field_comma(s, p3, sec as nat, r5);
    let p4 = p3 + dsec.len() + 1;
    lemma_field_close(s, p4, us as nat);
}

/// Every serialized value is at least six bytes and opens with a quote
/// (the null tag) or a brace (every tagged object).
proof fn lemma_ser_value_first(v: ValueModel)
    ensures
        spec_ser_value(v).len() >= 6,
        spec_ser_value(v)[0] == 34 || spec_ser_value(v)[0] == 123,
{
    reveal_strlit("\"NULL\"");
    reveal_strlit("{\"Bytes\":\"");
    reveal_strlit("{\"String\":\"");
    reveal_strlit("{\"Bool\":true}");
    reveal_strlit("{\"Bool\":false}");
    reveal_strlit("{\"Int\":");
    reveal_strlit("{\"UInt\":");
    reveal_strlit("{\"Float\":");
    reveal_strlit("{\"Double\":");
    reveal_strlit("{\"Date\":[");
    reveal_strlit("{\"Time\":[");
    match v {
        ValueModel::Null => {
            assert(spec_ser_value(v)[0] == 34);
        },
        ValueModel::Bytes(b) => {
            assert(spec_ser_value(v)[0] == lit_bytes("{\"Bytes\":\"")[0]);
        },
        ValueModel::Text(t) => {
            assert(spec_ser_value(v)[0] == lit_bytes("{\"String\":\"")[0]);
        },
        ValueModel::Bool(b) => {
            if b {
                assert(spec_ser_value(v)[0] == lit_bytes("{\"Bool\":true}")[0]);
            } else {
                assert(spec_ser_value(v)[0] == lit_bytes("{\"Bool\":false}")[0]);
            }
        },
        ValueModel::Int(n) => {
            assert(spec_ser_value(v)[0] == lit_bytes("{\"Int\":")[0]);
        },
        ValueModel::UInt(n) => {
            assert(spec_ser_value(v)[0] == lit_bytes("{\"UInt\":")[0]);
        },
        ValueModel::Float(bits) => {
            assert(spec_ser_value(v)[0] == lit_bytes("{\"Float\":")[0]);
        },
        ValueModel::Double(bits) => {
            assert(spec_ser_value(v)[0] == lit_bytes("{\"Double\":")[0]);
        },
        ValueModel::Date(y, mo, d, h, mi, sec, us) => {
            assert(spec_ser_value(v)[0] == lit_bytes("{\"Date\":[")[0]);
        },
        ValueModel::Time(neg, d, h, mi, sec, us) => {
            assert(spec_ser_value(v)[0] == lit_bytes("{\"Time\":[")[0]);
        },
    }
}

/// Shared preconditions of the per-variant lemmas, with the serialized
/// value standing at `i`.
spec fn value_at(v: ValueModel, s: Seq<u8>, i: int) -> bool {
    &&& 0 <= i
    &&& i + spec_ser_value(v).len() <= s.len()
    &&& s.subrange(i, i + spec_ser_value(v).len() as int) == spec_ser_value(v)
}

/// What every per-variant lemma concludes.
spec fn value_reads_back(v: ValueModel, s: Seq<u8>, i: int) -> bool {
    spec_parse_value(s, i) == Some((v, i + spec_ser_value(v).len() as int))
}

#[verifier::rlimit(100)]
proof fn lemma_value_rt_null(s: Seq<u8>, i: int)
    requires
        value_at(ValueModel::Null, s, i),
    ensures
        value_reads_back(ValueModel::Null, s, i),
{
    reveal_strlit("\"NULL\"");
    let v = ValueModel::Null;
    let ser = spec_ser_value(v);
    lemma_ser_value_first(v);
    assert(spec_lit_at(s, i, "\"NULL\""));
    assert(s.subrange(i, i + 6)[0] == lit_bytes("\"NULL\"")[0]);
    assert(s[i] == 34);
}

#[verifier::rlimit(100)]
proof fn lemma_value_rt_bool(s: Seq<u8>, i: int, b: bool)
    requires
        value_at(ValueModel::Bool(b), s, i),
    ensures
        value_reads_back(ValueModel::Bool(b), s, i),
{
    reveal_strlit("{\"Bool\":true}");
    reveal_strlit("{\"Bool\":false}");
    let v = ValueModel::Bool(b);
    let ser = spec_ser_value(v);
    lemma_ser_value_first(v);
    if b {
        assert(spec_lit_at(s, i, "{\"Bool\":true}"));
        assert(s.subrange(i, i + 13)[0] == lit_bytes("{\"Bool\":true}")[0]);
        assert(s.subrange(i, i + 13)[2] == lit_bytes("{\"Bool\":true}")[2]);
        assert(s.subrange(i, i + 13)[3] == lit_bytes("{\"Bool\":true}")[3]);
        assert(s[i] == 123 && s[i + 2] == 66 && s[i + 3] == 111);
    } else {
        assert(spec_lit_at(s, i, "{\"Bool\":false}"));
        assert(s.subrange(i, i + 14)[0] == lit_bytes("{\"Bool\":false}")[0]);
        assert(s.subrange(i, i + 14)[2] == lit_bytes("{\"Bool\":false}")[2]);
        assert(s.subrange(i, i + 14)[3] == lit_bytes("{\"Bool\":false}")[3]);
        assert(s.subrange(i, i + 14)[8] == lit_bytes("{\"Bool\":false}")[8]);
        assert(s[i] == 123 && s[i + 2] == 66 && s[i + 3] == 111 && s[i + 8] == 102);
        lemma_not_lit_at(s, i, "{\"Bool\":true}", 8);
    }
}

#[verifier::rlimit(100)]
proof fn lemma_value_rt_bytes(s: Seq<u8>, i: int, b: Seq<u8>)
    requires
        value_at(ValueModel::Bytes(b), s, i),
    ensures
        value_reads_back(ValueModel::Bytes(b), s, i),
{
    reveal_strlit("{\"Bytes\":\"");
    reveal_strlit("\"");
    reveal_strlit("}");
    let v = ValueModel::Bytes(b);
    let ser = spec_ser_value(v);
    lemma_ser_value_first(v);
    let a = lit_bytes("{\"Bytes\":\"");
    let e = spec_escape(spec_b64_encode(b));
    let q = lit_bytes("\"");
    let c = lit_bytes("}");
    assert(ser =~= a + (e + q + c));
    lemma_split(s, i, a, e + q + c);
    assert(spec_lit_at(s, i, "{\"Bytes\":\""));
    assert(s.subrange(i, i + 10)[0] == a[0]);
    assert(s.subrange(i, i + 10)[2] == a[2]);
    assert(s.subrange(i, i + 10)[3] == a[3]);
    assert(s[i] == 123 && s[i + 2] == 66 && s[i + 3] == 121);
    assert(e + q + c =~= e + (q + c));
    lemma_split(s, i + 10, e, q + c);
    let p = i + 10 + e.len();
    assert(s.subrange(p, p + 2)[0] == (q + c)[0]);
    assert(s.subrange(p, p + 2)[1] == (q + c)[1]);
    assert(s[p] == 34 && s[p + 1] == 125);
    lemma_jstring_roundtrip(spec_b64_encode(b), s, i + 10, Seq::empty());
    assert(Seq::empty() + spec_b64_encode(b) =~= spec_b64_encode(b));
    lemma_b64_roundtrip(b);
    lemma_lit1_at(s, p + 1, "}");
}

#[verifier::rlimit(100)]
proof fn lemma_value_rt_text(s: Seq<u8>, i: int, t: Seq<char>)
    requires
        value_at(ValueModel::Text(t), s, i),
    ensures
        value_reads_back(ValueModel::Text(t), s, i),
{
    reveal_strlit("{\"String\":\"");
    reveal_strlit("\"");
    reveal_strlit("}");
    let v = ValueModel::Text(t);
    let ser = spec_ser_value(v);
    lemma_ser_value_first(v);
    let a = lit_bytes("{\"String\":\"");
    let e = spec_escape(vstd::utf8::encode_utf8(t));
    let q = lit_bytes("\"");
    let c = lit_bytes("}");
    assert(ser =~= a + (e + q + c));
    lemma_split(s, i, a, e + q + c);
    assert(spec_lit_at(s, i, "{\"String\":\""));
    assert(s.subrange(i, i + 11)[0] == a[0]);
    assert(s.subrange(i, i + 11)[2] == a[2]);
    assert(s[i] == 123 && s[i + 2] == 83);
    assert(e + q + c =~= e + (q + c));
    lemma_split(s, i + 11, e, q + c);
    let p = i + 11 + e.len();
    assert(s.subrange(p, p + 2)[0] == (q + c)[0]);
    assert(s.subrange(p, p + 2)[1] == (q + c)[1]);
    assert(s[p] == 34 && s[p + 1] == 125);
    lemma_jstring_roundtrip(vstd::utf8::encode_utf8(t), s, i + 11, Seq::empty());
    assert(Seq::empty() + vstd::utf8::encode_utf8(t) =~= vstd::utf8::encode_utf8(t));
    vstd::utf8::encode_utf8_valid_utf8(t);
    vstd::utf8::encode_utf8_decode_utf8(t);
    lemma_lit1_at(s, p + 1, "}");
}

#[verifier::rlimit(100)]
proof fn lemma_value_rt_int(s: Seq<u8>, i: int, n: i64)
    requires
        value_at(ValueModel::Int(n), s, i),
    ensures
        value_reads_back(ValueModel::Int(n), s, i),
{
    reveal_strlit("{\"Int\":");
    reveal_strlit("}");
    let v = ValueModel::Int(n);
    let ser = spec_ser_value(v);
    lemma_ser_value_first(v);
    let a = lit_bytes("{\"Int\":");
    let dd = spec_int_digits(n as int);
    let c = lit_bytes("}");
    assert(ser =~= a + (dd + c));
    lemma_split(s, i, a, dd + c);
    assert(spec_lit_at(s, i, "{\"Int\":"));
    assert(s.subrange(i, i + 7)[0] == a[0]);
    assert(s.subrange(i, i + 7)[2] == a[2]);
    assert(s[i] == 123 && s[i + 2] == 73);
    lemma_split(s, i + 7, dd, c);
    let p = i + 7 + dd.len();
    assert(s.subrange(p, p + 1)[0] == c[0]);
    assert(s[p] == 125);
    lemma_lit1_at(s, p, "}");
    if n < 0 {
        let m = (-(n as int)) as nat;
        let dm = spec_dec_digits(m);
        assert(dd =~= seq![45u8] + dm);
        lemma_split(s, i + 7, seq![45u8], dm);
        assert(s.subrange(i + 7, i + 8)[0] == 45);
        assert(s[i + 7] == 45);
        lemma_num_at(s, i + 8, m);
    } else {
        assert(dd == spec_dec_digits(n as nat));
        lemma_dec_digits_are_digits(n as nat);
        assert(s.subrange(i + 7, i + 7 + dd.len())[0] == dd[0]);
        assert(is_digit(s[i + 7]));
        assert(s[i + 7] != 45);
        lemma_num_at(s, i + 7, n as nat);
    }
}

#[verifier::rlimit(100)]
proof fn lemma_value_rt_uint(s: Seq<u8>, i: int, n: u64)
    requires
        value_at(ValueModel::UInt(n), s, i),
    ensures
        value_reads_back(ValueModel::UInt(n), s, i),
{
    reveal_strlit("{\"UInt\":");
    reveal_strlit("}");
    let v = ValueModel::UInt(n);
    let ser = spec_ser_value(v);
    lemma_ser_value_first(v);
    let a = lit_bytes("{\"UInt\":");
    let dd = spec_dec_digits(n as nat);
    let c = lit_bytes("}");
    assert(ser =~= a + (dd + c));
    lemma_split(s, i, a, dd + c);
    assert(spec_lit_at(s, i, "{\"UInt\":"));
    assert(s.subrange(i, i + 8)[0] == a[0]);
    assert(s.subrange(i, i + 8)[2] == a[2]);
    assert(s[i] == 123 && s[i + 2] == 85);
    lemma_split(s, i + 8, dd, c);
    let p = i + 8 + dd.len();
    assert(s.subrange(p, p + 1)[0] == c[0]);
    assert(s[p] == 125);
    lemma_lit1_at(s, p, "}");
    lemma_num_at(s, i + 8, n as nat);
}

#[verifier::rlimit(100)]
proof fn lemma_value_rt_float(s: Seq<u8>, i: int, bits: u32)
    requires
        value_at(ValueModel::Float(bits), s, i),
    ensures
        value_reads_back(ValueModel::Float(bits), s, i),
{
    reveal_strlit("{\"Float\":");
    reveal_strlit("}");
    let v = ValueModel::Float(bits);
    let ser = spec_ser_value(v);
    lemma_ser_value_first(v);
    let a = lit_bytes("{\"Float\":");
    let dd = spec_dec_digits(bits as nat);
    let c = lit_bytes("}");
    assert(ser =~= a + (dd + c));
    lemma_split(s, i, a, dd + c);
    assert(spec_lit_at(s, i, "{\"Float\":"));
    assert(s.subrange(i, i + 9)[0] == a[0]);
    assert(s.subrange(i, i + 9)[2] == a[2]);
    assert(s[i] == 123 && s[i + 2] == 70);
    lemma_split(s, i + 9, dd, c);
    let p = i + 9 + dd.len();
    assert(s.subrange(p, p + 1)[0] == c[0]);
    assert(s[p] == 125);
    lemma_lit1_at(s, p, "}");
    lemma_num_at(s, i + 9, bits as nat);
}

#[verifier::rlimit(100)]
proof fn lemma_value_rt_double(s: Seq<u8>, i: int, bits: u64)
    requires
        value_at(ValueModel::Double(bits), s, i),
    ensures
        value_reads_back(ValueModel::Double(bits), s, i),
{
    reveal_strlit("{\"Double\":");
    reveal_strlit("}");
    let v = ValueModel::Double(bits);
    let ser = spec_ser_value(v);
    lemma_ser_value_first(v);
    let a = lit_bytes("{\"Double\":");
    let dd = spec_dec_digits(bits as nat);
    let c = lit_bytes("}");
    assert(ser =~= a + (dd + c));
    lemma_split(s, i, a, dd + c);
    assert(spec_lit_at(s, i, "{\"Double\":"));
    assert(s.subrange(i, i + 10)[0] == a[0]);
    assert(s.subrange(i, i + 10)[2] == a[2]);
    assert(s.subrange(i, i + 10)[3] == a[3]);
    assert(s[i] == 123 && s[i + 2] == 68 && s[i + 3] == 111);
    lemma_split(s, i + 10, dd, c);
    let p = i + 10 + dd.len();
    assert(s.subrange(p, p + 1)[0] == c[0]);
    assert(s[p] == 125);
    lemma_lit1_at(s, p, "}");
    lemma_num_at(s, i + 10, bits as nat);
}

#[verifier::rlimit(100)]
proof fn lemma_value_rt_date(
    s: Seq<u8>,
    i: int,
    y: u16,
    mo: u8,
    d: u8,
    h: u8,
    mi: u8,
    sec: u8,
    us: u32,
)
    requires
        value_at(ValueModel::Date(y, mo, d, h, mi, sec, us), s, i),
    ensures
        value_reads_back(ValueModel::Date(y, mo, d, h, mi, sec, us), s, i),
{
    reveal_strlit("{\"Date\":[");
    let v = ValueModel::Date(y, mo, d, h, mi, sec, us);
    let ser = spec_ser_value(v);
    lemma_ser_value_first(v);
    let a = lit_bytes("{\"Date\":[");
    let f = spec_dec_digits(y as nat) + seq![44u8] + spec_dec_digits(mo as nat) + seq![44u8]
        + spec_dec_digits(d as nat) + seq![44u8] + spec_dec_digits(h as nat) + seq![44u8]
        + spec_dec_digits(mi as nat) + seq![44u8] + spec_dec_digits(sec as nat) + seq![44u8]
        + spec_dec_digits(us as nat) + lit_bytes("]}");
    assert(ser =~= a + f);
    lemma_split(s, i, a, f);
    assert(spec_lit_at(s, i, "{\"Date\":["));
    assert(s.subrange(i, i + 9)[0] == a[0]);
    assert(s.subrange(i, i + 9)[2] == a[2]);
    assert(s.subrange(i, i + 9)[3] == a[3]);
    assert(s[i] == 123 && s[i + 2] == 68 && s[i + 3] == 97);
    lemma_date_roundtrip(s, i + 9, y, mo, d, h, mi, sec, us);
}

#[verifier::rlimit(100)]
proof fn lemma_value_rt_time(s: Seq<u8>, i: int, neg: bool, d: u32, h: u8, mi: u8, sec: u8, us: u32)
    requires
        value_at(ValueModel::Time(neg, d, h, mi, sec, us), s, i),
    ensures
        value_reads_back(ValueModel::Time(neg, d, h, mi, sec, us), s, i),
{
    reveal_strlit("{\"Time\":[");
    let v = ValueModel::Time(neg, d, h, mi, sec, us);
    let ser = spec_ser_value(v);
    lemma_ser_value_first(v);
    let a = lit_bytes("{\"Time\":[");
    let f = (if neg {
        lit_bytes("true")
    } else {
        lit_bytes("false")
    }) + seq![44u8] + spec_dec_digits(d as nat) + seq![44u8] + spec_dec_digits(h as nat)
        + seq![44u8] + spec_dec_digits(mi as nat) + seq![44u8] + spec_dec_digits(sec as nat)
        + seq![44u8] + spec_dec_digits(us as nat) + lit_bytes("]}");
    assert(ser =~= a + f);
    lemma_split(s, i, a, f);
    assert(spec_lit_at(s, i, "{\"Time\":["));
    assert(s.subrange(i, i + 9)[0] == a[0]);
    assert(s.subrange(i, i + 9)[2] == a[2]);
    assert(s[i] == 123 && s[i + 2] == 84);
    lemma_time_roundtrip(s, i + 9, neg, d, h, mi, sec, us);
}

/// The round trip of one cell value: its serialized bytes read back to it.
pub proof fn lemma_value_roundtrip(v: ValueModel, s: Seq<u8>, i: int)
    requires
        0 <= i,
        i + spec_ser_value(v).len() <= s.len(),
        s.subrange(i, i + spec_ser_value(v).len() as int) == spec_ser_value(v),
    ensures
        spec_parse_value(s, i) == Some((v, i + spec_ser_value(v).len() as int)),
{
    match v {
        ValueModel::Null => lemma_value_rt_null(s, i),
        ValueModel::Bytes(b) => lemma_value_rt_bytes(s, i, b),
        ValueModel::Text(t) => lemma_value_rt_text(s, i, t),
        ValueModel::Bool(b) => lemma_value_rt_bool(s, i, b),
        ValueModel::Int(n) => lemma_value_rt_int(s, i, n),
        ValueModel::UInt(n) => lemma_value_rt_uint(s, i, n),
        ValueModel::Float(bits) => lemma_value_rt_float(s, i, bits),
        ValueModel::Double(bits) => lemma_value_rt_double(s, i, bits),
        ValueModel::Date(y, mo, d, h, mi, sec, us) => lemma_value_rt_date(
            s,
            i,
            y,
            mo,
            d,
            h,
            mi,
            sec,
            us,
        ),
        ValueModel::Time(neg, d, h, mi, sec, us) => lemma_value_rt_time(
            s,
            i,
            neg,
            d,
            h,
            mi,
            sec,
            us,
        ),
    }
}

/// The round trip of one column descriptor.
#[verifier::rlimit(100)]
pub proof fn lemma_column_roundtrip(c: ColumnModel, s: Seq<u8>, i: int)
    requires
        0 <= i,
        i + spec_ser_column(c).len() <= s.len(),
        s.subrange(i, i + spec_ser_column(c).len() as int) == spec_ser_column(c),
    ensures
        spec_parse_column(s, i) == Some((c, i + spec_ser_column(c).len() as int)),
{
    reveal_strlit("{\"name\":\"");
    reveal_strlit("\"");
    reveal_strlit(",\"column_type\":\"");
    reveal_strlit("}");
    let ser = spec_ser_column(c);
    let a = lit_bytes("{\"name\":\"");
    let e1 = spec_escape(vstd::utf8::encode_utf8(c.name));
    let q = lit_bytes("\"");
    let b = lit_bytes(",\"column_type\":\"");
    let e2 = spec_escape(spec_coltype_tag(c.column_type));
    let cc = lit_bytes("}");
    assert(ser =~= a + (e1 + q + b + e2 + q + cc));
    lemma_split(s, i, a, e1 + q + b + e2 + q + cc);
    assert(spec_lit_at(s, i, "{\"name\":\""));
    assert(e1 + q + b + e2 + q + cc =~= e1 + (q + b + e2 + q + cc));
    lemma_split(s, i + 9, e1, q + b + e2 + q + cc);
    let p0 = i + 9 + e1.len();
    assert(s.subrange(p0, p0 + 1 + b.len() + e2.len() + 1 + 1)[0] == (q + b + e2 + q + cc)[0]);
    assert(s[p0] == 34);
    lemma_jstring_roundtrip(vstd::utf8::encode_utf8(c.name), s, i + 9, Seq::empty());
    assert(Seq::empty() + vstd::utf8::encode_utf8(c.name) =~= vstd::utf8::encode_utf8(c.name));
    vstd::utf8::encode_utf8_valid_utf8(c.name);
    vstd::utf8::encode_utf8_decode_utf8(c.name);
    assert(q + b + e2 + q + cc =~= q + (b + (e2 + q + cc)));
    lemma_split(s, p0, q, b + (e2 + q + cc));
    lemma_split(s, p0 + 1, b, e2 + q + cc);
    assert(spec_lit_at(s, p0 + 1, ",\"column_type\":\""));
    let p1 = p0 + 1 + 16;
    assert(e2 + q + cc =~= e2 + (q + cc));
    lemma_split(s, p1, e2, q + cc);
    let p2 = p1 + e2.len();
    assert(s.subrange(p2, p2 + 2)[0] == (q + cc)[0]);
    assert(s.subrange(p2, p2 + 2)[1] == (q + cc)[1]);
    assert(s[p2] == 34 && s[p2 + 1] == 125);
    lemma_jstring_roundtrip(spec_coltype_tag(c.column_type), s, p1, Seq::empty());
    assert(Seq::empty() + spec_coltype_tag(c.column_type) =~= spec_coltype_tag(c.column_type));
    lemma_coltype_roundtrip(c.column_type);
    lemma_lit1_at(s, p2 + 1, "}");
}

/// Every serialized column is at least nine bytes and opens with a brace.
proof fn lemma_ser_column_first(c: ColumnModel)
    ensures
        spec_ser_column(c).len() >= 9,
        spec_ser_column(c)[0] == 123,
{
    reveal_strlit("{\"name\":\"");
    assert(spec_ser_column(c)[0] == lit_bytes("{\"name\":\"")[0]);
}

/// Every serialized row is at least eleven bytes and opens with a brace.
proof fn lemma_ser_row_first(r: RowModel)
    ensures
        spec_ser_row(r).len() >= 11,
        spec_ser_row(r)[0] == 123,
{
    reveal(crate::dbc::wire::spec_ser_row);
    reveal_strlit("{\"values\":[");
    assert(spec_ser_row(r)[0] == lit_bytes("{\"values\":[")[0]);
}

/// The remaining values of a serialized row, followed by the closing
/// bracket, read back and extend what was read before them.
proof fn lemma_value_list_more_rt(vs: Seq<ValueModel>, s: Seq<u8>, i: int, acc: Seq<ValueModel>)
    requires
        0 <= i,
        i + spec_ser_value_list_tail(vs).len() + 1 <= s.len(),
        s.subrange(i, i + spec_ser_value_list_tail(vs).len() + 1) == spec_ser_value_list_tail(vs)
            + lit_bytes("]"),
    ensures
        spec_parse_value_list_more(s, i, acc) == Some(
            (acc + vs, i + spec_ser_value_list_tail(vs).len() + 1),
        ),
    decreases vs.len(),
{
    reveal_strlit("]");
    reveal_strlit(",");
    if vs.len() == 0 {
        assert(spec_ser_value_list_tail(vs) + lit_bytes("]") =~= lit_bytes("]"));
        assert(spec_lit_at(s, i, "]"));
        assert(acc + vs =~= acc);
    } else {
        let v0 = vs[0];
        let sv = spec_ser_value(v0);
        let rest = vs.drop_first();
        let tl = spec_ser_value_list_tail(rest);
        assert(spec_ser_value_list_tail(vs) == seq![44u8] + sv + tl);
        assert(spec_ser_value_list_tail(vs) + lit_bytes("]") =~= seq![44u8] + (sv + (tl
            + lit_bytes("]"))));
        lemma_split(s, i, seq![44u8], sv + (tl + lit_bytes("]")));
        assert(s.subrange(i, i + 1)[0] == 44);
        assert(s[i] == 44);
        lemma_lit1_at(s, i, ",");
        lemma_not_lit_at(s, i, "]", 0);
        lemma_split(s, i + 1, sv, tl + lit_bytes("]"));
        lemma_value_roundtrip(v0, s, i + 1);
        lemma_ser_value_first(v0);
        let j = i + 1 + sv.len();
        lemma_value_list_more_rt(rest, s, j, acc.push(v0));
        assert(acc.push(v0) + rest =~= acc + vs);
    }
}

/// A whole serialized value list, followed by its closing bracket, reads
/// back.
proof fn lemma_value_list_rt(vs: Seq<ValueModel>, s: Seq<u8>, i: int)
    requires
        0 <= i,
        i + spec_ser_value_list(vs).len() + 1 <= s.len(),
        s.subrange(i, i + spec_ser_value_list(vs).len() + 1) == spec_ser_value_list(vs)
            + lit_bytes("]"),
    ensures
        spec_parse_value_list(s, i) == Some((vs, i + spec_ser_value_list(vs).len() + 1)),
{
    reveal_strlit("]");
    if vs.len() == 0 {
        assert(spec_ser_value_list(vs) + lit_bytes("]") =~= lit_bytes("]"));
        assert(spec_lit_at(s, i, "]"));
        assert(vs =~= Seq::<ValueModel>::empty());
    } else {
        let v0 = vs[0];
        let sv = spec_ser_value(v0);
        let rest = vs.drop_first();
        let tl = spec_ser_value_list_tail(rest);
        assert(spec_ser_value_list(vs) == sv + tl);
        assert(spec_ser_value_list(vs) + lit_bytes("]") =~= sv + (tl + lit_bytes("]")));
        lemma_split(s, i, sv, tl + lit_bytes("]"));
        lemma_value_roundtrip(v0, s, i);
        lemma_ser_value_first(v0);
        assert(s.subrange(i, i + sv.len() as int)[0] == sv[0]);
        assert(s[i] == 34 || s[i] == 123);
        lemma_not_lit_at(s, i, "]", 0);
        let j = i + sv.len();
        lemma_value_list_more_rt(rest, s, j, seq![v0]);
        assert(seq![v0] + rest =~= vs);
    }
}

/// The remaining columns of a serialized schema, followed by the closing
/// bracket, read back and extend what was read before them.
proof fn lemma_column_list_more_rt(cs: Seq<ColumnModel>, s: Seq<u8>, i: int, acc: Seq<ColumnModel>)
    requires
        0 <= i,
        i + spec_ser_column_list_tail(cs).len() + 1 <= s.len(),
        s.subrange(i, i + spec_ser_column_list_tail(cs).len() + 1) == spec_ser_column_list_tail(cs)
            + lit_bytes("]"),
    ensures
        spec_parse_column_list_more(s, i, acc) == Some(
            (acc + cs, i + spec_ser_column_list_tail(cs).len() + 1),
        ),
    decreases cs.len(),
{
    reveal_strlit("]");
    reveal_strlit(",");
    if cs.len() == 0 {
        assert(spec_ser_column_list_tail(cs) + lit_bytes("]") =~= lit_bytes("]"));
        assert(spec_lit_at(s, i, "]"));
        assert(acc + cs =~= acc);
    } else {
        let c0 = cs[0];
        let sc = spec_ser_column(c0);
        let rest = cs.drop_first();
        let tl = spec_ser_column_list_tail(rest);
        assert(spec_ser_column_list_tail(cs) == seq![44u8] + sc + tl);
        assert(spec_ser_column_list_tail(cs) + lit_bytes("]") =~= seq![44u8] + (sc + (tl
            + lit_bytes("]"))));
        lemma_split(s, i, seq![44u8], sc + (tl + lit_bytes("]")));
        assert(s.subrange(i, i + 1)[0] == 44);
        assert(s[i] == 44);
        lemma_lit1_at(s, i, ",");
        lemma_not_lit_at(s, i, "]", 0);
        lemma_split(s, i + 1, sc, tl + lit_bytes("]"));
        lemma_column_roundtrip(c0, s, i + 1);
        lemma_ser_column_first(c0);
        let j = i + 1 + sc.len();
        lemma_column_list_more_rt(rest, s, j, acc.push(c0));
        assert(acc.push(c0) + rest =~= acc + cs);
    }
}

/// A whole serialized column list, followed by its closing bracket, reads
/// back.
proof fn lemma_column_list_rt(cs: Seq<ColumnModel>, s: Seq<u8>, i: int)
    requires
        0 <= i,
        i + spec_ser_column_list(cs).len() + 1 <= s.len(),
        s.subrange(i, i + spec_ser_column_list(cs).len() + 1) == spec_ser_column_list(cs)
            + lit_bytes("]"),
    ensures
        spec_parse_column_list(s, i) == Some((cs, i + spec_ser_column_list(cs).len() + 1)),
{
    reveal_strlit("]");
    if cs.len() == 0 {
        assert(spec_ser_column_list(cs) + lit_bytes("]") =~= lit_bytes("]"));
        assert(spec_lit_at(s, i, "]"));
        assert(cs =~= Seq::<ColumnModel>::empty());
    } else {
        let c0 = cs[0];
        let sc = spec_ser_column(c0);
        let rest = cs.drop_first();
        let tl = spec_ser_column_list_tail(rest);
        assert(spec_ser_column_list(cs) == sc + tl);
        assert(spec_ser_column_list(cs) + lit_bytes("]") =~= sc + (tl + lit_bytes("]")));
        lemma_split(s, i, sc, tl + lit_bytes("]"));
        lemma_column_roundtrip(c0, s, i);
        lemma_ser_column_first(c0);
        assert(s.subrange(i, i + sc.len() as int)[0] == sc[0]);
        assert(s[i] == 123);
        lemma_not_lit_at(s, i, "]", 0);
        let j = i + sc.len();
        lemma_column_list_more_rt(rest, s, j, seq![c0]);
        assert(seq![c0] + rest =~= cs);
    }
}

/// The round trip of one row.
#[verifier::rlimit(100)]
pub proof fn lemma_row_roundtrip(r: RowModel, s: Seq<u8>, i: int)
    requires
        0 <= i,
        i + spec_ser_row(r).len() <= s.len(),
        s.subrange(i, i + spec_ser_row(r).len() as int) == spec_ser_row(r),
    ensures
        spec_parse_row(s, i) == Some((r, i + spec_ser_row(r).len() as int)),
{
    reveal(crate::dbc::wire::spec_ser_row);
    reveal_strlit("{\"values\":[");
    reveal_strlit("]");
    reveal_strlit(",\"columns\":[");
    reveal_strlit("}");
    let ser = spec_ser_row(r);
    let a = lit_bytes("{\"values\":[");
    let vl = spec_ser_value_list(r.values);
    let q = lit_bytes("]");
    let b = lit_bytes(",\"columns\":[");
    let cl = spec_ser_column_list(r.columns);
    let cc = lit_bytes("}");
    assert(ser =~= a + ((vl + q) + (b + ((cl + q) + cc))));
    lemma_split(s, i, a, (vl + q) + (b + ((cl + q) + cc)));
    assert(spec_lit_at(s, i, "{\"values\":["));
    lemma_split(s, i + 11, vl + q, b + ((cl + q) + cc));
    lemma_value_list_rt(r.values, s, i + 11);
    let p0 = i + 11 + vl.len() + 1;
    lemma_split(s, p0, b, (cl + q) + cc);
    assert(spec_lit_at(s, p0, ",\"columns\":["));
    let p1 = p0 + 12;
    lemma_split(s, p1, cl + q, cc);
    lemma_column_list_rt(r.columns, s, p1);
    let p2 = p1 + cl.len() + 1;
    assert(s.subrange(p2, p2 + 1)[0] == cc[0]);
    assert(s[p2] == 125);
    lemma_lit1_at(s, p2, "}");
    assert(r == RowModel { values: r.values, columns: r.columns });
}

/// Splitting a comma, an element, and a bracketed remainder without
/// unfolding what the element is.
proof fn lemma_comma_elem_split(s: Seq<u8>, i: int, e: Seq<u8>, tl: Seq<u8>)
    requires
        0 <= i,
        i + 1 + e.len() + tl.len() + 1 <= s.len(),
        s.subrange(i, i + 1 + e.len() + tl.len() + 1) == seq![44u8] + e + tl + lit_bytes("]"),
    ensures
        s[i] == 44,
        s.subrange(i + 1, i + 1 + e.len() as int) == e,
        s.subrange(i + 1 + e.len(), i + 1 + e.len() + tl.len() + 1) == tl + lit_bytes("]"),
{
    reveal_strlit("]");
    let whole = seq![44u8] + e + tl + lit_bytes("]");
    assert(s.subrange(i, i + whole.len() as int)[0] == whole[0]);
    assert forall|m: int| 0 <= m < e.len() implies s.subrange(i + 1, i + 1 + e.len() as int)[m]
        == e[m] by {
        assert(s.subrange(i + 1, i + 1 + e.len() as int)[m] == s[i + 1 + m]);
        assert(s.subrange(i, i + whole.len() as int)[1 + m] == s[i + 1 + m]);
        assert(whole[1 + m] == e[m]);
    }
    assert(s.subrange(i + 1, i + 1 + e.len() as int) =~= e);
    let p = i + 1 + e.len() as int;
    assert forall|m: int| 0 <= m < tl.len() + 1 implies s.subrange(p, p + tl.len() + 1)[m] == (tl
        + lit_bytes("]"))[m] by {
        assert(s.subrange(p, p + tl.len() + 1)[m] == s[p + m]);
        assert(s.subrange(i, i + whole.len() as int)[1 + e.len() + m] == s[p + m]);
        assert(whole[1 + e.len() + m] == (tl + lit_bytes("]"))[m]);
    }
    assert(s.subrange(p, p + tl.len() + 1) =~= tl + lit_bytes("]"));
}

/// The remaining rows of a serialized result, followed by the closing
/// bracket, read back and extend what was read before them.
#[verifier::rlimit(100)]
#[verifier::spinoff_prover]
proof fn lemma_row_list_more_rt(rs: Seq<RowModel>, s: Seq<u8>, i: int, acc: Seq<RowModel>)
    requires
        0 <= i,
        i + spec_ser_row_list_tail(rs).len() + 1 <= s.len(),
        s.subrange(i, i + spec_ser_row_list_tail(rs).len() + 1) == spec_ser_row_list_tail(rs)
            + lit_bytes("]"),
    ensures
        spec_parse_row_list_more(s, i, acc) == Some(
            (acc + rs, i + spec_ser_row_list_tail(rs).len() + 1),
        ),
    decreases rs.len(),
{
    reveal_strlit("]");
    reveal_strlit(",");
    if rs.len() == 0 {
        assert(spec_ser_row_list_tail(rs) + lit_bytes("]") =~= lit_bytes("]"));
        assert(spec_lit_at(s, i, "]"));
        assert(acc + rs =~= acc);
    } else {
        let r0 = rs[0];
        let sr = spec_ser_row(r0);
        let rest = rs.drop_first();
        let tl = spec_ser_row_list_tail(rest);
        assert(spec_ser_row_list_tail(rs) == seq![44u8] + sr + tl);
        assert(s.subrange(i, i + 1 + sr.len() + tl.len() + 1) == seq![44u8] + sr + tl + lit_bytes(
            "]",
        ));
        lemma_comma_elem_split(s, i, sr, tl);
        lemma_lit1_at(s, i, ",");
        lemma_not_lit_at(s, i, "]", 0);
        lemma_row_roundtrip(r0, s, i + 1);
        lemma_ser_row_first(r0);
        let j = i + 1 + sr.len();
        lemma_row_list_more_rt(rest, s, j, acc.push(r0));
        assert(acc.push(r0) + rest =~= acc + rs);
    }
}

/// A whole serialized row list, followed by its closing bracket, reads
/// back.
#[verifier::rlimit(100)]
proof fn lemma_row_list_rt(rs: Seq<RowModel>, s: Seq<u8>, i: int)
    requires
        0 <= i,
        i + spec_ser_row_list(rs).len() + 1 <= s.len(),
        s.subrange(i, i + spec_ser_row_list(rs).len() + 1) == spec_ser_row_list(rs) + lit_bytes(
            "]",
        ),
    ensures
        spec_parse_row_list(s, i) == Some((rs, i + spec_ser_row_list(rs).len() + 1)),
{
    reveal_strlit("]");
    if rs.len() == 0 {
        assert(spec_ser_row_list(rs) + lit_bytes("]") =~= lit_bytes("]"));
        assert(spec_lit_at(s, i, "]"));
        assert(rs =~= Seq::<RowModel>::empty());
    } else {
        let r0 = rs[0];
        let sr = spec_ser_row(r0);
        let rest = rs.drop_first();
        let tl = spec_ser_row_list_tail(rest);
        assert(spec_ser_row_list(rs) == sr + tl);
        assert(spec_ser_row_list(rs) + lit_bytes("]") =~= sr + (tl + lit_bytes("]")));
        lemma_split(s, i, sr, tl + lit_bytes("]"));
        lemma_row_roundtrip(r0, s, i);
        lemma_ser_row_first(r0);
        assert(s.subrange(i, i + sr.len() as int)[0] == sr[0]);
        assert(s[i] == 123);
        lemma_not_lit_at(s, i, "]", 0);
        let j = i + sr.len();
        lemma_row_list_more_rt(rest, s, j, seq![r0]);
        assert(seq![r0] + rest =~= rs);
    }
}

/// Splitting the five pieces around a serialized result without unfolding
/// what the row list is.
proof fn lemma_result_split(s: Seq<u8>, a: Seq<u8>, rl: Seq<u8>, b: Seq<u8>, dd: Seq<u8>, c: Seq<u8>)
    requires
        s == a + rl + lit_bytes("]") + b + dd + c,
    ensures
        s.subrange(0, a.len() as int) == a,
        s.subrange(a.len() as int, a.len() as int + rl.len() + 1) == rl + lit_bytes("]"),
        s.subrange(
            a.len() as int + rl.len() + 1,
            a.len() as int + rl.len() + 1 + b.len(),
        ) == b,
        s.subrange(
            a.len() as int + rl.len() + 1 + b.len(),
            a.len() as int + rl.len() + 1 + b.len() + dd.len(),
        ) == dd,
        s.subrange(a.len() as int + rl.len() + 1 + b.len() + dd.len(), s.len() as int) == c,
{
    reveal_strlit("]");
    let p1 = a.len() as int;
    let p2 = p1 + rl.len() + 1;
    let p3 = p2 + b.len() as int;
    let p4 = p3 + dd.len() as int;
    assert forall|m: int| 0 <= m < a.len() implies s.subrange(0, p1)[m] == a[m] by {
        assert(s.subrange(0, p1)[m] == s[m]);
        assert(s[m] == (a + rl + lit_bytes("]") + b + dd + c)[m]);
    }
    assert(s.subrange(0, p1) =~= a);
    assert forall|m: int| 0 <= m < rl.len() + 1 implies s.subrange(p1, p2)[m] == (rl + lit_bytes(
        "]",
    ))[m] by {
        assert(s.subrange(p1, p2)[m] == s[p1 + m]);
        assert(s[p1 + m] == (a + rl + lit_bytes("]") + b + dd + c)[p1 + m]);
    }
    assert(s.subrange(p1, p2) =~= rl + lit_bytes("]"));
    assert forall|m: int| 0 <= m < b.len() implies s.subrange(p2, p3)[m] == b[m] by {
        assert(s.subrange(p2, p3)[m] == s[p2 + m]);
        assert(s[p2 + m] == (a + rl + lit_bytes("]") + b + dd + c)[p2 + m]);
    }
    assert(s.subrange(p2, p3) =~= b);
    assert forall|m: int| 0 <= m < dd.len() implies s.subrange(p3, p4)[m] == dd[m] by {
        assert(s.subrange(p3, p4)[m] == s[p3 + m]);
        assert(s[p3 + m] == (a + rl + lit_bytes("]") + b + dd + c)[p3 + m]);
    }
    assert(s.subrange(p3, p4) =~= dd);
    assert forall|m: int| 0 <= m < c.len() implies s.subrange(p4, s.len() as int)[m] == c[m] by {
        assert(s.subrange(p4, s.len() as int)[m] == s[p4 + m]);
        assert(s[p4 + m] == (a + rl + lit_bytes("]") + b + dd + c)[p4 + m]);
    }
    assert(s.subrange(p4, s.len() as int) =~= c);
}

/// Round-trip law: a serialized result, parsed back, is the very result
/// that was serialized — every row, every column, every cell, and the
/// affected-row count. The one bound is the machine's: the affected-row
/// count of any result this library builds fits in a `usize`.
#[verifier::rlimit(100)]
pub proof fn lemma_result_roundtrip(q: QueryResultModel)
    requires
        q.affected_row_count <= usize::MAX,
    ensures
        spec_parse_result(spec_ser_result(q)) == Some(q),
{
    reveal_strlit("{\"rows\":[");
    reveal_strlit("]");
    reveal_strlit(",\"affected_row_count\":");
    reveal_strlit("}");
    let s = spec_ser_result(q);
    let a = lit_bytes("{\"rows\":[");
    let rl = spec_ser_row_list(q.rows);
    let b = lit_bytes(",\"affected_row_count\":");
    let dd = spec_dec_digits(q.affected_row_count);
    let c = lit_bytes("}");
    assert(s == a + rl + lit_bytes("]") + b + dd + c);
    lemma_result_split(s, a, rl, b, dd, c);
    assert(spec_lit_at(s, 0, "{\"rows\":["));
    lemma_row_list_rt(q.rows, s, 9);
    let p0: int = 9 + rl.len() as int + 1;
    assert(spec_lit_at(s, p0, ",\"affected_row_count\":"));
    let p1: int = p0 + 22;
    let p2: int = p1 + dd.len() as int;
    assert(s.subrange(p2, s.len() as int)[0] == c[0]);
    assert(s[p2] == 125);
    lemma_num_at(s, p1, q.affected_row_count);
    lemma_lit1_at(s, p2, "}");
    assert(p2 + 1 == s.len());
    assert(q == QueryResultModel {
        rows: q.rows,
        affected_row_count: q.affected_row_count,
    });
}

} // verus!
