//! The canonical data model: one cell's value, the logical column types, and
//! the column descriptor shared by every backend.

use vstd::prelude::*;

verus! {

use vstd::std_specs::cmp::PartialEqSpec;

/// The canonical logical type a column may report. The first group is shared
/// by every engine; the second group holds the refinements of engines with a
/// richer native catalog (integer widths, network addresses, UUID, JSON
/// flavours). `UNKNOWN` is the fallback for any native tag a mapper does not
/// recognize: mapping degrades, it never fails.
#[derive(Clone, Copy, Debug, PartialEq, Eq, Structural)]
#[allow(non_camel_case_types)]
pub enum ColumnType {
    NULL,
    DECIMAL,
    /// Collective 64-bit integer category for the narrower native widths.
    INT,
    FLOAT,
    BIT,
    DOUBLE,
    STRING,
    VARCHAR,
    TIMESTAMP,
    DATE,
    TIME,
    YEAR,
    DATETIME,
    JSON,
    ENUM,
    SET,
    BLOB,
    GEOMETRY,
    UNKNOWN,
    BOOL,
    INT2,
    INT4,
    INT8,
    FLOAT4,
    FLOAT8,
    NUMERIC,
    TIMESTAMPTZ,
    TIMETZ,
    INTERVAL,
    TEXT,
    CHAR,
    BYTEA,
    UUID,
    JSONB,
    XML,
    OID,
    CIDR,
    INET,
    MACADDR,
    VARBIT,
}

/// One cell's data, backend-independent. Exactly one variant is populated.
///
/// `Float` and `Double` carry IEEE-754 bit patterns (`u32`/`u64`): the
/// verified core computes on integers only, and the unverified edge converts
/// a native float to its bits on the way in and back on the way out.
/// `Date` fields are year, month, day, hour, minutes, seconds, microseconds;
/// `Time` fields are is-negative, days, hours, minutes, seconds, microseconds.
/// Both are fixed-width: a pure date has zero time fields.
#[derive(Debug, Clone)]
pub enum Value {
    NULL,
    Bytes(Vec<u8>),
    String(String),
    Bool(bool),
    Int(i64),
    UInt(u64),
    Float(u32),
    Double(u64),
    Date(u16, u8, u8, u8, u8, u8, u32),
    Time(bool, u32, u8, u8, u8, u32),
}

/// The mathematical model of a [`Value`]: byte strings become sequences,
/// text becomes a sequence of characters, scalars stay themselves.
pub enum ValueModel {
    Null,
    Bytes(Seq<u8>),
    Text(Seq<char>),
    Bool(bool),
    Int(i64),
    UInt(u64),
    Float(u32),
    Double(u64),
    Date(u16, u8, u8, u8, u8, u8, u32),
    Time(bool, u32, u8, u8, u8, u32),
}

impl View for Value {
    type V = ValueModel;

    open spec fn view(&self) -> ValueModel {
        match self {
            Value::NULL => ValueModel::Null,
            Value::Bytes(b) => ValueModel::Bytes(b@),
            Value::String(s) => ValueModel::Text(s@),
            Value::Bool(b) => ValueModel::Bool(*b),
            Value::Int(n) => ValueModel::Int(*n),
            Value::UInt(n) => ValueModel::UInt(*n),
            Value::Float(bits) => ValueModel::Float(*bits),
            Value::Double(bits) => ValueModel::Double(*bits),
            Value::Date(y, mo, d, h, mi, s, us) => ValueModel::Date(*y, *mo, *d, *h, *mi, *s, *us),
            Value::Time(neg, d, h, mi, s, us) => ValueModel::Time(*neg, *d, *h, *mi, *s, *us),
        }
    }
}

impl DeepView for Value {
    type V = ValueModel;

    open spec fn deep_view(&self) -> ValueModel {
        self.view()
    }
}

impl PartialEq for Value {
    /// Structural equality: same variant and same payload.
    fn eq(&self, other: &Value) -> (r: bool) {
        match (self, other) {
            (Value::NULL, Value::NULL) => {
                proof {
                    assert(self@ == other@);
                }
                true
            },
            (Value::Bytes(a), Value::Bytes(b)) => {
                let r = *a == *b;
                proof {
                    if r {
                        assert(a@ =~= b@);
                    } else if a@ == b@ {
                        assert(a.eq_spec(b));
                    }
                    assert(r == (self@ == other@));
                }
                r
            },
            (Value::String(a), Value::String(b)) => {
                let r = *a == *b;
                proof {
                    assert(r == (self@ == other@));
                }
                r
            },
            (Value::Bool(a), Value::Bool(b)) => {
                let r = *a == *b;
                proof {
                    assert(r == (self@ == other@));
                }
                r
            },
            (Value::Int(a), Value::Int(b)) => {
                let r = *a == *b;
                proof {
                    assert(r == (self@ == other@));
                }
                r
            },
            (Value::UInt(a), Value::UInt(b)) => {
                let r = *a == *b;
                proof {
                    assert(r == (self@ == other@));
                }
                r
            },
            (Value::Float(a), Value::Float(b)) => {
                let r = *a == *b;
                proof {
                    assert(r == (self@ == other@));
                }
                r
            },
            (Value::Double(a), Value::Double(b)) => {
                let r = *a == *b;
                proof {
                    assert(r == (self@ == other@));
                }
                r
            },
            (
                Value::Date(y1, mo1, d1, h1, mi1, s1, us1),
                Value::Date(y2, mo2, d2, h2, mi2, s2, us2),
            ) => {
                let r = *y1 == *y2 && *mo1 == *mo2 && *d1 == *d2 && *h1 == *h2 && *mi1 == *mi2
                    && *s1 == *s2 && *us1 == *us2;
                proof {
                    assert(r == (self@ == other@));
                }
                r
            },
            (
                Value::Time(n1, d1, h1, mi1, s1, us1),
                Value::Time(n2, d2, h2, mi2, s2, us2),
            ) => {
                let r = *n1 == *n2 && *d1 == *d2 && *h1 == *h2 && *mi1 == *mi2 && *s1 == *s2
                    && *us1 == *us2;
                proof {
                    assert(r == (self@ == other@));
                }
                r
            },
            _ => {
                proof {
                    assert(self@ != other@);
                }
                false
            },
        }
    }
}

impl vstd::std_specs::cmp::PartialEqSpecImpl for Value {
    open spec fn obeys_eq_spec() -> bool {
        true
    }

    open spec fn eq_spec(&self, other: &Value) -> bool {
        self@ == other@
    }
}

/// A column descriptor: its result-set name and its canonical logical type.
/// Immutable once a result is produced.
#[derive(Debug, Clone)]
pub struct Column {
    pub name: String,
    pub column_type: ColumnType,
}

/// The mathematical model of a [`Column`].
pub struct ColumnModel {
    pub name: Seq<char>,
    pub column_type: ColumnType,
}

impl View for Column {
    type V = ColumnModel;

    open spec fn view(&self) -> ColumnModel {
        ColumnModel { name: self.name@, column_type: self.column_type }
    }
}

impl DeepView for Column {
    type V = ColumnModel;

    open spec fn deep_view(&self) -> ColumnModel {
        self.view()
    }
}

impl PartialEq for Column {
    fn eq(&self, other: &Column) -> (r: bool) {
        self.name == other.name && self.column_type == other.column_type
    }
}

impl vstd::std_specs::cmp::PartialEqSpecImpl for Column {
    open spec fn obeys_eq_spec() -> bool {
        true
    }

    open spec fn eq_spec(&self, other: &Column) -> bool {
        self@ == other@
    }
}

} // verus!
