use std::sync::Arc;

use rdbc2::dbc;
use rdbc2::dbc::Column;
use rdbc2::dbc::ColumnType;
use rdbc2::dbc::Row;
use rdbc2::dbc::Value;

#[test]
fn test_parameter_substitution_quotes_each_placeholder() {
    let rewritten =
        dbc::substitute_params("UPDATE t SET name = ? WHERE id = ?", &["updated", "1"]);
    assert_eq!(rewritten, "UPDATE t SET name = 'updated' WHERE id = '1'");
}

#[test]
fn test_parameter_substitution_keeps_prequoted_params_verbatim() {
    let rewritten = dbc::substitute_params("SELECT * FROM t WHERE a = ?", &["'already'"]);
    assert_eq!(rewritten, "SELECT * FROM t WHERE a = 'already'");
}

#[test]
fn test_parameter_substitution_leaves_extra_placeholders() {
    let rewritten = dbc::substitute_params("? and ? and ?", &["x"]);
    assert_eq!(rewritten, "'x' and ? and ?");
}

#[test]
fn test_parameter_substitution_ignores_extra_params() {
    let rewritten = dbc::substitute_params("no placeholder", &["x", "y"]);
    assert_eq!(rewritten, "no placeholder");
}

#[test]
fn test_parameter_substitution_rescans_inserted_text() {
    // A parameter that itself holds a `?` becomes a candidate for the next
    // round: the rewrite is a plain left-to-right first-occurrence loop.
    let rewritten = dbc::substitute_params("a = ?", &["x?y", "z"]);
    assert_eq!(rewritten, "a = 'x'z'y'");
}

#[test]
fn test_unsupported_scheme_is_rejected() {
    let result = dbc::Database::new("oracle://host/db");
    let message = match result {
        Err(dbc::Error::UnsupportedSchemeError) => dbc::Error::UnsupportedSchemeError.message(),
        Err(_) => panic!("wrong error kind"),
        Ok(_) => panic!("an unsupported scheme must not open"),
    };
    assert_eq!(message, "unsupported database scheme");
}

#[test]
fn test_mysql_type_codes_map_to_canonical_types() {
    // The narrow integer widths collapse into INT.
    assert_eq!(dbc::map_mysql_column_type(1), ColumnType::INT);
    assert_eq!(dbc::map_mysql_column_type(2), ColumnType::INT);
    assert_eq!(dbc::map_mysql_column_type(3), ColumnType::INT);
    assert_eq!(dbc::map_mysql_column_type(8), ColumnType::INT);
    assert_eq!(dbc::map_mysql_column_type(9), ColumnType::INT);
    assert_eq!(dbc::map_mysql_column_type(13), ColumnType::INT);
    // Both decimal codes map to DECIMAL.
    assert_eq!(dbc::map_mysql_column_type(0), ColumnType::DECIMAL);
    assert_eq!(dbc::map_mysql_column_type(246), ColumnType::DECIMAL);
    // All string-ish codes map to VARCHAR.
    assert_eq!(dbc::map_mysql_column_type(15), ColumnType::VARCHAR);
    assert_eq!(dbc::map_mysql_column_type(253), ColumnType::VARCHAR);
    assert_eq!(dbc::map_mysql_column_type(254), ColumnType::VARCHAR);
    // The blob widths collapse into BLOB.
    assert_eq!(dbc::map_mysql_column_type(249), ColumnType::BLOB);
    assert_eq!(dbc::map_mysql_column_type(250), ColumnType::BLOB);
    assert_eq!(dbc::map_mysql_column_type(251), ColumnType::BLOB);
    assert_eq!(dbc::map_mysql_column_type(252), ColumnType::BLOB);
    // Date and time codes keep DATETIME and TIMESTAMP apart.
    assert_eq!(dbc::map_mysql_column_type(7), ColumnType::TIMESTAMP);
    assert_eq!(dbc::map_mysql_column_type(17), ColumnType::TIMESTAMP);
    assert_eq!(dbc::map_mysql_column_type(12), ColumnType::DATETIME);
    assert_eq!(dbc::map_mysql_column_type(18), ColumnType::DATETIME);
    assert_eq!(dbc::map_mysql_column_type(10), ColumnType::DATE);
    assert_eq!(dbc::map_mysql_column_type(11), ColumnType::TIME);
    assert_eq!(dbc::map_mysql_column_type(4), ColumnType::FLOAT);
    assert_eq!(dbc::map_mysql_column_type(5), ColumnType::DOUBLE);
    assert_eq!(dbc::map_mysql_column_type(16), ColumnType::BIT);
    assert_eq!(dbc::map_mysql_column_type(245), ColumnType::JSON);
    assert_eq!(dbc::map_mysql_column_type(247), ColumnType::ENUM);
    assert_eq!(dbc::map_mysql_column_type(248), ColumnType::SET);
    assert_eq!(dbc::map_mysql_column_type(255), ColumnType::GEOMETRY);
    // An unrecognized code degrades to UNKNOWN, it never fails.
    assert_eq!(dbc::map_mysql_column_type(20), ColumnType::UNKNOWN);
    assert_eq!(dbc::map_mysql_column_type(242), ColumnType::UNKNOWN);
}

#[test]
fn test_pg_oids_map_to_canonical_types() {
    assert_eq!(dbc::map_pg_column_type(16), ColumnType::BOOL);
    assert_eq!(dbc::map_pg_column_type(17), ColumnType::BYTEA);
    assert_eq!(dbc::map_pg_column_type(18), ColumnType::CHAR);
    assert_eq!(dbc::map_pg_column_type(20), ColumnType::INT8);
    assert_eq!(dbc::map_pg_column_type(21), ColumnType::INT2);
    assert_eq!(dbc::map_pg_column_type(23), ColumnType::INT4);
    assert_eq!(dbc::map_pg_column_type(25), ColumnType::TEXT);
    assert_eq!(dbc::map_pg_column_type(26), ColumnType::OID);
    assert_eq!(dbc::map_pg_column_type(114), ColumnType::JSON);
    assert_eq!(dbc::map_pg_column_type(142), ColumnType::XML);
    assert_eq!(dbc::map_pg_column_type(650), ColumnType::CIDR);
    assert_eq!(dbc::map_pg_column_type(700), ColumnType::FLOAT4);
    assert_eq!(dbc::map_pg_column_type(701), ColumnType::FLOAT8);
    assert_eq!(dbc::map_pg_column_type(829), ColumnType::MACADDR);
    assert_eq!(dbc::map_pg_column_type(869), ColumnType::INET);
    assert_eq!(dbc::map_pg_column_type(1043), ColumnType::VARCHAR);
    assert_eq!(dbc::map_pg_column_type(1082), ColumnType::DATE);
    assert_eq!(dbc::map_pg_column_type(1083), ColumnType::TIME);
    assert_eq!(dbc::map_pg_column_type(1114), ColumnType::TIMESTAMP);
    assert_eq!(dbc::map_pg_column_type(1184), ColumnType::TIMESTAMPTZ);
    assert_eq!(dbc::map_pg_column_type(1186), ColumnType::INTERVAL);
    assert_eq!(dbc::map_pg_column_type(1266), ColumnType::TIMETZ);
    assert_eq!(dbc::map_pg_column_type(1560), ColumnType::BIT);
    assert_eq!(dbc::map_pg_column_type(1562), ColumnType::VARBIT);
    assert_eq!(dbc::map_pg_column_type(1700), ColumnType::NUMERIC);
    assert_eq!(dbc::map_pg_column_type(2950), ColumnType::UUID);
    assert_eq!(dbc::map_pg_column_type(3802), ColumnType::JSONB);
    // Anything outside the enumerated set maps to UNKNOWN.
    assert_eq!(dbc::map_pg_column_type(0), ColumnType::UNKNOWN);
    assert_eq!(dbc::map_pg_column_type(999999), ColumnType::UNKNOWN);
}

#[test]
fn test_sqlite_declared_types_map_best_effort() {
    assert_eq!(
        dbc::map_sqlite_column_type(&Some("INTEGER".to_owned())),
        ColumnType::INT
    );
    assert_eq!(
        dbc::map_sqlite_column_type(&Some("REAL".to_owned())),
        ColumnType::DOUBLE
    );
    assert_eq!(
        dbc::map_sqlite_column_type(&Some("TEXT".to_owned())),
        ColumnType::VARCHAR
    );
    assert_eq!(
        dbc::map_sqlite_column_type(&Some("BLOB".to_owned())),
        ColumnType::BLOB
    );
    assert_eq!(
        dbc::map_sqlite_column_type(&Some("FANCY".to_owned())),
        ColumnType::UNKNOWN
    );
    assert_eq!(dbc::map_sqlite_column_type(&None), ColumnType::UNKNOWN);
}

#[test]
fn test_sqlite_cells_map_to_canonical_values() {
    assert_eq!(dbc::map_sqlite_cell(dbc::SqliteCell::Null), Value::NULL);
    assert_eq!(dbc::map_sqlite_cell(dbc::SqliteCell::Int(-7)), Value::Int(-7));
    assert_eq!(
        dbc::map_sqlite_cell(dbc::SqliteCell::RealBits(2.5f64.to_bits())),
        Value::Double(2.5f64.to_bits())
    );
    assert_eq!(
        dbc::map_sqlite_cell(dbc::SqliteCell::Text(b"abc".to_vec())),
        Value::Bytes(b"abc".to_vec())
    );
    assert_eq!(
        dbc::map_sqlite_cell(dbc::SqliteCell::Blob(vec![1, 2])),
        Value::Bytes(vec![1, 2])
    );
}

#[test]
fn test_mysql_cells_map_to_canonical_values() {
    assert_eq!(dbc::map_mysql_cell(dbc::MysqlCell::Null), Value::NULL);
    assert_eq!(
        dbc::map_mysql_cell(dbc::MysqlCell::Bytes(b"abc".to_vec())),
        Value::Bytes(b"abc".to_vec())
    );
    assert_eq!(dbc::map_mysql_cell(dbc::MysqlCell::Int(-9)), Value::Int(-9));
    assert_eq!(dbc::map_mysql_cell(dbc::MysqlCell::UInt(9)), Value::UInt(9));
    assert_eq!(
        dbc::map_mysql_cell(dbc::MysqlCell::FloatBits(1.5f32.to_bits())),
        Value::Float(1.5f32.to_bits())
    );
    assert_eq!(
        dbc::map_mysql_cell(dbc::MysqlCell::DoubleBits(2.5f64.to_bits())),
        Value::Double(2.5f64.to_bits())
    );
    assert_eq!(
        dbc::map_mysql_cell(dbc::MysqlCell::Date(2024, 1, 2, 3, 4, 5, 6)),
        Value::Date(2024, 1, 2, 3, 4, 5, 6)
    );
    assert_eq!(
        dbc::map_mysql_cell(dbc::MysqlCell::Time(false, 1, 2, 3, 4, 5)),
        Value::Time(false, 1, 2, 3, 4, 5)
    );
}

#[test]
fn test_pg_cells_map_to_canonical_values() {
    assert_eq!(dbc::map_pg_cell(dbc::PgCell::Null), Value::NULL);
    assert_eq!(dbc::map_pg_cell(dbc::PgCell::Int64(-8)), Value::Int(-8));
    assert_eq!(dbc::map_pg_cell(dbc::PgCell::Int32(-4)), Value::Int(-4));
    assert_eq!(dbc::map_pg_cell(dbc::PgCell::Int16(-2)), Value::Int(-2));
    assert_eq!(dbc::map_pg_cell(dbc::PgCell::Bool(true)), Value::Bool(true));
    assert_eq!(
        dbc::map_pg_cell(dbc::PgCell::Text(b"abc".to_vec())),
        Value::Bytes(b"abc".to_vec())
    );
    assert_eq!(
        dbc::map_pg_cell(dbc::PgCell::Bytes(vec![1, 2])),
        Value::Bytes(vec![1, 2])
    );
    assert_eq!(dbc::map_pg_cell(dbc::PgCell::Oid(7)), Value::UInt(7));
}

#[test]
fn test_row_accessors() {
    let columns = Arc::new(vec![
        Column { name: "id".to_owned(), column_type: ColumnType::INT },
        Column { name: "name".to_owned(), column_type: ColumnType::VARCHAR },
    ]);
    let row = Row::new(
        vec![Value::Int(5), Value::Bytes(b"x".to_vec())],
        Arc::clone(&columns),
    );
    assert_eq!(row.get_value(0), Some(&Value::Int(5)));
    assert_eq!(row.get_value(1), Some(&Value::Bytes(b"x".to_vec())));
    assert_eq!(row.get_value(2), None);
    assert_eq!(row.get_column(0).unwrap().name, "id");
    assert_eq!(row.get_column(1).unwrap().column_type, ColumnType::VARCHAR);
    assert!(row.get_column(2).is_none());
    assert_eq!(row.get_value_by_name("id"), Some(&Value::Int(5)));
    assert_eq!(row.get_value_by_name("name"), Some(&Value::Bytes(b"x".to_vec())));
    assert_eq!(row.get_value_by_name("missing"), None);
    assert_eq!(row.get_column_by_name("name").unwrap().column_type, ColumnType::VARCHAR);
    assert!(row.get_column_by_name("missing").is_none());
}

#[test]
fn test_value_equality_is_structural() {
    assert_eq!(Value::NULL, Value::NULL);
    assert_ne!(Value::NULL, Value::Int(0));
    assert_ne!(Value::Int(0), Value::UInt(0));
    assert_eq!(Value::Bytes(vec![1, 2]), Value::Bytes(vec![1, 2]));
    assert_ne!(Value::Bytes(vec![1, 2]), Value::Bytes(vec![1, 3]));
    assert_eq!(Value::String("a".to_owned()), Value::String("a".to_owned()));
    assert_ne!(Value::String("a".to_owned()), Value::String("b".to_owned()));
    assert_eq!(
        Value::Date(2024, 1, 2, 3, 4, 5, 6),
        Value::Date(2024, 1, 2, 3, 4, 5, 6)
    );
    assert_ne!(
        Value::Date(2024, 1, 2, 3, 4, 5, 6),
        Value::Date(2024, 1, 2, 3, 4, 5, 7)
    );
    assert_eq!(Value::Time(false, 1, 2, 3, 4, 5), Value::Time(false, 1, 2, 3, 4, 5));
    assert_ne!(Value::Time(false, 1, 2, 3, 4, 5), Value::Time(true, 1, 2, 3, 4, 5));
}
