use std::sync::Arc;

use rdbc2::dbc;
use rdbc2::dbc::Column;
use rdbc2::dbc::ColumnType;
use rdbc2::dbc::QueryResult;
use rdbc2::dbc::Row;
use rdbc2::dbc::Value;

fn sample_result() -> QueryResult {
    let columns = Arc::new(vec![
        Column { name: "n".to_owned(), column_type: ColumnType::NULL },
        Column { name: "b".to_owned(), column_type: ColumnType::BLOB },
        Column { name: "s".to_owned(), column_type: ColumnType::STRING },
        Column { name: "flag".to_owned(), column_type: ColumnType::BOOL },
        Column { name: "i".to_owned(), column_type: ColumnType::INT },
        Column { name: "u".to_owned(), column_type: ColumnType::INT8 },
        Column { name: "f".to_owned(), column_type: ColumnType::FLOAT },
        Column { name: "d".to_owned(), column_type: ColumnType::DOUBLE },
        Column { name: "born".to_owned(), column_type: ColumnType::DATE },
        Column { name: "lap".to_owned(), column_type: ColumnType::TIME },
    ]);
    let values = vec![
        Value::NULL,
        Value::Bytes(vec![0u8, 1, 2, 254, 255]),
        Value::String("héllo \"quoted\"\n\ttab".to_owned()),
        Value::Bool(true),
        Value::Int(-42),
        Value::UInt(18446744073709551615),
        Value::Float(1.5f32.to_bits()),
        Value::Double((-0.25f64).to_bits()),
        Value::Date(2024, 2, 29, 23, 59, 58, 999999),
        Value::Time(true, 2, 3, 4, 5, 6),
    ];
    let row = Row::new(values, Arc::clone(&columns));
    QueryResult { rows: vec![row], affected_row_count: 3 }
}

#[test]
fn test_round_trip_preserves_every_field() {
    let original = sample_result();
    let bytes = original.serialize();
    let back = QueryResult::deserialize(&bytes).unwrap();
    assert_eq!(back.affected_row_count, original.affected_row_count);
    assert_eq!(back.rows.len(), original.rows.len());
    let orig_row = &original.rows[0];
    let back_row = &back.rows[0];
    for i in 0..10 {
        assert_eq!(back_row.get_value(i), orig_row.get_value(i));
        assert_eq!(back_row.get_column(i), orig_row.get_column(i));
    }
    // Serializing again gives the very same bytes.
    assert_eq!(back.serialize(), bytes);
}

#[test]
fn test_round_trip_of_empty_result() {
    let original = QueryResult { rows: Vec::new(), affected_row_count: 0 };
    let bytes = original.serialize();
    assert_eq!(bytes, br#"{"rows":[],"affected_row_count":0}"#.to_vec());
    let back = QueryResult::deserialize(&bytes).unwrap();
    assert_eq!(back.rows.len(), 0);
    assert_eq!(back.affected_row_count, 0);
}

#[test]
fn test_serialized_form_matches_the_wire_format() {
    let columns = Arc::new(vec![
        Column { name: "id".to_owned(), column_type: ColumnType::INT },
        Column { name: "name".to_owned(), column_type: ColumnType::VARCHAR },
    ]);
    let row = Row::new(
        vec![Value::Int(1), Value::Bytes(b"updated".to_vec())],
        Arc::clone(&columns),
    );
    let result = QueryResult { rows: vec![row], affected_row_count: 0 };
    let expected = r#"{"rows":[{"values":[{"Int":1},{"Bytes":"dXBkYXRlZA"}],"columns":[{"name":"id","column_type":"INT"},{"name":"name","column_type":"VARCHAR"}]}],"affected_row_count":0}"#;
    assert_eq!(result.serialize(), expected.as_bytes().to_vec());
}

#[test]
fn test_every_column_type_round_trips() {
    let all = vec![
        ColumnType::NULL,
        ColumnType::DECIMAL,
        ColumnType::INT,
        ColumnType::FLOAT,
        ColumnType::BIT,
        ColumnType::DOUBLE,
        ColumnType::STRING,
        ColumnType::VARCHAR,
        ColumnType::TIMESTAMP,
        ColumnType::DATE,
        ColumnType::TIME,
        ColumnType::YEAR,
        ColumnType::DATETIME,
        ColumnType::JSON,
        ColumnType::ENUM,
        ColumnType::SET,
        ColumnType::BLOB,
        ColumnType::GEOMETRY,
        ColumnType::UNKNOWN,
        ColumnType::BOOL,
        ColumnType::INT2,
        ColumnType::INT4,
        ColumnType::INT8,
        ColumnType::FLOAT4,
        ColumnType::FLOAT8,
        ColumnType::NUMERIC,
        ColumnType::TIMESTAMPTZ,
        ColumnType::TIMETZ,
        ColumnType::INTERVAL,
        ColumnType::TEXT,
        ColumnType::CHAR,
        ColumnType::BYTEA,
        ColumnType::UUID,
        ColumnType::JSONB,
        ColumnType::XML,
        ColumnType::OID,
        ColumnType::CIDR,
        ColumnType::INET,
        ColumnType::MACADDR,
        ColumnType::VARBIT,
    ];
    let columns: Vec<Column> = all
        .iter()
        .enumerate()
        .map(|(i, ct)| Column { name: format!("c{}", i), column_type: *ct })
        .collect();
    let n = columns.len();
    let columns = Arc::new(columns);
    let row = Row::new(vec![Value::NULL; n], Arc::clone(&columns));
    let result = QueryResult { rows: vec![row], affected_row_count: 0 };
    let back = QueryResult::deserialize(&result.serialize()).unwrap();
    for i in 0..n {
        assert_eq!(back.rows[0].get_column(i).unwrap().column_type, all[i]);
    }
}

#[test]
fn test_serialized_scalars_take_their_tagged_forms() {
    let columns = Arc::new(vec![
        Column { name: "a".to_owned(), column_type: ColumnType::NULL },
        Column { name: "b".to_owned(), column_type: ColumnType::BOOL },
        Column { name: "c".to_owned(), column_type: ColumnType::INT },
        Column { name: "d".to_owned(), column_type: ColumnType::DATE },
        Column { name: "e".to_owned(), column_type: ColumnType::TIME },
    ]);
    let row = Row::new(
        vec![
            Value::NULL,
            Value::Bool(false),
            Value::Int(-42),
            Value::Date(2024, 2, 29, 23, 59, 58, 999999),
            Value::Time(true, 2, 3, 4, 5, 6),
        ],
        Arc::clone(&columns),
    );
    let result = QueryResult { rows: vec![row], affected_row_count: 5 };
    let expected = r#"{"rows":[{"values":["NULL",{"Bool":false},{"Int":-42},{"Date":[2024,2,29,23,59,58,999999]},{"Time":[true,2,3,4,5,6]}],"columns":[{"name":"a","column_type":"NULL"},{"name":"b","column_type":"BOOL"},{"name":"c","column_type":"INT"},{"name":"d","column_type":"DATE"},{"name":"e","column_type":"TIME"}]}],"affected_row_count":5}"#;
    assert_eq!(result.serialize(), expected.as_bytes().to_vec());
}

#[test]
fn test_deserialize_rejects_malformed_text() {
    let garbage: &[u8] = b"not a serialized result";
    assert!(matches!(
        QueryResult::deserialize(garbage),
        Err(dbc::Error::ConversionError(_))
    ));
    let truncated = &sample_result().serialize()[..10];
    assert!(matches!(
        QueryResult::deserialize(truncated),
        Err(dbc::Error::ConversionError(_))
    ));
    let mut trailing = sample_result().serialize();
    trailing.push(b' ');
    assert!(matches!(
        QueryResult::deserialize(&trailing),
        Err(dbc::Error::ConversionError(_))
    ));
}

#[test]
fn test_base64_encodes_with_standard_alphabet_and_no_padding() {
    assert_eq!(dbc::base64::serialize(b"updated"), b"dXBkYXRlZA".to_vec());
    assert_eq!(dbc::base64::serialize(b""), Vec::<u8>::new());
    assert_eq!(dbc::base64::serialize(&[251u8, 239, 190]), b"++++".to_vec());
    assert_eq!(dbc::base64::serialize(&[255u8, 255, 255]), b"////".to_vec());
}

#[test]
fn test_base64_decodes_exactly_what_it_encoded() {
    let cases: Vec<Vec<u8>> = vec![
        b"".to_vec(),
        b"f".to_vec(),
        b"fo".to_vec(),
        b"foo".to_vec(),
        b"foob".to_vec(),
        (0u8..=255).collect(),
    ];
    for case in cases {
        let encoded = dbc::base64::serialize(&case);
        assert_eq!(dbc::base64::deserialize(&encoded), Some(case));
    }
    // A padded or otherwise malformed text is rejected.
    assert_eq!(dbc::base64::deserialize(b"dXBkYXRlZA=="), None);
    assert_eq!(dbc::base64::deserialize(b"A"), None);
    assert_eq!(dbc::base64::deserialize(b"!!!!"), None);
}
