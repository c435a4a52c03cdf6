use rdbc2::dbc;

type Error = dbc::Error;

const SQLITE_DATABASE_URL: &str = "sqlite://:memory:";

fn _prepare_sqlite_database() -> Result<dbc::Database, Error> {
    let mut database = dbc::Database::new(SQLITE_DATABASE_URL)?;

    let drop_table_query = "DROP TABLE IF EXISTS test_table";
    database.execute_query(drop_table_query)?;

    // Create a test table with two rows
    let create_table_query = "CREATE TABLE test_table (id INTEGER PRIMARY KEY, name TEXT NOT NULL)";
    database.execute_query(create_table_query)?;

    Ok(database)
}

fn _cleanup_database(mut database: dbc::Database) -> Result<(), Error> {
    let query = "DROP TABLE IF EXISTS test_table";
    database.execute_query(query)?;

    Ok(())
}

fn test_simple_query(mut database: dbc::Database) -> Result<(), Error> {
    // Create a test table with two rows
    let insert_query = "INSERT INTO test_table (name) VALUES ('test1'), ('test2')";
    database.execute_query(insert_query)?;

    // Select all rows from test_table
    let select_query = "SELECT * FROM test_table";
    let result = database.execute_query(select_query)?;
    assert_eq!(result.rows.len(), 2);

    // Verify the data returned by the query
    let first_row = &result.rows[0];
    let second_row = &result.rows[1];
    assert_eq!(
        first_row.get_value_by_name("name"),
        Some(&dbc::Value::Bytes("test1".to_owned().into_bytes()))
    );
    assert_eq!(
        second_row.get_value_by_name("name"),
        Some(&dbc::Value::Bytes("test2".to_owned().into_bytes()))
    );

    // Update the name of the first row to "updated"
    let update_query = "UPDATE test_table SET name = ? WHERE id = ?";
    let result = database.execute_query_with_params(update_query, &["updated", "1"])?;
    assert_eq!(result.affected_row_count, 1);

    // Select the first row from test_table where the name is "updated"
    let select_query = "SELECT * FROM test_table WHERE name = ?";
    let result = database.execute_query_with_params(select_query, &["updated"])?;
    assert_eq!(result.rows.len(), 1);

    // Verify the data returned by the query
    let first_row = &result.rows[0];
    assert_eq!(
        first_row.get_value_by_name("name"),
        Some(&dbc::Value::Bytes("updated".to_owned().into_bytes()))
    );

    _cleanup_database(database)?;

    Ok(())
}

fn test_query_with_params_and_serialize(mut database: dbc::Database) -> Result<(), Error> {
    // Insert two rows into test_table
    let insert_query = "INSERT INTO test_table (name) VALUES (?)";
    let result = database.execute_query_with_params(insert_query, &["test1"])?;
    assert_eq!(result.affected_row_count, 1);
    let result = database.execute_query_with_params(insert_query, &["test2"])?;
    assert_eq!(result.affected_row_count, 1);

    // Update the name of the first row to "updated"
    let update_query = "UPDATE test_table SET name = ? WHERE id = ?";
    let result = database.execute_query_with_params(update_query, &["updated", "1"])?;
    assert_eq!(result.affected_row_count, 1);

    // Select the first row from test_table where the id is 1
    let select_query = "SELECT * FROM test_table WHERE id = ?";
    let result = database.execute_query_with_params(select_query, &["1"])?;

    // Serialize the result
    let serialized = result.serialize();

    // Verify the data returned by the query
    let expected_result = r#"{"rows":[{"values":[{"Int":1},{"Bytes":"dXBkYXRlZA"}],"columns":[{"name":"id","column_type":"INT"},{"name":"name","column_type":"VARCHAR"}]}],"affected_row_count":0}"#;
    assert_eq!(serialized, expected_result.as_bytes().to_vec());

    _cleanup_database(database)?;

    Ok(())
}

#[test]
fn test_sqlite_simple_query() -> Result<(), Error> {
    let database = _prepare_sqlite_database()?;
    test_simple_query(database)
}

#[test]
fn test_sqlite_query_with_params_and_serialize() -> Result<(), Error> {
    let database = _prepare_sqlite_database()?;
    test_query_with_params_and_serialize(database)
}

#[test]
fn test_sqlite_select_one_returns_canonical_integer() -> Result<(), Error> {
    let mut database = dbc::Database::new(SQLITE_DATABASE_URL)?;
    let result = database.execute_query("SELECT 1")?;
    assert_eq!(result.rows.len(), 1);
    let row = &result.rows[0];
    assert_eq!(row.get_value(0), Some(&dbc::Value::Int(1)));
    assert_eq!(row.get_value(1), None);
    Ok(())
}

#[test]
fn test_sqlite_null_cell_decodes_to_null() -> Result<(), Error> {
    let mut database = dbc::Database::new(SQLITE_DATABASE_URL)?;
    database.execute_query("CREATE TABLE t (id INTEGER PRIMARY KEY, note TEXT)")?;
    database.execute_query("INSERT INTO t (id, note) VALUES (1, NULL)")?;
    database.execute_query("INSERT INTO t (id, note) VALUES (2, 'text')")?;
    let result = database.execute_query("SELECT * FROM t")?;
    assert_eq!(result.rows.len(), 2);
    assert_eq!(
        result.rows[0].get_value_by_name("note"),
        Some(&dbc::Value::NULL)
    );
    assert_eq!(
        result.rows[1].get_value_by_name("note"),
        Some(&dbc::Value::Bytes(b"text".to_vec()))
    );
    Ok(())
}

#[test]
fn test_sqlite_in_memory_stores_are_independent() -> Result<(), Error> {
    let mut first = dbc::Database::new(SQLITE_DATABASE_URL)?;
    let mut second = dbc::Database::new(SQLITE_DATABASE_URL)?;
    first.execute_query("CREATE TABLE only_here (id INTEGER PRIMARY KEY)")?;
    first.execute_query("INSERT INTO only_here (id) VALUES (7)")?;
    // The table exists in the first store ...
    let result = first.execute_query("SELECT * FROM only_here")?;
    assert_eq!(result.rows.len(), 1);
    // ... and is absent in the second.
    let absent = second.execute_query("SELECT * FROM only_here");
    assert!(matches!(absent, Err(dbc::Error::BackendError(_))));
    Ok(())
}

#[test]
fn test_sqlite_schema_is_shared_by_all_rows() -> Result<(), Error> {
    let database = _prepare_sqlite_database()?;
    let mut database = database;
    database.execute_query("INSERT INTO test_table (name) VALUES ('a'), ('b'), ('c')")?;
    let result = database.execute_query("SELECT * FROM test_table")?;
    assert_eq!(result.rows.len(), 3);
    for row in &result.rows {
        assert_eq!(row.get_column(0).unwrap().name, "id");
        assert_eq!(row.get_column(1).unwrap().name, "name");
        assert_eq!(row.get_column(2).map(|c| c.name.clone()), None);
        assert!(row.get_value(2).is_none());
    }
    Ok(())
}

#[test]
fn test_sqlite_bad_sql_is_a_backend_error() -> Result<(), Error> {
    let mut database = dbc::Database::new(SQLITE_DATABASE_URL)?;
    let result = database.execute_query("THIS IS NOT SQL");
    assert!(matches!(result, Err(dbc::Error::BackendError(_))));
    Ok(())
}

#[test]
fn test_sqlite_undeclared_column_type_is_unknown() -> Result<(), Error> {
    let mut database = dbc::Database::new(SQLITE_DATABASE_URL)?;
    // An expression column has no declared type.
    let result = database.execute_query("SELECT 1 + 1")?;
    assert_eq!(result.rows.len(), 1);
    let column = result.rows[0].get_column(0).unwrap();
    assert_eq!(column.column_type, dbc::ColumnType::UNKNOWN);
    assert_eq!(result.rows[0].get_value(0), Some(&dbc::Value::Int(2)));
    Ok(())
}

#[test]
fn test_sqlite_real_cell_keeps_its_bit_pattern() -> Result<(), Error> {
    let mut database = dbc::Database::new(SQLITE_DATABASE_URL)?;
    database.execute_query("CREATE TABLE r (x REAL)")?;
    database.execute_query("INSERT INTO r (x) VALUES (1.5)")?;
    let result = database.execute_query("SELECT * FROM r")?;
    assert_eq!(result.rows.len(), 1);
    assert_eq!(
        result.rows[0].get_value(0),
        Some(&dbc::Value::Double(1.5f64.to_bits()))
    );
    let column = result.rows[0].get_column(0).unwrap();
    assert_eq!(column.column_type, dbc::ColumnType::DOUBLE);
    Ok(())
}
