use sqlite_reader::error::Error;
use sqlite_reader::schema::{SqlType, TableSchemaParser};
use sqlite_reader::sql::{parse_sql, Statement};

#[test]
fn test_simple_create_table() {
    let sql = "CREATE TABLE apples (id INTEGER PRIMARY KEY, name TEXT)";
    let result = TableSchemaParser::parse_create_table_sql(sql).unwrap();

    assert_eq!(result.0, "apples");
    assert_eq!(result.1.len(), 2);

    let id_col = &result.1[0];
    assert_eq!(id_col.name, "id");
    assert_eq!(id_col.sql_type, SqlType::Integer);
    assert_eq!(id_col.position, 0);
    assert!(id_col.is_primary_key);

    let name_col = &result.1[1];
    assert_eq!(name_col.name, "name");
    assert_eq!(name_col.sql_type, SqlType::Text);
    assert_eq!(name_col.position, 1);
    assert!(!name_col.is_primary_key);
}

#[test]
fn test_create_table_with_autoincrement() {
    let sql = "CREATE TABLE apples (id INTEGER PRIMARY KEY AUTOINCREMENT, name TEXT, color TEXT)";
    let result = TableSchemaParser::parse_create_table_sql(sql).unwrap();

    assert_eq!(result.0, "apples");
    assert_eq!(result.1.len(), 3);

    let id_col = result.1.iter().find(|col| col.name == "id").unwrap();
    let name_col = result.1.iter().find(|col| col.name == "name").unwrap();
    let color_col = result.1.iter().find(|col| col.name == "color").unwrap();

    assert!(id_col.is_primary_key);
    assert_eq!(name_col.position, 1);
    assert_eq!(color_col.position, 2);
}

#[test]
fn test_multiline_create_table() {
    let sql = r#"CREATE TABLE apples
        (
            id INTEGER PRIMARY KEY AUTOINCREMENT,
            name TEXT,
            color TEXT
        )"#;

    let result = TableSchemaParser::parse_create_table_sql(sql).unwrap();
    assert_eq!(result.0, "apples");
    assert_eq!(result.1.len(), 3);
}

#[test]
fn create_table_keeps_constraints_out_of_types() {
    let sql = "create table t(a text not null, b integer, c real, d blob, e numeric)";
    let (name, cols) = TableSchemaParser::parse_create_table_sql(sql).unwrap();
    assert_eq!(name, "t");
    let types: Vec<SqlType> = cols.iter().map(|c| c.sql_type.clone()).collect();
    assert_eq!(
        types,
        vec![SqlType::Text, SqlType::Integer, SqlType::Real, SqlType::Blob, SqlType::Numeric]
    );
    assert!(cols.iter().all(|c| !c.is_primary_key));
}

#[test]
fn create_table_rejects_other_text() {
    let bad = [
        "CREATE VIEW v AS SELECT 1",
        "CREATE TABLE t (a VARCHAR(10))",
        "CREATE TABLE t (a TEXT",
        "CREATE TABLE sqlite_sequence(name,seq)",
        "CREATETABLE t (a TEXT)",
        "CREATE\u{a0}TABLE t (a TEXT)",
    ];
    for sql in bad {
        assert!(matches!(
            TableSchemaParser::parse_create_table_sql(sql),
            Err(Error::InvalidCreateTable)
        ));
    }
}

#[test]
fn sql_type_names_in_any_case() {
    assert_eq!(SqlType::from_str("integer").unwrap(), SqlType::Integer);
    assert_eq!(SqlType::from_str("Text").unwrap(), SqlType::Text);
    assert_eq!(SqlType::from_str("REAL").unwrap(), SqlType::Real);
    assert_eq!(SqlType::from_str("blob").unwrap(), SqlType::Blob);
    assert_eq!(SqlType::from_str("numeric").unwrap(), SqlType::Numeric);
    assert_eq!(SqlType::from_str("\u{131}nteger").unwrap(), SqlType::Integer);
    assert!(matches!(SqlType::from_str("int"), Err(Error::UnsupportedSqlType)));
    assert_eq!(SqlType::from_upper("NUMERIC").unwrap(), SqlType::Numeric);
    assert!(matches!(SqlType::from_upper("numeric"), Err(Error::UnsupportedSqlType)));
    assert!(matches!(SqlType::from_str("integers"), Err(Error::UnsupportedSqlType)));
}

#[test]
fn test_select_count_parsing() {
    let query = "SELECT COUNT(*) FROM apples";
    let parsed = parse_sql(query).unwrap();
    assert_eq!(
        parsed,
        Statement::SelectStmt {
            count_only: true,
            columns: vec![],
            table_name: "apples".to_string()
        }
    );
}

#[test]
fn test_case_insensitive_parsing() {
    let query = "select count(*) from apples";
    let parsed = parse_sql(query).unwrap();
    assert_eq!(
        parsed,
        Statement::SelectStmt {
            count_only: true,
            columns: vec![],
            table_name: "apples".to_string()
        }
    );
}

#[test]
fn test_select_single_column() {
    let query = "SELECT name FROM apples";
    let parsed = parse_sql(query).unwrap();
    assert_eq!(
        parsed,
        Statement::SelectStmt {
            count_only: false,
            columns: vec!["name".to_string()],
            table_name: "apples".to_string()
        }
    );
}

#[test]
fn test_select_multiple_columns() {
    let query = "SELECT name, color FROM apples";
    let parsed = parse_sql(query).unwrap();
    assert_eq!(
        parsed,
        Statement::SelectStmt {
            count_only: false,
            columns: vec!["name".to_string(), "color".to_string()],
            table_name: "apples".to_string()
        }
    );
}

#[test]
fn test_invalid_query() {
    let query = "SELECT * FROM apples";
    assert!(parse_sql(query).is_err());
}

#[test]
fn statement_grammar_edges() {
    let parsed = parse_sql("  select  count ( * )  from  t_1  ").unwrap();
    assert_eq!(
        parsed,
        Statement::SelectStmt { count_only: true, columns: vec![], table_name: "t_1".to_string() }
    );
    let parsed = parse_sql("SELECT count FROM t").unwrap();
    assert_eq!(
        parsed,
        Statement::SelectStmt {
            count_only: false,
            columns: vec!["count".to_string()],
            table_name: "t".to_string()
        }
    );
    assert!(matches!(parse_sql("SELECT a FROM t WHERE a = 1"), Err(Error::InvalidStatement)));
    assert!(matches!(parse_sql("SELECT a,FROM t"), Err(Error::InvalidStatement)));
    assert!(matches!(parse_sql("SELECT 1a FROM t"), Err(Error::InvalidStatement)));
    assert!(matches!(parse_sql("DELETE FROM t"), Err(Error::InvalidStatement)));
    assert!(matches!(parse_sql(""), Err(Error::InvalidStatement)));
    // Any Unicode white space around the statement, only ASCII between tokens.
    assert!(parse_sql("\u{a0}SELECT a FROM t\u{2003}").is_ok());
    assert!(matches!(parse_sql("SELECT\u{a0}a FROM t"), Err(Error::InvalidStatement)));
    assert!(matches!(parse_sql("SELECT a\u{b}FROM t"), Err(Error::InvalidStatement)));
    assert!(parse_sql("SELECT\ta\r\nFROM\nt").is_ok());
}
