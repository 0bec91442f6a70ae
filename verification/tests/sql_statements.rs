use cdl_runner::db_client::{create_table_statement, drop_record_statement, drop_table_statement,
    insert_record_statement};
use cdl_runner::settings::DatabaseType;

#[test]
fn drop_table_text() {
    assert_eq!(drop_table_statement("requests"), "DROP TABLE IF EXISTS requests");
}

#[test]
fn create_table_rewrites_default_on_postgres() {
    let cols = vec![("default".to_owned(), "TEXT".to_owned())];
    let s = create_table_statement("t", &cols, DatabaseType::Psql);
    assert_eq!(s, "CREATE TABLE IF NOT EXISTS t (_default TEXT)");
}

#[test]
fn create_table_rewrites_generated_and_sets_charset_on_mysql() {
    let cols = vec![
        ("default".to_owned(), "LONGTEXT".to_owned()),
        ("generated".to_owned(), "LONGTEXT".to_owned()),
    ];
    let s = create_table_statement("t", &cols, DatabaseType::Mysql);
    assert_eq!(
        s,
        "CREATE TABLE IF NOT EXISTS t (_default LONGTEXT,\n_generated LONGTEXT) CHARACTER SET utf8mb4"
    );
}

#[test]
fn create_table_keeps_column_order() {
    let cols = vec![
        ("b_col".to_owned(), "INT".to_owned()),
        ("a_col".to_owned(), "TEXT".to_owned()),
    ];
    let s = create_table_statement("t", &cols, DatabaseType::Psql);
    assert_eq!(s, "CREATE TABLE IF NOT EXISTS t (b_col INT,\na_col TEXT)");
}

#[test]
fn insert_with_null_field() {
    let types = vec![
        ("id".to_owned(), "TEXT".to_owned()),
        ("name".to_owned(), "TEXT".to_owned()),
        ("tag".to_owned(), "TEXT".to_owned()),
    ];
    let row = vec![
        ("id".to_owned(), Some("42".to_owned())),
        ("name".to_owned(), None),
        ("tag".to_owned(), Some("foo".to_owned())),
    ];
    let s = insert_record_statement("t", &types, &row, DatabaseType::Psql);
    assert_eq!(s, "INSERT INTO t (id,name,tag) VALUES ('42',NULL,'foo')");
}

#[test]
fn insert_applies_postgres_casts() {
    let types = vec![("id".to_owned(), "BIGINT".to_owned())];
    let row = vec![("id".to_owned(), Some("42".to_owned()))];
    let s = insert_record_statement("t", &types, &row, DatabaseType::Psql);
    assert_eq!(s, "INSERT INTO t (id) VALUES ('42'::int8)");
}

#[test]
fn insert_applies_mysql_casts() {
    let types = vec![("id".to_owned(), "BIGINT".to_owned())];
    let row = vec![("id".to_owned(), Some("42".to_owned()))];
    let s = insert_record_statement("t", &types, &row, DatabaseType::Mysql);
    assert_eq!(s, "INSERT INTO t (id) VALUES (CAST('42' AS SIGNED))");
}

#[test]
fn insert_strips_quotes_from_values() {
    let types = vec![("name".to_owned(), "TEXT".to_owned())];
    let row = vec![("name".to_owned(), Some("'Bo\"b'".to_owned()))];
    let s = insert_record_statement("t", &types, &row, DatabaseType::Psql);
    assert_eq!(s, "INSERT INTO t (name) VALUES ('Bob')");
}

#[test]
fn delete_uses_postgres_cast_syntax() {
    let types = vec![("quiz_id".to_owned(), "BIGINT".to_owned())];
    let s = drop_record_statement("quiz_scores", &types, "quiz_id", "7", DatabaseType::Psql);
    assert_eq!(s, "DELETE FROM quiz_scores WHERE quiz_id = '7'::int8");
}

#[test]
fn delete_uses_mysql_cast_syntax() {
    let types = vec![("quiz_id".to_owned(), "BIGINT".to_owned())];
    let s = drop_record_statement("quiz_scores", &types, "quiz_id", "7", DatabaseType::Mysql);
    assert_eq!(s, "DELETE FROM quiz_scores WHERE quiz_id = CAST('7' AS SIGNED)");
}

#[test]
fn delete_without_cast_uses_bare_literal() {
    let types = vec![("name".to_owned(), "TEXT".to_owned())];
    let s = drop_record_statement("t", &types, "name", "O'Hara", DatabaseType::Psql);
    assert_eq!(s, "DELETE FROM t WHERE name = 'OHara'");
}
