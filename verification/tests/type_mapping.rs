use cdl_runner::errors::ErrorKind;
use cdl_runner::settings::DatabaseType;
use cdl_runner::type_converter::{convert_type_for_db, get_cast_as};

fn conv(t: &str, db: DatabaseType) -> String {
    convert_type_for_db(t.to_owned(), db).unwrap()
}

#[test]
fn maps_types_for_postgres() {
    let pg = DatabaseType::Psql;
    assert_eq!(conv("bigint", pg), "BIGINT");
    assert_eq!(conv("boolean", pg), "BOOLEAN");
    assert_eq!(conv("double precision", pg), "double precision");
    assert_eq!(conv("int", pg), "INT");
    assert_eq!(conv("integer", pg), "INT");
    assert_eq!(conv("text", pg), "TEXT");
    assert_eq!(conv("varchar", pg), "TEXT");
    assert_eq!(conv("guid", pg), "TEXT");
    assert_eq!(conv("enum", pg), "TEXT");
    assert_eq!(conv("timestamp", pg), "TIMESTAMP");
    assert_eq!(conv("datetime", pg), "TIMESTAMP");
    assert_eq!(conv("date", pg), "DATE");
}

#[test]
fn maps_types_for_mysql() {
    let my = DatabaseType::Mysql;
    assert_eq!(conv("bigint", my), "BIGINT");
    assert_eq!(conv("boolean", my), "VARCHAR(10)");
    assert_eq!(conv("double precision", my), "FLOAT(17)");
    assert_eq!(conv("int", my), "INT");
    assert_eq!(conv("integer", my), "INT");
    assert_eq!(conv("text", my), "LONGTEXT");
    assert_eq!(conv("varchar", my), "LONGTEXT");
    assert_eq!(conv("guid", my), "LONGTEXT");
    assert_eq!(conv("enum", my), "LONGTEXT");
    assert_eq!(conv("timestamp", my), "DATETIME");
    assert_eq!(conv("datetime", my), "DATETIME");
    assert_eq!(conv("date", my), "DATE");
}

#[test]
fn unknown_type_is_rejected() {
    let r = convert_type_for_db("blob".to_owned(), DatabaseType::Psql);
    match r {
        Err(ErrorKind::InvalidTypeToConvert(t)) => assert_eq!(t, "blob"),
        other => panic!("expected an invalid-type error, got {:?}", other),
    }
}

#[test]
fn invalid_type_error_message_names_the_type() {
    let e = ErrorKind::InvalidTypeToConvert("blob".to_owned());
    assert_eq!(e.message(), "Invalid Type: [ blob ] to convert to DB");
}

#[test]
fn cast_expressions_for_postgres() {
    let pg = DatabaseType::Psql;
    assert_eq!(get_cast_as("BIGINT".to_owned(), pg), "int8");
    assert_eq!(get_cast_as("BOOLEAN".to_owned(), pg), "boolean");
    assert_eq!(get_cast_as("double precision".to_owned(), pg), "double precision");
    assert_eq!(get_cast_as("INT".to_owned(), pg), "int");
    assert_eq!(get_cast_as("TIMESTAMP".to_owned(), pg), "timestamp");
    assert_eq!(get_cast_as("TEXT".to_owned(), pg), "");
    assert_eq!(get_cast_as("DATE".to_owned(), pg), "");
}

#[test]
fn cast_expressions_for_mysql() {
    let my = DatabaseType::Mysql;
    assert_eq!(get_cast_as("BIGINT".to_owned(), my), "SIGNED");
    assert_eq!(get_cast_as("INT".to_owned(), my), "SIGNED");
    assert_eq!(get_cast_as("FLOAT(17)".to_owned(), my), "DECIMAL(34, 17)");
    assert_eq!(get_cast_as("DATETIME".to_owned(), my), "DATETIME");
    assert_eq!(get_cast_as("DATE".to_owned(), my), "DATE");
    assert_eq!(get_cast_as("LONGTEXT".to_owned(), my), "");
    assert_eq!(get_cast_as("VARCHAR(10)".to_owned(), my), "");
}
