use cdl_runner::api_client::{CanvasDataApiClient, ColumnDefinition, SchemaDefinition,
    TableDefinition};
use cdl_runner::db_client::insert_record_statement;
use cdl_runner::errors::ErrorKind;
use cdl_runner::importer::{DumpFile, FileNameSplit, Importer, build_rows, get_table_info_from_def,
    id_like_from_names, is_volatile_table};
use cdl_runner::settings::{Canvasdataauth, Database, DatabaseType, Settings};

fn column(name: &str, db_type: &str) -> ColumnDefinition {
    ColumnDefinition {
        db_type: db_type.to_owned(),
        description: None,
        name: name.to_owned(),
        length: None,
        dimension: None,
    }
}

fn table(name: &str, cols: Vec<ColumnDefinition>) -> TableDefinition {
    TableDefinition {
        dw_type: "dimension".to_owned(),
        description: None,
        hints: Vec::new(),
        incremental: false,
        table_name: name.to_owned(),
        columns: cols,
    }
}

fn schema(tables: Vec<TableDefinition>) -> SchemaDefinition {
    SchemaDefinition { version: "1.2.3".to_owned(), schema: tables }
}

fn importer() -> Importer {
    let settings = Settings::new(
        Database { url: "postgres://x".to_owned(), db_type: "postgres".to_owned() },
        Canvasdataauth { api_key: "k".to_owned(), api_secret: "s".to_owned() },
        "/tmp/dumps".to_owned(),
        "/tmp/ledger".to_owned(),
        false,
        None,
        None,
    );
    let client = CanvasDataApiClient::new(&settings);
    Importer::new(client, DatabaseType::Psql, "dump1".to_owned(), "/tmp/dumps".to_owned())
}

// Gzip of "1\tAlice\t\\N\n2\t'Bo\"b'\tx\n\n".
fn sample_gz() -> Vec<u8> {
    vec![
        31, 139, 8, 0, 97, 148, 203, 106, 2, 255, 51, 228, 116, 204, 201, 76, 78, 229, 140, 241,
        227, 50, 226, 84, 119, 202, 87, 74, 82, 231, 172, 224, 226, 2, 0, 52, 62, 219, 206, 23, 0,
        0, 0,
    ]
}

#[test]
fn file_name_splits_into_four_parts() {
    let s = FileNameSplit::new("account_dim-00000-ab12.tsv.gz".to_owned()).unwrap();
    assert_eq!(s.table_name, "account_dim");
    assert_eq!(s.sharded_part, "00000");
    assert_eq!(s.hash_part, "ab12");
    assert_eq!(s.extension, "tsv");
}

#[test]
fn file_name_without_three_segments_is_ignored() {
    assert!(FileNameSplit::new("account_dim-00000.tsv.gz".to_owned()).is_none());
    assert!(FileNameSplit::new("plain.txt".to_owned()).is_none());
    assert!(FileNameSplit::new("a-b-c-d.tsv.gz".to_owned()).is_none());
}

#[test]
fn file_name_whose_hash_segment_lacks_a_dot_is_ignored() {
    assert!(FileNameSplit::new("account_dim-00000-nodot".to_owned()).is_none());
}

#[test]
fn volatile_set_membership() {
    assert!(is_volatile_table("quiz_fact"));
    assert!(is_volatile_table("requests"));
    assert!(is_volatile_table("enrollment_rollup_dim"));
    assert!(is_volatile_table("module_progression_completion_requirement_fact"));
    assert!(!is_volatile_table("account_dim"));
    assert!(!is_volatile_table("submission_fact"));
}

#[test]
fn id_like_prefers_plain_id() {
    let names = vec!["id".to_owned(), "assignment_id".to_owned()];
    assert_eq!(id_like_from_names("assignment_dim", &names), Some("id".to_owned()));
}

#[test]
fn id_like_falls_back_to_table_prefix() {
    let names = vec!["quiz_id".to_owned(), "points".to_owned()];
    assert_eq!(id_like_from_names("quiz_fact", &names), Some("quiz_id".to_owned()));
}

#[test]
fn id_like_tries_a_shorter_prefix_too() {
    let names = vec!["quiz_id".to_owned()];
    assert_eq!(id_like_from_names("quiz_answer_fact", &names), Some("quiz_id".to_owned()));
}

#[test]
fn id_like_gives_up_without_a_match() {
    let names = vec!["x".to_owned()];
    assert_eq!(id_like_from_names("foo_bar_baz_fact", &names), None);
}

#[test]
fn importer_methods_delegate_to_the_same_logic() {
    let imp = importer();
    let def = table("t", vec![column("id", "bigint")]);
    let (names, types) = imp.get_table_info_from_def(&def).unwrap();
    assert_eq!(names, vec!["id".to_owned()]);
    assert_eq!(types, vec![("id".to_owned(), "BIGINT".to_owned())]);
    let row = vec![("quiz_id".to_owned(), Some("7".to_owned()))];
    assert_eq!(
        imp.get_id_like_column_from_columns("quiz_fact".to_owned(), &row),
        Some("quiz_id".to_owned())
    );
}

#[test]
fn table_info_keeps_schema_column_order() {
    let def = table("t", vec![column("b", "bigint"), column("a", "text")]);
    let (names, types) = get_table_info_from_def(&def, DatabaseType::Psql).unwrap();
    assert_eq!(names, vec!["b".to_owned(), "a".to_owned()]);
    assert_eq!(
        types,
        vec![("b".to_owned(), "BIGINT".to_owned()), ("a".to_owned(), "TEXT".to_owned())]
    );
}

#[test]
fn table_info_rejects_unknown_types() {
    let def = table("t", vec![column("a", "blob")]);
    match get_table_info_from_def(&def, DatabaseType::Psql) {
        Err(ErrorKind::InvalidTypeToConvert(t)) => assert_eq!(t, "blob"),
        other => panic!("expected an invalid-type error, got {:?}", other),
    }
}

#[test]
fn build_rows_parses_nulls_and_delete_keys() {
    let names = vec!["id".to_owned(), "name".to_owned()];
    let rows = build_rows("1\tAlice\n2\t\\N\n", &names, false, "account_dim").unwrap();
    assert_eq!(rows.len(), 2);
    assert_eq!(rows[0].values, vec![Some("1".to_owned()), Some("Alice".to_owned())]);
    assert_eq!(rows[0].delete_key, Some(("id".to_owned(), "1".to_owned())));
    assert_eq!(rows[1].values, vec![Some("2".to_owned()), None]);
    assert_eq!(rows[1].delete_key, Some(("id".to_owned(), "2".to_owned())));
}

#[test]
fn build_rows_fails_on_short_lines() {
    let names = vec!["id".to_owned(), "name".to_owned()];
    assert_eq!(build_rows("1\n", &names, true, "t"), Err(ErrorKind::ImportErr));
}

#[test]
fn build_rows_fails_on_null_id() {
    let names = vec!["id".to_owned()];
    assert_eq!(build_rows("\\N\n", &names, false, "account_dim"), Err(ErrorKind::ImportErr));
}

#[test]
fn build_rows_fails_without_id_like_column() {
    let names = vec!["x".to_owned()];
    assert_eq!(build_rows("1\n", &names, false, "foo_bar_baz_fact"), Err(ErrorKind::ImportErr));
}

#[test]
fn process_plans_an_upsert_load() {
    let imp = importer();
    let sch = schema(vec![table("account_dim", vec![column("id", "bigint"), column("name", "text")])]);
    let files = vec![DumpFile { file_name: "account_dim-00000-ab.tsv.gz".to_owned(), data: sample_gz() }];
    let plan = imp.process(&files, &sch, false).unwrap();
    assert!(plan.drops.is_empty());
    assert_eq!(plan.loads.len(), 1);
    let load = &plan.loads[0];
    assert_eq!(load.table_name, "account_dim");
    assert!(!load.volatile);
    assert_eq!(load.column_names, vec!["id".to_owned(), "name".to_owned()]);
    assert_eq!(
        load.column_types,
        vec![("id".to_owned(), "BIGINT".to_owned()), ("name".to_owned(), "TEXT".to_owned())]
    );
    assert_eq!(load.rows.len(), 2);
    assert_eq!(load.rows[0].values, vec![Some("1".to_owned()), Some("Alice".to_owned())]);
    assert_eq!(load.rows[0].delete_key, Some(("id".to_owned(), "1".to_owned())));
    assert_eq!(load.rows[1].values, vec![Some("2".to_owned()), Some("'Bo\"b'".to_owned())]);
    assert_eq!(load.rows[1].delete_key, Some(("id".to_owned(), "2".to_owned())));
}

#[test]
fn process_drops_volatile_tables_once() {
    let imp = importer();
    let sch = schema(vec![table("quiz_fact", vec![column("quiz_id", "bigint")])]);
    let files = vec![
        DumpFile { file_name: "quiz_fact-00000-ab.tsv.gz".to_owned(), data: gz_of("7\n") },
        DumpFile { file_name: "quiz_fact-00001-cd.tsv.gz".to_owned(), data: gz_of("8\n") },
    ];
    let plan = imp.process(&files, &sch, false).unwrap();
    assert_eq!(plan.drops, vec!["quiz_fact".to_owned()]);
    assert_eq!(plan.loads.len(), 2);
    assert!(plan.loads[0].volatile);
    assert_eq!(plan.loads[0].rows[0].delete_key, None);
}

#[test]
fn process_all_volatile_drops_every_table() {
    let imp = importer();
    let sch = schema(vec![table("account_dim", vec![column("id", "bigint")])]);
    let files = vec![DumpFile { file_name: "account_dim-00000-ab.tsv.gz".to_owned(), data: gz_of("5\n") }];
    let plan = imp.process(&files, &sch, true).unwrap();
    assert_eq!(plan.drops, vec!["account_dim".to_owned()]);
    assert!(plan.loads[0].volatile);
    assert_eq!(plan.loads[0].rows[0].delete_key, None);
}

#[test]
fn process_ignores_malformed_file_names() {
    let imp = importer();
    let sch = schema(vec![table("account_dim", vec![column("id", "bigint")])]);
    let files = vec![DumpFile { file_name: "junkname.gz".to_owned(), data: vec![1, 2, 3] }];
    let plan = imp.process(&files, &sch, true).unwrap();
    assert!(plan.drops.is_empty());
    assert!(plan.loads.is_empty());
}

#[test]
fn process_fails_when_table_is_not_in_schema() {
    let imp = importer();
    let sch = schema(vec![]);
    let files = vec![DumpFile { file_name: "account_dim-00000-ab.tsv.gz".to_owned(), data: gz_of("5\n") }];
    assert_eq!(imp.process(&files, &sch, true), Err(ErrorKind::ImportErr));
}

#[test]
fn process_fails_on_bad_gzip_data() {
    let imp = importer();
    let sch = schema(vec![table("account_dim", vec![column("id", "bigint")])]);
    let files = vec![DumpFile { file_name: "account_dim-00000-ab.tsv.gz".to_owned(), data: vec![0, 1, 2] }];
    assert_eq!(imp.process(&files, &sch, true), Err(ErrorKind::ImportErr));
}

#[test]
fn row_columns_follow_schema_order_in_insert() {
    let imp = importer();
    let sch = schema(vec![table("account_dim", vec![column("id", "bigint"), column("name", "text")])]);
    let files = vec![DumpFile { file_name: "account_dim-00000-ab.tsv.gz".to_owned(), data: sample_gz() }];
    let plan = imp.process(&files, &sch, false).unwrap();
    let load = &plan.loads[0];
    let cols = load.row_columns(0);
    assert_eq!(
        cols,
        vec![("id".to_owned(), Some("1".to_owned())), ("name".to_owned(), Some("Alice".to_owned()))]
    );
    let stmt = insert_record_statement(&load.table_name, &load.column_types, &cols, DatabaseType::Psql);
    assert_eq!(stmt, "INSERT INTO account_dim (id,name) VALUES ('1'::int8,'Alice')");
}

fn gz_of(text: &str) -> Vec<u8> {
    let mut enc = flate2::write::GzEncoder::new(Vec::new(), flate2::Compression::default());
    std::io::Write::write_all(&mut enc, text.as_bytes()).unwrap();
    enc.finish().unwrap()
}
