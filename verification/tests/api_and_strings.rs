use cdl_runner::api_client::{ArtifactByTable, BasicFile, CanvasDataApiClient, ColumnDefinition,
    FilesInDumpResponse, SchemaDefinition, TableDefinition, dump_directory, file_name_is_requests,
    file_path_in_dump, find_table_definition, plan_downloads};
use cdl_runner::settings::{Canvasdataauth, Database, DatabaseType, Settings};
use cdl_runner::strings::{ascii_lower, replace_all, rfind_char, split_on_char, str_eq,
    strip_quotes};

fn settings() -> Settings {
    Settings::new(
        Database { url: "postgres://x".to_owned(), db_type: "MySQL".to_owned() },
        Canvasdataauth { api_key: "key".to_owned(), api_secret: "sekrit".to_owned() },
        "/var/dumps".to_owned(),
        "/var/ledger".to_owned(),
        true,
        Some(true),
        None,
    )
}

fn files_response(artifacts: Vec<ArtifactByTable>) -> FilesInDumpResponse {
    FilesInDumpResponse {
        account_id: "acct".to_owned(),
        expires: 0,
        sequence: 1,
        updated_at: 0,
        schema_version: "v1".to_owned(),
        num_files: 1,
        created_at: 0,
        dump_id: "d1".to_owned(),
        finished: true,
        artifacts_by_table: artifacts,
    }
}

fn artifact(table: &str, names: &[&str]) -> ArtifactByTable {
    ArtifactByTable {
        table_name: table.to_owned(),
        partial: false,
        files: names
            .iter()
            .map(|n| BasicFile { url: format!("https://host/{}", n), filename: (*n).to_owned() })
            .collect(),
    }
}

#[test]
fn settings_getters_return_configured_values() {
    let s = settings();
    assert_eq!(s.get_save_location(), "/var/dumps");
    assert_eq!(s.get_rocksdb_location(), "/var/ledger");
    assert!(s.get_should_skip_historical_imports());
    assert!(s.get_should_only_load_final());
    assert!(!s.get_all_tables_volatile());
    assert_eq!(s.get_database_url(), "postgres://x");
    assert_eq!(s.get_database_type(), DatabaseType::Mysql);
    assert_eq!(s.get_canvas_data_api_key(), "key");
    assert_eq!(s.get_canvas_data_api_secret(), "sekrit");
}

#[test]
fn database_type_defaults_to_postgres() {
    let mut s = settings();
    s.database.db_type = "postgres".to_owned();
    assert_eq!(s.get_database_type(), DatabaseType::Psql);
}

#[test]
fn auth_header_matches_reference_signature() {
    let client = CanvasDataApiClient::new(&settings());
    let header = client.compute_auth_header(
        "GET",
        "portal.inshosteddata.com",
        "application/json",
        "",
        "/api/account/self/dump",
        "",
        "2020-01-02T03:04:05.678Z",
    );
    assert_eq!(header, "HMACAuth key:IGD39O6ZEg0SBnTMB/uXb/JJ2+hfAj3s2UOVvLAPLGE=");
}

#[test]
fn current_date_has_the_expected_shape() {
    let client = CanvasDataApiClient::new(&settings());
    let d = client.get_current_date();
    assert_eq!(d.len(), 24);
    assert!(d.ends_with('Z'));
    assert_eq!(d.as_bytes()[10], b'T');
}

#[test]
fn request_log_file_names_are_recognized() {
    assert!(file_name_is_requests("requests-00000-ab.tsv.gz"));
    assert!(file_name_is_requests("requests"));
    assert!(!file_name_is_requests("account_dim-00000-ab.tsv.gz"));
    assert!(!file_name_is_requests("requests-0\n0"));
}

#[test]
fn historical_refresh_needs_every_file_to_be_requests() {
    let client = CanvasDataApiClient::new(&settings());
    let all = files_response(vec![artifact("requests", &["requests-00000-ab.tsv.gz"])]);
    assert!(client.is_historical_refresh(&all));
    let mixed = files_response(vec![
        artifact("requests", &["requests-00000-ab.tsv.gz"]),
        artifact("account_dim", &["account_dim-00000-ab.tsv.gz"]),
    ]);
    assert!(!client.is_historical_refresh(&mixed));
}

#[test]
fn table_definitions_are_found_case_insensitively() {
    let def = TableDefinition {
        dw_type: "dimension".to_owned(),
        description: None,
        hints: Vec::new(),
        incremental: false,
        table_name: "Account_Dim".to_owned(),
        columns: vec![ColumnDefinition {
            db_type: "bigint".to_owned(),
            description: None,
            name: "id".to_owned(),
            length: None,
            dimension: None,
        }],
    };
    let schema = SchemaDefinition { version: "v1".to_owned(), schema: vec![def] };
    let found = find_table_definition(&schema, "account_dim").unwrap();
    assert_eq!(found.table_name, "Account_Dim");
    assert!(find_table_definition(&schema, "missing").is_none());
}

#[test]
fn cached_artifacts_are_skipped_whole() {
    let resp = files_response(vec![artifact(
        "account_dim",
        &["account_dim-00000-ab.tsv.gz", "account_dim-00001-cd.tsv.gz"],
    )]);
    let present = vec!["account_dim-00000-ab.tsv.gz".to_owned()];
    assert!(plan_downloads(&resp, &present).is_empty());
}

#[test]
fn missing_artifacts_are_downloaded_in_full() {
    let resp = files_response(vec![artifact(
        "account_dim",
        &["account_dim-00000-ab.tsv.gz", "account_dim-00001-cd.tsv.gz"],
    )]);
    let present = vec!["account_dim-00001-cd.tsv.gz".to_owned()];
    let files = plan_downloads(&resp, &present);
    let names: Vec<&str> = files.iter().map(|f| f.filename.as_str()).collect();
    assert_eq!(names, vec!["account_dim-00000-ab.tsv.gz", "account_dim-00001-cd.tsv.gz"]);
}

#[test]
fn dump_paths_are_built_under_the_save_root() {
    assert_eq!(dump_directory("/var/dumps", "d1"), "/var/dumps/d1");
    assert_eq!(file_path_in_dump("/var/dumps", "d1", "a.gz"), "/var/dumps/d1/a.gz");
}

#[test]
fn replace_all_rewrites_every_occurrence() {
    assert_eq!(replace_all("default_default", "default", "_default"), "_default__default");
    assert_eq!(replace_all("nothing here", "default", "_default"), "nothing here");
    assert_eq!(replace_all("my_default_value", "default", "_default"), "my__default_value");
}

#[test]
fn strip_quotes_removes_both_quote_kinds() {
    assert_eq!(strip_quotes("'Bo\"b'"), "Bob");
    assert_eq!(strip_quotes("plain"), "plain");
}

#[test]
fn ascii_lower_folds_only_ascii_letters() {
    assert_eq!(ascii_lower("MySQL-17"), "mysql-17");
}

#[test]
fn split_keeps_empty_pieces_at_the_edges() {
    let parts = split_on_char("-a-b-", '-');
    assert_eq!(parts, vec!["", "a", "b", ""]);
    assert_eq!(split_on_char("", '-'), vec![""]);
}

#[test]
fn rfind_finds_the_last_occurrence() {
    assert_eq!(rfind_char("a_b_c", '_'), Some(3));
    assert_eq!(rfind_char("abc", '_'), None);
}

#[test]
fn str_eq_compares_by_characters() {
    assert!(str_eq("abc", "abc"));
    assert!(!str_eq("abc", "abd"));
    assert!(!str_eq("abc", "ab"));
}
