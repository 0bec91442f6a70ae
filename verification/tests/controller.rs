use cdl_runner::api_client::DumpInList;
use cdl_runner::run_controller::{AfterFilesDecision, DumpDecision, DumpStatus, decide_after_files,
    decide_dump, effective_all_volatile, last_version_key, ledger_key_for_dump, outcome_status,
    sort_dumps};

fn dump(id: &str, created_at: i64, finished: bool, schema_version: &str) -> DumpInList {
    DumpInList {
        dump_id: id.to_owned(),
        sequence: 1,
        account_id: "acct".to_owned(),
        num_files: 1,
        finished,
        expires: 0,
        updated_at: created_at,
        created_at,
        schema_version: schema_version.to_owned(),
    }
}

#[test]
fn terminal_ledger_entries_are_skipped() {
    let d = dump("d1", 10, true, "v1");
    let r = decide_dump(&d, Some(DumpStatus::Successful), "v1", false, true, false);
    assert_eq!(r, DumpDecision::SkipProcessed);
    let r = decide_dump(&d, Some(DumpStatus::OutOfDate), "v1", false, true, false);
    assert_eq!(r, DumpDecision::SkipProcessed);
}

#[test]
fn terminal_entry_wins_over_prior_failure() {
    let d = dump("d1", 10, true, "v1");
    let r = decide_dump(&d, Some(DumpStatus::Successful), "v1", false, true, true);
    assert_eq!(r, DumpDecision::SkipProcessed);
}

#[test]
fn unfinished_dump_is_skipped_without_writes() {
    let d = dump("d1", 10, false, "v1");
    let r = decide_dump(&d, None, "v1", false, true, false);
    assert_eq!(r, DumpDecision::SkipUnfinished);
}

#[test]
fn only_final_skips_earlier_dumps() {
    let d = dump("d1", 10, true, "v1");
    let r = decide_dump(&d, None, "v1", true, false, false);
    assert_eq!(r, DumpDecision::SkipOnlyFinal);
    let r = decide_dump(&d, None, "v1", true, true, false);
    assert_eq!(r, DumpDecision::FetchFiles);
}

#[test]
fn prior_failure_records_failure_for_later_dumps() {
    let d = dump("d2", 20, true, "v1");
    let r = decide_dump(&d, Some(DumpStatus::InProgress), "v1", false, false, true);
    assert_eq!(r, DumpDecision::RecordPriorFailure);
}

#[test]
fn stale_schema_version_is_marked_out_of_date() {
    let d = dump("d1", 10, true, "v1");
    let r = decide_dump(&d, None, "v2", false, true, false);
    assert_eq!(r, DumpDecision::MarkOutOfDate);
}

#[test]
fn matching_dump_reaches_the_file_fetch() {
    let d = dump("d1", 10, true, "v2");
    let r = decide_dump(&d, Some(DumpStatus::InProgress), "v2", false, true, false);
    assert_eq!(r, DumpDecision::FetchFiles);
}

#[test]
fn historical_refresh_skip_is_successful() {
    assert_eq!(decide_after_files(true, true), AfterFilesDecision::MarkSuccessfulSkip);
    assert_eq!(decide_after_files(true, false), AfterFilesDecision::BeginImport);
    assert_eq!(decide_after_files(false, true), AfterFilesDecision::BeginImport);
}

#[test]
fn version_change_forces_all_volatile() {
    assert!(effective_all_volatile(false, "v1", "v2"));
    assert!(effective_all_volatile(true, "v2", "v2"));
    assert!(!effective_all_volatile(false, "v2", "v2"));
}

#[test]
fn outcome_maps_to_ledger_status() {
    assert_eq!(outcome_status(true), DumpStatus::Successful);
    assert_eq!(outcome_status(false), DumpStatus::Failure);
}

#[test]
fn statuses_round_trip_through_ledger_values() {
    for st in [
        DumpStatus::InProgress,
        DumpStatus::Successful,
        DumpStatus::Failure,
        DumpStatus::OutOfDate,
    ] {
        assert_eq!(DumpStatus::parse(&st.to_ledger_value()), Some(st));
    }
    assert_eq!(DumpStatus::parse("garbage"), None);
    assert_eq!(DumpStatus::to_ledger_value(&DumpStatus::OutOfDate), "out-of-date");
}

#[test]
fn ledger_keys_have_the_expected_shape() {
    assert_eq!(ledger_key_for_dump("abc123"), "dump_processed_abc123");
    assert_eq!(last_version_key(), "last_version_processed");
}

#[test]
fn dumps_sort_ascending_by_creation_time() {
    let dumps = vec![
        dump("c", 30, true, "v1"),
        dump("a", 10, true, "v1"),
        dump("b", 20, true, "v1"),
    ];
    let sorted = sort_dumps(dumps);
    let ids: Vec<&str> = sorted.iter().map(|d| d.dump_id.as_str()).collect();
    assert_eq!(ids, vec!["a", "b", "c"]);
}
