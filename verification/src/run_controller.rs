//! The run controller's decisions: which dumps to process, in what
//! order, what to record in the progress ledger, and when a run treats
//! every table as volatile.
//!
//! The surrounding process walks the sorted dumps and, for each one,
//! asks [`decide_dump`] what to do; only a [`DumpDecision::FetchFiles`]
//! answer leads to any network call or import for that dump, and only
//! [`DumpDecision::RecordPriorFailure`] and [`DumpDecision::MarkOutOfDate`]
//! ask for a ledger write before the import itself runs.

use vstd::prelude::*;
use vstd::string::StringExecFns;
use crate::api_client::DumpInList;
use crate::importer::drops_spec;
use crate::importer::lemma_drop_phase_once;
use crate::strings::str_eq;

verus! {

broadcast use vstd::seq_lib::group_to_multiset_ensures;

/// The recorded outcome of one dump in the progress ledger.
#[derive(Clone, Copy, Debug, PartialEq, Eq, Structural)]
pub enum DumpStatus {
    /// The import of this dump has begun.
    InProgress,
    /// The dump was fully applied, or deliberately skipped for good.
    Successful,
    /// The import of this dump failed.
    Failure,
    /// The dump's schema version no longer matches the latest schema.
    OutOfDate,
}

/// The ledger value a status is stored as.
pub open spec fn status_str(s: DumpStatus) -> Seq<char> {
    match s {
        DumpStatus::InProgress => "in_progress"@,
        DumpStatus::Successful => "successful"@,
        DumpStatus::Failure => "failure"@,
        DumpStatus::OutOfDate => "out-of-date"@,
    }
}

/// The status a ledger value denotes, if any.
pub open spec fn parse_status_spec(s: Seq<char>) -> Option<DumpStatus> {
    if s == "in_progress"@ {
        Some(DumpStatus::InProgress)
    } else if s == "successful"@ {
        Some(DumpStatus::Successful)
    } else if s == "failure"@ {
        Some(DumpStatus::Failure)
    } else if s == "out-of-date"@ {
        Some(DumpStatus::OutOfDate)
    } else {
        None
    }
}

impl DumpStatus {
    /// The ledger value this status is stored as.
    pub fn to_ledger_value(&self) -> (r: String)
        ensures
            r@ == status_str(*self),
    {
        match self {
            DumpStatus::InProgress => "in_progress".to_owned(),
            DumpStatus::Successful => "successful".to_owned(),
            DumpStatus::Failure => "failure".to_owned(),
            DumpStatus::OutOfDate => "out-of-date".to_owned(),
        }
    }

    /// Read a status back from a ledger value.
    pub fn parse(s: &str) -> (r: Option<DumpStatus>)
        ensures
            r == parse_status_spec(s@),
    {
        if str_eq(s, "in_progress") {
            Some(DumpStatus::InProgress)
        } else if str_eq(s, "successful") {
            Some(DumpStatus::Successful)
        } else if str_eq(s, "failure") {
            Some(DumpStatus::Failure)
        } else if str_eq(s, "out-of-date") {
            Some(DumpStatus::OutOfDate)
        } else {
            None
        }
    }
}

/// Law: storing a status and reading it back yields the same status.
pub proof fn lemma_status_round_trip(s: DumpStatus)
    ensures
        parse_status_spec(status_str(s)) == Some(s),
{
    reveal_strlit("in_progress");
    reveal_strlit("successful");
    reveal_strlit("failure");
    reveal_strlit("out-of-date");
    assert("in_progress"@.len() == 11);
    assert("successful"@.len() == 10);
    assert("failure"@.len() == 7);
    assert("out-of-date"@.len() == 11);
    assert("out-of-date"@ != "in_progress"@) by {
        assert("out-of-date"@[0] == 'o');
        assert("in_progress"@[0] == 'i');
    }
}

/// The ledger key that records one dump's outcome.
pub fn ledger_key_for_dump(dump_id: &str) -> (r: String)
    ensures
        r@ == "dump_processed_"@ + dump_id@,
{
    let mut s = "dump_processed_".to_owned();
    s.append(dump_id);
    s
}

/// The ledger key that records the last schema version processed.
pub fn last_version_key() -> (r: String)
    ensures
        r@ == "last_version_processed"@,
{
    "last_version_processed".to_owned()
}

/// What the run does with one dump, before its file list is fetched.
#[derive(Clone, Copy, Debug, PartialEq, Eq, Structural)]
pub enum DumpDecision {
    /// Only the final dump is loaded and this is not it: do nothing.
    SkipOnlyFinal,
    /// The dump has not finished populating: do nothing.
    SkipUnfinished,
    /// The ledger already holds a terminal outcome: do nothing.
    SkipProcessed,
    /// An earlier dump of this run failed: record `failure` and move on.
    RecordPriorFailure,
    /// The dump's schema version is stale: record `out-of-date` and
    /// move on.
    MarkOutOfDate,
    /// Fetch the dump's file list and carry on towards the import.
    FetchFiles,
}

/// The decision for one dump.  The ledger's terminal outcomes —
/// `successful` and `out-of-date` — are honored before anything else
/// that could write, so a terminal entry is never overwritten.
pub open spec fn decide_dump_spec(
    finished: bool,
    status: Option<DumpStatus>,
    schema_version: Seq<char>,
    latest_version: Seq<char>,
    only_final: bool,
    is_last: bool,
    prior_failed: bool,
) -> DumpDecision {
    if only_final && !is_last {
        DumpDecision::SkipOnlyFinal
    } else if !finished {
        DumpDecision::SkipUnfinished
    } else if status == Some(DumpStatus::Successful) || status == Some(DumpStatus::OutOfDate) {
        DumpDecision::SkipProcessed
    } else if prior_failed {
        DumpDecision::RecordPriorFailure
    } else if schema_version != latest_version {
        DumpDecision::MarkOutOfDate
    } else {
        DumpDecision::FetchFiles
    }
}

/// Whether the decision leads to fetching the dump's file list (and so
/// possibly to an import).  Every network call and backend write for a
/// dump happens only after this.
pub open spec fn decision_fetches_files(d: DumpDecision) -> bool {
    d == DumpDecision::FetchFiles
}

/// The ledger write the decision itself asks for, if any.
pub open spec fn decision_writes_ledger(d: DumpDecision) -> Option<DumpStatus> {
    match d {
        DumpDecision::RecordPriorFailure => Some(DumpStatus::Failure),
        DumpDecision::MarkOutOfDate => Some(DumpStatus::OutOfDate),
        _ => None,
    }
}

/// Decide what to do with one dump.
pub fn decide_dump(
    dump: &DumpInList,
    status: Option<DumpStatus>,
    latest_version: &str,
    only_final: bool,
    is_last: bool,
    prior_failed: bool,
) -> (r: DumpDecision)
    ensures
        r == decide_dump_spec(
            dump.finished,
            status,
            dump.schema_version@,
            latest_version@,
            only_final,
            is_last,
            prior_failed,
        ),
{
    if only_final && !is_last {
        DumpDecision::SkipOnlyFinal
    } else if !dump.finished {
        DumpDecision::SkipUnfinished
    } else if match status {
        Some(DumpStatus::Successful) => true,
        Some(DumpStatus::OutOfDate) => true,
        _ => false,
    } {
        DumpDecision::SkipProcessed
    } else if prior_failed {
        DumpDecision::RecordPriorFailure
    } else if !str_eq(dump.schema_version.as_str(), latest_version) {
        DumpDecision::MarkOutOfDate
    } else {
        DumpDecision::FetchFiles
    }
}

/// What the run does once it has the dump's file list.
#[derive(Clone, Copy, Debug, PartialEq, Eq, Structural)]
pub enum AfterFilesDecision {
    /// A historical refresh the run is configured to skip: record
    /// `successful` and perform no backend write.
    MarkSuccessfulSkip,
    /// Record `in_progress` and run the importer.
    BeginImport,
}

/// Decide what to do once the file list is known.
pub fn decide_after_files(is_historical: bool, skip_historical: bool) -> (r: AfterFilesDecision)
    ensures
        r == (if is_historical && skip_historical {
            AfterFilesDecision::MarkSuccessfulSkip
        } else {
            AfterFilesDecision::BeginImport
        }),
{
    if is_historical && skip_historical {
        AfterFilesDecision::MarkSuccessfulSkip
    } else {
        AfterFilesDecision::BeginImport
    }
}

/// Whether the run treats every table as volatile.
pub open spec fn effective_all_volatile_spec(
    settings_all_volatile: bool,
    last_version_processed: Seq<char>,
    latest_version: Seq<char>,
) -> bool {
    settings_all_volatile || last_version_processed != latest_version
}

/// The importer's volatility flag for this run: everything is volatile
/// when configured so, or when the schema version changed since the
/// last processed run.
pub fn effective_all_volatile(
    settings_all_volatile: bool,
    last_version_processed: &str,
    latest_version: &str,
) -> (r: bool)
    ensures
        r == effective_all_volatile_spec(
            settings_all_volatile,
            last_version_processed@,
            latest_version@,
        ),
{
    settings_all_volatile || !str_eq(last_version_processed, latest_version)
}

/// The ledger outcome of one import.
pub fn outcome_status(ok: bool) -> (r: DumpStatus)
    ensures
        r == (if ok {
            DumpStatus::Successful
        } else {
            DumpStatus::Failure
        }),
{
    if ok {
        DumpStatus::Successful
    } else {
        DumpStatus::Failure
    }
}

/// Law: a dump whose ledger entry is terminal — `successful` or
/// `out-of-date` — is skipped outright: its file list is never fetched,
/// nothing is imported, and its ledger entry is not touched.
pub proof fn lemma_processed_dump_skipped(
    finished: bool,
    status: Option<DumpStatus>,
    schema_version: Seq<char>,
    latest_version: Seq<char>,
    only_final: bool,
    is_last: bool,
    prior_failed: bool,
)
    requires
        status == Some(DumpStatus::Successful) || status == Some(DumpStatus::OutOfDate),
    ensures
        !decision_fetches_files(
            decide_dump_spec(
                finished,
                status,
                schema_version,
                latest_version,
                only_final,
                is_last,
                prior_failed,
            ),
        ),
        decision_writes_ledger(
            decide_dump_spec(
                finished,
                status,
                schema_version,
                latest_version,
                only_final,
                is_last,
                prior_failed,
            ),
        ) is None,
{
}

/// Law: an unfinished dump is skipped without any backend write and
/// with its ledger entry left unchanged.
pub proof fn lemma_unfinished_dump_untouched(
    status: Option<DumpStatus>,
    schema_version: Seq<char>,
    latest_version: Seq<char>,
    only_final: bool,
    is_last: bool,
    prior_failed: bool,
)
    ensures
        !decision_fetches_files(
            decide_dump_spec(
                false,
                status,
                schema_version,
                latest_version,
                only_final,
                is_last,
                prior_failed,
            ),
        ),
        decision_writes_ledger(
            decide_dump_spec(
                false,
                status,
                schema_version,
                latest_version,
                only_final,
                is_last,
                prior_failed,
            ),
        ) is None,
{
}

/// Law: a second run over dumps that are all recorded `successful` is
/// silent — for every dump, no file list is fetched, nothing is
/// imported, and nothing is written to the ledger.
pub proof fn lemma_second_run_silent(
    dumps: Seq<DumpInList>,
    statuses: Seq<Option<DumpStatus>>,
    latest_version: Seq<char>,
    only_final: bool,
    prior_failed: bool,
)
    requires
        statuses.len() == dumps.len(),
        forall|i: int| 0 <= i < statuses.len() ==> statuses[i] == Some(DumpStatus::Successful),
    ensures
        forall|i: int, is_last: bool|
            0 <= i < dumps.len() ==> !decision_fetches_files(
                #[trigger] decide_dump_spec(
                    dumps[i].finished,
                    statuses[i],
                    dumps[i].schema_version@,
                    latest_version,
                    only_final,
                    is_last,
                    prior_failed,
                ),
            ),
        forall|i: int, is_last: bool|
            0 <= i < dumps.len() ==> decision_writes_ledger(
                #[trigger] decide_dump_spec(
                    dumps[i].finished,
                    statuses[i],
                    dumps[i].schema_version@,
                    latest_version,
                    only_final,
                    is_last,
                    prior_failed,
                ),
            ) is None,
{
}

/// Law: a schema-version change forces the whole run volatile, so every
/// table parsed from a dump's files is dropped and rebuilt, whatever
/// the static volatile set says.
pub proof fn lemma_version_change_forces_volatile(
    settings_all_volatile: bool,
    last_version_processed: Seq<char>,
    latest_version: Seq<char>,
    tables: Seq<Seq<char>>,
)
    requires
        last_version_processed != latest_version,
    ensures
        effective_all_volatile_spec(
            settings_all_volatile,
            last_version_processed,
            latest_version,
        ),
        forall|t: Seq<char>| #[trigger] drops_spec(tables, true).contains(t) <==> tables.contains(t),
{
    lemma_drop_phase_once(tables, true);
}

/// Dumps in ascending order of creation time.
pub open spec fn sorted_by_created(s: Seq<DumpInList>) -> bool {
    forall|i: int, j: int| 0 <= i <= j < s.len() ==> s[i].created_at <= s[j].created_at
}

/// Sort the dumps ascending by creation time.
pub fn sort_dumps(dumps: Vec<DumpInList>) -> (r: Vec<DumpInList>)
    ensures
        sorted_by_created(r@),
        r@.to_multiset() == dumps@.to_multiset(),
{
    let ghost orig = dumps@;
    let mut src = dumps;
    let mut out: Vec<DumpInList> = Vec::new();
    proof {
        assert(out@.to_multiset().add(src@.to_multiset()) =~= orig.to_multiset());
    }
    while src.len() > 0
        invariant
            orig.to_multiset() == out@.to_multiset().add(src@.to_multiset()),
            sorted_by_created(out@),
            forall|a: int, b: int|
                0 <= a < out@.len() && 0 <= b < src@.len() ==> out@[a].created_at
                    <= src@[b].created_at,
        decreases src@.len(),
    {
        let n = src.len();
        let mut m: usize = 0;
        for k in 1..n
            invariant
                n == src@.len(),
                m < n,
                forall|q: int| 0 <= q < k ==> src@[m as int].created_at <= src@[q].created_at,
        {
            if src[k].created_at < src[m].created_at {
                m = k;
            }
        }
        let ghost prev_src = src@;
        let ghost prev_out = out@;
        let x = src.remove(m);
        out.push(x);
        proof {
            assert(src@ == prev_src.remove(m as int));
            assert(out@ == prev_out.push(prev_src[m as int]));
            assert(prev_src.contains(prev_src[m as int])) by {
                assert(prev_src[m as int] == prev_src[m as int]);
            }
            assert(src@.to_multiset() =~= prev_src.to_multiset().remove(prev_src[m as int]));
            assert(out@.to_multiset() =~= prev_out.to_multiset().insert(prev_src[m as int]));
            assert(prev_src.to_multiset().count(prev_src[m as int]) > 0);
            assert(out@.to_multiset().add(src@.to_multiset()) =~= prev_out.to_multiset().add(
                prev_src.to_multiset(),
            ));
            assert(forall|b: int|
                0 <= b < src@.len() ==> src@[b] == prev_src[m as int] || #[trigger] src@[b]
                    == prev_src[if b < m { b } else { b + 1 }]);
            assert(forall|a: int|
                0 <= a < prev_out.len() ==> #[trigger] out@[a] == prev_out[a]);
            assert(out@[prev_out.len() as int] == prev_src[m as int]);
        }
    }
    out
}

} // verus!
