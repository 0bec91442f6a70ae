//! The importer: turns the files of one dump into the exact sequence of
//! database operations that materializes them.
//!
//! The importer does not touch the database itself.  Given the dump's
//! files (name and gzipped bytes) and the schema catalogue, [`Importer::process`]
//! produces an [`ImportPlan`]: first the tables to drop, then one load
//! per file with its `CREATE`, and per row either a bare insert (for
//! volatile tables) or a delete-then-insert keyed by the id-like column.
//! The surrounding process executes the plan through an
//! [`crate::db_client::ImportDatabaseAdapter`], drops first, loads after.

use vstd::prelude::*;
use crate::api_client::{CanvasDataApiClient, ColumnDefinition, SchemaDefinition, TableDefinition,
    find_table_definition, find_table_spec};
use crate::db_client::pairs_view;
use crate::errors::ErrorKind;
use crate::settings::DatabaseType;
use crate::strings::{last_index_of_char, lemma_last_index_of_char, prefix_of, rfind_char,
    split_on_char, split_spec, str_eq, vec_contains_str};
use crate::type_converter::{convert_type_for_db, map_type_spec};
use vstd::string::StringExecFns;

verus! {

/// Whether a table's rows lack a stable single-column key, so that the
/// table must be dropped and rebuilt on each import.
pub open spec fn volatile_table_spec(name: Seq<char>) -> bool {
    ||| name == "module_completion_requirement_fact"@
    ||| name == "module_fact"@
    ||| name == "module_item_fact"@
    ||| name == "module_prerequisite_fact"@
    ||| name == "module_progression_completion_requirement_fact"@
    ||| name == "module_progression_fact"@
    ||| name == "quiz_fact"@
    ||| name == "quiz_question_answer_fact"@
    ||| name == "quiz_question_fact"@
    ||| name == "quiz_question_group_fact"@
    ||| name == "quiz_submission_fact"@
    ||| name == "quiz_submission_historical_fact"@
    ||| name == "module_completion_requirement_dim"@
    ||| name == "module_dim"@
    ||| name == "module_item_dim"@
    ||| name == "module_prerequisite_dim"@
    ||| name == "module_progression_completion_requirement_dim"@
    ||| name == "module_progression_dim"@
    ||| name == "quiz_dim"@
    ||| name == "quiz_question_answer_dim"@
    ||| name == "quiz_question_dim"@
    ||| name == "quiz_question_group_dim"@
    ||| name == "quiz_submission_dim"@
    ||| name == "quiz_submission_historical_dim"@
    ||| name == "submission_comment_participant_dim"@
    ||| name == "requests"@
    ||| name == "assignment_override_user_rollup_fact"@
    ||| name == "enrollment_rollup_dim"@
}

/// Decide whether a table is in the volatile set.
pub fn is_volatile_table(name: &str) -> (r: bool)
    ensures
        r == volatile_table_spec(name@),
{
    str_eq(name, "module_completion_requirement_fact") || str_eq(name, "module_fact") || str_eq(
        name,
        "module_item_fact",
    ) || str_eq(name, "module_prerequisite_fact") || str_eq(
        name,
        "module_progression_completion_requirement_fact",
    ) || str_eq(name, "module_progression_fact") || str_eq(name, "quiz_fact") || str_eq(
        name,
        "quiz_question_answer_fact",
    ) || str_eq(name, "quiz_question_fact") || str_eq(name, "quiz_question_group_fact") || str_eq(
        name,
        "quiz_submission_fact",
    ) || str_eq(name, "quiz_submission_historical_fact") || str_eq(
        name,
        "module_completion_requirement_dim",
    ) || str_eq(name, "module_dim") || str_eq(name, "module_item_dim") || str_eq(
        name,
        "module_prerequisite_dim",
    ) || str_eq(name, "module_progression_completion_requirement_dim") || str_eq(
        name,
        "module_progression_dim",
    ) || str_eq(name, "quiz_dim") || str_eq(name, "quiz_question_answer_dim") || str_eq(
        name,
        "quiz_question_dim",
    ) || str_eq(name, "quiz_question_group_dim") || str_eq(name, "quiz_submission_dim") || str_eq(
        name,
        "quiz_submission_historical_dim",
    ) || str_eq(name, "submission_comment_participant_dim") || str_eq(name, "requests") || str_eq(
        name,
        "assignment_override_user_rollup_fact",
    ) || str_eq(name, "enrollment_rollup_dim")
}

/// The pieces of a dump file name, or nothing when the name does not
/// follow the `<table>-<shard>-<hash>.<ext>` convention: exactly three
/// dash-separated segments, the third holding a dot.
pub open spec fn split_file_name(name: Seq<char>) -> Option<
    (Seq<char>, Seq<char>, Seq<char>, Seq<char>),
> {
    let parts = split_spec(name, '-');
    if parts.len() != 3 {
        None
    } else {
        let dots = split_spec(parts[2], '.');
        if dots.len() < 2 {
            None
        } else {
            Some((parts[0], parts[1], dots[0], dots[1]))
        }
    }
}

/// A dump file name taken apart.
pub struct FileNameSplit {
    /// The table this file belongs to.
    pub table_name: String,
    /// The shard part of the name.
    pub sharded_part: String,
    /// The hash part of the name.
    pub hash_part: String,
    /// The extension of the file.
    pub extension: String,
}

impl FileNameSplit {
    /// Take a downloaded file's name apart; names that do not follow
    /// the convention are ignored.
    pub fn new(split_from: String) -> (r: Option<Self>)
        ensures
            match r {
                Some(f) => split_file_name(split_from@) == Some(
                    (f.table_name@, f.sharded_part@, f.hash_part@, f.extension@),
                ),
                None => split_file_name(split_from@) is None,
            },
    {
        let parts = split_on_char(split_from.as_str(), '-');
        if parts.len() != 3 {
            return None;
        }
        let dots = split_on_char(parts[2].as_str(), '.');
        if dots.len() < 2 {
            return None;
        }
        proof {
            assert(parts.deep_view()[2] == parts@[2]@);
            assert(parts.deep_view()[0] == parts@[0]@);
            assert(parts.deep_view()[1] == parts@[1]@);
            assert(dots.deep_view()[0] == dots@[0]@);
            assert(dots.deep_view()[1] == dots@[1]@);
        }
        Some(
            FileNameSplit {
                table_name: parts[0].clone(),
                sharded_part: parts[1].clone(),
                hash_part: dots[0].clone(),
                extension: dots[1].clone(),
            },
        )
    }
}

/// What a gzip stream decodes to as UTF-8 text, when it decodes at all;
/// a function of the bytes alone.
pub uninterp spec fn gunzipped(data: Seq<u8>) -> Option<Seq<char>>;

/// Relies on flate2's GzDecoder, read to a string: whether the bytes
/// decode, and to what text, is a function of the bytes alone.
#[verifier::external_body]
fn gunzip_to_string(data: &Vec<u8>) -> (r: Result<String, ErrorKind>)
    ensures
        match r {
            Ok(s) => gunzipped(data@) == Some(s@),
            Err(e) => gunzipped(data@) is None && e == ErrorKind::ImportErr,
        },
{
    let mut decoder = flate2::read::GzDecoder::new(data.as_slice());
    let mut out = String::new();
    match std::io::Read::read_to_string(&mut decoder, &mut out) {
        Ok(_) => Ok(out),
        Err(_) => Err(ErrorKind::ImportErr),
    }
}

/// The column names of a table, in schema order.
pub open spec fn column_names_spec(cols: Seq<ColumnDefinition>) -> Seq<Seq<char>> {
    cols.map_values(|c: ColumnDefinition| c.name@)
}

/// Whether every column's vendor type has a backend mapping.
pub open spec fn all_types_valid(cols: Seq<ColumnDefinition>, db: DatabaseType) -> bool {
    forall|i: int|
        0 <= i < cols.len() ==> map_type_spec(#[trigger] cols[i].db_type@, db) is Some
}

/// Each column as a `(name, backend type)` pair, in schema order.
pub open spec fn typed_columns_spec(cols: Seq<ColumnDefinition>, db: DatabaseType) -> Seq<
    (Seq<char>, Seq<char>),
>
    recommends
        all_types_valid(cols, db),
{
    cols.map_values(
        |c: ColumnDefinition| (c.name@, map_type_spec(c.db_type@, db).unwrap()),
    )
}

/// The vendor type of the first column that has no backend mapping.
pub open spec fn first_invalid_type(cols: Seq<ColumnDefinition>, db: DatabaseType) -> Seq<char>
    decreases cols.len(),
{
    if cols.len() == 0 {
        Seq::<char>::empty()
    } else if map_type_spec(cols[0].db_type@, db) is None {
        cols[0].db_type@
    } else {
        first_invalid_type(cols.skip(1), db)
    }
}

proof fn lemma_first_invalid(cols: Seq<ColumnDefinition>, db: DatabaseType, i: int)
    requires
        0 <= i < cols.len(),
        forall|j: int| 0 <= j < i ==> map_type_spec(#[trigger] cols[j].db_type@, db) is Some,
        map_type_spec(cols[i].db_type@, db) is None,
    ensures
        first_invalid_type(cols, db) == cols[i].db_type@,
    decreases i,
{
    if i > 0 {
        assert(forall|j: int|
            0 <= j < i - 1 ==> cols.skip(1)[j] == #[trigger] cols[j + 1]);
        lemma_first_invalid(cols.skip(1), db, i - 1);
    }
}

/// The table information the importer needs: the column names in schema
/// order, and the `(name, backend type)` pairs in the same order.
pub fn get_table_info_from_def(table_def: &TableDefinition, db: DatabaseType) -> (r: Result<
    (Vec<String>, Vec<(String, String)>),
    ErrorKind,
>)
    ensures
        all_types_valid(table_def.columns@, db) ==> (r matches Ok(p) && p.0.deep_view()
            == column_names_spec(table_def.columns@) && pairs_view(p.1@) == typed_columns_spec(
            table_def.columns@,
            db,
        )),
        !all_types_valid(table_def.columns@, db) ==> (r matches Err(
            ErrorKind::InvalidTypeToConvert(t),
        ) && t@ == first_invalid_type(table_def.columns@, db)),
{
    let cols = &table_def.columns;
    let n = cols.len();
    let mut names: Vec<String> = Vec::new();
    let mut types: Vec<(String, String)> = Vec::new();
    for i in 0..n
        invariant
            n == cols@.len(),
            cols == table_def.columns,
            names@.len() == i,
            types@.len() == i,
            forall|j: int|
                0 <= j < i ==> map_type_spec(#[trigger] cols@[j].db_type@, db) is Some,
            forall|j: int| 0 <= j < i ==> #[trigger] names@[j]@ == cols@[j].name@,
            forall|j: int|
                0 <= j < i ==> (#[trigger] types@[j]).0@ == cols@[j].name@ && types@[j].1@
                    == map_type_spec(cols@[j].db_type@, db).unwrap(),
    {
        match convert_type_for_db(cols[i].db_type.clone(), db) {
            Ok(t) => {
                names.push(cols[i].name.clone());
                types.push((cols[i].name.clone(), t));
                proof {
                    assert(types@[i as int].0@ == cols@[i as int].name@);
                    assert(types@[i as int].1@ == map_type_spec(
                        cols@[i as int].db_type@,
                        db,
                    ).unwrap());
                }
            },
            Err(e) => {
                proof {
                    lemma_first_invalid(cols@, db, i as int);
                }
                return Err(e);
            },
        }
    }
    proof {
        assert(names.deep_view() =~= column_names_spec(cols@));
        assert(pairs_view(types@) =~= typed_columns_spec(cols@, db));
    }
    Ok((names, types))
}

/// The column name of each `(name, value)` pair of a row.
pub open spec fn row_keys(cols: Seq<(String, Option<String>)>) -> Seq<Seq<char>> {
    cols.map_values(|p: (String, Option<String>)| p.0@)
}

/// The id-like column of a table: `id` when present; else the table
/// name cut at its last underscore with `_id` appended, when such a
/// column exists; else the same one step shorter; else nothing.
pub open spec fn id_like_spec(table: Seq<char>, cols: Seq<Seq<char>>) -> Option<Seq<char>> {
    if cols.contains("id"@) {
        Some("id"@)
    } else {
        let u1 = last_index_of_char(table, '_');
        if u1 >= 0 {
            let c1 = table.take(u1) + "_id"@;
            if cols.contains(c1) {
                Some(c1)
            } else {
                let u2 = last_index_of_char(table.take(u1), '_');
                if u2 >= 0 {
                    let c2 = table.take(u1).take(u2) + "_id"@;
                    if cols.contains(c2) {
                        Some(c2)
                    } else {
                        None
                    }
                } else {
                    None
                }
            }
        } else {
            None
        }
    }
}

/// Find the id-like column among `names` for a table called `table`.
pub fn id_like_from_names(table: &str, names: &Vec<String>) -> (r: Option<String>)
    ensures
        match r {
            Some(c) => id_like_spec(table@, names.deep_view()) == Some(c@),
            None => id_like_spec(table@, names.deep_view()) is None,
        },
{
    if vec_contains_str(names, "id") {
        return Some("id".to_owned());
    }
    proof {
        lemma_last_index_of_char(table@, '_');
    }
    let u1 = match rfind_char(table, '_') {
        Some(u) => u,
        None => {
            return None;
        },
    };
    let mut c1 = prefix_of(table, u1);
    c1.append("_id");
    if vec_contains_str(names, c1.as_str()) {
        return Some(c1);
    }
    proof {
        lemma_last_index_of_char(table@.take(u1 as int), '_');
    }
    let t1 = prefix_of(table, u1);
    let u2 = match rfind_char(t1.as_str(), '_') {
        Some(u) => u,
        None => {
            return None;
        },
    };
    let mut c2 = prefix_of(t1.as_str(), u2);
    c2.append("_id");
    if vec_contains_str(names, c2.as_str()) {
        return Some(c2);
    }
    None
}

/// A parsed field: the literal `\N` denotes a null.
pub open spec fn parse_value(field: Seq<char>) -> Option<Seq<char>> {
    if field == "\\N"@ {
        None
    } else {
        Some(field)
    }
}

/// The values of one data line, aligned positionally with the first
/// `ncols` columns.
pub open spec fn row_values_spec(line: Seq<char>, ncols: int) -> Seq<Option<Seq<char>>>
    recommends
        split_spec(line, '\t').len() >= ncols,
{
    split_spec(line, '\t').take(ncols).map_values(|f: Seq<char>| parse_value(f))
}

/// The row values of each nonempty line, in file order.
pub open spec fn rows_of_lines(lines: Seq<Seq<char>>, ncols: int) -> Seq<Seq<Option<Seq<char>>>>
    decreases lines.len(),
{
    if lines.len() == 0 {
        Seq::<Seq<Option<Seq<char>>>>::empty()
    } else if lines[0].len() == 0 {
        rows_of_lines(lines.skip(1), ncols)
    } else {
        seq![row_values_spec(lines[0], ncols)] + rows_of_lines(lines.skip(1), ncols)
    }
}

/// Every nonempty line splits into at least `ncols` tab-separated fields.
pub open spec fn lines_ok(lines: Seq<Seq<char>>, ncols: int) -> bool {
    forall|i: int|
        0 <= i < lines.len() ==> ((#[trigger] lines[i]).len() == 0 || split_spec(lines[i], '\t').len()
            >= ncols)
}

/// First-match lookup of a row value by column name.
pub open spec fn row_value_lookup(
    names: Seq<Seq<char>>,
    values: Seq<Option<Seq<char>>>,
    key: Seq<char>,
) -> Option<Option<Seq<char>>>
    decreases names.len(),
{
    if names.len() == 0 || values.len() == 0 {
        None
    } else if names[0] == key {
        Some(values[0])
    } else {
        row_value_lookup(names.skip(1), values.skip(1), key)
    }
}

proof fn lemma_row_lookup_at(
    names: Seq<Seq<char>>,
    values: Seq<Option<Seq<char>>>,
    key: Seq<char>,
    i: int,
)
    requires
        values.len() == names.len(),
        0 <= i < names.len(),
        names[i] == key,
        forall|j: int| 0 <= j < i ==> names[j] != key,
    ensures
        row_value_lookup(names, values, key) == Some(values[i]),
    decreases i,
{
    if i > 0 {
        assert(forall|j: int| 0 <= j < i - 1 ==> names.skip(1)[j] == #[trigger] names[j + 1]);
        lemma_row_lookup_at(names.skip(1), values.skip(1), key, i - 1);
        assert(values.skip(1)[i - 1] == values[i]);
    }
}

/// Whether a row can be keyed for an upsert: the table has an id-like
/// column among `names` and this row's value for it is not null.
pub open spec fn row_keyed_ok(
    vals: Seq<Option<Seq<char>>>,
    table: Seq<char>,
    names: Seq<Seq<char>>,
) -> bool {
    match id_like_spec(table, names) {
        None => false,
        Some(c) => row_value_lookup(names, vals, c) matches Some(Some(_)),
    }
}

/// Whether this run treats the table as volatile: it is in the static
/// volatile set, or the whole run is volatile.
pub open spec fn file_volatile(table: Seq<char>, all_volatile: bool) -> bool {
    volatile_table_spec(table) || all_volatile
}

/// Whether one file's text can be turned into rows: every nonempty line
/// has enough fields, and, for a non-volatile table, every row carries a
/// non-null value under the table's id-like column.
pub open spec fn rows_buildable(
    text: Seq<char>,
    names: Seq<Seq<char>>,
    volatile: bool,
    table: Seq<char>,
) -> bool {
    let lines = split_spec(text, '\n');
    let rows = rows_of_lines(lines, names.len() as int);
    &&& lines_ok(lines, names.len() as int)
    &&& (volatile || forall|i: int|
        0 <= i < rows.len() ==> row_keyed_ok(#[trigger] rows[i], table, names))
}

/// One planned row: its values aligned with the load's column names,
/// and, for non-volatile tables, the delete that precedes its insert.
#[derive(Debug, PartialEq, Eq)]
pub struct RowPlan {
    /// The values of the row, in column order; `None` is a SQL null.
    pub values: Vec<Option<String>>,
    /// For a non-volatile table, the id-like column and this row's
    /// value for it, used to delete before inserting.
    pub delete_key: Option<(String, String)>,
}

/// The planned load of one file: create the table, then apply the rows
/// in file order.
#[derive(Debug, PartialEq, Eq)]
pub struct TableLoad {
    /// The table this file belongs to.
    pub table_name: String,
    /// The column names, in schema order.
    pub column_names: Vec<String>,
    /// The `(column name, backend type)` pairs, in schema order.
    pub column_types: Vec<(String, String)>,
    /// Whether the table is volatile for this run.
    pub volatile: bool,
    /// The rows of the file, in file order.
    pub rows: Vec<RowPlan>,
}

/// The full plan for one dump: the tables to drop, in first-encounter
/// order and each at most once, and then the per-file loads.  Whoever
/// executes the plan performs every drop before any load.
#[derive(Debug, PartialEq, Eq)]
pub struct ImportPlan {
    /// The tables to drop, each exactly once.
    pub drops: Vec<String>,
    /// One load per well-formed file, in file order.
    pub loads: Vec<TableLoad>,
}

/// How one planned row relates to the parsed values of its line.
pub open spec fn row_matches(
    row: RowPlan,
    vals: Seq<Option<Seq<char>>>,
    volatile: bool,
    table: Seq<char>,
    names: Seq<Seq<char>>,
) -> bool {
    &&& row.values.deep_view() == vals
    &&& match row.delete_key {
        None => volatile,
        Some(k) => {
            &&& !volatile
            &&& id_like_spec(table, names) == Some(k.0@)
            &&& row_value_lookup(names, vals, k.0@) == Some(Some(k.1@))
        },
    }
}

/// The values of each planned row.
pub open spec fn row_plans_values(rows: Seq<RowPlan>) -> Seq<Seq<Option<Seq<char>>>> {
    rows.map_values(|rp: RowPlan| rp.values.deep_view())
}

/// Turn one decoded file into planned rows.  Fails, with the umbrella
/// import error, exactly when the file is not buildable: a short line,
/// or, on a non-volatile table, a missing id-like column or a null id.
pub fn build_rows(text: &str, names: &Vec<String>, volatile: bool, table: &str) -> (r: Result<
    Vec<RowPlan>,
    ErrorKind,
>)
    ensures
        (r matches Ok(_)) <==> rows_buildable(text@, names.deep_view(), volatile, table@),
        r matches Ok(rp) ==> ({
            let rows = rows_of_lines(split_spec(text@, '\n'), names.deep_view().len() as int);
            &&& rp@.len() == rows.len()
            &&& forall|i: int|
                0 <= i < rows.len() ==> row_matches(
                    #[trigger] rp@[i],
                    rows[i],
                    volatile,
                    table@,
                    names.deep_view(),
                )
        }),
        r matches Err(e) ==> e == ErrorKind::ImportErr,
{
    let ghost names_dv = names.deep_view();
    let ghost ncols_i = names_dv.len() as int;
    let lines = split_on_char(text, '\n');
    let ghost lines_dv = lines.deep_view();
    let ghost all_rows = rows_of_lines(lines_dv, ncols_i);
    let ncols = names.len();
    let mut rows: Vec<RowPlan> = Vec::new();
    let nlines = lines.len();
    proof {
        assert(lines_dv.skip(0) =~= lines_dv);
        assert(row_plans_values(rows@) =~= Seq::<Seq<Option<Seq<char>>>>::empty());
    }
    for li in 0..nlines
        invariant
            nlines == lines@.len(),
            lines_dv == lines.deep_view(),
            lines_dv == split_spec(text@, '\n'),
            names_dv == names.deep_view(),
            ncols == names@.len(),
            ncols_i == names_dv.len() as int,
            all_rows == rows_of_lines(lines_dv, ncols_i),
            all_rows =~= row_plans_values(rows@) + rows_of_lines(lines_dv.skip(li as int), ncols_i),
            forall|k: int|
                0 <= k < lines_dv.len() && k < li ==> ((#[trigger] lines_dv[k]).len() == 0
                    || split_spec(lines_dv[k], '\t').len() >= ncols_i),
            forall|k: int|
                0 <= k < rows@.len() ==> row_matches(
                    #[trigger] rows@[k],
                    rows@[k].values.deep_view(),
                    volatile,
                    table@,
                    names_dv,
                ),
            forall|k: int|
                0 <= k < rows@.len() ==> row_plans_values(rows@)[k] == rows@[
                    k
                ].values.deep_view(),
    {
        proof {
            assert(lines_dv.skip(li as int)[0] == lines_dv[li as int]);
            assert(lines_dv.skip(li as int).skip(1) =~= lines_dv.skip(li + 1));
            assert(lines_dv[li as int] == lines@[li as int]@);
        }
        let line = &lines[li];
        if line.as_str().unicode_len() == 0 {
            proof {
                assert(rows_of_lines(lines_dv.skip(li as int), ncols_i) == rows_of_lines(
                    lines_dv.skip(li + 1),
                    ncols_i,
                ));
            }
        } else {
            let fields = split_on_char(line.as_str(), '\t');
            let ghost fields_dv = fields.deep_view();
            if fields.len() < ncols {
                proof {
                    assert(!lines_ok(lines_dv, ncols_i));
                }
                return Err(ErrorKind::ImportErr);
            }
            let mut values: Vec<Option<String>> = Vec::new();
            for j in 0..ncols
                invariant
                    ncols <= fields@.len(),
                    fields_dv == fields.deep_view(),
                    values@.len() == j,
                    forall|k: int|
                        0 <= k < j ==> (#[trigger] values@[k]).deep_view() == parse_value(
                            fields_dv[k],
                        ),
            {
                let fj = fields[j].clone();
                if str_eq(fj.as_str(), "\\N") {
                    values.push(None);
                    proof {
                        assert(values@[j as int] is None);
                    }
                } else {
                    values.push(Some(fj));
                    proof {
                        assert(values@[j as int] matches Some(s) && s@ == fields@[j as int]@);
                    }
                }
                proof {
                    assert(fields_dv[j as int] == fields@[j as int]@);
                    assert(values@[j as int].deep_view() == parse_value(fields_dv[j as int]));
                }
            }
            let ghost vals = values.deep_view();
            proof {
                assert forall|k: int| 0 <= k < ncols implies vals[k] == parse_value(
                    split_spec(lines_dv[li as int], '\t')[k],
                ) by {
                    assert(vals[k] == values@[k].deep_view());
                }
                assert(vals =~= row_values_spec(lines_dv[li as int], ncols_i));
                assert(rows_of_lines(lines_dv.skip(li as int), ncols_i) =~= seq![vals]
                    + rows_of_lines(lines_dv.skip(li + 1), ncols_i));
            }
            let delete_key: Option<(String, String)>;
            if volatile {
                delete_key = None;
            } else {
                let ghost row_index = row_plans_values(rows@).len() as int;
                proof {
                    assert(all_rows[row_index] == vals);
                }
                let id_col = match id_like_from_names(table, names) {
                    Some(c) => c,
                    None => {
                        proof {
                            assert(!row_keyed_ok(vals, table@, names_dv));
                        }
                        return Err(ErrorKind::ImportErr);
                    },
                };
                let ix = match first_index_of(names, id_col.as_str()) {
                    Some(ix) => ix,
                    None => {
                        proof {
                            assert(names_dv.contains(id_col@));
                            assert(false);
                        }
                        return Err(ErrorKind::ImportErr);
                    },
                };
                proof {
                    lemma_row_lookup_at(names_dv, vals, id_col@, ix as int);
                }
                match &values[ix] {
                    None => {
                        proof {
                            assert(vals[ix as int] is None);
                            assert(!row_keyed_ok(vals, table@, names_dv));
                        }
                        return Err(ErrorKind::ImportErr);
                    },
                    Some(v) => {
                        proof {
                            assert(vals[ix as int] == Some(v@));
                        }
                        delete_key = Some((id_col, v.clone()));
                    },
                }
            }
            let ghost prev = rows@;
            rows.push(RowPlan { values, delete_key });
            proof {
                assert(rows@.len() == prev.len() + 1);
                assert(rows@[prev.len() as int].values.deep_view() == vals);
                assert(row_plans_values(rows@) =~= row_plans_values(prev).push(vals));
                assert(row_matches(rows@[prev.len() as int], vals, volatile, table@, names_dv));
            }
        }
    }
    proof {
        assert(lines_dv.skip(nlines as int) =~= Seq::<Seq<char>>::empty());
        assert(all_rows =~= row_plans_values(rows@));
        assert(lines_ok(lines_dv, ncols_i));
        if !volatile {
            assert forall|i: int|
                0 <= i < all_rows.len() implies row_keyed_ok(
                #[trigger] all_rows[i],
                table@,
                names_dv,
            ) by {
                assert(row_matches(
                    rows@[i],
                    rows@[i].values.deep_view(),
                    volatile,
                    table@,
                    names_dv,
                ));
                assert(all_rows[i] == rows@[i].values.deep_view());
            }
        }
    }
    Ok(rows)
}

/// Find the first entry of `names` equal to `key`.
pub fn first_index_of(names: &Vec<String>, key: &str) -> (r: Option<usize>)
    ensures
        match r {
            Some(i) => i < names@.len() && names.deep_view()[i as int] == key@ && forall|j: int|
                0 <= j < i ==> names.deep_view()[j] != key@,
            None => !names.deep_view().contains(key@),
        },
{
    let n = names.len();
    for i in 0..n
        invariant
            n == names@.len(),
            forall|j: int| 0 <= j < i ==> names.deep_view()[j] != key@,
    {
        if str_eq(names[i].as_str(), key) {
            proof {
                assert(names.deep_view()[i as int] == names@[i as int]@);
            }
            return Some(i);
        }
        proof {
            assert(names.deep_view()[i as int] == names@[i as int]@);
        }
    }
    proof {
        if names.deep_view().contains(key@) {
            let j = choose|j: int|
                0 <= j < names.deep_view().len() && names.deep_view()[j] == key@;
            assert(names.deep_view()[j] != key@);
        }
    }
    None
}

/// One downloaded file of a dump: its name and its gzipped bytes.
pub struct DumpFile {
    /// The file's name, as the vendor named it.
    pub file_name: String,
    /// The file's gzip-compressed bytes.
    pub data: Vec<u8>,
}

/// Whether one file can be imported: its table is in the catalogue, its
/// column types map, its bytes decode, and its rows build.
pub open spec fn file_ok(
    schema: SchemaDefinition,
    table: Seq<char>,
    data: Seq<u8>,
    all_volatile: bool,
    db: DatabaseType,
) -> bool {
    &&& find_table_spec(schema.schema@, table) is Some
    &&& gunzipped(data) is Some
    &&& {
        let def = find_table_spec(schema.schema@, table).unwrap();
        &&& all_types_valid(def.columns@, db)
        &&& rows_buildable(
            gunzipped(data).unwrap(),
            column_names_spec(def.columns@),
            file_volatile(table, all_volatile),
            table,
        )
    }
}

/// Whether every well-formed file of the dump can be imported; files
/// whose names do not follow the convention are ignored.
pub open spec fn all_files_ok(
    files: Seq<DumpFile>,
    schema: SchemaDefinition,
    all_volatile: bool,
    db: DatabaseType,
) -> bool {
    forall|i: int|
        0 <= i < files.len() ==> match split_file_name((#[trigger] files[i]).file_name@) {
            None => true,
            Some(p) => file_ok(schema, p.0, files[i].data@, all_volatile, db),
        }
}

/// How one planned load relates to its file.
pub open spec fn load_matches(
    load: TableLoad,
    table: Seq<char>,
    schema: SchemaDefinition,
    data: Seq<u8>,
    all_volatile: bool,
    db: DatabaseType,
) -> bool
    recommends
        file_ok(schema, table, data, all_volatile, db),
{
    let def = find_table_spec(schema.schema@, table).unwrap();
    let names = column_names_spec(def.columns@);
    let vol = file_volatile(table, all_volatile);
    let rows = rows_of_lines(split_spec(gunzipped(data).unwrap(), '\n'), names.len() as int);
    &&& load.table_name@ == table
    &&& load.column_names.deep_view() == names
    &&& pairs_view(load.column_types@) == typed_columns_spec(def.columns@, db)
    &&& load.volatile == vol
    &&& load.rows@.len() == rows.len()
    &&& forall|i: int|
        0 <= i < rows.len() ==> row_matches(#[trigger] load.rows@[i], rows[i], vol, table, names)
}

/// How the whole list of planned loads relates to the dump's files:
/// one load per well-formed file, in file order.
pub open spec fn loads_match(
    loads: Seq<TableLoad>,
    files: Seq<DumpFile>,
    schema: SchemaDefinition,
    all_volatile: bool,
    db: DatabaseType,
) -> bool
    decreases files.len(),
{
    if files.len() == 0 {
        loads.len() == 0
    } else {
        match split_file_name(files[0].file_name@) {
            None => loads_match(loads, files.skip(1), schema, all_volatile, db),
            Some(p) => loads.len() > 0 && load_matches(
                loads[0],
                p.0,
                schema,
                files[0].data@,
                all_volatile,
                db,
            ) && loads_match(loads.skip(1), files.skip(1), schema, all_volatile, db),
        }
    }
}

proof fn lemma_loads_match_push_skip(
    loads: Seq<TableLoad>,
    files: Seq<DumpFile>,
    f: DumpFile,
    schema: SchemaDefinition,
    all_volatile: bool,
    db: DatabaseType,
)
    requires
        loads_match(loads, files, schema, all_volatile, db),
        split_file_name(f.file_name@) is None,
    ensures
        loads_match(loads, files.push(f), schema, all_volatile, db),
    decreases files.len(),
{
    let pushed = files.push(f);
    if files.len() == 0 {
        assert(pushed[0] == f);
        assert(pushed.skip(1) =~= files);
    } else {
        assert(pushed[0] == files[0]);
        assert(pushed.skip(1) =~= files.skip(1).push(f));
        match split_file_name(files[0].file_name@) {
            None => {
                lemma_loads_match_push_skip(loads, files.skip(1), f, schema, all_volatile, db);
            },
            Some(p) => {
                lemma_loads_match_push_skip(
                    loads.skip(1),
                    files.skip(1),
                    f,
                    schema,
                    all_volatile,
                    db,
                );
            },
        }
    }
}

proof fn lemma_loads_match_push_load(
    loads: Seq<TableLoad>,
    files: Seq<DumpFile>,
    f: DumpFile,
    l: TableLoad,
    schema: SchemaDefinition,
    all_volatile: bool,
    db: DatabaseType,
)
    requires
        loads_match(loads, files, schema, all_volatile, db),
        split_file_name(f.file_name@) is Some,
        load_matches(
            l,
            split_file_name(f.file_name@).unwrap().0,
            schema,
            f.data@,
            all_volatile,
            db,
        ),
    ensures
        loads_match(loads.push(l), files.push(f), schema, all_volatile, db),
    decreases files.len(),
{
    let pushed = files.push(f);
    if files.len() == 0 {
        assert(loads.len() == 0);
        assert(pushed[0] == f);
        assert(loads.push(l)[0] == l);
        assert(pushed.skip(1) =~= files);
        assert(loads.push(l).skip(1) =~= loads);
    } else {
        assert(pushed[0] == files[0]);
        assert(pushed.skip(1) =~= files.skip(1).push(f));
        match split_file_name(files[0].file_name@) {
            None => {
                lemma_loads_match_push_load(loads, files.skip(1), f, l, schema, all_volatile, db);
            },
            Some(p) => {
                assert(loads.push(l)[0] == loads[0]);
                assert(loads.push(l).skip(1) =~= loads.skip(1).push(l));
                lemma_loads_match_push_load(
                    loads.skip(1),
                    files.skip(1),
                    f,
                    l,
                    schema,
                    all_volatile,
                    db,
                );
            },
        }
    }
}

/// The table name of each well-formed file name, in file order, with
/// repetitions.
pub open spec fn parsed_tables(files: Seq<DumpFile>) -> Seq<Seq<char>>
    decreases files.len(),
{
    if files.len() == 0 {
        Seq::<Seq<char>>::empty()
    } else {
        match split_file_name(files[0].file_name@) {
            None => parsed_tables(files.skip(1)),
            Some(p) => seq![p.0] + parsed_tables(files.skip(1)),
        }
    }
}

/// The tables the drop phase drops, walking `tables` left to right:
/// each table that is volatile for this run, at its first occurrence
/// not already in `seen`.
pub open spec fn drops_rec(
    tables: Seq<Seq<char>>,
    all_volatile: bool,
    seen: Seq<Seq<char>>,
) -> Seq<Seq<char>>
    decreases tables.len(),
{
    if tables.len() == 0 {
        Seq::<Seq<char>>::empty()
    } else {
        let t = tables[0];
        if file_volatile(t, all_volatile) && !seen.contains(t) {
            seq![t] + drops_rec(tables.skip(1), all_volatile, seen.push(t))
        } else {
            drops_rec(tables.skip(1), all_volatile, seen)
        }
    }
}

/// The tables the drop phase drops, in first-encounter order.
pub open spec fn drops_spec(tables: Seq<Seq<char>>, all_volatile: bool) -> Seq<Seq<char>> {
    drops_rec(tables, all_volatile, Seq::<Seq<char>>::empty())
}

proof fn lemma_contains_unfold<A>(s: Seq<A>)
    requires
        s.len() > 0,
    ensures
        forall|x: A| #[trigger] s.contains(x) <==> (x == s[0] || s.skip(1).contains(x)),
{
    assert forall|x: A| #[trigger] s.contains(x) implies (x == s[0] || s.skip(1).contains(x)) by {
        let i = choose|i: int| 0 <= i < s.len() && s[i] == x;
        if i > 0 {
            assert(s.skip(1)[i - 1] == x);
        }
    }
    assert forall|x: A| (x == s[0] || s.skip(1).contains(x)) implies #[trigger] s.contains(x) by {
        if x == s[0] {
            assert(s[0] == x);
        } else {
            let i = choose|i: int| 0 <= i < s.skip(1).len() && s.skip(1)[i] == x;
            assert(s[i + 1] == x);
        }
    }
}

proof fn lemma_contains_push<A>(s: Seq<A>)
    ensures
        forall|x: A, y: A| #[trigger] s.push(y).contains(x) <==> (s.contains(x) || x == y),
{
    assert forall|x: A, y: A| #[trigger] s.push(y).contains(x) implies (s.contains(x) || x == y)
        by {
        let i = choose|i: int| 0 <= i < s.push(y).len() && s.push(y)[i] == x;
        if i < s.len() {
            assert(s[i] == x);
        }
    }
    assert forall|x: A, y: A| (s.contains(x) || x == y) implies #[trigger] s.push(y).contains(x)
        by {
        if s.contains(x) {
            let i = choose|i: int| 0 <= i < s.len() && s[i] == x;
            assert(s.push(y)[i] == x);
        } else {
            assert(s.push(y)[s.len() as int] == x);
        }
    }
}

proof fn lemma_drops_rec_membership(tables: Seq<Seq<char>>, all_volatile: bool, seen: Seq<Seq<char>>)
    ensures
        forall|t: Seq<char>|
            #[trigger] drops_rec(tables, all_volatile, seen).contains(t) <==> (file_volatile(
                t,
                all_volatile,
            ) && tables.contains(t) && !seen.contains(t)),
    decreases tables.len(),
{
    let d = drops_rec(tables, all_volatile, seen);
    if tables.len() == 0 {
        assert forall|t: Seq<char>| !(#[trigger] tables.contains(t)) by {
            if tables.contains(t) {
                let i = choose|i: int| 0 <= i < tables.len() && tables[i] == t;
            }
        }
        assert forall|t: Seq<char>| !(#[trigger] d.contains(t)) by {
            if d.contains(t) {
                let i = choose|i: int| 0 <= i < d.len() && d[i] == t;
            }
        }
    } else {
        let h = tables[0];
        lemma_contains_unfold(tables);
        if file_volatile(h, all_volatile) && !seen.contains(h) {
            let rest = drops_rec(tables.skip(1), all_volatile, seen.push(h));
            lemma_drops_rec_membership(tables.skip(1), all_volatile, seen.push(h));
            lemma_contains_push(seen);
            assert(d =~= seq![h] + rest);
            assert(d[0] == h);
            assert(d.skip(1) =~= rest);
            lemma_contains_unfold(d);
            assert forall|t: Seq<char>| #[trigger] d.contains(t) <==> (file_volatile(
                t,
                all_volatile,
            ) && tables.contains(t) && !seen.contains(t)) by {
                if d.contains(t) {
                    if t == h {
                        assert(tables[0] == t);
                        assert(tables.contains(t));
                    } else {
                        assert(rest.contains(t));
                        assert(!seen.push(h).contains(t));
                    }
                } else {
                    if file_volatile(t, all_volatile) && tables.contains(t) && !seen.contains(t) {
                        if t == h {
                            assert(d.contains(t));
                        } else {
                            assert(tables.skip(1).contains(t));
                            assert(!seen.push(h).contains(t));
                            assert(rest.contains(t));
                            assert(d.contains(t));
                        }
                    }
                }
            }
        } else {
            lemma_drops_rec_membership(tables.skip(1), all_volatile, seen);
            assert(d == drops_rec(tables.skip(1), all_volatile, seen));
            assert forall|t: Seq<char>| #[trigger] d.contains(t) <==> (file_volatile(
                t,
                all_volatile,
            ) && tables.contains(t) && !seen.contains(t)) by {
                if !(file_volatile(h, all_volatile)) {
                    if t == h {
                        assert(!file_volatile(t, all_volatile));
                    }
                } else {
                    if t == h {
                        assert(seen.contains(t));
                    }
                }
            }
        }
    }
}

/// No entry occurs twice.
pub open spec fn distinct_seq(s: Seq<Seq<char>>) -> bool {
    forall|i: int, j: int| 0 <= i < j < s.len() ==> s[i] != s[j]
}

/// No entry of `s` occurs in `seen`.
pub open spec fn none_in(s: Seq<Seq<char>>, seen: Seq<Seq<char>>) -> bool {
    forall|i: int| 0 <= i < s.len() ==> !seen.contains(#[trigger] s[i])
}

proof fn lemma_drops_rec_nodup(tables: Seq<Seq<char>>, all_volatile: bool, seen: Seq<Seq<char>>)
    ensures
        distinct_seq(drops_rec(tables, all_volatile, seen)),
        none_in(drops_rec(tables, all_volatile, seen), seen),
    decreases tables.len(),
{
    if tables.len() == 0 {
    } else {
        let h = tables[0];
        let d = drops_rec(tables, all_volatile, seen);
        if file_volatile(h, all_volatile) && !seen.contains(h) {
            let rest = drops_rec(tables.skip(1), all_volatile, seen.push(h));
            lemma_drops_rec_nodup(tables.skip(1), all_volatile, seen.push(h));
            lemma_contains_push(seen);
            assert(d =~= seq![h] + rest);
            assert(d[0] == h);
            assert(forall|k: int| 0 <= k < rest.len() ==> d[k + 1] == #[trigger] rest[k]);
            assert forall|i: int, j: int| 0 <= i < j < d.len() implies d[i] != d[j] by {
                if i == 0 {
                    assert(d[j] == rest[j - 1]);
                    assert(!seen.push(h).contains(rest[j - 1]));
                    assert(rest[j - 1] != h);
                } else {
                    assert(d[i] == rest[i - 1]);
                    assert(d[j] == rest[j - 1]);
                }
            }
            assert forall|i: int| 0 <= i < d.len() implies !seen.contains(#[trigger] d[i]) by {
                if i > 0 {
                    assert(d[i] == rest[i - 1]);
                    assert(!seen.push(h).contains(rest[i - 1]));
                }
            }
            assert(distinct_seq(d));
            assert(none_in(d, seen));
        } else {
            lemma_drops_rec_nodup(tables.skip(1), all_volatile, seen);
        }
    }
}

/// Law: the drop phase drops each table of the run's volatile set that
/// occurs among the dump's files — and no other — exactly once; and the
/// plan puts every drop before every load.
pub proof fn lemma_drop_phase_once(tables: Seq<Seq<char>>, all_volatile: bool)
    ensures
        forall|t: Seq<char>|
            #[trigger] drops_spec(tables, all_volatile).contains(t) <==> (file_volatile(
                t,
                all_volatile,
            ) && tables.contains(t)),
        distinct_seq(drops_spec(tables, all_volatile)),
{
    lemma_drops_rec_membership(tables, all_volatile, Seq::<Seq<char>>::empty());
    lemma_drops_rec_nodup(tables, all_volatile, Seq::<Seq<char>>::empty());
    assert forall|t: Seq<char>| !(#[trigger] Seq::<Seq<char>>::empty().contains(t)) by {
        if Seq::<Seq<char>>::empty().contains(t) {
            let i = choose|i: int|
                0 <= i < Seq::<Seq<char>>::empty().len() && Seq::<Seq<char>>::empty()[i] == t;
        }
    }
}

/// Law: every row of a non-volatile load is preceded by a delete keyed
/// by the table's resolved id-like column and that row's value for it.
pub proof fn lemma_upsert_has_delete(
    load: TableLoad,
    table: Seq<char>,
    schema: SchemaDefinition,
    data: Seq<u8>,
    all_volatile: bool,
    db: DatabaseType,
)
    requires
        load_matches(load, table, schema, data, all_volatile, db),
        !load.volatile,
    ensures
        forall|i: int|
            0 <= i < load.rows@.len() ==> ((#[trigger] load.rows@[i]).delete_key matches Some(k)
                && id_like_spec(
                table,
                column_names_spec(
                    find_table_spec(schema.schema@, table).unwrap().columns@,
                ),
            ) == Some(k.0@) && row_value_lookup(
                column_names_spec(find_table_spec(schema.schema@, table).unwrap().columns@),
                load.rows@[i].values.deep_view(),
                k.0@,
            ) == Some(Some(k.1@))),
{
    let def = find_table_spec(schema.schema@, table).unwrap();
    let names = column_names_spec(def.columns@);
    let rows = rows_of_lines(split_spec(gunzipped(data).unwrap(), '\n'), names.len() as int);
    assert forall|i: int| 0 <= i < load.rows@.len() implies ((#[trigger] load.rows@[
        i
    ]).delete_key matches Some(k) && id_like_spec(table, names) == Some(k.0@) && row_value_lookup(
        names,
        load.rows@[i].values.deep_view(),
        k.0@,
    ) == Some(Some(k.1@))) by {
        assert(row_matches(load.rows@[i], rows[i], load.volatile, table, names));
    }
}

/// Law: when the whole run is volatile — as it is after a schema-version
/// change — every planned load is volatile, so every table touched is
/// dropped and rebuilt.
pub proof fn lemma_all_volatile_loads(
    loads: Seq<TableLoad>,
    files: Seq<DumpFile>,
    schema: SchemaDefinition,
    db: DatabaseType,
)
    requires
        loads_match(loads, files, schema, true, db),
    ensures
        forall|i: int| 0 <= i < loads.len() ==> (#[trigger] loads[i]).volatile,
    decreases files.len(),
{
    if files.len() == 0 {
    } else {
        match split_file_name(files[0].file_name@) {
            None => {
                lemma_all_volatile_loads(loads, files.skip(1), schema, db);
            },
            Some(p) => {
                lemma_all_volatile_loads(loads.skip(1), files.skip(1), schema, db);
                assert(loads[0].volatile);
                assert forall|i: int| 0 <= i < loads.len() implies (#[trigger] loads[i]).volatile
                    by {
                    if i > 0 {
                        assert(loads[i] == loads.skip(1)[i - 1]);
                    }
                }
            },
        }
    }
}

/// The root importer object for one dump.
pub struct Importer {
    /// The Canvas Data API client (credentials and save root).
    pub api_client: CanvasDataApiClient,
    /// The dump to process.
    pub dump_id: String,
    /// The directory under which dump files are saved.
    pub save_location: String,
    /// The backend the plan is built for.
    pub db_type: DatabaseType,
}

impl Importer {
    /// Create an importer for one dump.
    pub fn new(
        api_client: CanvasDataApiClient,
        db_type: DatabaseType,
        dump_id: String,
        save_location: String,
    ) -> (r: Self)
        ensures
            r.api_client == api_client,
            r.db_type == db_type,
            r.dump_id == dump_id,
            r.save_location == save_location,
    {
        Importer { api_client, dump_id, save_location, db_type }
    }

    /// The table information needed for this importer's backend: the
    /// column names and the `(name, backend type)` pairs, both in
    /// schema order.
    pub fn get_table_info_from_def(&self, table_def: &TableDefinition) -> (r: Result<
        (Vec<String>, Vec<(String, String)>),
        ErrorKind,
    >)
        ensures
            all_types_valid(table_def.columns@, self.db_type) ==> (r matches Ok(p)
                && p.0.deep_view() == column_names_spec(table_def.columns@) && pairs_view(p.1@)
                == typed_columns_spec(table_def.columns@, self.db_type)),
            !all_types_valid(table_def.columns@, self.db_type) ==> (r matches Err(
                ErrorKind::InvalidTypeToConvert(t),
            ) && t@ == first_invalid_type(table_def.columns@, self.db_type)),
    {
        get_table_info_from_def(table_def, self.db_type)
    }

    /// Guess the primary-key-like column for a table from its row's
    /// column names.
    pub fn get_id_like_column_from_columns(
        &self,
        table_name: String,
        columns: &Vec<(String, Option<String>)>,
    ) -> (r: Option<String>)
        ensures
            match r {
                Some(c) => id_like_spec(table_name@, row_keys(columns@)) == Some(c@),
                None => id_like_spec(table_name@, row_keys(columns@)) is None,
            },
    {
        let mut names: Vec<String> = Vec::new();
        let n = columns.len();
        for i in 0..n
            invariant
                n == columns@.len(),
                names@.len() == i,
                forall|j: int| 0 <= j < i ==> #[trigger] names@[j]@ == columns@[j].0@,
        {
            names.push(columns[i].0.clone());
        }
        proof {
            assert(names.deep_view() =~= row_keys(columns@));
        }
        id_like_from_names(table_name.as_str(), &names)
    }

    /// Turn the dump's files into an import plan: the volatile tables to
    /// drop, each once, and one load per well-formed file.  Fails, with
    /// the umbrella import error, exactly when some well-formed file
    /// cannot be imported.
    pub fn process(
        &self,
        files: &Vec<DumpFile>,
        schema: &SchemaDefinition,
        is_all_volatile: bool,
    ) -> (r: Result<ImportPlan, ErrorKind>)
        ensures
            (r matches Ok(_)) <==> all_files_ok(files@, *schema, is_all_volatile, self.db_type),
            r matches Ok(plan) ==> plan.drops.deep_view() == drops_spec(
                parsed_tables(files@),
                is_all_volatile,
            ),
            r matches Ok(plan) ==> loads_match(
                plan.loads@,
                files@,
                *schema,
                is_all_volatile,
                self.db_type,
            ),
            r matches Err(e) ==> e == ErrorKind::ImportErr,
    {
        let n = files.len();
        let mut drops: Vec<String> = Vec::new();
        proof {
            assert(files@.skip(0) =~= files@);
            assert(drops.deep_view() =~= Seq::<Seq<char>>::empty());
        }
        for i in 0..n
            invariant
                n == files@.len(),
                drops_spec(parsed_tables(files@), is_all_volatile) =~= drops.deep_view()
                    + drops_rec(
                    parsed_tables(files@.skip(i as int)),
                    is_all_volatile,
                    drops.deep_view(),
                ),
        {
            proof {
                assert(files@.skip(i as int)[0] == files@[i as int]);
                assert(files@.skip(i as int).skip(1) =~= files@.skip(i + 1));
            }
            let ghost pt = parsed_tables(files@.skip(i as int));
            match FileNameSplit::new(files[i].file_name.clone()) {
                None => {
                    proof {
                        assert(pt == parsed_tables(files@.skip(i + 1)));
                    }
                },
                Some(split) => {
                    let ghost t0 = split.table_name@;
                    proof {
                        assert(pt =~= seq![t0] + parsed_tables(files@.skip(i + 1)));
                        assert(pt[0] == t0);
                        assert(pt.skip(1) =~= parsed_tables(files@.skip(i + 1)));
                    }
                    if is_volatile_table(split.table_name.as_str()) || is_all_volatile {
                        if !vec_contains_str(&drops, split.table_name.as_str()) {
                            let ghost prev = drops.deep_view();
                            drops.push(split.table_name);
                            proof {
                                assert(drops.deep_view() =~= prev.push(t0));
                            }
                        }
                    }
                },
            }
        }
        proof {
            assert(files@.skip(n as int) =~= Seq::<DumpFile>::empty());
            assert(parsed_tables(Seq::<DumpFile>::empty()) =~= Seq::<Seq<char>>::empty());
            assert(drops_spec(parsed_tables(files@), is_all_volatile) =~= drops.deep_view());
        }
        let mut loads: Vec<TableLoad> = Vec::new();
        proof {
            assert(files@.take(0) =~= Seq::<DumpFile>::empty());
        }
        for i in 0..n
            invariant
                n == files@.len(),
                drops_spec(parsed_tables(files@), is_all_volatile) == drops.deep_view(),
                loads_match(
                    loads@,
                    files@.take(i as int),
                    *schema,
                    is_all_volatile,
                    self.db_type,
                ),
                forall|j: int|
                    0 <= j < i ==> match split_file_name((#[trigger] files@[j]).file_name@) {
                        None => true,
                        Some(p) => file_ok(
                            *schema,
                            p.0,
                            files@[j].data@,
                            is_all_volatile,
                            self.db_type,
                        ),
                    },
        {
            proof {
                assert(files@.take(i + 1) =~= files@.take(i as int).push(files@[i as int]));
            }
            match FileNameSplit::new(files[i].file_name.clone()) {
                None => {
                    proof {
                        lemma_loads_match_push_skip(
                            loads@,
                            files@.take(i as int),
                            files@[i as int],
                            *schema,
                            is_all_volatile,
                            self.db_type,
                        );
                    }
                },
                Some(split) => {
                    let table = split.table_name;
                    let def = match find_table_definition(schema, table.as_str()) {
                        Some(d) => d,
                        None => {
                            return Err(ErrorKind::ImportErr);
                        },
                    };
                    let info = match get_table_info_from_def(def, self.db_type) {
                        Ok(p) => p,
                        Err(_) => {
                            return Err(ErrorKind::ImportErr);
                        },
                    };
                    let (names, types) = info;
                    let text = match gunzip_to_string(&files[i].data) {
                        Ok(s) => s,
                        Err(_) => {
                            return Err(ErrorKind::ImportErr);
                        },
                    };
                    let volatile = is_volatile_table(table.as_str()) || is_all_volatile;
                    let rows = match build_rows(text.as_str(), &names, volatile, table.as_str()) {
                        Ok(r) => r,
                        Err(_) => {
                            return Err(ErrorKind::ImportErr);
                        },
                    };
                    let load = TableLoad {
                        table_name: table,
                        column_names: names,
                        column_types: types,
                        volatile,
                        rows,
                    };
                    let ghost prev_loads = loads@;
                    loads.push(load);
                    proof {
                        let p0 = split_file_name(files@[i as int].file_name@).unwrap().0;
                        assert(file_ok(
                            *schema,
                            p0,
                            files@[i as int].data@,
                            is_all_volatile,
                            self.db_type,
                        ));
                        assert(loads@[prev_loads.len() as int] == load);
                        assert(load_matches(
                            load,
                            p0,
                            *schema,
                            files@[i as int].data@,
                            is_all_volatile,
                            self.db_type,
                        ));
                        lemma_loads_match_push_load(
                            prev_loads,
                            files@.take(i as int),
                            files@[i as int],
                            load,
                            *schema,
                            is_all_volatile,
                            self.db_type,
                        );
                    }
                },
            }
        }
        proof {
            assert(files@.take(n as int) =~= files@);
        }
        Ok(ImportPlan { drops, loads })
    }
}

/// The columns of one planned row, as ordered `(name, value)` pairs
/// ready for the insert: the load's column names, in schema order, each
/// with this row's value.
impl TableLoad {
    pub fn row_columns(&self, i: usize) -> (r: Vec<(String, Option<String>)>)
        requires
            i < self.rows@.len(),
            self.rows@[i as int].values@.len() == self.column_names@.len(),
        ensures
            r@.len() == self.column_names@.len(),
            forall|k: int|
                0 <= k < r@.len() ==> (#[trigger] r@[k]).0 == self.column_names@[k] && r@[
                    k
                ].1.deep_view() == self.rows@[i as int].values@[k].deep_view(),
    {
        let row = &self.rows[i];
        let n = self.column_names.len();
        let mut out: Vec<(String, Option<String>)> = Vec::new();
        for k in 0..n
            invariant
                n == self.column_names@.len(),
                row == self.rows@[i as int],
                row.values@.len() == n,
                out@.len() == k,
                forall|m: int|
                    0 <= m < k ==> (#[trigger] out@[m]).0 == self.column_names@[m] && out@[
                        m
                    ].1.deep_view() == row.values@[m].deep_view(),
        {
            match &row.values[k] {
                None => {
                    out.push((self.column_names[k].clone(), None));
                },
                Some(v) => {
                    out.push((self.column_names[k].clone(), Some(v.clone())));
                },
            }
            proof {
                assert(out@[k as int].0 == self.column_names@[k as int]);
                assert(out@[k as int].1.deep_view() == row.values@[k as int].deep_view());
            }
        }
        out
    }
}

/// Law: the column list of every generated `INSERT` follows the row's
/// column order: for a row whose pairs carry the schema's column names
/// in schema order, the statement's name part is exactly those names,
/// rewritten for the backend, joined in the same order.
pub proof fn lemma_insert_column_order(
    cols: Seq<(Seq<char>, Option<Seq<char>>)>,
    names: Seq<Seq<char>>,
    db: DatabaseType,
)
    requires
        cols.len() == names.len(),
        forall|k: int| 0 <= k < cols.len() ==> (#[trigger] cols[k]).0 == names[k],
    ensures
        crate::db_client::row_names(cols, db) =~= names.map_values(
            |nm: Seq<char>| crate::db_client::rewrite_col(nm, db),
        ),
{
}

} // verus!
