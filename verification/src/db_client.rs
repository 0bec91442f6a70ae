//! The database side of the importer: the adapter contract every backend
//! satisfies, and the construction of each SQL statement the loader runs.
//!
//! Statement construction is exact: every builder's contract gives the
//! full text of the statement.  A process that owns real connections
//! implements [`ImportDatabaseAdapter`] by executing these statements.

use vstd::prelude::*;
use vstd::string::StringExecFns;
use crate::errors::ErrorKind;
use crate::settings::DatabaseType;
use crate::strings::{join_spec, lemma_join_push, replace_all, replace_spec, strip_quotes,
    str_eq, without_quotes};
use crate::type_converter::{cast_spec, get_cast_as};

verus! {

/// Something the importer can use to talk to the database.
///
/// Implementations hold real connections, so they live outside this
/// crate; the importer only ever hands them statements whose text is
/// pinned by the builders below.
pub trait ImportDatabaseAdapter {
    /// The kind of database behind this adapter.
    fn get_db_type(&self) -> DatabaseType;

    /// Drop the table if it exists.
    fn drop_table(&self, table_name: String) -> Result<(), ErrorKind>;

    /// Create the table if it does not exist, with the given ordered
    /// `(column name, column type)` pairs.
    fn create_table(&self, table_name: String, columns: Vec<(String, String)>) -> Result<
        (),
        ErrorKind,
    >;

    /// Delete the rows whose `column_name` equals `value`.
    fn drop_record(
        &self,
        table_name: String,
        column_types: Vec<(String, String)>,
        column_name: String,
        value: String,
    ) -> Result<(), ErrorKind>;

    /// Insert one row, given as ordered `(column name, value)` pairs.
    fn insert_record(
        &self,
        table_name: String,
        column_types: Vec<(String, String)>,
        columns: Vec<(String, Option<String>)>,
    ) -> Result<(), ErrorKind>;
}

/// The characters of each side of a sequence of string pairs.
pub open spec fn pairs_view(v: Seq<(String, String)>) -> Seq<(Seq<char>, Seq<char>)> {
    v.map_values(|p: (String, String)| (p.0@, p.1@))
}

/// The characters of each name and optional value of a row.
pub open spec fn row_view(v: Seq<(String, Option<String>)>) -> Seq<(Seq<char>, Option<Seq<char>>)> {
    v.map_values(
        |p: (String, Option<String>)|
            (
                p.0@,
                match p.1 {
                    Some(s) => Some(s@),
                    None => None,
                },
            ),
    )
}

/// A column name with reserved words avoided: `default` becomes
/// `_default` on both backends, and `generated` becomes `_generated`
/// on MySQL.
pub open spec fn rewrite_col(name: Seq<char>, db: DatabaseType) -> Seq<char> {
    if db == DatabaseType::Psql {
        replace_spec(name, "default"@, "_default"@)
    } else {
        replace_spec(replace_spec(name, "default"@, "_default"@), "generated"@, "_generated"@)
    }
}

/// Rewrite a column name so it avoids the backend's reserved words.
pub fn rewrite_column_name(name: &str, db: DatabaseType) -> (r: String)
    ensures
        r@ == rewrite_col(name@, db),
{
    proof {
        reveal_strlit("default");
        reveal_strlit("generated");
    }
    let once = replace_all(name, "default", "_default");
    match db {
        DatabaseType::Psql => once,
        DatabaseType::Mysql => replace_all(once.as_str(), "generated", "_generated"),
    }
}

/// The statement that drops a table if it exists.
pub open spec fn drop_table_spec(t: Seq<char>) -> Seq<char> {
    "DROP TABLE IF EXISTS "@ + t
}

/// Build the `DROP TABLE IF EXISTS` statement.
pub fn drop_table_statement(table_name: &str) -> (r: String)
    ensures
        r@ == drop_table_spec(table_name@),
{
    let mut s = "DROP TABLE IF EXISTS ".to_owned();
    s.append(table_name);
    s
}

/// One `name type` entry of a `CREATE TABLE` column list.
pub open spec fn create_entries(cols: Seq<(Seq<char>, Seq<char>)>, db: DatabaseType) -> Seq<
    Seq<char>,
> {
    cols.map_values(|c: (Seq<char>, Seq<char>)| rewrite_col(c.0, db) + " "@ + c.1)
}

/// The full `CREATE TABLE IF NOT EXISTS` statement: the columns in the
/// given order, joined by `,\n`, and on MySQL the character-set suffix.
pub open spec fn create_table_spec(
    t: Seq<char>,
    cols: Seq<(Seq<char>, Seq<char>)>,
    db: DatabaseType,
) -> Seq<char> {
    "CREATE TABLE IF NOT EXISTS "@ + t + " ("@ + join_spec(create_entries(cols, db), ",\n"@) + (
    if db == DatabaseType::Psql {
        ")"@
    } else {
        ") CHARACTER SET utf8mb4"@
    })
}

/// Build the `CREATE TABLE IF NOT EXISTS` statement.
pub fn create_table_statement(
    table_name: &str,
    columns: &Vec<(String, String)>,
    db: DatabaseType,
) -> (r: String)
    ensures
        r@ == create_table_spec(table_name@, pairs_view(columns@), db),
{
    let ghost es = create_entries(pairs_view(columns@), db);
    let mut cols_part = String::new();
    let n = columns.len();
    for i in 0..n
        invariant
            n == columns@.len(),
            es == create_entries(pairs_view(columns@), db),
            es.len() == n,
            cols_part@ == join_spec(es.take(i as int), ",\n"@),
    {
        if i > 0 {
            cols_part.append(",\n");
        }
        let name = rewrite_column_name(columns[i].0.as_str(), db);
        cols_part.append(name.as_str());
        cols_part.append(" ");
        cols_part.append(columns[i].1.as_str());
        proof {
            assert(es.take(i + 1) =~= es.take(i as int).push(es[i as int]));
            lemma_join_push(es.take(i as int), ",\n"@, es[i as int]);
            assert(es[i as int] == rewrite_col(columns@[i as int].0@, db) + " "@
                + columns@[i as int].1@);
        }
    }
    proof {
        assert(es.take(n as int) =~= es);
    }
    let mut s = "CREATE TABLE IF NOT EXISTS ".to_owned();
    s.append(table_name);
    s.append(" (");
    s.append(cols_part.as_str());
    match db {
        DatabaseType::Psql => s.append(")"),
        DatabaseType::Mysql => s.append(") CHARACTER SET utf8mb4"),
    }
    s
}

/// The type recorded for a column name, searching in order.
pub open spec fn lookup_spec(types: Seq<(Seq<char>, Seq<char>)>, key: Seq<char>) -> Option<
    Seq<char>,
>
    decreases types.len(),
{
    if types.len() == 0 {
        None
    } else if types[0].0 == key {
        Some(types[0].1)
    } else {
        lookup_spec(types.skip(1), key)
    }
}

/// Find the type recorded for a column name.
pub fn lookup_type(types: &Vec<(String, String)>, key: &str) -> (r: Option<String>)
    ensures
        match r {
            Some(t) => lookup_spec(pairs_view(types@), key@) == Some(t@),
            None => lookup_spec(pairs_view(types@), key@) is None,
        },
{
    let ghost tv = pairs_view(types@);
    let n = types.len();
    proof {
        assert(tv.skip(0) =~= tv);
    }
    for i in 0..n
        invariant
            n == types@.len(),
            tv == pairs_view(types@),
            lookup_spec(tv, key@) == lookup_spec(tv.skip(i as int), key@),
    {
        proof {
            assert(tv.skip(i as int)[0] == tv[i as int]);
            assert(tv.skip(i as int).skip(1) =~= tv.skip(i + 1));
        }
        if str_eq(types[i].0.as_str(), key) {
            return Some(types[i].1.clone());
        }
    }
    proof {
        assert(tv.skip(n as int) =~= Seq::<(Seq<char>, Seq<char>)>::empty());
    }
    None
}

/// The literal a value is written as in a statement: `NULL` for a null,
/// otherwise the value with quotes stripped, wrapped in single quotes,
/// and cast when the column's type asks for one.
pub open spec fn value_literal_spec(
    v: Option<Seq<char>>,
    ty: Seq<char>,
    db: DatabaseType,
) -> Seq<char> {
    match v {
        None => "NULL"@,
        Some(s) => {
            let w = without_quotes(s);
            let cast = cast_spec(ty, db);
            if cast.len() == 0 {
                "'"@ + w + "'"@
            } else if db == DatabaseType::Psql {
                "'"@ + w + "'::"@ + cast
            } else {
                "CAST('"@ + w + "' AS "@ + cast + ")"@
            }
        },
    }
}

/// Render one value as the literal used in a statement.
pub fn value_literal(v: &Option<String>, ty: &str, db: DatabaseType) -> (r: String)
    ensures
        r@ == value_literal_spec(
            match v {
                Some(s) => Some(s@),
                None => None,
            },
            ty@,
            db,
        ),
{
    match v {
        None => "NULL".to_owned(),
        Some(s) => {
            let w = strip_quotes(s.as_str());
            let cast = get_cast_as(ty.to_owned(), db);
            if cast.as_str().unicode_len() == 0 {
                let mut out = "'".to_owned();
                out.append(w.as_str());
                out.append("'");
                out
            } else {
                match db {
                    DatabaseType::Psql => {
                        let mut out = "'".to_owned();
                        out.append(w.as_str());
                        out.append("'::");
                        out.append(cast.as_str());
                        out
                    },
                    DatabaseType::Mysql => {
                        let mut out = "CAST('".to_owned();
                        out.append(w.as_str());
                        out.append("' AS ");
                        out.append(cast.as_str());
                        out.append(")");
                        out
                    },
                }
            }
        },
    }
}

/// The full `DELETE` statement for the rows whose `col` equals `value`.
pub open spec fn drop_record_spec(
    t: Seq<char>,
    types: Seq<(Seq<char>, Seq<char>)>,
    col: Seq<char>,
    value: Seq<char>,
    db: DatabaseType,
) -> Seq<char>
    recommends
        lookup_spec(types, col) is Some,
{
    "DELETE FROM "@ + t + " WHERE "@ + col + " = "@ + value_literal_spec(
        Some(value),
        lookup_spec(types, col).unwrap(),
        db,
    )
}

/// Build the `DELETE` statement used for idempotent upserts.
pub fn drop_record_statement(
    table_name: &str,
    column_types: &Vec<(String, String)>,
    column_name: &str,
    value: &str,
    db: DatabaseType,
) -> (r: String)
    requires
        lookup_spec(pairs_view(column_types@), column_name@) is Some,
    ensures
        r@ == drop_record_spec(table_name@, pairs_view(column_types@), column_name@, value@, db),
{
    let ty = lookup_type(column_types, column_name).unwrap();
    let lit = value_literal(&Some(value.to_owned()), ty.as_str(), db);
    let mut s = "DELETE FROM ".to_owned();
    s.append(table_name);
    s.append(" WHERE ");
    s.append(column_name);
    s.append(" = ");
    s.append(lit.as_str());
    s
}

/// The literal of each value of a row, in row order, with each column's
/// type looked up by name.
pub open spec fn row_literals(
    cols: Seq<(Seq<char>, Option<Seq<char>>)>,
    types: Seq<(Seq<char>, Seq<char>)>,
    db: DatabaseType,
) -> Seq<Seq<char>> {
    cols.map_values(
        |c: (Seq<char>, Option<Seq<char>>)|
            value_literal_spec(c.1, lookup_spec(types, c.0).unwrap(), db),
    )
}

/// The rewritten name of each column of a row, in row order.
pub open spec fn row_names(cols: Seq<(Seq<char>, Option<Seq<char>>)>, db: DatabaseType) -> Seq<
    Seq<char>,
> {
    cols.map_values(|c: (Seq<char>, Option<Seq<char>>)| rewrite_col(c.0, db))
}

/// The full `INSERT` statement for one row: column names in the given
/// order, then the value literals in the same order.
pub open spec fn insert_record_spec(
    t: Seq<char>,
    cols: Seq<(Seq<char>, Option<Seq<char>>)>,
    types: Seq<(Seq<char>, Seq<char>)>,
    db: DatabaseType,
) -> Seq<char> {
    "INSERT INTO "@ + t + " ("@ + join_spec(row_names(cols, db), ","@) + ") VALUES ("@
        + join_spec(row_literals(cols, types, db), ","@) + ")"@
}

/// Build the `INSERT` statement for one row.
pub fn insert_record_statement(
    table_name: &str,
    column_types: &Vec<(String, String)>,
    columns: &Vec<(String, Option<String>)>,
    db: DatabaseType,
) -> (r: String)
    requires
        forall|i: int|
            0 <= i < columns@.len() ==> lookup_spec(
                pairs_view(column_types@),
                #[trigger] row_view(columns@)[i].0,
            ) is Some,
    ensures
        r@ == insert_record_spec(table_name@, row_view(columns@), pairs_view(column_types@), db),
{
    let ghost cv = row_view(columns@);
    let ghost tv = pairs_view(column_types@);
    let ghost names = row_names(cv, db);
    let ghost lits = row_literals(cv, tv, db);
    let mut names_part = String::new();
    let mut values_part = String::new();
    let n = columns.len();
    for i in 0..n
        invariant
            n == columns@.len(),
            cv == row_view(columns@),
            tv == pairs_view(column_types@),
            names == row_names(cv, db),
            lits == row_literals(cv, tv, db),
            names.len() == n,
            lits.len() == n,
            forall|j: int| 0 <= j < n ==> lookup_spec(tv, #[trigger] cv[j].0) is Some,
            names_part@ == join_spec(names.take(i as int), ","@),
            values_part@ == join_spec(lits.take(i as int), ","@),
    {
        if i > 0 {
            names_part.append(",");
            values_part.append(",");
        }
        let name = rewrite_column_name(columns[i].0.as_str(), db);
        names_part.append(name.as_str());
        let ty = lookup_type(column_types, columns[i].0.as_str()).unwrap();
        let lit = value_literal(&columns[i].1, ty.as_str(), db);
        values_part.append(lit.as_str());
        proof {
            assert(names.take(i + 1) =~= names.take(i as int).push(names[i as int]));
            assert(lits.take(i + 1) =~= lits.take(i as int).push(lits[i as int]));
            lemma_join_push(names.take(i as int), ","@, names[i as int]);
            lemma_join_push(lits.take(i as int), ","@, lits[i as int]);
            assert(names[i as int] == rewrite_col(columns@[i as int].0@, db));
            assert(lits[i as int] == value_literal_spec(
                cv[i as int].1,
                lookup_spec(tv, cv[i as int].0).unwrap(),
                db,
            ));
        }
    }
    proof {
        assert(names.take(n as int) =~= names);
        assert(lits.take(n as int) =~= lits);
    }
    let mut s = "INSERT INTO ".to_owned();
    s.append(table_name);
    s.append(" (");
    s.append(names_part.as_str());
    s.append(") VALUES (");
    s.append(values_part.as_str());
    s.append(")");
    s
}

} // verus!
