//! Mapping of vendor column types to backend SQL types, and of backend
//! SQL types to the cast expressions used in generated statements.

use vstd::prelude::*;
use crate::errors::ErrorKind;
use crate::settings::DatabaseType;
use crate::strings::{ascii_lower, lower_spec, str_eq};

verus! {

/// The backend SQL type for a vendor column type, or `None` when the
/// vendor type is not recognized.
pub open spec fn map_type_spec(orig: Seq<char>, db: DatabaseType) -> Option<Seq<char>> {
    if orig == "bigint"@ {
        Some("BIGINT"@)
    } else if orig == "boolean"@ {
        if db == DatabaseType::Psql {
            Some("BOOLEAN"@)
        } else {
            Some("VARCHAR(10)"@)
        }
    } else if orig == "double precision"@ {
        if db == DatabaseType::Psql {
            Some("double precision"@)
        } else {
            Some("FLOAT(17)"@)
        }
    } else if orig == "int"@ || orig == "integer"@ {
        Some("INT"@)
    } else if orig == "text"@ || orig == "varchar"@ || orig == "guid"@ || orig == "enum"@ {
        if db == DatabaseType::Psql {
            Some("TEXT"@)
        } else {
            Some("LONGTEXT"@)
        }
    } else if orig == "timestamp"@ || orig == "datetime"@ {
        if db == DatabaseType::Psql {
            Some("TIMESTAMP"@)
        } else {
            Some("DATETIME"@)
        }
    } else if orig == "date"@ {
        Some("DATE"@)
    } else {
        None
    }
}

/// Turn a vendor column type into the SQL type used on the given backend.
/// Unrecognized vendor types are rejected.
pub fn convert_type_for_db(orig_type: String, db_type: DatabaseType) -> (r: Result<
    String,
    ErrorKind,
>)
    ensures
        match map_type_spec(orig_type@, db_type) {
            Some(t) => r matches Ok(v) && v@ == t,
            None => r matches Err(ErrorKind::InvalidTypeToConvert(t)) && t == orig_type,
        },
{
    let s = orig_type.as_str();
    if str_eq(s, "bigint") {
        Ok("BIGINT".to_owned())
    } else if str_eq(s, "boolean") {
        match db_type {
            DatabaseType::Psql => Ok("BOOLEAN".to_owned()),
            DatabaseType::Mysql => Ok("VARCHAR(10)".to_owned()),
        }
    } else if str_eq(s, "double precision") {
        match db_type {
            DatabaseType::Psql => Ok("double precision".to_owned()),
            DatabaseType::Mysql => Ok("FLOAT(17)".to_owned()),
        }
    } else if str_eq(s, "int") || str_eq(s, "integer") {
        Ok("INT".to_owned())
    } else if str_eq(s, "text") || str_eq(s, "varchar") || str_eq(s, "guid") || str_eq(s, "enum") {
        match db_type {
            DatabaseType::Psql => Ok("TEXT".to_owned()),
            DatabaseType::Mysql => Ok("LONGTEXT".to_owned()),
        }
    } else if str_eq(s, "timestamp") || str_eq(s, "datetime") {
        match db_type {
            DatabaseType::Psql => Ok("TIMESTAMP".to_owned()),
            DatabaseType::Mysql => Ok("DATETIME".to_owned()),
        }
    } else if str_eq(s, "date") {
        Ok("DATE".to_owned())
    } else {
        Err(ErrorKind::InvalidTypeToConvert(orig_type))
    }
}

/// The cast expression for a backend SQL type, or the empty string when
/// the server's implicit coercion of a bare quoted literal is enough.
/// The type name is compared after ASCII lower-casing.
pub open spec fn cast_spec(orig_type: Seq<char>, db: DatabaseType) -> Seq<char> {
    let l = lower_spec(orig_type);
    if db == DatabaseType::Psql {
        if l == "bigint"@ {
            "int8"@
        } else if l == "boolean"@ {
            "boolean"@
        } else if l == "double precision"@ {
            "double precision"@
        } else if l == "int"@ {
            "int"@
        } else if l == "timestamp"@ {
            "timestamp"@
        } else {
            Seq::<char>::empty()
        }
    } else {
        if l == "bigint"@ {
            "SIGNED"@
        } else if l == "int"@ {
            "SIGNED"@
        } else if l == "float(17)"@ {
            "DECIMAL(34, 17)"@
        } else if l == "datetime"@ {
            "DATETIME"@
        } else if l == "date"@ {
            "DATE"@
        } else {
            Seq::<char>::empty()
        }
    }
}

/// The expression a string literal must be cast with so that the given
/// backend stores it under the right type, or an empty string when no
/// cast is needed.
pub fn get_cast_as(orig_type: String, db_type: DatabaseType) -> (r: String)
    ensures
        r@ == cast_spec(orig_type@, db_type),
{
    let lowered = ascii_lower(orig_type.as_str());
    let l = lowered.as_str();
    match db_type {
        DatabaseType::Psql => {
            if str_eq(l, "bigint") {
                "int8".to_owned()
            } else if str_eq(l, "boolean") {
                "boolean".to_owned()
            } else if str_eq(l, "double precision") {
                "double precision".to_owned()
            } else if str_eq(l, "int") {
                "int".to_owned()
            } else if str_eq(l, "timestamp") {
                "timestamp".to_owned()
            } else {
                String::new()
            }
        },
        DatabaseType::Mysql => {
            if str_eq(l, "bigint") {
                "SIGNED".to_owned()
            } else if str_eq(l, "int") {
                "SIGNED".to_owned()
            } else if str_eq(l, "float(17)") {
                "DECIMAL(34, 17)".to_owned()
            } else if str_eq(l, "datetime") {
                "DATETIME".to_owned()
            } else if str_eq(l, "date") {
                "DATE".to_owned()
            } else {
                String::new()
            }
        },
    }
}

} // verus!
