//! Error kinds for the loader.

use vstd::prelude::*;

verus! {

/// Everything that can go wrong while importing a dump.
#[derive(Debug, Clone, PartialEq, Eq)]
pub enum ErrorKind {
    /// A vendor column type that has no mapping to a backend SQL type.
    InvalidTypeToConvert(String),
    /// Any failure of the PostgreSQL backend (connect or execute).
    PostgresErr,
    /// Any failure of the MySQL backend (connect or execute).
    MysqlErr,
    /// Umbrella error: some file of the dump failed to import.
    ImportErr,
}

/// The text an error is reported with.
pub open spec fn message_spec(e: ErrorKind) -> Seq<char> {
    match e {
        ErrorKind::InvalidTypeToConvert(t) => "Invalid Type: [ "@ + t@ + " ] to convert to DB"@,
        ErrorKind::PostgresErr => "Underlying postgres error!"@,
        ErrorKind::MysqlErr => "Underlying Mysql error!"@,
        ErrorKind::ImportErr => "Underlying import error!"@,
    }
}

impl ErrorKind {
    /// A human-readable description of the error.
    pub fn message(&self) -> (r: String)
        ensures
            r@ == message_spec(*self),
    {
        match self {
            ErrorKind::InvalidTypeToConvert(t) => {
                let mut m = String::new();
                m.append("Invalid Type: [ ");
                m.append(t.as_str());
                m.append(" ] to convert to DB");
                m
            },
            ErrorKind::PostgresErr => "Underlying postgres error!".to_owned(),
            ErrorKind::MysqlErr => "Underlying Mysql error!".to_owned(),
            ErrorKind::ImportErr => "Underlying import error!".to_owned(),
        }
    }
}

} // verus!
