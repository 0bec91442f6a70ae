//! Configuration values for the loader, as plain data.
//!
//! The surrounding process reads configuration files and environment
//! variables and hands the resulting values to [`Settings::new`]; the
//! getters below are what the rest of the crate works from.

use vstd::prelude::*;
use crate::strings::{ascii_lower, lower_spec, str_eq};

verus! {

/// All database backends the loader supports.
#[derive(Clone, Copy, Debug, PartialEq, Eq, Structural)]
pub enum DatabaseType {
    /// PostgreSQL-like databases.
    Psql,
    /// MySQL-like databases.
    Mysql,
}

/// Database configuration: the connection URL and the backend kind.
pub struct Database {
    /// The connection URL for the database.
    pub url: String,
    /// The configured name of the backend kind.
    pub db_type: String,
}

/// Credentials for the Canvas Data API.
pub struct Canvasdataauth {
    /// The API key.
    pub api_key: String,
    /// The API secret.
    pub api_secret: String,
}

/// The global settings object for all configuration values.
pub struct Settings {
    /// Database configuration.
    pub database: Database,
    /// Canvas Data API credentials.
    pub canvasdataauth: Canvasdataauth,
    /// Directory under which dump files are saved.
    pub save_location: String,
    /// Directory of the durable progress ledger.
    pub rocksdb_location: String,
    /// Whether to skip historical-refresh dumps.
    pub skip_historical_imports: bool,
    /// Whether to load only the newest dump.
    pub only_load_final: Option<bool>,
    /// Whether to treat every table as volatile.
    pub all_tables_volatile: Option<bool>,
}

/// The backend selected by a configured type name: `mysql`,
/// case-insensitively, selects MySQL; everything else selects PostgreSQL.
pub open spec fn db_type_of(s: Seq<char>) -> DatabaseType {
    if lower_spec(s) == "mysql"@ {
        DatabaseType::Mysql
    } else {
        DatabaseType::Psql
    }
}

impl Settings {
    /// Bundle already-loaded configuration values into a settings object.
    pub fn new(
        database: Database,
        canvasdataauth: Canvasdataauth,
        save_location: String,
        rocksdb_location: String,
        skip_historical_imports: bool,
        only_load_final: Option<bool>,
        all_tables_volatile: Option<bool>,
    ) -> (r: Settings)
        ensures
            r.database == database,
            r.canvasdataauth == canvasdataauth,
            r.save_location == save_location,
            r.rocksdb_location == rocksdb_location,
            r.skip_historical_imports == skip_historical_imports,
            r.only_load_final == only_load_final,
            r.all_tables_volatile == all_tables_volatile,
    {
        Settings {
            database,
            canvasdataauth,
            save_location,
            rocksdb_location,
            skip_historical_imports,
            only_load_final,
            all_tables_volatile,
        }
    }

    /// The directory under which dump files are saved.
    pub fn get_save_location(&self) -> (r: String)
        ensures
            r == self.save_location,
    {
        self.save_location.clone()
    }

    /// The directory of the durable progress ledger.
    pub fn get_rocksdb_location(&self) -> (r: String)
        ensures
            r == self.rocksdb_location,
    {
        self.rocksdb_location.clone()
    }

    /// Whether historical-refresh dumps are skipped.
    pub fn get_should_skip_historical_imports(&self) -> (r: bool)
        ensures
            r == self.skip_historical_imports,
    {
        self.skip_historical_imports
    }

    /// Whether only the newest dump is loaded; absent means no.
    pub fn get_should_only_load_final(&self) -> (r: bool)
        ensures
            r == (self.only_load_final matches Some(true)),
    {
        match self.only_load_final {
            Some(b) => b,
            None => false,
        }
    }

    /// Whether every table is treated as volatile; absent means no.
    pub fn get_all_tables_volatile(&self) -> (r: bool)
        ensures
            r == (self.all_tables_volatile matches Some(true)),
    {
        match self.all_tables_volatile {
            Some(b) => b,
            None => false,
        }
    }

    /// The database connection URL.
    pub fn get_database_url(&self) -> (r: String)
        ensures
            r == self.database.url,
    {
        self.database.url.clone()
    }

    /// The configured database backend.
    pub fn get_database_type(&self) -> (r: DatabaseType)
        ensures
            r == db_type_of(self.database.db_type@),
    {
        let lowered = ascii_lower(self.database.db_type.as_str());
        if str_eq(lowered.as_str(), "mysql") {
            DatabaseType::Mysql
        } else {
            DatabaseType::Psql
        }
    }

    /// The Canvas Data API key.
    pub fn get_canvas_data_api_key(&self) -> (r: String)
        ensures
            r == self.canvasdataauth.api_key,
    {
        self.canvasdataauth.api_key.clone()
    }

    /// The Canvas Data API secret.
    pub fn get_canvas_data_api_secret(&self) -> (r: String)
        ensures
            r == self.canvasdataauth.api_secret,
    {
        self.canvasdataauth.api_secret.clone()
    }
}

} // verus!
