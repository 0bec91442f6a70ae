//! Core of an incremental data-warehouse loader.
//!
//! The loader pulls batch dumps of gzipped TSV files from the Canvas Data
//! API, materializes them into a relational database (PostgreSQL or MySQL),
//! and keeps a durable ledger of which dumps were already applied.  This
//! crate holds the verified heart of that pipeline: vendor-type mapping,
//! SQL statement construction, dump-file name parsing, the per-dump import
//! planner, download planning, and the run controller's decisions.  The
//! surrounding process (HTTP, filesystem, database connections, the ledger
//! store) feeds plain values in and carries the planned actions out.

pub mod api_client;
pub mod db_client;
pub mod errors;
pub mod importer;
pub mod run_controller;
pub mod settings;
pub mod strings;
pub mod type_converter;

use vstd::prelude::*;

verus! {

} // verus!
