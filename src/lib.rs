//! A read-only decoder for the SQLite database file format, with a small
//! query engine on top: varints and records, B-tree pages, the schema
//! catalog on page 1, and `SELECT COUNT(*)` / column projection over tables.
use vstd::prelude::*;

pub mod catalog;
pub mod cell;
pub mod db;
pub mod error;
pub mod executor;
pub mod page;
pub mod pager;
pub mod record;
pub mod scan;
pub mod schema;
pub mod sql;
pub mod text;
pub mod varint;

pub use catalog::RootPage;
pub use db::Sqlite;
pub use error::Error;

verus! {

/// Length of the database file header that opens page 1.
pub const DATABASE_HEADER_SIZE: u64 = 100;

} // verus!
