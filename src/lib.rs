//! Ingestion and query planning for per-term student GPA spreadsheets.
//!
//! The library decides everything that does not touch the disk or the
//! database: which directory and file names follow the naming conventions,
//! how a table is decoded, which dimension rows are upserted in which order,
//! which fact rows follow from a batch, when a busy store is retried, and
//! which SQL text and parameters a GPA query uses.
pub mod error;
pub mod names;
pub mod number;
pub mod table;
pub mod layout;
pub mod college;
pub mod resolver;
pub mod sql;
pub mod loader;
pub mod query;
pub mod store;
pub mod student;
