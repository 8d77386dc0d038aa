//! A minimal single-table row store: a fixed-schema row codec, a table that
//! buckets rows into fixed-capacity pages, and the preparation and execution
//! of the `insert` and `select` statements against it.

pub mod row;
pub mod table;
pub mod numeral;
pub mod scanner;
pub mod prepare;
pub mod execute;
pub mod command;
