//! SQL literal-formatting and row-decoding utilities.
//!
//! The library renders native values as safely quoted SQL literal text
//! (with optional comparison operators) and decodes query result rows
//! into typed tuples through a per-type conversion contract.

pub mod paths;
pub mod pattern;
pub mod row;
pub mod sql;
pub mod store;
pub mod strings;
pub mod text;
pub mod timestamp;
