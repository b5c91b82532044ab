//! Checks on how Elephantry's query API is called: SQL statements built for a
//! database to validate, placeholder numbering, and argument counts.

pub mod text;
pub mod patterns;
pub mod lints;
pub mod result;
pub mod convert;
