//! The built-in line parsers. Each one is total: it returns a row or an
//! explicit rejection, for every input line, and never panics.

pub mod csv;
pub mod journal_json;
pub mod level_message;
pub mod raw;
pub mod spaces;
pub mod tsv;
