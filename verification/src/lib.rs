//! Core of a streaming log-table viewer: line parsers that turn raw text
//! lines into rows of styled cells, and an append-only document that keeps
//! an incrementally maintained per-column maximum-width cache so a renderer
//! can lay out the table without re-scanning history.

pub mod builtin;
pub mod cell;
pub mod cli;
pub mod json;
pub mod parse;
pub mod pipeline;
pub mod text;
pub mod timefmt;

pub use cell::{Cell, CellStyle};
pub use cli::{Args, Themes};
pub use parse::{FileParsers, ParsedLine, ParsedPartialFile};
pub use pipeline::{ingest_line, IngestOutcome, LiveFlag};
