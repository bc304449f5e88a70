//! Startup configuration as plain values: the resolved input source, the
//! selected parser, and presentation options. Reading the actual command
//! line into these values is the boundary's job.

use vstd::prelude::*;

use crate::parse::FileParsers;

verus! {

/// Window theme choice.
#[derive(Debug, Default, Clone, Copy, PartialEq, Eq, Structural)]
pub enum Themes {
    /// Light Theme
    Light,
    /// Dark Theme
    #[default]
    Dark,
    /// System Theme
    System,
}

/// Startup options, fixed for the process lifetime.
pub struct Args {
    /// File to read; standard input when absent
    pub file: Option<String>,
    /// File parsing format
    pub parser: FileParsers,
    /// Enable V-sync
    pub vsync: bool,
    /// Window theme
    pub theme: Themes,
    /// Disable line stripes
    pub no_stripes: bool,
    /// Enable verbose logging
    pub verbose: bool,
}

} // verus!
