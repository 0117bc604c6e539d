//! Parsed command-line arguments of the renderer process.
use crate::repl::LogLevel;
use vstd::prelude::*;

verus! {

/// The renderer's parameters: snapshot location, viewport resolution and
/// logging verbosity (the shell parses the actual command line).
pub struct CliArg {
    pub path: String,
    pub resolution: (u32, u32),
    pub log_level: LogLevel,
}

} // verus!
