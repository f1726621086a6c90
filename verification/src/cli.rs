//! The command line: a guarded shell, analysis of stdin, or a corpus benchmark.
use vstd::prelude::*;
use std::path::PathBuf;

verus! {

/// std's `PathBuf`, carried through as it is.
#[verifier::external_type_specification]
#[verifier::external_body]
pub struct ExPathBuf(PathBuf);

/// The parsed command line of `commandguard`.
#[derive(Debug)]
pub struct Cli {
    pub command: Commands,
}

/// The subcommands of `commandguard`.
#[derive(Debug)]
pub enum Commands {
    /// Run a guarded interactive shell under a PTY; `shell` defaults to
    /// `$SHELL` or `/bin/bash`.
    Guard { shell: Option<PathBuf> },
    /// Analyze command text from stdin; `json` emits the analysis as JSON.
    Analyze { json: bool },
    /// Run a fixture corpus under `dir` and print detection metrics.
    Bench { dir: PathBuf },
}

} // verus!
