//! Command-line arguments, as plain data.
//!
//! The argument parser itself lives in the application, which converts its
//! result into these types.

use vstd::prelude::*;

verus! {

/// Top-level CLI entry point: `autoarc [DIR] [options]` extracts every
/// archive under `DIR`; the subcommands inspect a single file instead.
#[derive(Debug, Clone, PartialEq, Eq)]
pub struct Args {
    /// A single-file subcommand, if any.
    pub command: Option<Commands>,
    /// Directory to scan for archives (the current directory by default).
    pub dir: String,
    /// Maximum directory depth to scan for archives. `1` (the default) only
    /// inspects the immediate contents of `dir`; `0` is treated the same as
    /// `--recursive`.
    pub depth: usize,
    /// Shortcut for unlimited recursion (overrides `--depth`).
    pub recursive: bool,
    /// Print the extraction plan and exit without touching the filesystem.
    pub dry_run: bool,
    /// Skip the interactive confirmation prompt (assume "yes").
    pub yes: bool,
}

/// Available subcommands.
#[derive(Debug, Clone, PartialEq, Eq)]
pub enum Commands {
    /// Print the detected archive/video file type for a single file.
    Type { filepath: String },
    /// Run `lsar` against a single archive and print its entry list.
    Lsar { filepath: String },
}

/// The depth limit a scan uses: `--recursive` and `--depth 0` both mean "no
/// limit" (`usize::MAX`), any other depth is taken as given.
pub fn effective_depth(depth: usize, recursive: bool) -> (r: usize)
    ensures
        r == (if recursive || depth == 0 { usize::MAX } else { depth }),
{
    if recursive || depth == 0 {
        usize::MAX
    } else {
        depth
    }
}

} // verus!
