//! RAR backend: the decisions around the `unrar` crate's reader.

use vstd::prelude::*;

use super::{ProbeFailure, filtered_target, filtered_target_spec};
use crate::text::opt_text;

verus! {

/// Backend for RAR archives.
pub struct RarExtractor;

/// The `unrar::error::Code` of a failed probe, as far as the probe reads it.
#[derive(Debug, PartialEq, Eq, Clone, Copy, Structural)]
pub enum RarProbeCode {
    /// `Code::BadPassword`.
    BadPassword,
    /// Any other code.
    Other,
}

impl RarExtractor {
    /// How a failed probe (opening the archive and testing its first header)
    /// is read: only `BadPassword` moves on to the next password.
    pub fn probe_failure(code: RarProbeCode) -> (r: ProbeFailure)
        ensures
            r == (if code is BadPassword { ProbeFailure::WrongPassword } else { ProbeFailure::Fatal }),
    {
        match code {
            RarProbeCode::BadPassword => ProbeFailure::WrongPassword,
            RarProbeCode::Other => ProbeFailure::Fatal,
        }
    }

    /// Where an entry is written: `None` for directories and macOS metadata,
    /// else `<archive_dir>/<stem>_out/<name>`.
    pub fn entry_target(archive_path: &str, name: &str, is_directory: bool) -> (r: Option<String>)
        ensures
            opt_text(r) == filtered_target_spec(archive_path@, name@, is_directory),
    {
        filtered_target(archive_path, name, is_directory)
    }
}

} // verus!
