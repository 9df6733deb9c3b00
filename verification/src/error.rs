//! Error types for the `autoarc` crate.

use vstd::prelude::*;

use crate::fs::classify::FileType;

verus! {

/// `std::io::Error`, carried through unchanged inside [`AutoarcError::Io`].
#[verifier::external_type_specification]
#[verifier::external_body]
pub struct ExIoError(std::io::Error);

/// Top-level error type returned by `autoarc` operations.
#[derive(Debug)]
pub enum AutoarcError {
    /// None of the configured passwords could decrypt the archive.
    NoCorrectPassword,
    /// The `AUTOARC_PASSWORDS` environment variable is missing or empty.
    MissingPasswords,
    /// An external CLI tool (`unar`, `lsar`, ...) is not available on `PATH`.
    ToolNotFound(&'static str),
    /// The encountered file type is not supported by the extractor pipeline.
    UnsupportedFileType(FileType),
    /// I/O failure tied to a specific path, for clearer diagnostics.
    Io { path: String, source: std::io::Error },
    /// Catch-all for situations that don't fit the above variants.
    Other(String),
}

impl AutoarcError {
    /// Helper to attach a path to a raw `std::io::Error`.
    pub fn io(path: &str, source: std::io::Error) -> (r: Self)
        ensures
            r matches AutoarcError::Io { path: p, source: s } && p@ == path@ && s == source,
    {
        AutoarcError::Io { path: String::from_str(path), source }
    }
}

} // verus!
