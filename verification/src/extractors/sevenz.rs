//! 7-Zip backend: the decisions around the `sevenz_rust2` reader.

use vstd::prelude::*;

use sevenz_rust2::{ArchiveEntry, ArchiveReader, Error};

use super::PasswordCheck;
use crate::fs::paths::{create_outpath, outpath_spec};
use crate::text::opt_text;

verus! {

/// Backend for `.7z` archives.
pub struct SevenzExtractor;

/// What probing an archive with a password gives: the archive is opened and
/// the start of its first entry with data decrypted.
#[derive(Debug, PartialEq, Eq, Clone)]
pub enum SevenzProbe {
    /// The probe read through.
    Passed,
    /// `Error::MaybeBadPassword`: decryption produced garbage.
    MaybeBadPassword,
    /// `Error::PasswordRequired`: the archive is encrypted and the empty
    /// password was supplied.
    PasswordRequired,
    /// Any other error, with its message.
    Other(String),
}

/// How many bytes of the first non-empty entry the probe reads.
pub const PROBE_BYTES: usize = 1024;

/// What the `sevenz_rust2` crate's probe of `archive` with `password` gives.
pub uninterp spec fn sevenz_probe(archive: Seq<u8>, password: Seq<char>) -> SevenzProbe;

/// Probe the archive held in `archive` with `password`.
///
/// Trusted: calls `sevenz_rust2::ArchiveReader::new` on the bytes, then
/// `for_each_entries` with a closure that reads what
/// [`SevenzExtractor::probe_request`] asks of each entry (stopping after the
/// first one with data), and tells the error variants apart, keeping the
/// message of any other error. Decryption is deterministic, so the result is
/// a function of the bytes and the password, named `sevenz_probe`.
#[verifier::external_body]
fn probe_sevenz_bytes(archive: &[u8], password: &str) -> (r: SevenzProbe)
    ensures
        r == sevenz_probe(archive@, password@),
{
    let read = match ArchiveReader::new(std::io::Cursor::new(archive), password.into()) {
        Ok(mut reader) => reader.for_each_entries(&mut |e: &ArchiveEntry, r: &mut dyn std::io::Read| {
            match SevenzExtractor::probe_request(e.has_stream(), e.size()) {
                Some(n) => r.read_exact(&mut vec![0u8; n]).map(|_| false).map_err(Error::from),
                None => Ok(true),
            }
        }),
        Err(e) => Err(e),
    };
    match read {
        Ok(()) => SevenzProbe::Passed,
        Err(Error::MaybeBadPassword(_)) => SevenzProbe::MaybeBadPassword,
        Err(Error::PasswordRequired) => SevenzProbe::PasswordRequired,
        Err(e) => SevenzProbe::Other(e.to_string()),
    }
}

/// How a probe is read, wherever the error surfaces (opening the reader or
/// reading the first entry): both password errors mean "this candidate is
/// wrong, try the next one".
pub open spec fn sevenz_check_spec(probe: SevenzProbe) -> PasswordCheck {
    match probe {
        SevenzProbe::Passed => PasswordCheck::Accepted,
        SevenzProbe::MaybeBadPassword => PasswordCheck::Rejected,
        SevenzProbe::PasswordRequired => PasswordCheck::Rejected,
        SevenzProbe::Other(m) => PasswordCheck::Failed(m),
    }
}

impl SevenzExtractor {
    /// What the probe reads of an entry: the first `min(size, 1024)` bytes
    /// of an entry with data (which forces decryption; the iteration then
    /// stops), nothing of any other entry.
    pub fn probe_request(has_stream: bool, size: u64) -> (r: Option<usize>)
        ensures
            r == (if has_stream && size > 0 {
                Some(if size < PROBE_BYTES { size as usize } else { PROBE_BYTES })
            } else {
                None
            }),
    {
        if !(has_stream && size > 0) {
            None
        } else if size < 1024 {
            Some(size as usize)
        } else {
            Some(PROBE_BYTES)
        }
    }

    /// See [`sevenz_check_spec`].
    pub fn password_check(probe: SevenzProbe) -> (r: PasswordCheck)
        ensures
            r == sevenz_check_spec(probe),
    {
        match probe {
            SevenzProbe::Passed => PasswordCheck::Accepted,
            SevenzProbe::MaybeBadPassword => PasswordCheck::Rejected,
            SevenzProbe::PasswordRequired => PasswordCheck::Rejected,
            SevenzProbe::Other(m) => PasswordCheck::Failed(m),
        }
    }

    /// Validate `password` on the archive held in `archive` without writing
    /// anything: decrypt the start of its first entry with data and read the
    /// outcome.
    pub fn check_password(archive: &[u8], password: &str) -> (r: PasswordCheck)
        ensures
            r == sevenz_check_spec(sevenz_probe(archive@, password@)),
    {
        Self::password_check(probe_sevenz_bytes(archive, password))
    }

    /// Where an entry is written: `None` for directories and entries without
    /// data, else
    /// `<archive_dir>/<stem>_out/<name>`.
    pub fn entry_target(archive_path: &str, name: &str, is_directory: bool, has_stream: bool) -> (r:
        Option<String>)
        ensures
            opt_text(r) == (if is_directory || !has_stream {
                None
            } else {
                Some(outpath_spec(archive_path@, name@))
            }),
    {
        if is_directory || !has_stream {
            None
        } else {
            Some(create_outpath(archive_path, name))
        }
    }
}

} // verus!
