//! ZIP backend: the decisions around the `zip` crate's reader.

use vstd::prelude::*;

use super::{PasswordCheck, filtered_target, filtered_target_spec};
use crate::text::{decode_utf8_text, opt_text};

verus! {

/// Backend for single-volume ZIP archives.
pub struct ZipExtractor;

/// What probing an archive with a password gives: the archive is opened, its
/// first entry decrypted and one byte of it read.
#[derive(Debug, PartialEq, Eq, Clone)]
pub enum ZipProbe {
    /// The probe read through.
    Passed,
    /// `ZipError::InvalidPassword`.
    InvalidPassword,
    /// `ZipError::Io`.
    Io,
    /// Any other `ZipError`, with its message.
    Other(String),
}

/// What the `zip` crate's probe of `archive` with `password` gives.
pub uninterp spec fn zip_probe(archive: Seq<u8>, password: Seq<u8>) -> ZipProbe;

/// Probe the archive held in `archive` with `password`.
///
/// Trusted: calls `zip::ZipArchive::new` on the bytes, `by_index_decrypt(0,
/// password)`, then one `read` of a single byte from that entry (a directory
/// entry reads nothing), and tells the error variants apart, keeping the
/// message of any other error. The crate's decryption is deterministic, so the
/// result is a function of the bytes and the password, named `zip_probe`.
#[verifier::external_body]
fn probe_zip_bytes(archive: &[u8], password: &[u8]) -> (r: ZipProbe)
    ensures
        r == zip_probe(archive@, password@),
{
    let read = match ::zip::ZipArchive::new(std::io::Cursor::new(archive)) {
        Ok(mut zip) => match zip.by_index_decrypt(0, password) {
            Ok(mut entry) => std::io::Read::read(&mut entry, &mut [0u8; 1]).map_err(::zip::result::ZipError::Io),
            Err(e) => Err(e),
        },
        Err(e) => Err(e),
    };
    match read {
        Ok(_) => ZipProbe::Passed,
        Err(::zip::result::ZipError::InvalidPassword) => ZipProbe::InvalidPassword,
        Err(::zip::result::ZipError::Io(_)) => ZipProbe::Io,
        Err(e) => ZipProbe::Other(e.to_string()),
    }
}

/// How a probe is read. Some encrypted ZIPs report a wrong password as a
/// generic IO/CRC failure, so an IO error during the probe also counts as a
/// wrong password.
pub open spec fn zip_check_spec(probe: ZipProbe) -> PasswordCheck {
    match probe {
        ZipProbe::Passed => PasswordCheck::Accepted,
        ZipProbe::InvalidPassword => PasswordCheck::Rejected,
        ZipProbe::Io => PasswordCheck::Rejected,
        ZipProbe::Other(m) => PasswordCheck::Failed(m),
    }
}

impl ZipExtractor {
    /// See [`zip_check_spec`].
    pub fn password_check(probe: ZipProbe) -> (r: PasswordCheck)
        ensures
            r == zip_check_spec(probe),
    {
        match probe {
            ZipProbe::Passed => PasswordCheck::Accepted,
            ZipProbe::InvalidPassword => PasswordCheck::Rejected,
            ZipProbe::Io => PasswordCheck::Rejected,
            ZipProbe::Other(m) => PasswordCheck::Failed(m),
        }
    }

    /// Validate `password` on the archive held in `archive` without writing
    /// anything: probe its first entry and read the outcome.
    pub fn check_password(archive: &[u8], password: &[u8]) -> (r: PasswordCheck)
        ensures
            r == zip_check_spec(zip_probe(archive@, password@)),
    {
        Self::password_check(probe_zip_bytes(archive, password))
    }

    /// The name of an entry: its raw bytes when they are UTF-8 (common in
    /// legacy archives they are not), else the crate's sanitized
    /// `enclosed_name`; `None` when neither exists.
    pub fn entry_name(name_raw: &[u8], enclosed_name: Option<String>) -> (r: Option<String>)
        ensures
            opt_text(r) == (if vstd::utf8::valid_utf8(name_raw@) {
                Some(vstd::utf8::decode_utf8(name_raw@))
            } else {
                opt_text(enclosed_name)
            }),
    {
        match decode_utf8_text(name_raw) {
            Some(s) => Some(s),
            None => enclosed_name,
        }
    }

    /// Where an entry is written: `None` for macOS metadata sidecars and pure
    /// directory entries, else `<archive_dir>/<stem>_out/<name>`.
    pub fn entry_target(archive_path: &str, name: &str, is_dir: bool) -> (r: Option<String>)
        ensures
            opt_text(r) == filtered_target_spec(archive_path@, name@, is_dir),
    {
        filtered_target(archive_path, name, is_dir)
    }
}

} // verus!
