//! File-type classification from magic bytes, with a payload scan for
//! self-extracting executables and the `file(1)` answer as a fallback.
//!
//! Reading the file and running `file` are left to the caller: the functions
//! here take the bytes and the command output and decide.

use vstd::prelude::*;

use crate::fs::paths::{extension, path_extension};
use crate::text::{
    ascii_lower, ascii_lower_seq, chars_of, decode_utf8_text, has_infix, has_prefix, lower_ascii,
    occurs_at, opt_text, str_eq,
};

verus! {

broadcast use vstd::string::group_string_axioms;

/// How many leading bytes of a file the magic-byte sniffer looks at.
pub const SNIFF_BYTES: usize = 8192;

/// How many bytes of a PE/EXE body we scan for an embedded archive signature.
/// SFX stubs are almost always smaller than this, and it bounds the I/O cost
/// for huge `.exe` files.
pub const SFX_SCAN_BYTES: usize = 4194304;

/// High-level classification of a single file.
#[derive(Debug, PartialEq, Eq, Clone, Copy, Structural)]
pub enum FileType {
    /// Single-volume ZIP archive.
    Zip,
    /// RAR archive (any version).
    Rar,
    /// 7-Zip archive.
    SevenZ,
    /// MP4 / M4V video container.
    Mp4,
    /// MPEG transport-stream video.
    TS,
    /// Archive that must be handled by the `unar` subprocess backend:
    /// a multi-volume set whose first part has a `.z01` / `.001` / `.7z.001`
    /// extension.
    Multi,
    /// Self-extracting `.exe` archive (SFX): a Windows PE executable with a
    /// 7z / RAR / ZIP payload appended after the stub. Also handled by the
    /// `unar` subprocess backend.
    Sfx,
    /// Anything we couldn't identify.
    Unknown,
}

/// The archive kinds the pipeline extracts.
pub open spec fn is_archive_kind(t: FileType) -> bool {
    t is Zip || t is Rar || t is SevenZ || t is Multi || t is Sfx
}

/// The video kinds the pipeline renames.
pub open spec fn is_video_kind(t: FileType) -> bool {
    t is Mp4 || t is TS
}

/// Returns `true` when the file is one of the supported archive formats.
pub fn is_type_archive(t: FileType) -> (b: bool)
    ensures
        b == is_archive_kind(t),
        b ==> !is_video_kind(t),
{
    match t {
        FileType::Zip | FileType::Rar | FileType::SevenZ | FileType::Multi | FileType::Sfx => true,
        _ => false,
    }
}

/// Returns `true` for the video formats the pipeline can post-process.
pub fn is_type_video(t: FileType) -> (b: bool)
    ensures
        b == is_video_kind(t),
        b ==> !is_archive_kind(t),
{
    match t {
        FileType::Mp4 | FileType::TS => true,
        _ => false,
    }
}

/// What the magic bytes alone say about a file, and what to look at next.
#[derive(Debug, PartialEq, Eq, Clone, Copy, Structural)]
pub enum Probe {
    /// The file type is settled.
    Decided(FileType),
    /// A PE executable: scan its first `SFX_SCAN_BYTES` with [`detect_sfx`].
    ScanForPayload,
    /// Nothing recognised: ask `file -I -b` and pass the answer to
    /// [`detect_via_file_cmd`].
    AskFileCommand,
}

/// What `infer::get` reports as the MIME type of a buffer, if it recognises it.
pub uninterp spec fn sniffed_mime(head: Seq<u8>) -> Option<Seq<char>>;

/// MIME type that `infer` detects in `head`.
///
/// Trusted: calls `infer::get` (the crate's built-in matchers, a pure
/// function of the bytes) and copies the MIME string; the result is tied to
/// the bytes by the name `sniffed_mime`.
#[verifier::external_body]
fn sniff_mime(head: &[u8]) -> (r: Option<String>)
    ensures
        opt_text(r) == sniffed_mime(head@),
{
    match infer::get(head) {
        Some(kind) => Some(kind.mime_type().to_string()),
        None => None,
    }
}

/// The decision taken on a sniffed MIME type and the path's extension.
pub open spec fn mime_probe(mime: Option<Seq<char>>, ext: Option<Seq<char>>) -> Probe {
    match mime {
        None => Probe::AskFileCommand,
        Some(m) => if m == "application/zip"@ {
            if ext == Some("z01"@) || ext == Some("001"@) {
                Probe::Decided(FileType::Multi)
            } else {
                Probe::Decided(FileType::Zip)
            }
        } else if m == "application/vnd.rar"@ {
            Probe::Decided(FileType::Rar)
        } else if m == "application/x-7z-compressed"@ {
            if ext == Some("001"@) {
                Probe::Decided(FileType::Multi)
            } else {
                Probe::Decided(FileType::SevenZ)
            }
        } else if m == "video/mp4"@ || m == "video/x-m4v"@ {
            Probe::Decided(FileType::Mp4)
        } else if m == "application/vnd.microsoft.portable-executable"@ {
            Probe::ScanForPayload
        } else {
            Probe::Decided(FileType::Unknown)
        },
    }
}

fn ext_is(extension: Option<&str>, expected: &str) -> (r: bool)
    ensures
        r == (opt_str_text(extension) == Some(expected@)),
{
    match extension {
        Some(e) => str_eq(e, expected),
        None => false,
    }
}

/// The text of an optional string slice.
pub open spec fn opt_str_text(o: Option<&str>) -> Option<Seq<char>> {
    match o {
        Some(s) => Some(s@),
        None => None,
    }
}

/// Classify a file from the MIME type its magic bytes show (if any) and its
/// extension. A ZIP or 7z first volume of a split set is routed to the
/// multi-volume backend; a PE executable still needs a payload scan; an
/// unrecognised file still needs the `file(1)` fallback.
pub fn classify_mime(mime: Option<&str>, extension: Option<&str>) -> (r: Probe)
    ensures
        r == mime_probe(opt_str_text(mime), opt_str_text(extension)),
{
    match mime {
        None => Probe::AskFileCommand,
        Some(m) => {
            if str_eq(m, "application/zip") {
                if ext_is(extension, "z01") || ext_is(extension, "001") {
                    Probe::Decided(FileType::Multi)
                } else {
                    Probe::Decided(FileType::Zip)
                }
            } else if str_eq(m, "application/vnd.rar") {
                Probe::Decided(FileType::Rar)
            } else if str_eq(m, "application/x-7z-compressed") {
                if ext_is(extension, "001") {
                    Probe::Decided(FileType::Multi)
                } else {
                    Probe::Decided(FileType::SevenZ)
                }
            } else if str_eq(m, "video/mp4") || str_eq(m, "video/x-m4v") {
                Probe::Decided(FileType::Mp4)
            } else if str_eq(m, "application/vnd.microsoft.portable-executable") {
                Probe::ScanForPayload
            } else {
                Probe::Decided(FileType::Unknown)
            }
        },
    }
}

/// First classification step for the file at `path` whose leading bytes
/// (at most `SNIFF_BYTES` of them) are `head`.
pub fn classify_head(head: &[u8], path: &str) -> (r: Probe)
    ensures
        r == mime_probe(sniffed_mime(head@), path_extension(path@)),
{
    let mime = sniff_mime(head);
    let ext = extension(path);
    let m = match &mime {
        Some(s) => Some(s.as_str()),
        None => None,
    };
    let e = match &ext {
        Some(s) => Some(s.as_str()),
        None => None,
    };
    classify_mime(m, e)
}

/// Whether the bytes of `needle` occur in `haystack` starting at index `i`.
fn bytes_match_at(haystack: &[u8], needle: &[u8], i: usize) -> (r: bool)
    requires
        i + needle@.len() <= haystack@.len(),
    ensures
        r == occurs_at(haystack@, needle@, i as int),
{
    let hay_len = haystack.len();
    let mut j: usize = 0;
    while j < needle.len()
        invariant
            hay_len == haystack@.len(),
            i + needle@.len() <= haystack@.len(),
            0 <= j <= needle@.len(),
            forall|k: int| 0 <= k < j ==> haystack@[i + k] == needle@[k],
        decreases needle@.len() - j,
    {
        assert(i + j < hay_len);
        if haystack[i + j] != needle[j] {
            assert(haystack@.subrange(i as int, i + needle@.len())[j as int] != needle@[j as int]);
            return false;
        }
        j = j + 1;
    }
    assert(haystack@.subrange(i as int, i + needle@.len()) =~= needle@);
    true
}

/// Plain substring search over bytes.
pub fn contains(haystack: &[u8], needle: &[u8]) -> (r: bool)
    requires
        needle@.len() > 0,
    ensures
        r == has_infix(haystack@, needle@),
{
    if needle.len() > haystack.len() {
        return false;
    }
    let last: usize = haystack.len() - needle.len();
    let mut i: usize = 0;
    loop
        invariant
            last == haystack@.len() - needle@.len(),
            needle@.len() <= haystack@.len(),
            0 <= i <= last,
            forall|k: int| 0 <= k < i ==> !occurs_at(haystack@, needle@, k),
        ensures
            forall|k: int| 0 <= k <= last ==> !occurs_at(haystack@, needle@, k),
        decreases last - i,
    {
        if bytes_match_at(haystack, needle, i) {
            return true;
        }
        if i == last {
            break;
        }
        i = i + 1;
    }
    assert forall|k: int| !occurs_at(haystack@, needle@, k) by {
        if 0 <= k && k + needle@.len() <= haystack@.len() {
            assert(k <= last);
        }
    }
    false
}

/// 7z signature: `37 7A BC AF 27 1C`.
pub open spec fn sevenz_magic() -> Seq<u8> {
    seq![0x37u8, 0x7A, 0xBC, 0xAF, 0x27, 0x1C]
}

/// RAR signature (v4 and v5 share it): `"Rar!" 1A 07`.
pub open spec fn rar_magic() -> Seq<u8> {
    seq![0x52u8, 0x61, 0x72, 0x21, 0x1A, 0x07]
}

/// ZIP local-header signature: `"PK" 03 04`.
pub open spec fn zip_magic() -> Seq<u8> {
    seq![0x50u8, 0x4B, 0x03, 0x04]
}

/// The window holds an embedded 7z, RAR or ZIP signature.
pub open spec fn has_archive_payload(window: Seq<u8>) -> bool {
    has_infix(window, sevenz_magic()) || has_infix(window, rar_magic()) || has_infix(window, zip_magic())
}

/// Search the scanned window of a PE executable for a 7z / RAR / ZIP
/// signature. Returns [`FileType::Sfx`] on any hit, so the file is routed to
/// the `unar` subprocess, which handles SFX binaries natively.
pub fn detect_sfx(window: &[u8]) -> (r: Option<FileType>)
    ensures
        r == (if has_archive_payload(window@) { Some(FileType::Sfx) } else { None }),
{
    let sevenz: [u8; 6] = [0x37, 0x7A, 0xBC, 0xAF, 0x27, 0x1C];
    let rar: [u8; 6] = [0x52, 0x61, 0x72, 0x21, 0x1A, 0x07];
    let zip: [u8; 4] = [0x50, 0x4B, 0x03, 0x04];
    assert(sevenz@ =~= sevenz_magic());
    assert(rar@ =~= rar_magic());
    assert(zip@ =~= zip_magic());
    if contains(window, sevenz.as_slice()) || contains(window, rar.as_slice()) || contains(
        window,
        zip.as_slice(),
    ) {
        Some(FileType::Sfx)
    } else {
        None
    }
}

/// A 7z (`37 7A BC AF 27 1C`), RAR (`52 61 72 21 1A 07`) or ZIP
/// (`50 4B 03 04`) signature starts at offset `i` of `window`.
pub open spec fn signature_at(window: Seq<u8>, i: int) -> bool {
    ||| 0 <= i && i + 6 <= window.len() && window.subrange(i, i + 6) == seq![
        0x37u8,
        0x7A,
        0xBC,
        0xAF,
        0x27,
        0x1C,
    ]
    ||| 0 <= i && i + 6 <= window.len() && window.subrange(i, i + 6) == seq![
        0x52u8,
        0x61,
        0x72,
        0x21,
        0x1A,
        0x07,
    ]
    ||| 0 <= i && i + 4 <= window.len() && window.subrange(i, i + 4) == seq![0x50u8, 0x4B, 0x03, 0x04]
}

/// The whole scanned window is searched: `detect_sfx` finds a payload exactly
/// when a 7z, RAR or ZIP signature starts at some offset of the window,
/// wherever that offset lies.
pub proof fn lemma_sfx_payload_anywhere(window: Seq<u8>)
    ensures
        has_archive_payload(window) <==> exists|i: int| #[trigger] signature_at(window, i),
        forall|i: int| #[trigger] signature_at(window, i) ==> has_archive_payload(window),
{
    let sz = seq![0x37u8, 0x7A, 0xBC, 0xAF, 0x27, 0x1C];
    let rr = seq![0x52u8, 0x61, 0x72, 0x21, 0x1A, 0x07];
    let zz = seq![0x50u8, 0x4B, 0x03, 0x04];
    assert(sevenz_magic() == sz);
    assert(rar_magic() == rr);
    assert(zip_magic() == zz);
    if has_archive_payload(window) {
        if has_infix(window, sz) {
            let i = choose|i: int| occurs_at(window, sz, i);
            assert(signature_at(window, i));
        } else if has_infix(window, rr) {
            let i = choose|i: int| occurs_at(window, rr, i);
            assert(signature_at(window, i));
        } else {
            let i = choose|i: int| occurs_at(window, zz, i);
            assert(signature_at(window, i));
        }
    }
    assert forall|i: int| #[trigger] signature_at(window, i) implies has_archive_payload(window) by {
        if 0 <= i && i + 6 <= window.len() && window.subrange(i, i + 6) == sz {
            assert(occurs_at(window, sz, i));
        } else if 0 <= i && i + 6 <= window.len() && window.subrange(i, i + 6) == rr {
            assert(occurs_at(window, rr, i));
        } else {
            assert(occurs_at(window, zz, i));
        }
    }
}

/// The extension only matters for ZIP and 7z content, where `.z01` / `.001`
/// (ZIP) and `.001` (7z) mark the first volume of a split set: for every other
/// MIME type, and for no MIME type at all, two extensions give the same
/// decision. MP4 content is MP4 and RAR content is RAR whatever the extension
/// says.
pub proof fn lemma_mime_decides_without_extension(
    mime: Option<Seq<char>>,
    e1: Option<Seq<char>>,
    e2: Option<Seq<char>>,
)
    ensures
        mime != Some("application/zip"@) && mime != Some("application/x-7z-compressed"@)
            ==> mime_probe(mime, e1) == mime_probe(mime, e2),
        mime_probe(Some("video/mp4"@), e1) == Probe::Decided(FileType::Mp4),
        mime_probe(Some("video/x-m4v"@), e1) == Probe::Decided(FileType::Mp4),
        mime_probe(Some("application/vnd.rar"@), e1) == Probe::Decided(FileType::Rar),
        mime_probe(None, e1) == Probe::AskFileCommand,
        mime_probe(Some("application/zip"@), e1) == (if e1 == Some("z01"@) || e1 == Some("001"@) {
            Probe::Decided(FileType::Multi)
        } else {
            Probe::Decided(FileType::Zip)
        }),
        mime_probe(Some("application/x-7z-compressed"@), e1) == (if e1 == Some("001"@) {
            Probe::Decided(FileType::Multi)
        } else {
            Probe::Decided(FileType::SevenZ)
        }),
{
    reveal_strlit("application/zip");
    reveal_strlit("application/vnd.rar");
    reveal_strlit("application/x-7z-compressed");
    reveal_strlit("video/mp4");
    reveal_strlit("video/x-m4v");
    assert("video/mp4"@[0] != "application/zip"@[0]);
    assert("video/x-m4v"@[0] != "application/zip"@[0]);
    assert("application/vnd.rar"@[12] != "application/zip"@[12]);
    assert("application/vnd.rar"@.len() != "application/x-7z-compressed"@.len());
    assert("video/mp4"@.len() != "video/x-m4v"@.len());
}

/// The MIME type `file(1)` reports for MPEG transport streams.
pub open spec fn mp2t_mime() -> Seq<char> {
    "video/mp2t"@
}

/// `file -I -b` answered with a text that starts, ignoring ASCII case, with
/// `video/mp2t`.
pub open spec fn reports_mp2t(text: Seq<char>) -> bool {
    has_prefix(ascii_lower_seq(text), mp2t_mime())
}

/// Fallback decision on the output of `file -I -b <path>`: spot MPEG-TS
/// streams.
///
/// Returns `None` if the command failed or emitted non-UTF-8 data, and for any
/// other MIME type; the caller then treats the file as [`FileType::Unknown`].
pub fn detect_via_file_cmd(success: bool, stdout: &[u8]) -> (r: Option<FileType>)
    ensures
        r == (if success && vstd::utf8::valid_utf8(stdout@) && reports_mp2t(
            vstd::utf8::decode_utf8(stdout@),
        ) {
            Some(FileType::TS)
        } else {
            None
        }),
{
    if !success {
        return None;
    }
    let text = match decode_utf8_text(stdout) {
        Some(t) => t,
        None => return None,
    };
    let cs = chars_of(text.as_str());
    let target = chars_of("video/mp2t");
    if cs.len() < target.len() {
        assert(!reports_mp2t(text@));
        return None;
    }
    let mut i: usize = 0;
    while i < target.len()
        invariant
            target@ == mp2t_mime(),
            cs@ == text@,
            success,
            vstd::utf8::valid_utf8(stdout@),
            text@ == vstd::utf8::decode_utf8(stdout@),
            target@.len() <= cs@.len(),
            0 <= i <= target@.len(),
            forall|k: int| 0 <= k < i ==> ascii_lower(cs@[k]) == target@[k],
        decreases target@.len() - i,
    {
        if lower_ascii(cs[i]) != target[i] {
            assert(ascii_lower_seq(cs@)[i as int] == ascii_lower(cs@[i as int]));
            assert(ascii_lower_seq(cs@).subrange(0, target@.len() as int)[i as int] != target@[i as int]);
            assert(!reports_mp2t(text@));
            return None;
        }
        i = i + 1;
    }
    assert(ascii_lower_seq(cs@).subrange(0, target@.len() as int) =~= target@);
    Some(FileType::TS)
}

} // verus!
