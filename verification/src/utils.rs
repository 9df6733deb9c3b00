//! A narrower set of classification and path helpers: no self-extracting
//! kind, no `.7z.001` routing, and output paths that require the archive path
//! to have a parent and a stem.

use vstd::prelude::*;

use crate::fs::paths::{
    create_outpath as outpath, extension, file_stem, join, join_spec, outpath_spec,
    parent, path_extension, path_file_stem, std_parent,
};
use crate::text::{ascii_lower_seq, chars_of, lower_ascii, opt_text, str_eq};

verus! {

broadcast use vstd::string::group_string_axioms;

/// Classification of a single file.
#[derive(Debug, PartialEq, Eq, Clone, Copy, Structural)]
pub enum FileType {
    Zip,
    Rar,
    SevenZ,
    Mp4,
    TS,
    Multi,
    Unknown,
}

/// The archive kinds.
pub open spec fn is_archive_kind(t: FileType) -> bool {
    t is Rar || t is SevenZ || t is Zip || t is Multi
}

/// The video kinds.
pub open spec fn is_video_kind(t: FileType) -> bool {
    t is Mp4 || t is TS
}

/// Whether `t` is one of the archive kinds.
pub fn is_type_archive(t: FileType) -> (b: bool)
    ensures
        b == is_archive_kind(t),
        b ==> !is_video_kind(t),
{
    match t {
        FileType::Rar | FileType::SevenZ | FileType::Zip | FileType::Multi => true,
        _ => false,
    }
}

/// Whether `t` is one of the video kinds.
pub fn is_type_video(t: FileType) -> (b: bool)
    ensures
        b == is_video_kind(t),
        b ==> !is_archive_kind(t),
{
    match t {
        FileType::Mp4 | FileType::TS => true,
        _ => false,
    }
}

/// The type a sniffed MIME type and the extension give; `None` for a
/// recognised MIME type that is none of these (an unrecognised file is
/// decided by `file(1)` instead).
pub open spec fn mime_type_spec(mime: Seq<char>, ext: Option<Seq<char>>) -> FileType {
    if mime == "application/zip"@ {
        if ext == Some("z01"@) || ext == Some("001"@) {
            FileType::Multi
        } else {
            FileType::Zip
        }
    } else if mime == "application/vnd.rar"@ {
        FileType::Rar
    } else if mime == "application/x-7z-compressed"@ {
        FileType::SevenZ
    } else if mime == "video/mp4"@ || mime == "video/x-m4v"@ {
        FileType::Mp4
    } else {
        FileType::Unknown
    }
}

/// Classify a file whose magic bytes show the MIME type `mime`.
pub fn classify_mime(mime: &str, extension: Option<&str>) -> (r: FileType)
    ensures
        r == mime_type_spec(
            mime@,
            match extension {
                Some(e) => Some(e@),
                None => None,
            },
        ),
{
    if str_eq(mime, "application/zip") {
        let multi = match extension {
            Some(e) => str_eq(e, "z01") || str_eq(e, "001"),
            None => false,
        };
        if multi {
            FileType::Multi
        } else {
            FileType::Zip
        }
    } else if str_eq(mime, "application/vnd.rar") {
        FileType::Rar
    } else if str_eq(mime, "application/x-7z-compressed") {
        FileType::SevenZ
    } else if str_eq(mime, "video/mp4") || str_eq(mime, "video/x-m4v") {
        FileType::Mp4
    } else {
        FileType::Unknown
    }
}

/// `<archive_dir>/<archive_stem>_out/<filename>`; the archive path must have a
/// parent and a file stem.
pub fn create_outpath(archive_path: &str, filename: &str) -> (r: String)
    requires
        path_file_stem(archive_path@) is Some,
        std_parent(archive_path@) is Some,
    ensures
        r@ == outpath_spec(archive_path@, filename@),
{
    outpath(archive_path, filename)
}

/// [`create_outpath`] where the archive path has a parent and a file stem;
/// `None` (where `create_outpath` cannot be used) otherwise.
pub fn checked_create_outpath(archive_path: &str, filename: &str) -> (r: Option<String>)
    ensures
        match r {
            Some(p) => path_file_stem(archive_path@) is Some && std_parent(archive_path@) is Some
                && p@ == outpath_spec(archive_path@, filename@),
            None => path_file_stem(archive_path@) is None || std_parent(archive_path@) is None,
        },
{
    if file_stem(archive_path).is_none() || parent(archive_path).is_none() {
        return None;
    }
    Some(create_outpath(archive_path, filename))
}

/// The canonical extension of a video kind.
pub open spec fn canonical_extension(t: FileType) -> Option<Seq<char>> {
    match t {
        FileType::Mp4 => Some("mp4"@),
        FileType::TS => Some("ts"@),
        _ => None,
    }
}

/// The file must be renamed: it is a video and its extension is missing or
/// differs (ignoring ASCII case) from the canonical one.
pub open spec fn needs_rename(path: Seq<char>, t: FileType) -> bool {
    match canonical_extension(t) {
        None => false,
        Some(ext) => !(path_extension(path) matches Some(e) && ascii_lower_seq(e) == ext),
    }
}

/// Whether the file must be renamed (see [`needs_rename`]).
pub fn video_needs_rename(path: &str, file_type: FileType) -> (r: bool)
    ensures
        r == needs_rename(path@, file_type),
{
    let target_ext = match file_type {
        FileType::Mp4 => "mp4",
        FileType::TS => "ts",
        _ => return false,
    };
    match extension(path) {
        None => true,
        Some(ext) => {
            let cs = chars_of(ext.as_str());
            let es = chars_of(target_ext);
            if cs.len() != es.len() {
                assert(ascii_lower_seq(cs@).len() != es@.len());
                return true;
            }
            let mut i: usize = 0;
            while i < cs.len()
                invariant
                    cs@ == ext@,
                    es@ == target_ext@,
                    path_extension(path@) == Some(ext@),
                    canonical_extension(file_type) == Some(target_ext@),
                    cs@.len() == es@.len(),
                    0 <= i <= cs@.len(),
                    forall|k: int| 0 <= k < i ==> ascii_lower_seq(cs@)[k] == es@[k],
                decreases cs@.len() - i,
            {
                if lower_ascii(cs[i]) != es[i] {
                    assert(ascii_lower_seq(cs@)[i as int] != es@[i as int]);
                    return true;
                }
                i = i + 1;
            }
            assert(ascii_lower_seq(cs@) =~= es@);
            false
        },
    }
}

/// Rename target of a video whose extension does not match its content:
/// `<parent>/<stem>.<ext>`; `None` when there is nothing to rename. When a
/// rename is needed the path must have a parent and a file stem.
pub fn rename_target(path: &str, file_type: FileType) -> (r: Option<String>)
    requires
        needs_rename(path@, file_type) ==> std_parent(path@) is Some && path_file_stem(path@) is Some,
    ensures
        opt_text(r) == (if needs_rename(path@, file_type) {
            Some(
                join_spec(
                    std_parent(path@)->0,
                    path_file_stem(path@)->0 + "."@ + canonical_extension(file_type)->0,
                ),
            )
        } else {
            None
        }),
{
    if !video_needs_rename(path, file_type) {
        return None;
    }
    let target_ext = match file_type {
        FileType::Mp4 => "mp4",
        _ => "ts",
    };
    let dir = match parent(path) {
        Some(p) => p,
        None => return None,
    };
    let mut name = match file_stem(path) {
        Some(s) => s,
        None => return None,
    };
    name.append(".");
    name.append(target_ext);
    Some(join(dir.as_str(), name.as_str()))
}

/// [`rename_target`] where it can be used: `None` when a rename is needed
/// but the path has no parent or no file stem.
pub fn checked_rename_target(path: &str, file_type: FileType) -> (r: Option<Option<String>>)
    ensures
        match r {
            Some(t) => (needs_rename(path@, file_type) ==> std_parent(path@) is Some
                && path_file_stem(path@) is Some) && opt_text(t) == (if needs_rename(
                path@,
                file_type,
            ) {
                Some(
                    join_spec(
                        std_parent(path@)->0,
                        path_file_stem(path@)->0 + "."@ + canonical_extension(file_type)->0,
                    ),
                )
            } else {
                None
            }),
            None => needs_rename(path@, file_type) && (std_parent(path@) is None || path_file_stem(
                path@,
            ) is None),
        },
{
    let usable = file_stem(path).is_some() && parent(path).is_some();
    if usable || !video_needs_rename(path, file_type) {
        Some(rename_target(path, file_type))
    } else {
        None
    }
}

} // verus!
