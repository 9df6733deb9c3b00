//! Video file post-processing: the canonical extension for MP4/TS files.

use vstd::prelude::*;

use crate::fs::classify::FileType;
use crate::fs::paths::{
    has_suffix, lemma_join_ends_with_tail, extension, file_stem, join, join_spec, parent_or_current, parent_or_dot, path_extension,
    path_file_stem,
};
use crate::text::{ascii_lower_seq, chars_of, lower_ascii, opt_text};

verus! {

broadcast use vstd::string::group_string_axioms;

/// The canonical extension of a video kind (`mp4` or `ts`), `None` for
/// anything that is not a video.
pub open spec fn canonical_extension(t: FileType) -> Option<Seq<char>> {
    match t {
        FileType::Mp4 => Some("mp4"@),
        FileType::TS => Some("ts"@),
        _ => None,
    }
}

/// The stem of `path`, or `video` when it has none.
pub open spec fn stem_or_video(path: Seq<char>) -> Seq<char> {
    match path_file_stem(path) {
        Some(s) => s,
        None => "video"@,
    }
}

/// Where a file of kind `t` at `path` must be renamed to so that its
/// extension matches its content: `<parent>/<stem>.<ext>`; `None` when the
/// file is not a video or its extension already matches, ignoring ASCII case.
pub open spec fn rename_target_spec(path: Seq<char>, t: FileType) -> Option<Seq<char>> {
    match canonical_extension(t) {
        None => None,
        Some(ext) => if path_extension(path) matches Some(e) && ascii_lower_seq(e) == ext {
            None
        } else {
            Some(join_spec(parent_or_dot(path), stem_or_video(path) + "."@ + ext))
        },
    }
}

/// Renaming a video gives it its canonical extension: every rename target
/// ends with `.` followed by the canonical extension of the video's kind.
pub proof fn lemma_rename_target_extension(path: Seq<char>, t: FileType)
    ensures
        rename_target_spec(path, t) matches Some(q) ==> has_suffix(q, "."@ + canonical_extension(t)->0),
{
    if let Some(ext) = canonical_extension(t) {
        let name = stem_or_video(path) + "."@ + ext;
        lemma_join_ends_with_tail(parent_or_dot(path), name);
        let j = join_spec(parent_or_dot(path), name);
        let suffix = "."@ + ext;
        assert(name.skip(name.len() - suffix.len()) =~= suffix);
        assert(j.skip(j.len() - suffix.len()) =~= suffix);
    }
}

/// A renamed video keeps its whole file stem (everything before the last
/// extension, as `Path::file_stem` gives it) and its directory: the target is
/// `<parent>/<stem>.<ext>` for the video's canonical extension. A rename is
/// made exactly for a video whose extension is missing or differs from the
/// canonical one ignoring ASCII case; non-videos are never renamed.
pub proof fn lemma_rename_keeps_stem(path: Seq<char>, t: FileType)
    ensures
        !(t is Mp4 || t is TS) ==> rename_target_spec(path, t) is None,
        (t is Mp4 || t is TS) && (path_extension(path) matches Some(e) && ascii_lower_seq(e)
            == canonical_extension(t)->0) ==> rename_target_spec(path, t) is None,
        (t is Mp4 || t is TS) && !(path_extension(path) matches Some(e) && ascii_lower_seq(e)
            == canonical_extension(t)->0) ==> (path_file_stem(path) matches Some(s)
            ==> rename_target_spec(path, t) == Some(
            join_spec(parent_or_dot(path), s + "."@ + canonical_extension(t)->0),
        )),
        t is Mp4 ==> canonical_extension(t) == Some("mp4"@),
        t is TS ==> canonical_extension(t) == Some("ts"@),
{
}

/// Lower-cases the ASCII letters of `s` and compares the result with `expected`.
fn lowered_equals(s: &str, expected: &str) -> (r: bool)
    ensures
        r == (ascii_lower_seq(s@) == expected@),
{
    let cs = chars_of(s);
    let es = chars_of(expected);
    if cs.len() != es.len() {
        assert(ascii_lower_seq(s@).len() != expected@.len());
        return false;
    }
    let mut i: usize = 0;
    while i < cs.len()
        invariant
            cs@ == s@,
            es@ == expected@,
            cs@.len() == es@.len(),
            0 <= i <= cs@.len(),
            forall|k: int| 0 <= k < i ==> ascii_lower_seq(cs@)[k] == es@[k],
        decreases cs@.len() - i,
    {
        if lower_ascii(cs[i]) != es[i] {
            assert(ascii_lower_seq(cs@)[i as int] != es@[i as int]);
            return false;
        }
        i = i + 1;
    }
    assert(ascii_lower_seq(cs@) =~= es@);
    true
}

/// Rename target for `path` so its extension matches `file_type` (`.mp4` or
/// `.ts`).
///
/// `None` means there is nothing to do: the file is not a video, or its
/// extension already matches (case-insensitive). The caller performs the
/// rename.
pub fn rename_target(path: &str, file_type: FileType) -> (r: Option<String>)
    ensures
        opt_text(r) == rename_target_spec(path@, file_type),
{
    let target_ext = match file_type {
        FileType::Mp4 => "mp4",
        FileType::TS => "ts",
        _ => return None,
    };
    if let Some(ext) = extension(path) {
        if lowered_equals(ext.as_str(), target_ext) {
            return None;
        }
    }
    let parent = parent_or_current(path);
    let mut name = match file_stem(path) {
        Some(s) => s,
        None => String::from_str("video"),
    };
    name.append(".");
    name.append(target_ext);
    Some(join(parent.as_str(), name.as_str()))
}

} // verus!
