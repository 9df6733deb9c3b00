//! `unar`/`lsar` subprocess backend, used for split archives and
//! self-extracting executables: the output directory and the reading of
//! `lsar`'s listing.

use vstd::prelude::*;

use super::PasswordCheck;
use crate::fs::paths::{file_stem, join, join_spec, out_dir, out_dir_spec, path_file_stem};
use crate::text::{decode_utf8_text, lines_of, lines_spec, opt_text, texts};

verus! {

/// Backend that shells out to the `unar` binary.
pub struct UnarExtractor;

/// The entries `lsar` lists: every line of its output after the first, which
/// is the `Archive: <name>` header.
pub open spec fn lsar_entries_spec(text: Seq<char>) -> Seq<Seq<char>> {
    let lines = lines_spec(text);
    if lines.len() == 0 {
        lines
    } else {
        lines.skip(1)
    }
}

/// Only the header is dropped: every later line of `lsar`'s output is an
/// entry, in order, whatever it holds (directories ending in `/` included),
/// and output without lines lists nothing.
pub proof fn lemma_lsar_keeps_every_later_line(text: Seq<char>)
    ensures
        lines_spec(text).len() == 0 ==> lsar_entries_spec(text).len() == 0,
        lines_spec(text).len() > 0 ==> lsar_entries_spec(text).len() == lines_spec(text).len() - 1,
        forall|i: int|
            0 <= i < lsar_entries_spec(text).len() ==> #[trigger] lsar_entries_spec(text)[i]
                == lines_spec(text)[i + 1],
{
}

impl UnarExtractor {
    /// The directory `unar` extracts into: `<archive_dir>/<stem>_out`, the
    /// same directory `create_outpath` writes the native backends' entries
    /// to; `None` when the path has no file stem.
    pub fn output_dir(path: &str) -> (r: Option<String>)
        ensures
            match path_file_stem(path@) {
                None => r is None,
                Some(_) => opt_text(r) == Some(out_dir_spec(path@)),
            },
    {
        match file_stem(path) {
            None => None,
            Some(_) => Some(out_dir(path)),
        }
    }

    /// How `unar`'s exit status is read: its exit codes do not tell a wrong
    /// password from other failures, so any failure counts as a wrong
    /// password (and the partial output is cleared before the next one).
    pub fn exit_check(succeeded: bool) -> (r: PasswordCheck)
        ensures
            r == (if succeeded { PasswordCheck::Accepted } else { PasswordCheck::Rejected }),
    {
        if succeeded {
            PasswordCheck::Accepted
        } else {
            PasswordCheck::Rejected
        }
    }

    /// Where an entry listed by `lsar` lies after extraction into `outdir`:
    /// the entry joined onto `outdir`.
    pub fn entry_path(outdir: &str, entry: &str) -> (r: String)
        ensures
            r@ == join_spec(outdir@, entry@),
    {
        join(outdir, entry)
    }
}

/// Parse the standard output of `lsar <archive>` into its entries (one path
/// per line, header skipped); `None` when the output is not UTF-8.
pub fn parse_lsar_output(stdout: &[u8]) -> (r: Option<Vec<String>>)
    ensures
        match r {
            Some(v) => vstd::utf8::valid_utf8(stdout@) && texts(v@) == lsar_entries_spec(
                vstd::utf8::decode_utf8(stdout@),
            ),
            None => !vstd::utf8::valid_utf8(stdout@),
        },
{
    let text = match decode_utf8_text(stdout) {
        Some(t) => t,
        None => return None,
    };
    let lines = lines_of(text.as_str());
    if lines.len() == 0 {
        return Some(lines);
    }
    let mut out: Vec<String> = Vec::new();
    let mut i: usize = 1;
    while i < lines.len()
        invariant
            texts(lines@) == lines_spec(text@),
            1 <= i <= lines@.len(),
            texts(out@) == texts(lines@).subrange(1, i as int),
        decreases lines@.len() - i,
    {
        let ghost prev = out@;
        out.push(lines[i].clone());
        assert(texts(out@) =~= texts(prev).push(lines@[i as int]@));
        assert(texts(lines@).subrange(1, i + 1) =~= texts(lines@).subrange(1, i as int).push(
            lines@[i as int]@,
        ));
        i = i + 1;
    }
    assert(texts(lines@).subrange(1, lines@.len() as int) =~= texts(lines@).skip(1));
    Some(out)
}

} // verus!
