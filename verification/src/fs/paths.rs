//! Path-construction helpers shared by all extractors.
//!
//! Paths are handled as UTF-8 text. Joining and the stem/extension split of a
//! file name are computed here; the final component and the parent of a path
//! come from `std::path::Path`.

use chrono::Datelike;
use vstd::prelude::*;

use crate::text::{chars_of, find_last, has_prefix, last_index_of, opt_text, string_of};

verus! {

broadcast use vstd::string::group_string_axioms;

/// What `Path::file_name` returns for the path with this text (the final
/// component when it is a normal name).
pub uninterp spec fn std_file_name(path: Seq<char>) -> Option<Seq<char>>;

/// What `Path::parent` returns for the path with this text.
pub uninterp spec fn std_parent(path: Seq<char>) -> Option<Seq<char>>;

/// What `Path::eq` answers for the two paths with these texts (paths compare
/// by their components).
pub uninterp spec fn std_paths_equal(a: Seq<char>, b: Seq<char>) -> bool;

/// What `pathdiff::diff_paths(path, base)` returns for these texts.
pub uninterp spec fn diff_paths_text(path: Seq<char>, base: Seq<char>) -> Option<Seq<char>>;

/// The final component of `path`, as `std::path::Path::file_name` gives it.
///
/// Trusted: calls `Path::file_name` and converts the name back to text; the
/// result is tied to the path's text by the name `std_file_name`.
#[verifier::external_body]
pub(crate) fn file_name(path: &str) -> (r: Option<String>)
    ensures
        opt_text(r) == std_file_name(path@),
{
    match std::path::Path::new(path).file_name() {
        Some(name) => Some(name.to_string_lossy().into_owned()),
        None => None,
    }
}

/// The parent of `path`, as `std::path::Path::parent` gives it.
///
/// Trusted: calls `Path::parent` and converts the result back to text; the
/// result is tied to the path's text by the name `std_parent`.
#[verifier::external_body]
pub(crate) fn parent(path: &str) -> (r: Option<String>)
    ensures
        opt_text(r) == std_parent(path@),
{
    match std::path::Path::new(path).parent() {
        Some(p) => Some(p.to_string_lossy().into_owned()),
        None => None,
    }
}

/// Whether two paths are equal as `std::path::Path` values.
///
/// Trusted: calls `<Path as PartialEq>::eq`, which compares components. The
/// contract claims only that the answer is the named one and that two
/// identical texts are equal paths (`Eq` is reflexive).
#[verifier::external_body]
pub(crate) fn paths_equal(a: &str, b: &str) -> (r: bool)
    ensures
        r == std_paths_equal(a@, b@),
        a@ == b@ ==> r,
{
    std::path::Path::new(a) == std::path::Path::new(b)
}

/// `pathdiff::diff_paths(path, base)`: `path` relative to `base`, if any.
///
/// Trusted: calls `pathdiff::diff_paths` and converts the result to text; the
/// result is tied to both arguments by the name `diff_paths_text`.
#[verifier::external_body]
fn diff_paths(path: &str, base: &str) -> (r: Option<String>)
    ensures
        opt_text(r) == diff_paths_text(path@, base@),
{
    match pathdiff::diff_paths(path, base) {
        Some(p) => Some(p.to_string_lossy().into_owned()),
        None => None,
    }
}

/// The local date's month and day of month.
///
/// Trusted: reads `chrono::Local::now()` and returns `month()` and `day()`.
/// chrono documents the ranges 1..=12 and 1..=31; which date comes back
/// depends on the clock and is not stated.
#[verifier::external_body]
fn local_month_day() -> (r: (u32, u32))
    ensures
        1 <= r.0 <= 12,
        1 <= r.1 <= 31,
{
    let now = chrono::Local::now();
    (now.month(), now.day())
}

/// Text of `PathBuf::join` on Unix: an absolute `tail` replaces `base`;
/// otherwise `tail` is appended, with a `/` in between unless `base` is empty
/// or already ends in `/`.
pub open spec fn join_spec(base: Seq<char>, tail: Seq<char>) -> Seq<char> {
    if tail.len() > 0 && tail[0] == '/' {
        tail
    } else if base.len() == 0 || base.last() == '/' {
        base + tail
    } else {
        base + seq!['/'] + tail
    }
}

/// `tail` is a final segment of `s`.
pub open spec fn has_suffix(s: Seq<char>, tail: Seq<char>) -> bool {
    tail.len() <= s.len() && s.skip(s.len() - tail.len()) == tail
}

/// A joined path always ends with the joined tail.
pub proof fn lemma_join_ends_with_tail(base: Seq<char>, tail: Seq<char>)
    ensures
        has_suffix(join_spec(base, tail), tail),
{
    let j = join_spec(base, tail);
    assert(j.skip(j.len() - tail.len()) =~= tail);
}

/// Stem of a file name, as `Path::file_stem` takes it: the part before the
/// last `.`, or the whole name when there is no `.` past the first character.
pub open spec fn stem_of_name(name: Seq<char>) -> Seq<char> {
    if name == seq!['.', '.'] {
        name
    } else {
        match last_index_of(name, '.') {
            Some(k) => if k == 0 { name } else { name.take(k) },
            None => name,
        }
    }
}

/// Extension of a file name, as `Path::extension` takes it: the part after
/// the last `.`, if there is a `.` past the first character.
pub open spec fn extension_of_name(name: Seq<char>) -> Option<Seq<char>> {
    if name == seq!['.', '.'] {
        None
    } else {
        match last_index_of(name, '.') {
            Some(k) => if k == 0 { None } else { Some(name.skip(k + 1)) },
            None => None,
        }
    }
}

/// `Path::file_stem` of a path.
pub open spec fn path_file_stem(path: Seq<char>) -> Option<Seq<char>> {
    match std_file_name(path) {
        Some(name) => Some(stem_of_name(name)),
        None => None,
    }
}

/// `Path::extension` of a path.
pub open spec fn path_extension(path: Seq<char>) -> Option<Seq<char>> {
    match std_file_name(path) {
        Some(name) => extension_of_name(name),
        None => None,
    }
}

/// The parent of a path, or `.` when it has none.
pub open spec fn parent_or_dot(path: Seq<char>) -> Seq<char> {
    match std_parent(path) {
        Some(p) => p,
        None => seq!['.'],
    }
}

/// Directory that receives the contents of `archive`:
/// `<archive_dir>/<archive_stem>_out`.
pub open spec fn out_dir_spec(archive: Seq<char>) -> Seq<char> {
    let basename = match path_file_stem(archive) {
        Some(s) => s,
        None => seq!['a', 'r', 'c', 'h', 'i', 'v', 'e'],
    };
    join_spec(parent_or_dot(archive), basename + seq!['_', 'o', 'u', 't'])
}

/// Two decimal digits of `n` (which is below 100), zero padded.
pub open spec fn two_digits(n: nat) -> Seq<char> {
    seq![((n / 10) + 48) as char, ((n % 10) + 48) as char]
}

/// `MM-DD` for a month and a day.
pub open spec fn month_day_spec(month: nat, day: nat) -> Seq<char> {
    two_digits(month) + seq!['-'] + two_digits(day)
}

/// `base` joined with `tail`, as `PathBuf::join` does it.
pub fn join(base: &str, tail: &str) -> (r: String)
    ensures
        r@ == join_spec(base@, tail@),
{
    let b = chars_of(base);
    let t = chars_of(tail);
    let mut out: Vec<char> = Vec::new();
    if t.len() > 0 && t[0] == '/' {
        return string_of(t.as_slice());
    }
    let mut i: usize = 0;
    while i < b.len()
        invariant
            0 <= i <= b@.len(),
            out@ == b@.take(i as int),
        decreases b@.len() - i,
    {
        out.push(b[i]);
        i = i + 1;
    }
    assert(b@.take(b@.len() as int) =~= b@);
    if b.len() > 0 && b[b.len() - 1] != '/' {
        out.push('/');
    }
    let ghost mid = out@;
    let mut j: usize = 0;
    while j < t.len()
        invariant
            0 <= j <= t@.len(),
            out@ == mid + t@.take(j as int),
        decreases t@.len() - j,
    {
        out.push(t[j]);
        j = j + 1;
    }
    assert(t@.take(t@.len() as int) =~= t@);
    string_of(out.as_slice())
}

/// Splits a file name at its last dot, as `file_stem` and `extension` do.
fn split_name(name: &[char]) -> (r: (Vec<char>, Option<Vec<char>>))
    ensures
        r.0@ == stem_of_name(name@),
        match r.1 {
            Some(e) => extension_of_name(name@) == Some(e@),
            None => extension_of_name(name@) is None,
        },
{
    let whole = vstd::slice::slice_to_vec(name);
    if name.len() == 2 && name[0] == '.' && name[1] == '.' {
        assert(name@ =~= seq!['.', '.']);
        return (whole, None);
    }
    assert(name@ != seq!['.', '.']);
    match find_last(name, '.') {
        None => (whole, None),
        Some(k) => {
            if k == 0 {
                (whole, None)
            } else {
                let mut stem: Vec<char> = Vec::new();
                let mut i: usize = 0;
                while i < k
                    invariant
                        k < name@.len(),
                        0 <= i <= k,
                        stem@ == name@.take(i as int),
                    decreases k - i,
                {
                    stem.push(name[i]);
                    i = i + 1;
                }
                let mut ext: Vec<char> = Vec::new();
                let mut j: usize = k + 1;
                while j < name.len()
                    invariant
                        k < name@.len(),
                        k + 1 <= j <= name@.len(),
                        ext@ == name@.subrange(k + 1, j as int),
                    decreases name@.len() - j,
                {
                    ext.push(name[j]);
                    j = j + 1;
                }
                assert(ext@ =~= name@.skip(k + 1));
                (stem, Some(ext))
            }
        }
    }
}

/// `Path::file_stem` of `path`.
pub fn file_stem(path: &str) -> (r: Option<String>)
    ensures
        opt_text(r) == path_file_stem(path@),
{
    match file_name(path) {
        None => None,
        Some(name) => {
            let cs = chars_of(name.as_str());
            let (stem, _) = split_name(cs.as_slice());
            Some(string_of(stem.as_slice()))
        }
    }
}

/// `Path::extension` of `path`.
pub fn extension(path: &str) -> (r: Option<String>)
    ensures
        opt_text(r) == path_extension(path@),
{
    match file_name(path) {
        None => None,
        Some(name) => {
            let cs = chars_of(name.as_str());
            let (_, ext) = split_name(cs.as_slice());
            match ext {
                Some(e) => Some(string_of(e.as_slice())),
                None => None,
            }
        }
    }
}

/// The parent of `path`, or `.` when it has none.
pub fn parent_or_current(path: &str) -> (r: String)
    ensures
        r@ == parent_or_dot(path@),
{
    match parent(path) {
        Some(p) => p,
        None => {
            let dot = String::from_str(".");
            proof {
                reveal_strlit(".");
            }
            assert(dot@ =~= seq!['.']);
            dot
        }
    }
}

/// The sibling directory `<archive_dir>/<archive_stem>_out` that receives the
/// contents of `archive_path` (stem `archive` when the path has no file name).
pub fn out_dir(archive_path: &str) -> (r: String)
    ensures
        r@ == out_dir_spec(archive_path@),
{
    let basename = match file_stem(archive_path) {
        Some(s) => s,
        None => {
            let s = String::from_str("archive");
            proof {
                reveal_strlit("archive");
            }
            assert(s@ =~= seq!['a', 'r', 'c', 'h', 'i', 'v', 'e']);
            s
        }
    };
    let dirname = parent_or_current(archive_path);
    let mut name = basename;
    name.append("_out");
    proof {
        reveal_strlit("_out");
    }
    assert("_out"@ =~= seq!['_', 'o', 'u', 't']);
    join(dirname.as_str(), name.as_str())
}

/// `name` without its leading `/` characters (the root of an absolute name).
pub open spec fn strip_root(name: Seq<char>) -> Seq<char>
    decreases name.len(),
{
    if name.len() > 0 && name[0] == '/' {
        strip_root(name.drop_first())
    } else {
        name
    }
}

/// Stripping the root leaves a name that does not start with `/` and is a
/// final segment of the name.
proof fn lemma_strip_root(name: Seq<char>)
    ensures
        !(strip_root(name).len() > 0 && strip_root(name)[0] == '/'),
        exists|k: int| 0 <= k <= name.len() && strip_root(name) == name.skip(k),
    decreases name.len(),
{
    if name.len() > 0 && name[0] == '/' {
        lemma_strip_root(name.drop_first());
        let k = choose|k: int|
            0 <= k <= name.drop_first().len() && strip_root(name.drop_first()) == name.drop_first().skip(
                k,
            );
        assert(name.drop_first().skip(k) =~= name.skip(k + 1));
    } else {
        assert(name.skip(0) =~= name);
    }
}

/// The output directory of an archive is non-empty and ends in `_out`, so it
/// never ends in `/`.
pub proof fn lemma_out_dir_shape(archive: Seq<char>)
    ensures
        out_dir_spec(archive).len() > 0,
        out_dir_spec(archive).last() == 't',
{
    let basename = match path_file_stem(archive) {
        Some(s) => s,
        None => seq!['a', 'r', 'c', 'h', 'i', 'v', 'e'],
    };
    let tail = basename + seq!['_', 'o', 'u', 't'];
    lemma_join_ends_with_tail(parent_or_dot(archive), tail);
    let d = out_dir_spec(archive);
    assert(d.skip(d.len() - tail.len())[tail.len() - 1] == tail[tail.len() - 1]);
}

/// Joining the output directory with a root-stripped name puts the name
/// after a `/` inside the directory.
proof fn lemma_join_in_out_dir(archive: Seq<char>, name: Seq<char>)
    ensures
        join_spec(out_dir_spec(archive), strip_root(name)) == out_dir_spec(archive) + seq!['/']
            + strip_root(name),
{
    lemma_out_dir_shape(archive);
    lemma_strip_root(name);
}

/// `name` with its leading `/` characters removed.
fn strip_root_chars(cs: &[char]) -> (r: Vec<char>)
    ensures
        r@ == strip_root(cs@),
{
    let n = cs.len();
    let mut a: usize = 0;
    assert(cs@.skip(0) =~= cs@);
    while a < n && cs[a] == '/'
        invariant
            n == cs@.len(),
            0 <= a <= n,
            strip_root(cs@) == strip_root(cs@.skip(a as int)),
        decreases n - a,
    {
        assert(cs@.skip(a as int).drop_first() =~= cs@.skip(a + 1));
        a = a + 1;
    }
    let mut out: Vec<char> = Vec::new();
    let mut i: usize = a;
    while i < n
        invariant
            n == cs@.len(),
            0 <= a <= i <= n,
            out@ == cs@.subrange(a as int, i as int),
        decreases n - i,
    {
        out.push(cs[i]);
        i = i + 1;
    }
    assert(out@ =~= cs@.skip(a as int));
    out
}

/// Where an entry named `filename` of `archive_path` is written:
/// `<archive_dir>/<archive_stem>_out/<filename>`, with the root of an absolute
/// name stripped so that it too lands inside the `_out` directory.
pub open spec fn outpath_spec(archive: Seq<char>, filename: Seq<char>) -> Seq<char> {
    out_dir_spec(archive) + seq!['/'] + strip_root(filename)
}

/// Build the per-entry output path: `<archive_dir>/<archive_stem>_out/<filename>`.
///
/// All extractors funnel writes through this helper so that nested archives can be
/// discovered next to their parent and visualised consistently. The root of an
/// absolute entry name is stripped, so every path it gives lies inside the
/// `_out` directory.
pub fn create_outpath(archive_path: &str, filename: &str) -> (r: String)
    ensures
        r@ == outpath_spec(archive_path@, filename@),
        r@ == join_spec(out_dir_spec(archive_path@), strip_root(filename@)),
        has_prefix(r@, out_dir_spec(archive_path@) + seq!['/']),
{
    let dir = out_dir(archive_path);
    let cs = chars_of(filename);
    let rel = strip_root_chars(cs.as_slice());
    let mut out = chars_of(dir.as_str());
    let ghost base = out@;
    out.push('/');
    let mut i: usize = 0;
    while i < rel.len()
        invariant
            0 <= i <= rel@.len(),
            out@ == base + seq!['/'] + rel@.take(i as int),
        decreases rel@.len() - i,
    {
        out.push(rel[i]);
        i = i + 1;
    }
    assert(rel@.take(rel@.len() as int) =~= rel@);
    proof {
        lemma_join_in_out_dir(archive_path@, filename@);
        let d = out_dir_spec(archive_path@) + seq!['/'];
        assert(out@.subrange(0, d.len() as int) =~= d);
    }
    string_of(out.as_slice())
}

/// Two decimal digits, zero padded.
fn push_two_digits(out: &mut Vec<char>, n: u32)
    requires
        n < 100,
    ensures
        final(out)@ == old(out)@ + two_digits(n as nat),
{
    let tens: u8 = (n / 10) as u8;
    let ones: u8 = (n % 10) as u8;
    out.push((tens + 48) as char);
    out.push((ones + 48) as char);
    assert(final(out)@ =~= old(out)@ + two_digits(n as nat));
}

/// `MM-DD` for the given month and day, as chrono's `%m-%d` writes it.
pub fn month_day_stamp(month: u32, day: u32) -> (r: String)
    requires
        1 <= month <= 12,
        1 <= day <= 31,
    ensures
        r@ == month_day_spec(month as nat, day as nat),
{
    let mut out: Vec<char> = Vec::new();
    push_two_digits(&mut out, month);
    out.push('-');
    push_two_digits(&mut out, day);
    assert(out@ =~= month_day_spec(month as nat, day as nat));
    string_of(out.as_slice())
}

/// `<basedir>/MM-DD` for the given date.
pub fn dated_dir_name(basedir: &str, month: u32, day: u32) -> (r: String)
    requires
        1 <= month <= 12,
        1 <= day <= 31,
    ensures
        r@ == join_spec(basedir@, month_day_spec(month as nat, day as nat)),
{
    let stamp = month_day_stamp(month, day);
    join(basedir, stamp.as_str())
}

/// `<basedir>/MM-DD_bak` for the given date.
pub fn dated_bak_dir_name(basedir: &str, month: u32, day: u32) -> (r: String)
    requires
        1 <= month <= 12,
        1 <= day <= 31,
    ensures
        r@ == join_spec(basedir@, month_day_spec(month as nat, day as nat) + "_bak"@),
{
    let mut stamp = month_day_stamp(month, day);
    stamp.append("_bak");
    join(basedir, stamp.as_str())
}

/// Today's working directory inside `basedir`, named like `MM-DD`.
pub fn today_dir_name(basedir: &str) -> (r: String)
    ensures
        exists|m: nat, d: nat|
            1 <= m <= 12 && 1 <= d <= 31 && r@ == join_spec(basedir@, #[trigger] month_day_spec(m, d)),
{
    let (month, day) = local_month_day();
    dated_dir_name(basedir, month, day)
}

/// Today's backup directory inside `basedir`, named like `MM-DD_bak`.
pub fn today_bak_dir_name(basedir: &str) -> (r: String)
    ensures
        exists|m: nat, d: nat|
            1 <= m <= 12 && 1 <= d <= 31 && r@ == join_spec(
                basedir@,
                #[trigger] month_day_spec(m, d) + "_bak"@,
            ),
{
    let (month, day) = local_month_day();
    dated_bak_dir_name(basedir, month, day)
}

/// Compute `absolute_path` relative to `dir`, falling back to the original path
/// when no relation exists.
pub fn relative_path(dir: &str, absolute_path: &str) -> (r: String)
    ensures
        r@ == match diff_paths_text(absolute_path@, dir@) {
            Some(p) => p,
            None => absolute_path@,
        },
{
    match diff_paths(absolute_path, dir) {
        Some(p) => p,
        None => String::from_str(absolute_path),
    }
}

} // verus!
