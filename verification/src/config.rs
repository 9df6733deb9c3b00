//! Runtime configuration: the list of candidate passwords.
//!
//! The raw value of `AUTOARC_PASSWORDS` is read (and memoized) by the caller;
//! this module turns it into the list the extractors try. The variable is
//! optional: the empty password is always tried first.

use vstd::prelude::*;

use crate::text::{split_spec, string_of, texts};

verus! {

broadcast use vstd::string::group_string_axioms;

/// Unicode `White_Space`, the set `char::is_whitespace` and `str::trim` use.
pub open spec fn is_white_space(c: char) -> bool {
    ||| c == ' '
    ||| ('\t' <= c && c <= '\r')
    ||| c == '\u{85}'
    ||| c == '\u{a0}'
    ||| c == '\u{1680}'
    ||| ('\u{2000}' <= c && c <= '\u{200a}')
    ||| c == '\u{2028}'
    ||| c == '\u{2029}'
    ||| c == '\u{202f}'
    ||| c == '\u{205f}'
    ||| c == '\u{3000}'
}

/// `s` without its leading white space.
pub open spec fn trim_start_spec(s: Seq<char>) -> Seq<char>
    decreases s.len(),
{
    if s.len() > 0 && is_white_space(s[0]) {
        trim_start_spec(s.drop_first())
    } else {
        s
    }
}

/// `s` without its trailing white space.
pub open spec fn trim_end_spec(s: Seq<char>) -> Seq<char>
    decreases s.len(),
{
    if s.len() > 0 && is_white_space(s.last()) {
        trim_end_spec(s.drop_last())
    } else {
        s
    }
}

/// `str::trim`: `s` without leading and trailing white space.
pub open spec fn trim_spec(s: Seq<char>) -> Seq<char> {
    trim_end_spec(trim_start_spec(s))
}

/// The trimmed pieces that are not empty, in order.
pub open spec fn nonempty_trimmed(pieces: Seq<Seq<char>>) -> Seq<Seq<char>>
    decreases pieces.len(),
{
    if pieces.len() == 0 {
        Seq::empty()
    } else {
        let rest = nonempty_trimmed(pieces.drop_last());
        let t = trim_spec(pieces.last());
        if t.len() > 0 {
            rest.push(t)
        } else {
            rest
        }
    }
}

/// The candidate passwords a comma-separated list holds: each piece trimmed,
/// empty pieces dropped, order kept.
pub open spec fn password_entries(raw: Seq<char>) -> Seq<Seq<char>> {
    nonempty_trimmed(split_spec(raw, ','))
}

/// A candidate password as the list yields it: non-empty, without leading or
/// trailing white space, and without a comma.
pub open spec fn is_clean_entry(p: Seq<char>) -> bool {
    &&& p.len() > 0
    &&& !is_white_space(p[0])
    &&& !is_white_space(p.last())
    &&& forall|j: int| 0 <= j < p.len() ==> p[j] != ','
}

/// Trimming the start drops a prefix and leaves no leading white space.
proof fn lemma_trim_start(s: Seq<char>)
    ensures
        exists|k: int| 0 <= k <= s.len() && trim_start_spec(s) == s.skip(k),
        trim_start_spec(s).len() > 0 ==> !is_white_space(trim_start_spec(s)[0]),
    decreases s.len(),
{
    if s.len() > 0 && is_white_space(s[0]) {
        lemma_trim_start(s.drop_first());
        let k = choose|k: int| 0 <= k <= s.drop_first().len() && trim_start_spec(s.drop_first()) == s.drop_first().skip(k);
        assert(s.drop_first().skip(k) =~= s.skip(k + 1));
    } else {
        assert(s.skip(0) =~= s);
    }
}

/// Trimming the end drops a suffix and leaves no trailing white space.
proof fn lemma_trim_end(s: Seq<char>)
    ensures
        exists|k: int| 0 <= k <= s.len() && trim_end_spec(s) == s.take(k),
        trim_end_spec(s).len() > 0 ==> !is_white_space(trim_end_spec(s).last()),
    decreases s.len(),
{
    if s.len() > 0 && is_white_space(s.last()) {
        lemma_trim_end(s.drop_last());
        let k = choose|k: int| 0 <= k <= s.drop_last().len() && trim_end_spec(s.drop_last()) == s.drop_last().take(k);
        assert(s.drop_last().take(k) =~= s.take(k));
    } else {
        assert(s.take(s.len() as int) =~= s);
    }
}

/// A non-empty trimmed piece of comma-free text is a clean entry.
proof fn lemma_trim_clean(s: Seq<char>)
    requires
        forall|j: int| 0 <= j < s.len() ==> s[j] != ',',
        trim_spec(s).len() > 0,
    ensures
        is_clean_entry(trim_spec(s)),
{
    lemma_trim_start(s);
    let t = trim_start_spec(s);
    let k = choose|k: int| 0 <= k <= s.len() && t == s.skip(k);
    lemma_trim_end(t);
    let k2 = choose|k2: int| 0 <= k2 <= t.len() && trim_end_spec(t) == t.take(k2);
    let r = trim_spec(s);
    assert(r == t.take(k2));
    assert(r[0] == t[0]);
    assert forall|j: int| 0 <= j < r.len() implies r[j] != ',' by {
        assert(r[j] == s[j + k]);
    }
}

/// The pieces `split_spec` yields never hold the separator.
proof fn lemma_split_pieces_free(s: Seq<char>, sep: char)
    ensures
        forall|i: int, j: int|
            0 <= i < split_spec(s, sep).len() && 0 <= j < split_spec(s, sep)[i].len() ==> split_spec(
                s,
                sep,
            )[i][j] != sep,
    decreases s.len(),
{
    crate::text::lemma_split_nonempty(s, sep);
    if s.len() > 0 {
        lemma_split_pieces_free(s.drop_last(), sep);
        crate::text::lemma_split_nonempty(s.drop_last(), sep);
        let prev = split_spec(s.drop_last(), sep);
        assert forall|i: int, j: int|
            0 <= i < split_spec(s, sep).len() && 0 <= j < split_spec(s, sep)[i].len() implies split_spec(
            s,
            sep,
        )[i][j] != sep by {
            if s.last() != sep && i == prev.len() - 1 {
                if j < prev.last().len() {
                    assert(split_spec(s, sep)[i][j] == prev[i][j]);
                }
            } else if i < prev.len() {
                assert(split_spec(s, sep)[i] == prev[i]);
            }
        }
    }
}

/// Keeping the non-empty trimmed pieces of comma-free pieces yields clean
/// entries.
proof fn lemma_nonempty_trimmed_clean(pieces: Seq<Seq<char>>)
    requires
        forall|i: int, j: int| 0 <= i < pieces.len() && 0 <= j < pieces[i].len() ==> pieces[i][j] != ',',
    ensures
        forall|i: int| 0 <= i < nonempty_trimmed(pieces).len() ==> is_clean_entry(
            #[trigger] nonempty_trimmed(pieces)[i],
        ),
    decreases pieces.len(),
{
    if pieces.len() > 0 {
        let prefix = pieces.drop_last();
        assert forall|i: int, j: int| 0 <= i < prefix.len() && 0 <= j < prefix[i].len() implies prefix[i][j]
            != ',' by {
            assert(prefix[i] == pieces[i]);
        }
        lemma_nonempty_trimmed_clean(prefix);
        let last = pieces.last();
        assert forall|j: int| 0 <= j < last.len() implies last[j] != ',' by {
            assert(last == pieces[pieces.len() - 1]);
        }
        let rest = nonempty_trimmed(prefix);
        if trim_spec(last).len() > 0 {
            lemma_trim_clean(last);
            assert(nonempty_trimmed(pieces) == rest.push(trim_spec(last)));
        } else {
            assert(nonempty_trimmed(pieces) == rest);
        }
        assert forall|i: int| 0 <= i < nonempty_trimmed(pieces).len() implies is_clean_entry(
            #[trigger] nonempty_trimmed(pieces)[i],
        ) by {
            if i < rest.len() {
                assert(nonempty_trimmed(pieces)[i] == rest[i]);
            }
        }
    }
}

/// Every candidate password the list yields is non-empty, has no leading or
/// trailing white space and holds no comma.
pub proof fn lemma_password_entries_clean(raw: Seq<char>)
    ensures
        forall|i: int| 0 <= i < password_entries(raw).len() ==> is_clean_entry(
            #[trigger] password_entries(raw)[i],
        ),
{
    lemma_split_pieces_free(raw, ',');
    lemma_nonempty_trimmed_clean(split_spec(raw, ','));
}

/// `p` is a contiguous run of `s`.
pub open spec fn is_segment(s: Seq<char>, p: Seq<char>) -> bool {
    exists|a: int, b: int| 0 <= a <= b <= s.len() && p == #[trigger] s.subrange(a, b)
}

/// A run of a run of `s` is a run of `s`.
proof fn lemma_segment_trans(s: Seq<char>, p: Seq<char>, q: Seq<char>)
    requires
        is_segment(s, p),
        is_segment(p, q),
    ensures
        is_segment(s, q),
{
    let (a, b) = choose|a: int, b: int| 0 <= a <= b <= s.len() && p == #[trigger] s.subrange(a, b);
    let (c, d) = choose|c: int, d: int| 0 <= c <= d <= p.len() && q == #[trigger] p.subrange(c, d);
    assert(q =~= s.subrange(a + c, a + d));
}

/// Trimming keeps a run of the text.
proof fn lemma_trim_segment(p: Seq<char>)
    ensures
        is_segment(p, trim_spec(p)),
{
    lemma_trim_start(p);
    let t = trim_start_spec(p);
    let k = choose|k: int| 0 <= k <= p.len() && t == p.skip(k);
    lemma_trim_end(t);
    let k2 = choose|k2: int| 0 <= k2 <= t.len() && trim_end_spec(t) == t.take(k2);
    assert(trim_spec(p) =~= p.subrange(k, k + k2));
}

/// Every piece `split_spec` yields is a run of the text, and the last piece
/// runs to its end.
proof fn lemma_split_segments(s: Seq<char>, sep: char)
    ensures
        forall|i: int| 0 <= i < split_spec(s, sep).len() ==> is_segment(s, #[trigger] split_spec(s, sep)[i]),
        exists|a: int| 0 <= a <= s.len() && split_spec(s, sep).last() == #[trigger] s.subrange(a, s.len() as int),
    decreases s.len(),
{
    crate::text::lemma_split_nonempty(s, sep);
    if s.len() == 0 {
        assert(split_spec(s, sep)[0] =~= s.subrange(0, 0));
    } else {
        let t = s.drop_last();
        lemma_split_segments(t, sep);
        crate::text::lemma_split_nonempty(t, sep);
        let prev = split_spec(t, sep);
        let cur = split_spec(s, sep);
        assert forall|i: int| 0 <= i < prev.len() && is_segment(t, prev[i]) implies is_segment(s, prev[i]) by {
            let (a, b) = choose|a: int, b: int| 0 <= a <= b <= t.len() && prev[i] == #[trigger] t.subrange(a, b);
            assert(prev[i] =~= s.subrange(a, b));
        }
        let a0 = choose|a: int| 0 <= a <= t.len() && prev.last() == #[trigger] t.subrange(a, t.len() as int);
        if s.last() == sep {
            assert(cur == prev.push(Seq::<char>::empty()));
            assert(cur.last() =~= s.subrange(s.len() as int, s.len() as int));
            assert forall|i: int| 0 <= i < cur.len() implies is_segment(s, #[trigger] cur[i]) by {
                if i < prev.len() {
                    assert(cur[i] == prev[i]);
                } else {
                    assert(cur[i] =~= s.subrange(s.len() as int, s.len() as int));
                }
            }
        } else {
            assert(cur == prev.update(prev.len() - 1, prev.last().push(s.last())));
            assert(cur.last() =~= s.subrange(a0, s.len() as int));
            assert forall|i: int| 0 <= i < cur.len() implies is_segment(s, #[trigger] cur[i]) by {
                if i < prev.len() - 1 {
                    assert(cur[i] == prev[i]);
                } else {
                    assert(cur[i] =~= s.subrange(a0, s.len() as int));
                }
            }
        }
    }
}

/// Keeping the non-empty trimmed pieces keeps runs of the text.
proof fn lemma_nonempty_trimmed_segments(s: Seq<char>, pieces: Seq<Seq<char>>)
    requires
        forall|i: int| 0 <= i < pieces.len() ==> is_segment(s, #[trigger] pieces[i]),
    ensures
        forall|i: int| 0 <= i < nonempty_trimmed(pieces).len() ==> is_segment(s, #[trigger] nonempty_trimmed(pieces)[i]),
    decreases pieces.len(),
{
    if pieces.len() > 0 {
        let prefix = pieces.drop_last();
        assert forall|i: int| 0 <= i < prefix.len() implies is_segment(s, #[trigger] prefix[i]) by {
            assert(prefix[i] == pieces[i]);
        }
        lemma_nonempty_trimmed_segments(s, prefix);
        let last = pieces.last();
        assert(is_segment(s, pieces[pieces.len() - 1]));
        lemma_trim_segment(last);
        lemma_segment_trans(s, last, trim_spec(last));
        let rest = nonempty_trimmed(prefix);
        assert forall|i: int| 0 <= i < nonempty_trimmed(pieces).len() implies is_segment(
            s,
            #[trigger] nonempty_trimmed(pieces)[i],
        ) by {
            if i < rest.len() {
                assert(nonempty_trimmed(pieces)[i] == rest[i]);
            }
        }
    }
}

/// Splitting text joined at a separator splits each side.
proof fn lemma_split_concat(s1: Seq<char>, s2: Seq<char>, sep: char)
    ensures
        split_spec(s1 + seq![sep] + s2, sep) == split_spec(s1, sep) + split_spec(s2, sep),
    decreases s2.len(),
{
    let s = s1 + seq![sep] + s2;
    if s2.len() == 0 {
        assert(s =~= s1.push(sep));
        assert(s.drop_last() =~= s1);
        assert(split_spec(s2, sep) =~= seq![Seq::<char>::empty()]);
        assert(split_spec(s, sep) =~= split_spec(s1, sep) + split_spec(s2, sep));
    } else {
        let t2 = s2.drop_last();
        lemma_split_concat(s1, t2, sep);
        assert(s.drop_last() =~= s1 + seq![sep] + t2);
        assert(s.last() == s2.last());
        crate::text::lemma_split_nonempty(t2, sep);
        let a = split_spec(s1, sep);
        let b = split_spec(t2, sep);
        if s2.last() == sep {
            assert(split_spec(s, sep) =~= a + b.push(Seq::<char>::empty()));
        } else {
            assert(split_spec(s, sep) =~= a + b.update(b.len() - 1, b.last().push(s2.last())));
        }
    }
}

/// Text without the separator is a single piece.
proof fn lemma_split_single(s: Seq<char>, sep: char)
    requires
        forall|j: int| 0 <= j < s.len() ==> s[j] != sep,
    ensures
        split_spec(s, sep) == seq![s],
    decreases s.len(),
{
    if s.len() == 0 {
        assert(s =~= Seq::<char>::empty());
        assert(split_spec(s, sep) =~= seq![s]);
    } else {
        let t = s.drop_last();
        assert(s.last() == s[s.len() - 1]);
        assert forall|j: int| 0 <= j < t.len() implies t[j] != sep by {
            assert(t[j] == s[j]);
        }
        lemma_split_single(t, sep);
        assert(t.push(s.last()) =~= s);
        let prev = split_spec(t, sep);
        assert(prev == seq![t]);
        assert(split_spec(s, sep) == prev.update(0, t.push(s.last())));
        assert(split_spec(s, sep) =~= seq![s]);
    }
}

/// Keeping the non-empty trimmed pieces of two lists of pieces keeps those of
/// each.
proof fn lemma_nonempty_trimmed_concat(a: Seq<Seq<char>>, b: Seq<Seq<char>>)
    ensures
        nonempty_trimmed(a + b) == nonempty_trimmed(a) + nonempty_trimmed(b),
    decreases b.len(),
{
    if b.len() == 0 {
        assert(a + b =~= a);
        assert(nonempty_trimmed(a) + nonempty_trimmed(b) =~= nonempty_trimmed(a));
    } else {
        lemma_nonempty_trimmed_concat(a, b.drop_last());
        assert((a + b).drop_last() =~= a + b.drop_last());
        assert((a + b).last() == b.last());
        let t = trim_spec(b.last());
        if t.len() > 0 {
            assert(nonempty_trimmed(a + b) =~= nonempty_trimmed(a) + nonempty_trimmed(b.drop_last()).push(t));
        } else {
            assert(nonempty_trimmed(a + b) =~= nonempty_trimmed(a) + nonempty_trimmed(b.drop_last()));
        }
    }
}

/// Whether `c` is Unicode white space.
pub fn is_white_space_char(c: char) -> (r: bool)
    ensures
        r == is_white_space(c),
{
    c == ' ' || ('\t' <= c && c <= '\r') || c == '\u{85}' || c == '\u{a0}' || c == '\u{1680}' || (
    '\u{2000}' <= c && c <= '\u{200a}') || c == '\u{2028}' || c == '\u{2029}' || c == '\u{202f}'
        || c == '\u{205f}' || c == '\u{3000}'
}

/// `str::trim` on a slice of characters.
#[verifier::spinoff_prover]
pub fn trim_chars(cs: &[char]) -> (r: Vec<char>)
    ensures
        r@ == trim_spec(cs@),
{
    let n = cs.len();
    let mut a: usize = 0;
    assert(cs@.skip(0) =~= cs@);
    while a < n && is_white_space_char(cs[a])
        invariant
            n == cs@.len(),
            0 <= a <= n,
            trim_start_spec(cs@) == trim_start_spec(cs@.skip(a as int)),
        decreases n - a,
    {
        assert(cs@.skip(a as int).drop_first() =~= cs@.skip(a + 1));
        a = a + 1;
    }
    let ghost started = cs@.skip(a as int);
    assert(trim_start_spec(cs@) == started);
    let mut b: usize = n;
    assert(started.take((b - a) as int) =~= started);
    while b > a && is_white_space_char(cs[b - 1])
        invariant
            n == cs@.len(),
            0 <= a <= b <= n,
            started == cs@.skip(a as int),
            trim_end_spec(started) == trim_end_spec(started.take((b - a) as int)),
        decreases b - a,
    {
        assert(started.take((b - a) as int).drop_last() =~= started.take((b - 1 - a) as int));
        b = b - 1;
    }
    let mut out: Vec<char> = Vec::new();
    let mut i: usize = a;
    while i < b
        invariant
            0 <= a <= i <= b <= n,
            n == cs@.len(),
            out@ == cs@.subrange(a as int, i as int),
        decreases b - i,
    {
        out.push(cs[i]);
        i = i + 1;
    }
    assert(out@ =~= started.take((b - a) as int));
    out
}

/// The entries of a comma-separated password list: each piece trimmed,
/// empty pieces dropped, order kept.
pub fn parse_password_list(raw: &str) -> (r: Vec<String>)
    ensures
        texts(r@) == password_entries(raw@),
{
    let cs = crate::text::chars_of(raw);
    let mut out: Vec<String> = Vec::new();
    let mut cur: Vec<char> = Vec::new();
    let ghost mut done: Seq<Seq<char>> = Seq::empty();
    let mut i: usize = 0;
    assert(cs@.take(0) =~= Seq::<char>::empty());
    while i < cs.len()
        invariant
            cs@ == raw@,
            0 <= i <= cs@.len(),
            split_spec(cs@.take(i as int), ',') == done.push(cur@),
            texts(out@) == nonempty_trimmed(done),
        decreases cs@.len() - i,
    {
        let c = cs[i];
        let ghost pre = cs@.take(i as int);
        assert(cs@.take(i + 1).drop_last() =~= pre);
        assert(cs@.take(i + 1).last() == c);
        if c == ',' {
            let t = trim_chars(cur.as_slice());
            let ghost prev_done = done;
            proof {
                done = done.push(cur@);
            }
            assert(done.drop_last() =~= prev_done);
            let ghost prev_out = out@;
            if t.len() > 0 {
                out.push(string_of(t.as_slice()));
                assert(texts(out@) =~= texts(prev_out).push(t@));
            }
            cur = Vec::new();
        } else {
            cur.push(c);
        }
        i = i + 1;
    }
    assert(cs@.take(cs@.len() as int) =~= cs@);
    let t = trim_chars(cur.as_slice());
    let ghost all = done.push(cur@);
    assert(all.drop_last() =~= done);
    let ghost prev_out = out@;
    if t.len() > 0 {
        out.push(string_of(t.as_slice()));
        assert(texts(out@) =~= texts(prev_out).push(t@));
    }
    out
}

/// The passwords tried on every archive, in order: the empty password first,
/// so archives without a password extract with no configuration, then the
/// entries of `AUTOARC_PASSWORDS` (`raw`, `None` when the variable is unset).
pub open spec fn candidates_spec(raw: Option<Seq<char>>) -> Seq<Seq<char>> {
    match raw {
        None => seq![Seq::<char>::empty()],
        Some(s) => seq![Seq::<char>::empty()] + password_entries(s),
    }
}

/// The candidate passwords for the raw value of `AUTOARC_PASSWORDS`.
pub fn password_candidates(raw: Option<&str>) -> (r: Vec<String>)
    ensures
        texts(r@) == candidates_spec(
            match raw {
                Some(s) => Some(s@),
                None => None,
            },
        ),
{
    let mut out: Vec<String> = Vec::new();
    out.push(String::new());
    match raw {
        None => {
            assert(texts(out@) =~= seq![Seq::<char>::empty()]);
            out
        },
        Some(s) => {
            let entries = parse_password_list(s);
            let mut i: usize = 0;
            while i < entries.len()
                invariant
                    0 <= i <= entries@.len(),
                    texts(entries@) == password_entries(s@),
                    texts(out@) == seq![Seq::<char>::empty()] + texts(entries@).take(i as int),
                decreases entries@.len() - i,
            {
                let ghost prev = out@;
                out.push(entries[i].clone());
                assert(texts(out@) =~= texts(prev).push(entries@[i as int]@));
                assert(texts(entries@).take(i + 1) =~= texts(entries@).take(i as int).push(
                    entries@[i as int]@,
                ));
                i = i + 1;
            }
            assert(texts(entries@).take(entries@.len() as int) =~= texts(entries@));
            out
        },
    }
}

/// The empty password comes first; every later candidate is non-empty, has
/// no leading or trailing white space and holds no comma.
pub proof fn lemma_candidates_shape(raw: Option<Seq<char>>)
    ensures
        candidates_spec(raw).len() >= 1,
        candidates_spec(raw)[0].len() == 0,
        forall|i: int| 1 <= i < candidates_spec(raw).len() ==> is_clean_entry(
            #[trigger] candidates_spec(raw)[i],
        ),
{
    if let Some(s) = raw {
        lemma_password_entries_clean(s);
        assert forall|i: int| 1 <= i < candidates_spec(raw).len() implies is_clean_entry(
            #[trigger] candidates_spec(raw)[i],
        ) by {
            assert(candidates_spec(raw)[i] == password_entries(s)[i - 1]);
        }
    }
}

/// Every candidate is taken from the list as written: the empty password
/// comes first (and alone when the variable is unset); each later candidate
/// is a contiguous run of the raw text, character for character (so case and
/// inner spaces are kept), non-empty, trimmed and without a comma.
pub proof fn lemma_candidates_are_runs_of_the_list(s: Seq<char>)
    ensures
        candidates_spec(None) == seq![Seq::<char>::empty()],
        candidates_spec(Some(s)).len() >= 1,
        candidates_spec(Some(s))[0] == Seq::<char>::empty(),
        forall|i: int|
            1 <= i < candidates_spec(Some(s)).len() ==> is_segment(s, #[trigger] candidates_spec(Some(s))[i])
                && is_clean_entry(candidates_spec(Some(s))[i]),
{
    lemma_candidates_shape(Some(s));
    lemma_split_segments(s, ',');
    lemma_nonempty_trimmed_segments(s, split_spec(s, ','));
    let c = candidates_spec(Some(s));
    assert forall|i: int| 1 <= i < c.len() implies is_segment(s, #[trigger] c[i]) && is_clean_entry(c[i]) by {
        assert(c[i] == password_entries(s)[i - 1]);
    }
}

/// The list splits at its commas: the candidates of two lists joined by a
/// comma are those of the first followed by the entries of the second, in
/// order.
pub proof fn lemma_candidates_split_at_comma(s1: Seq<char>, s2: Seq<char>)
    ensures
        candidates_spec(Some(s1 + seq![','] + s2)) == candidates_spec(Some(s1)) + candidates_spec(
            Some(s2),
        ).drop_first(),
{
    lemma_split_concat(s1, s2, ',');
    lemma_nonempty_trimmed_concat(split_spec(s1, ','), split_spec(s2, ','));
    let e1 = password_entries(s1);
    let e2 = password_entries(s2);
    assert((seq![Seq::<char>::empty()] + e2).drop_first() =~= e2);
    assert(seq![Seq::<char>::empty()] + (e1 + e2) =~= (seq![Seq::<char>::empty()] + e1) + e2);
}

/// A list without a comma holds one candidate besides the empty password:
/// the text trimmed, or none when it is blank.
pub proof fn lemma_candidates_of_one_piece(s: Seq<char>)
    requires
        forall|j: int| 0 <= j < s.len() ==> s[j] != ',',
    ensures
        candidates_spec(Some(s)) == (if trim_spec(s).len() > 0 {
            seq![Seq::<char>::empty(), trim_spec(s)]
        } else {
            seq![Seq::<char>::empty()]
        }),
{
    lemma_split_single(s, ',');
    let pieces = seq![s];
    assert(pieces.drop_last() =~= Seq::<Seq<char>>::empty());
    assert(pieces.last() == s);
    assert(nonempty_trimmed(Seq::<Seq<char>>::empty()) == Seq::<Seq<char>>::empty());
    if trim_spec(s).len() > 0 {
        assert(password_entries(s) =~= seq![trim_spec(s)]);
        assert(candidates_spec(Some(s)) =~= seq![Seq::<char>::empty(), trim_spec(s)]);
    } else {
        assert(password_entries(s) =~= Seq::<Seq<char>>::empty());
        assert(candidates_spec(Some(s)) =~= seq![Seq::<char>::empty()]);
    }
}

} // verus!
