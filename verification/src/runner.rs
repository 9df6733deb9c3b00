//! Work items of the extraction pipeline and the runner's bookkeeping.
//!
//! The runner enumerates the initial archives, runs one task per work item and
//! re-enqueues every nested archive a task discovers. This module holds what
//! it decides: which directories the initial scan enters, what becomes of
//! each file it finds, the label of a task, and when every queued task has
//! finished.

use vstd::prelude::*;

use crate::fs::classify::{FileType, is_archive_kind, is_type_archive, is_type_video, is_video_kind};
use crate::fs::paths::{
    diff_paths_text, extension, file_stem, has_suffix, parent, path_extension, path_file_stem,
    paths_equal, relative_path, std_parent, std_paths_equal,
};
use crate::config::{trim_chars, trim_spec};
use crate::progress::Stats;
use crate::text::{ascii_lower, ascii_lower_seq, chars_eq, chars_of, lower_ascii, str_eq};

verus! {

broadcast use vstd::string::group_string_axioms;

/// One unit of work flowing through the channel.
#[derive(Debug, Clone)]
pub struct TaskParams {
    /// Path of the archive to extract.
    pub archive_path: String,
    /// Path of the *original* top-level archive that this work item descends from
    /// (used purely for human-readable labels in the progress UI).
    pub root: String,
}

/// `relative_path(dir, path)` as text.
pub open spec fn relative_spec(dir: Seq<char>, path: Seq<char>) -> Seq<char> {
    match diff_paths_text(path, dir) {
        Some(p) => p,
        None => path,
    }
}

/// The label of a task: `archive` relative to `dir`, followed by
/// ` <- root` when the root differs.
pub open spec fn task_label(archive: Seq<char>, root: Seq<char>, dir: Seq<char>) -> Seq<char> {
    let a = relative_spec(dir, archive);
    let b = relative_spec(dir, root);
    if std_paths_equal(a, b) {
        a
    } else {
        a + " <- "@ + b
    }
}

impl TaskParams {
    /// A top-level work item: the archive is its own root.
    pub fn top_level(path: &str) -> (r: Self)
        ensures
            r.archive_path@ == path@,
            r.root@ == path@,
    {
        TaskParams { archive_path: String::from_str(path), root: String::from_str(path) }
    }

    /// Render a label like `foo.zip <- nested.7z` relative to `dir`.
    pub fn display(&self, dir: &str) -> (r: String)
        ensures
            r@ == task_label(self.archive_path@, self.root@, dir@),
            self.archive_path@ == self.root@ ==> r@ == relative_spec(dir@, self.archive_path@),
    {
        let rel_archive = relative_path(dir, self.archive_path.as_str());
        let rel_root = relative_path(dir, self.root.as_str());
        if paths_equal(rel_archive.as_str(), rel_root.as_str()) {
            rel_archive
        } else {
            let mut label = rel_archive;
            label.append(" <- ");
            label.append(rel_root.as_str());
            label
        }
    }
}

/// What the initial scan does with one regular file of the target directory.
#[derive(Debug, PartialEq, Eq, Clone, Copy, Structural)]
pub enum Triage {
    /// An archive: queued and extracted in place, next to the original,
    /// which is never moved.
    Extract,
    /// A video: renamed in place to its canonical extension.
    RenameVideo,
    /// Anything else is left alone.
    Skip,
}

/// The triage rule of the initial scan.
pub open spec fn triage_spec(kind: FileType) -> Triage {
    if is_archive_kind(kind) {
        Triage::Extract
    } else if is_video_kind(kind) {
        Triage::RenameVideo
    } else {
        Triage::Skip
    }
}

/// Sort one file of the target directory into archives, videos, or noise.
pub fn triage(kind: FileType) -> (r: Triage)
    ensures
        r == triage_spec(kind),
{
    if is_type_archive(kind) {
        Triage::Extract
    } else if is_type_video(kind) {
        Triage::RenameVideo
    } else {
        Triage::Skip
    }
}

/// The scan enters a subdirectory found at `depth` (the entries of the target
/// directory are at depth 1) when the depth limit allows one more level and
/// the directory is not one of the `*_out` output folders.
pub open spec fn descends_spec(dir_name: Seq<char>, depth: nat, max_depth: nat) -> bool {
    depth < max_depth && !has_suffix(dir_name, "_out"@)
}

/// Whether the initial scan walks into the subdirectory `dir_name` found at
/// `depth`, under the limit `max_depth`.
pub fn should_descend(dir_name: &str, depth: usize, max_depth: usize) -> (r: bool)
    ensures
        r == descends_spec(dir_name@, depth as nat, max_depth as nat),
{
    if depth >= max_depth {
        return false;
    }
    let cs = chars_of(dir_name);
    let tail = chars_of("_out");
    let n = cs.len();
    if n < tail.len() {
        return true;
    }
    let start = n - tail.len();
    let mut i: usize = 0;
    while i < tail.len()
        invariant
            tail@ == "_out"@,
            cs@ == dir_name@,
            n == cs@.len(),
            start + tail@.len() == n,
            depth < max_depth,
            0 <= i <= tail@.len(),
            forall|k: int| 0 <= k < i ==> cs@[start + k] == tail@[k],
        decreases tail@.len() - i,
    {
        if cs[start + i] != tail[i] {
            assert(cs@.skip(start as int)[i as int] != tail@[i as int]);
            assert(!has_suffix(dir_name@, "_out"@));
            return true;
        }
        i = i + 1;
    }
    assert(cs@.skip(start as int) =~= tail@);
    false
}

/// A non-empty run of ASCII digits.
pub open spec fn all_digits(s: Seq<char>) -> bool {
    s.len() > 0 && forall|i: int| 0 <= i < s.len() ==> '0' <= #[trigger] s[i] <= '9'
}

/// The extension of a later volume of a split set whose first volume has
/// the extension `first_ext`: `.zip` or `.zNN` after a `.z01`, `.NNN` after a
/// `.001`.
pub open spec fn later_volume_ext(first_ext: Seq<char>, ext: Seq<char>) -> bool {
    ||| first_ext == "z01"@ && (ext == "zip"@ || (ext.len() >= 2 && ext[0] == 'z' && all_digits(
        ext.drop_first(),
    )))
    ||| first_ext == "001"@ && all_digits(ext)
}

/// `other` is another volume of the split set whose first volume is `first`:
/// a different file in the same directory, with the same stem, and a later
/// volume's extension.
pub open spec fn volume_of_spec(first: Seq<char>, other: Seq<char>) -> bool {
    &&& first != other
    &&& std_parent(first) == std_parent(other)
    &&& path_file_stem(first) == path_file_stem(other)
    &&& path_extension(first) matches Some(fe)
    &&& path_extension(other) matches Some(oe)
    &&& later_volume_ext(fe, oe)
}

/// Whether the characters are all ASCII digits (and there is one at least).
fn digits_only(cs: &[char], from: usize) -> (r: bool)
    requires
        from <= cs@.len(),
    ensures
        r == all_digits(cs@.skip(from as int)),
{
    if from >= cs.len() {
        return false;
    }
    let mut i: usize = from;
    while i < cs.len()
        invariant
            from <= i <= cs@.len(),
            from < cs@.len(),
            forall|k: int| from <= k < i ==> '0' <= #[trigger] cs@[k] <= '9',
        decreases cs@.len() - i,
    {
        if cs[i] < '0' || cs[i] > '9' {
            assert(cs@.skip(from as int)[i - from] == cs@[i as int]);
            return false;
        }
        i = i + 1;
    }
    assert forall|k: int| 0 <= k < cs@.skip(from as int).len() implies '0' <= #[trigger] cs@.skip(
        from as int,
    )[k] <= '9' by {
        assert(cs@.skip(from as int)[k] == cs@[from + k]);
    }
    true
}

/// Whether `other` is a later volume of the split set that starts at `first`
/// (the plan shows a split set as one row).
pub fn is_volume_of(first: &str, other: &str) -> (r: bool)
    ensures
        r == volume_of_spec(first@, other@),
{
    if str_eq(first, other) {
        return false;
    }
    let same_dir = match (parent(first), parent(other)) {
        (Some(a), Some(b)) => str_eq(a.as_str(), b.as_str()),
        (None, None) => true,
        _ => false,
    };
    if !same_dir {
        return false;
    }
    let same_stem = match (file_stem(first), file_stem(other)) {
        (Some(a), Some(b)) => str_eq(a.as_str(), b.as_str()),
        (None, None) => true,
        _ => false,
    };
    if !same_stem {
        return false;
    }
    let (fe, oe) = match (extension(first), extension(other)) {
        (Some(a), Some(b)) => (a, b),
        _ => return false,
    };
    let ocs = chars_of(oe.as_str());
    proof {
        reveal_strlit("z01");
        reveal_strlit("001");
        reveal_strlit("zip");
        assert("z01"@[0] != "001"@[0]);
        assert("z01"@ != "001"@);
    }
    if str_eq(fe.as_str(), "z01") {
        if str_eq(oe.as_str(), "zip") {
            return true;
        }
        if ocs.len() >= 2 && ocs[0] == 'z' {
            let d = digits_only(ocs.as_slice(), 1);
            assert(ocs@.skip(1) =~= ocs@.drop_first());
            return d;
        }
        false
    } else if str_eq(fe.as_str(), "001") {
        let d = digits_only(ocs.as_slice(), 0);
        assert(ocs@.skip(0) =~= ocs@);
        d
    } else {
        false
    }
}

/// `path` is a later volume of one of the split sets starting at `firsts`.
pub open spec fn later_volume_spec(path: Seq<char>, firsts: Seq<String>) -> bool {
    exists|i: int| 0 <= i < firsts.len() && volume_of_spec(#[trigger] firsts[i]@, path)
}

/// Whether `path` is a later volume of one of the split sets starting at
/// `firsts`; such a file is part of its set's plan row and not queued alone.
pub fn is_later_volume(path: &str, firsts: &[String]) -> (r: bool)
    ensures
        r == later_volume_spec(path@, firsts@),
{
    let mut i: usize = 0;
    while i < firsts.len()
        invariant
            0 <= i <= firsts@.len(),
            forall|k: int| 0 <= k < i ==> !volume_of_spec(#[trigger] firsts@[k]@, path@),
        decreases firsts@.len() - i,
    {
        if is_volume_of(firsts[i].as_str(), path) {
            return true;
        }
        i = i + 1;
    }
    false
}

/// How many of `files` (paths with their sizes) are later volumes of the
/// split set starting at `first`.
pub open spec fn later_parts(first: Seq<char>, files: Seq<(String, u64)>) -> nat
    decreases files.len(),
{
    if files.len() == 0 {
        0
    } else {
        later_parts(first, files.drop_last()) + if volume_of_spec(first, files.last().0@) {
            1nat
        } else {
            0nat
        }
    }
}

/// The bytes of the later volumes of the split set starting at `first` among
/// `files`.
pub open spec fn later_bytes(first: Seq<char>, files: Seq<(String, u64)>) -> nat
    decreases files.len(),
{
    if files.len() == 0 {
        0
    } else {
        later_bytes(first, files.drop_last()) + if volume_of_spec(first, files.last().0@) {
            files.last().1 as nat
        } else {
            0nat
        }
    }
}

/// `n` capped at `u64::MAX`.
pub open spec fn capped(n: int) -> u64 {
    if n > u64::MAX {
        u64::MAX
    } else {
        n as u64
    }
}

/// The plan row of a split set starting at `first` (of `first_size` bytes),
/// given every scanned file with its size: the number of parts (the first
/// volume and each later one among `files`) and their total size, capped at
/// `u64::MAX`.
pub fn volume_set(first: &str, first_size: u64, files: &[(String, u64)]) -> (r: (usize, u64))
    requires
        files@.len() < usize::MAX,
    ensures
        r.0 == 1 + later_parts(first@, files@),
        r.1 == capped(first_size + later_bytes(first@, files@)),
{
    let mut parts: usize = 1;
    let mut bytes: u64 = first_size;
    let mut i: usize = 0;
    while i < files.len()
        invariant
            0 <= i <= files@.len(),
            files@.len() < usize::MAX,
            parts == 1 + later_parts(first@, files@.take(i as int)),
            parts <= 1 + i,
            bytes == capped(first_size + later_bytes(first@, files@.take(i as int))),
        decreases files@.len() - i,
    {
        assert(files@.take(i + 1).drop_last() =~= files@.take(i as int));
        if is_volume_of(first, files[i].0.as_str()) {
            parts = parts + 1;
            bytes = bytes.saturating_add(files[i].1);
        }
        i = i + 1;
    }
    assert(files@.take(files@.len() as int) =~= files@);
    (parts, bytes)
}

/// The confirmation prompt's answer: anything but `n` or `no` (trimmed,
/// ignoring ASCII case) proceeds, an empty answer included.
pub open spec fn accepts_spec(answer: Seq<char>) -> bool {
    let a = ascii_lower_seq(trim_spec(answer));
    a != "n"@ && a != "no"@
}

/// Whether the answer to `Continue? [Y/n]` lets the run proceed.
pub fn accepts_answer(answer: &str) -> (r: bool)
    ensures
        r == accepts_spec(answer@),
{
    let cs = chars_of(answer);
    let t = trim_chars(cs.as_slice());
    let mut lowered: Vec<char> = Vec::new();
    let mut i: usize = 0;
    while i < t.len()
        invariant
            0 <= i <= t@.len(),
            lowered@ == ascii_lower_seq(t@).take(i as int),
        decreases t@.len() - i,
    {
        lowered.push(lower_ascii(t[i]));
        assert(ascii_lower_seq(t@).take(i + 1) =~= ascii_lower_seq(t@).take(i as int).push(
            ascii_lower(t@[i as int]),
        ));
        i = i + 1;
    }
    assert(ascii_lower_seq(t@).take(t@.len() as int) =~= ascii_lower_seq(t@));
    let n = chars_of("n");
    let no = chars_of("no");
    !chars_eq(lowered.as_slice(), n.as_slice()) && !chars_eq(lowered.as_slice(), no.as_slice())
}

/// The short tag a plan row shows for an archive kind.
pub fn kind_tag(kind: FileType) -> (r: &'static str)
    ensures
        r@ == match kind {
            FileType::Zip => "zip"@,
            FileType::Rar => "rar"@,
            FileType::SevenZ => "7z"@,
            FileType::Multi => "multi"@,
            FileType::Sfx => "sfx"@,
            FileType::Mp4 => "mp4"@,
            FileType::TS => "ts"@,
            FileType::Unknown => "?"@,
        },
{
    match kind {
        FileType::Zip => "zip",
        FileType::Rar => "rar",
        FileType::SevenZ => "7z",
        FileType::Multi => "multi",
        FileType::Sfx => "sfx",
        FileType::Mp4 => "mp4",
        FileType::TS => "ts",
        FileType::Unknown => "?",
    }
}

/// One thing that happened to the run's tasks.
pub enum RunEvent {
    /// `n` tasks were queued.
    Queued(usize),
    /// A task finished successfully.
    Succeeded,
    /// A task failed.
    Failed,
    /// A queued task could not be handed to a worker and never ran.
    Dropped,
    /// A video was renamed to its canonical extension.
    VideoRenamed,
}

/// How many events of `h` are `e`.
pub open spec fn tally(h: Seq<RunEvent>, e: RunEvent) -> nat
    decreases h.len(),
{
    if h.len() == 0 {
        0
    } else {
        tally(h.drop_last(), e) + if h.last() == e {
            1nat
        } else {
            0nat
        }
    }
}

/// How many tasks `h` queued in all.
pub open spec fn queued_total(h: Seq<RunEvent>) -> nat
    decreases h.len(),
{
    if h.len() == 0 {
        0
    } else {
        queued_total(h.drop_last()) + match h.last() {
            RunEvent::Queued(n) => n as nat,
            _ => 0nat,
        }
    }
}

/// How many queued tasks `h` has settled: finished either way, or dropped.
pub open spec fn settled(h: Seq<RunEvent>) -> nat {
    tally(h, RunEvent::Succeeded) + tally(h, RunEvent::Failed) + tally(h, RunEvent::Dropped)
}

/// Appending one event adds it to the counts and nothing else.
proof fn lemma_push_event(h: Seq<RunEvent>, x: RunEvent)
    ensures
        forall|e: RunEvent|
            #[trigger] tally(h.push(x), e) == tally(h, e) + if x == e {
                1nat
            } else {
                0nat
            },
        queued_total(h.push(x)) == queued_total(h) + match x {
            RunEvent::Queued(n) => n as nat,
            _ => 0nat,
        },
{
    assert(h.push(x).drop_last() =~= h);
}

/// The run's ledger: how many tasks are queued or running, the summary
/// counters, and (as a model) every event recorded so far.
pub struct Workload {
    active: usize,
    stats: Stats,
    history: Ghost<Seq<RunEvent>>,
}

impl Workload {
    /// Tasks currently queued or running.
    pub closed spec fn active(&self) -> nat {
        self.active as nat
    }

    /// Every event recorded so far, oldest first.
    pub closed spec fn history(&self) -> Seq<RunEvent> {
        self.history@
    }

    /// The counters of the final summary.
    pub closed spec fn summary(&self) -> Stats {
        self.stats
    }

    /// Internal consistency: the running count is what was queued minus what
    /// was settled, and each counter counts its events.
    pub closed spec fn wf(&self) -> bool {
        &&& self.active + settled(self.history@) == queued_total(self.history@)
        &&& self.stats.succeeded == tally(self.history@, RunEvent::Succeeded)
        &&& self.stats.failed == tally(self.history@, RunEvent::Failed)
        &&& self.stats.videos_renamed == tally(self.history@, RunEvent::VideoRenamed)
    }

    /// No task yet, every counter at zero.
    pub fn new() -> (r: Self)
        ensures
            r.wf(),
            r.active() == 0,
            r.history() == Seq::<RunEvent>::empty(),
            r.summary() == (Stats { succeeded: 0, failed: 0, videos_renamed: 0 }),
    {
        Workload { active: 0, stats: Stats::new(), history: Ghost(Seq::empty()) }
    }

    /// Record `n` newly queued tasks.
    pub fn add(&mut self, n: usize)
        requires
            old(self).wf(),
            old(self).active() + n <= usize::MAX,
        ensures
            final(self).wf(),
            final(self).active() == old(self).active() + n,
            final(self).history() == old(self).history().push(RunEvent::Queued(n)),
            final(self).summary() == old(self).summary(),
    {
        proof {
            lemma_push_event(self.history@, RunEvent::Queued(n));
        }
        self.active = self.active + n;
        self.history = Ghost(self.history@.push(RunEvent::Queued(n)));
    }

    /// A task finished successfully and queued `children` nested tasks;
    /// returns whether no task is left.
    pub fn finish_succeeded(&mut self, children: usize) -> (all_done: bool)
        requires
            old(self).wf(),
            old(self).active() > 0,
            old(self).active() - 1 + children <= usize::MAX,
            old(self).summary().succeeded < usize::MAX,
        ensures
            final(self).wf(),
            final(self).active() == old(self).active() - 1 + children,
            final(self).history() == old(self).history().push(RunEvent::Succeeded).push(
                RunEvent::Queued(children),
            ),
            final(self).summary() == (Stats {
                succeeded: (old(self).summary().succeeded + 1) as usize,
                ..old(self).summary()
            }),
            all_done == (final(self).active() == 0),
    {
        proof {
            lemma_push_event(self.history@, RunEvent::Succeeded);
            lemma_push_event(self.history@.push(RunEvent::Succeeded), RunEvent::Queued(children));
        }
        self.active = self.active - 1 + children;
        self.stats.task_succeeded();
        self.history = Ghost(
            self.history@.push(RunEvent::Succeeded).push(RunEvent::Queued(children)),
        );
        self.active == 0
    }

    /// A task failed; returns whether no task is left.
    pub fn finish_failed(&mut self) -> (all_done: bool)
        requires
            old(self).wf(),
            old(self).active() > 0,
            old(self).summary().failed < usize::MAX,
        ensures
            final(self).wf(),
            final(self).active() == old(self).active() - 1,
            final(self).history() == old(self).history().push(RunEvent::Failed),
            final(self).summary() == (Stats {
                failed: (old(self).summary().failed + 1) as usize,
                ..old(self).summary()
            }),
            all_done == (final(self).active() == 0),
    {
        proof {
            lemma_push_event(self.history@, RunEvent::Failed);
        }
        self.active = self.active - 1;
        self.stats.task_failed();
        self.history = Ghost(self.history@.push(RunEvent::Failed));
        self.active == 0
    }

    /// A queued task could not be handed to a worker; returns whether no task
    /// is left.
    pub fn drop_unsent(&mut self) -> (all_done: bool)
        requires
            old(self).wf(),
            old(self).active() > 0,
        ensures
            final(self).wf(),
            final(self).active() == old(self).active() - 1,
            final(self).history() == old(self).history().push(RunEvent::Dropped),
            final(self).summary() == old(self).summary(),
            all_done == (final(self).active() == 0),
    {
        proof {
            lemma_push_event(self.history@, RunEvent::Dropped);
        }
        self.active = self.active - 1;
        self.history = Ghost(self.history@.push(RunEvent::Dropped));
        self.active == 0
    }

    /// A video was renamed to its canonical extension.
    pub fn note_video_renamed(&mut self)
        requires
            old(self).wf(),
            old(self).summary().videos_renamed < usize::MAX,
        ensures
            final(self).wf(),
            final(self).active() == old(self).active(),
            final(self).history() == old(self).history().push(RunEvent::VideoRenamed),
            final(self).summary() == (Stats {
                videos_renamed: (old(self).summary().videos_renamed + 1) as usize,
                ..old(self).summary()
            }),
    {
        proof {
            lemma_push_event(self.history@, RunEvent::VideoRenamed);
        }
        self.stats.note_video_renamed();
        self.history = Ghost(self.history@.push(RunEvent::VideoRenamed));
    }

    /// Tasks currently queued or running.
    pub fn pending(&self) -> (r: usize)
        ensures
            r == self.active(),
    {
        self.active
    }

    /// The counters of the final summary.
    pub fn stats(&self) -> (r: Stats)
        ensures
            r == self.summary(),
    {
        self.stats
    }
}

/// Every queued task is settled exactly once: at any time the tasks still
/// queued or running and those settled (succeeded, failed or dropped) add up
/// to all the tasks ever queued. So once none is left, succeeded plus failed
/// plus dropped equals the tasks queued, and where none was dropped the
/// summary's succeeded plus failed equals the tasks queued.
pub proof fn lemma_every_queued_task_settles(w: Workload)
    requires
        w.wf(),
    ensures
        w.active() + settled(w.history()) == queued_total(w.history()),
        w.active() == 0 ==> settled(w.history()) == queued_total(w.history()),
        w.active() == 0 && tally(w.history(), RunEvent::Dropped) == 0 ==> w.summary().succeeded
            + w.summary().failed == queued_total(w.history()),
{
}

/// The summary counts what happened: succeeded, failed and renamed videos are
/// the numbers of those events recorded over the whole run.
pub proof fn lemma_summary_counts_events(w: Workload)
    requires
        w.wf(),
    ensures
        w.summary().succeeded == tally(w.history(), RunEvent::Succeeded),
        w.summary().failed == tally(w.history(), RunEvent::Failed),
        w.summary().videos_renamed == tally(w.history(), RunEvent::VideoRenamed),
{
}

} // verus!
