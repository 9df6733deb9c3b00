//! Archive backends and the decisions they share.
//!
//! Each supported format has a backend (zip, rar, 7z, or the `unar`
//! subprocess). The shared driver tries the configured passwords in order
//! until one succeeds ([`PasswordTrial`]), then turns the nested archives the
//! backend found into [`TaskParams`] for the runner to enqueue.

use vstd::prelude::*;

use crate::error::AutoarcError;
use crate::fs::classify::{FileType, is_archive_kind, is_type_archive, is_type_video, is_video_kind};
use crate::fs::paths::{create_outpath, outpath_spec};
use crate::runner::TaskParams;
use crate::text::{chars_contain, chars_of, has_infix};

pub mod rar;
pub mod sevenz;
pub mod unar;
pub mod zip;

verus! {

broadcast use vstd::string::group_string_axioms;

/// Outcome of attempting to extract an archive with one specific password.
pub enum ExtractOutcome {
    /// Extraction succeeded; the inner vector lists any nested archives that
    /// the runner should now enqueue.
    Success(Vec<String>),
    /// The password was incorrect; the central driver will try the next one.
    BadPassword,
}

/// The backend that extracts a given kind of archive.
#[derive(Debug, PartialEq, Eq, Clone, Copy, Structural)]
pub enum Backend {
    Zip,
    Rar,
    SevenZ,
    /// The `unar` subprocess: multi-volume sets and self-extracting executables.
    Unar,
}

/// Which backend handles a file type, if any.
pub open spec fn backend_spec(t: FileType) -> Option<Backend> {
    match t {
        FileType::Zip => Some(Backend::Zip),
        FileType::Rar => Some(Backend::Rar),
        FileType::SevenZ => Some(Backend::SevenZ),
        FileType::Multi => Some(Backend::Unar),
        FileType::Sfx => Some(Backend::Unar),
        _ => None,
    }
}

/// Pick the backend for `file_type`; a type no backend handles is
/// [`AutoarcError::UnsupportedFileType`].
pub fn backend_for(file_type: FileType) -> (r: Result<Backend, AutoarcError>)
    ensures
        match backend_spec(file_type) {
            Some(b) => r matches Ok(x) && x == b,
            None => r matches Err(AutoarcError::UnsupportedFileType(t)) && t == file_type,
        },
        r is Ok <==> is_archive_kind(file_type),
{
    match file_type {
        FileType::Zip => Ok(Backend::Zip),
        FileType::Rar => Ok(Backend::Rar),
        FileType::SevenZ => Ok(Backend::SevenZ),
        FileType::Multi | FileType::Sfx => Ok(Backend::Unar),
        unsupported => Err(AutoarcError::UnsupportedFileType(unsupported)),
    }
}

/// Work items for the nested archives found while extracting a task that
/// descends from `root`: one per child, in order, each keeping `root`.
pub fn nested_tasks(children: Vec<String>, root: &str) -> (r: Vec<TaskParams>)
    ensures
        r@.len() == children@.len(),
        forall|i: int|
            0 <= i < r@.len() ==> (#[trigger] r@[i]).archive_path@ == children@[i]@ && r@[i].root@
                == root@,
{
    let mut out: Vec<TaskParams> = Vec::new();
    let n = children.len();
    let mut i: usize = 0;
    while i < n
        invariant
            n == children@.len(),
            0 <= i <= n,
            out@.len() == i,
            forall|j: int|
                0 <= j < i ==> (#[trigger] out@[j]).archive_path@ == children@[j]@ && out@[j].root@
                    == root@,
        decreases n - i,
    {
        out.push(TaskParams { archive_path: children[i].clone(), root: String::from_str(root) });
        i = i + 1;
    }
    out
}

/// What happens to a file after it has been written out of an archive.
#[derive(Debug, PartialEq, Eq, Clone, Copy, Structural)]
pub enum EntryRole {
    /// A nested archive: queued for extraction.
    Nested,
    /// A video: renamed to its canonical extension.
    Video,
    /// Anything else stays as it is.
    Plain,
}

/// The role of an extracted file of the given kind.
pub open spec fn entry_role_spec(kind: FileType) -> EntryRole {
    if is_archive_kind(kind) {
        EntryRole::Nested
    } else if is_video_kind(kind) {
        EntryRole::Video
    } else {
        EntryRole::Plain
    }
}

/// Classify the freshly-written file into nested archive, video, or other.
pub fn entry_role(kind: FileType) -> (r: EntryRole)
    ensures
        r == entry_role_spec(kind),
{
    if is_type_archive(kind) {
        EntryRole::Nested
    } else if is_type_video(kind) {
        EntryRole::Video
    } else {
        EntryRole::Plain
    }
}

/// The name of macOS metadata sidecars inside archives.
pub open spec fn macos_metadata() -> Seq<char> {
    "__MACOSX"@
}

/// Whether an entry name belongs to a macOS metadata sidecar.
pub fn is_macos_metadata(name: &str) -> (r: bool)
    ensures
        r == has_infix(name@, macos_metadata()),
{
    let cs = chars_of(name);
    let marker = chars_of("__MACOSX");
    chars_contain(cs.as_slice(), marker.as_slice())
}

/// Output path of an archive entry for the zip and rar backends: directories
/// and macOS metadata are skipped, every other entry goes to
/// `create_outpath(archive_path, name)`.
pub open spec fn filtered_target_spec(archive: Seq<char>, name: Seq<char>, is_dir: bool) -> Option<
    Seq<char>,
> {
    if is_dir || has_infix(name, macos_metadata()) {
        None
    } else {
        Some(outpath_spec(archive, name))
    }
}

/// See [`filtered_target_spec`].
pub fn filtered_target(archive_path: &str, name: &str, is_dir: bool) -> (r: Option<String>)
    ensures
        crate::text::opt_text(r) == filtered_target_spec(archive_path@, name@, is_dir),
{
    if is_dir || is_macos_metadata(name) {
        None
    } else {
        Some(create_outpath(archive_path, name))
    }
}

/// How a failed password probe is read.
#[derive(Debug, PartialEq, Eq, Clone, Copy, Structural)]
pub enum ProbeFailure {
    /// The password is wrong: try the next one.
    WrongPassword,
    /// Anything else: the task fails with this error.
    Fatal,
}

/// What a backend's password probe says of one candidate password.
#[derive(Debug, PartialEq, Eq, Clone)]
pub enum PasswordCheck {
    /// The password opens the archive: extract with it.
    Accepted,
    /// The password is wrong: try the next one.
    Rejected,
    /// Anything else: the task fails with this message.
    Failed(String),
}

/// What to do next in a password trial.
#[derive(Debug, PartialEq, Eq, Clone, Copy, Structural)]
pub enum TrialNext {
    /// Try the password at this index of the list.
    Try(usize),
    /// Every password was rejected: the archive has no correct password.
    Exhausted,
}

/// Drive an extractor over the full password list: passwords are tried in
/// list order, each at most once; the first success ends the trial with the
/// nested archives found, the first hard error ends it with that error, and
/// when every password was rejected the trial is exhausted.
pub struct PasswordTrial {
    count: usize,
    tried: usize,
    finished: bool,
}

impl PasswordTrial {
    /// Number of candidate passwords.
    pub closed spec fn count(&self) -> nat {
        self.count as nat
    }

    /// Number of passwords rejected so far (they are the first ones of the list).
    pub closed spec fn rejected(&self) -> nat {
        self.tried as nat
    }

    /// Whether a success or a hard error ended the trial.
    pub closed spec fn finished(&self) -> bool {
        self.finished
    }

    /// Internal consistency.
    pub closed spec fn wf(&self) -> bool {
        self.tried <= self.count
    }

    /// A trial over `count` candidate passwords.
    pub fn new(count: usize) -> (r: Self)
        ensures
            r.wf(),
            r.count() == count,
            r.rejected() == 0,
            !r.finished(),
    {
        PasswordTrial { count, tried: 0, finished: false }
    }

    /// The next password to try, or `Exhausted` once all were rejected.
    pub fn next(&self) -> (r: TrialNext)
        requires
            self.wf(),
            !self.finished(),
        ensures
            match r {
                TrialNext::Try(i) => i == self.rejected() && i < self.count(),
                TrialNext::Exhausted => self.rejected() == self.count(),
            },
    {
        if self.tried < self.count {
            TrialNext::Try(self.tried)
        } else {
            TrialNext::Exhausted
        }
    }

    /// Record the result of trying the password `next` handed out. Returns the
    /// end of the trial, or `None` when the next password must be tried.
    pub fn record<E>(&mut self, attempt: Result<ExtractOutcome, E>) -> (r: Option<
        Result<Vec<String>, E>,
    >)
        requires
            old(self).wf(),
            !old(self).finished(),
            old(self).rejected() < old(self).count(),
        ensures
            final(self).wf(),
            final(self).count() == old(self).count(),
            match attempt {
                Ok(ExtractOutcome::BadPassword) => r is None && !final(self).finished()
                    && final(self).rejected() == old(self).rejected() + 1,
                Ok(ExtractOutcome::Success(children)) => r == Some(Ok::<Vec<String>, E>(children))
                    && final(self).finished() && final(self).rejected() == old(self).rejected(),
                Err(e) => r == Some(Err::<Vec<String>, E>(e)) && final(self).finished()
                    && final(self).rejected() == old(self).rejected(),
            },
    {
        match attempt {
            Ok(ExtractOutcome::BadPassword) => {
                self.tried = self.tried + 1;
                None
            },
            Ok(ExtractOutcome::Success(children)) => {
                self.finished = true;
                Some(Ok(children))
            },
            Err(e) => {
                self.finished = true;
                Some(Err(e))
            },
        }
    }
}

} // verus!
