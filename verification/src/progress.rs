//! Run statistics reported in the final summary.
//!
//! The progress bars themselves are drawn by the application; this module
//! holds the counters they report.

use vstd::prelude::*;

verus! {

/// Aggregate statistics gathered across the run, reported in the final summary.
#[derive(Debug, Clone, Copy, PartialEq, Eq, Structural)]
pub struct Stats {
    /// Tasks that completed successfully.
    pub succeeded: usize,
    /// Tasks that failed.
    pub failed: usize,
    /// Videos renamed to their canonical extension.
    pub videos_renamed: usize,
}

impl Stats {
    /// All counters at zero.
    pub fn new() -> (r: Self)
        ensures
            r == (Stats { succeeded: 0, failed: 0, videos_renamed: 0 }),
    {
        Stats { succeeded: 0, failed: 0, videos_renamed: 0 }
    }

    /// Mark one task as successfully completed.
    pub fn task_succeeded(&mut self)
        requires
            old(self).succeeded < usize::MAX,
        ensures
            *final(self) == (Stats { succeeded: (old(self).succeeded + 1) as usize, ..*old(self) }),
    {
        self.succeeded = self.succeeded + 1;
    }

    /// Mark one task as failed.
    pub fn task_failed(&mut self)
        requires
            old(self).failed < usize::MAX,
        ensures
            *final(self) == (Stats { failed: (old(self).failed + 1) as usize, ..*old(self) }),
    {
        self.failed = self.failed + 1;
    }

    /// Increment the renamed-video counter.
    pub fn note_video_renamed(&mut self)
        requires
            old(self).videos_renamed < usize::MAX,
        ensures
            *final(self) == (Stats {
                videos_renamed: (old(self).videos_renamed + 1) as usize,
                ..*old(self)
            }),
    {
        self.videos_renamed = self.videos_renamed + 1;
    }

    /// Tasks finished either way.
    pub fn finished(&self) -> (r: usize)
        requires
            self.succeeded + self.failed <= usize::MAX,
        ensures
            r == self.succeeded + self.failed,
    {
        self.succeeded + self.failed
    }
}

} // verus!
