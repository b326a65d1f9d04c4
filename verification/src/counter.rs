//! Completion tracking for a dynamically growing task set.
//!
//! Two monotonically increasing counts: `started`, bumped once for every
//! task at the moment it is scheduled (before it runs, so the bump is
//! visible before the task's own completion can be), and `finished`, bumped
//! exactly once when a task has listed its directory and will contribute no
//! more work. The walk is complete exactly when the two are equal and no
//! further starts can occur; no total is ever known in advance.

use vstd::prelude::*;

verus! {

/// The started/finished counter pair.
pub struct ActivityCounter {
    pub started: u64,
    pub finished: u64,
}

impl ActivityCounter {
    /// A task finishes only after it started, so `finished` never
    /// overtakes `started`.
    pub open spec fn wf(self) -> bool {
        self.finished <= self.started
    }

    /// How many tasks have started but not yet finished.
    pub open spec fn outstanding(self) -> int {
        self.started - self.finished
    }

    /// Complete: every task that ever started has finished.
    pub open spec fn spec_complete(self) -> bool {
        self.started == self.finished
    }

    pub fn new() -> (c: ActivityCounter)
        ensures
            c.started == 0,
            c.finished == 0,
            c.wf(),
    {
        ActivityCounter { started: 0, finished: 0 }
    }

    /// Records that one more task was scheduled. Called before the task
    /// runs, never inside it.
    pub fn record_start(&mut self)
        requires
            old(self).started < u64::MAX,
        ensures
            final(self).started == old(self).started + 1,
            final(self).finished == old(self).finished,
            old(self).wf() ==> final(self).wf(),
    {
        self.started = self.started + 1;
    }

    /// Records that one task completed its own listing; the last action the
    /// task performs.
    pub fn record_finish(&mut self)
        requires
            old(self).finished < old(self).started,
        ensures
            final(self).finished == old(self).finished + 1,
            final(self).started == old(self).started,
            final(self).wf(),
    {
        self.finished = self.finished + 1;
    }

    /// Whether every task that ever started has finished.
    pub fn is_complete(&self) -> (r: bool)
        ensures
            r == self.spec_complete(),
    {
        self.started == self.finished
    }

    pub fn started(&self) -> (r: u64)
        ensures
            r == self.started,
    {
        self.started
    }

    pub fn finished(&self) -> (r: u64)
        ensures
            r == self.finished,
    {
        self.finished
    }
}

} // verus!
