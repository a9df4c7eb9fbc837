//! Shared progress counters: the fan-in point of the pipeline.
//!
//! Every in-flight work item reports its outcome exactly once through
//! [`ProgressTracker::record_completion`]; the run-end summary is read once
//! from [`ProgressTracker::summary`].  The live display that renders these
//! counters lives outside the library.

use vstd::prelude::*;

verus! {

/// End-of-run aggregate: how many work items finished, and how many of them
/// both fetched and persisted successfully.
#[derive(Debug, Clone, Copy, PartialEq, Eq, Structural)]
pub struct Summary {
    pub completed: u64,
    pub succeeded: u64,
    pub total: u64,
}

/// Counters of completed and succeeded work items out of a fixed total.
pub struct ProgressTracker {
    pub completed: u64,
    pub succeeded: u64,
    pub total: u64,
}

impl ProgressTracker {
    /// Counters never run ahead of each other: an item succeeds only by
    /// completing, and no more items complete than were ever admitted.
    pub open spec fn wf(&self) -> bool {
        self.succeeded <= self.completed <= self.total
    }

    pub fn new(total: u64) -> (t: ProgressTracker)
        ensures
            t.wf(),
            t.total == total,
            t.completed == 0,
            t.succeeded == 0,
    {
        ProgressTracker { completed: 0, succeeded: 0, total }
    }

    /// The single mutation point of the whole pipeline: counts one finished
    /// work item, as a success only when the item as a whole succeeded.
    pub fn record_completion(&mut self, succeeded: bool)
        requires
            old(self).wf(),
            old(self).completed < old(self).total,
        ensures
            final(self).wf(),
            final(self).total == old(self).total,
            final(self).completed == old(self).completed + 1,
            final(self).succeeded == old(self).succeeded + (if succeeded {
                1int
            } else {
                0int
            }),
    {
        self.completed = self.completed + 1;
        if succeeded {
            self.succeeded = self.succeeded + 1;
        }
    }

    pub fn summary(&self) -> (s: Summary)
        ensures
            s.completed == self.completed,
            s.succeeded == self.succeeded,
            s.total == self.total,
    {
        Summary { completed: self.completed, succeeded: self.succeeded, total: self.total }
    }
}

} // verus!
