//! Live progress counters for one run.
//!
//! The tracker is the run's progress signal: how many candidates have been
//! ticked off, how many were found, how many errored, and whether the run
//! is finished. Rendering (a terminal bar) is the presentation layer's
//! concern; it reads these counters.

use vstd::prelude::*;

verus! {

/// Progress state of one run.
#[derive(Clone, Copy, Debug, PartialEq, Eq, Structural)]
pub struct ProgressTracker {
    /// How many candidates the run will test in all.
    pub total: u64,
    /// Whether the presentation layer should stay silent.
    pub quiet: bool,
    /// Candidates ticked off so far.
    pub ticked: u64,
    /// Outcomes counted as found so far.
    pub found: usize,
    /// Outcomes that errored so far.
    pub errors: usize,
    /// Whether the run has been marked done.
    pub finished: bool,
}

impl ProgressTracker {
    /// A fresh tracker for a run over `total` candidates.
    pub fn new(total: u64, quiet: bool) -> (t: ProgressTracker)
        ensures
            t.total == total,
            t.quiet == quiet,
            t.ticked == 0,
            t.found == 0,
            t.errors == 0,
            !t.finished,
    {
        ProgressTracker { total, quiet, ticked: 0, found: 0, errors: 0, finished: false }
    }

    /// Ticks one candidate off.
    pub fn inc(&mut self)
        requires
            old(self).ticked < u64::MAX,
        ensures
            final(self).ticked == old(self).ticked + 1,
            final(self).found == old(self).found,
            final(self).errors == old(self).errors,
            final(self).total == old(self).total,
            final(self).quiet == old(self).quiet,
            final(self).finished == old(self).finished,
    {
        self.ticked = self.ticked + 1;
    }

    /// Counts one found outcome.
    pub fn inc_found(&mut self)
        requires
            old(self).found < usize::MAX,
        ensures
            final(self).found == old(self).found + 1,
            final(self).ticked == old(self).ticked,
            final(self).errors == old(self).errors,
            final(self).total == old(self).total,
            final(self).quiet == old(self).quiet,
            final(self).finished == old(self).finished,
    {
        self.found = self.found + 1;
    }

    /// Counts one errored outcome.
    pub fn inc_error(&mut self)
        requires
            old(self).errors < usize::MAX,
        ensures
            final(self).errors == old(self).errors + 1,
            final(self).ticked == old(self).ticked,
            final(self).found == old(self).found,
            final(self).total == old(self).total,
            final(self).quiet == old(self).quiet,
            final(self).finished == old(self).finished,
    {
        self.errors = self.errors + 1;
    }

    /// Marks the run done; the counters stay as they are.
    pub fn finish(&mut self)
        ensures
            final(self).finished,
            final(self).ticked == old(self).ticked,
            final(self).found == old(self).found,
            final(self).errors == old(self).errors,
            final(self).total == old(self).total,
            final(self).quiet == old(self).quiet,
    {
        self.finished = true;
    }

    /// The found count so far.
    pub fn found_count(&self) -> (n: usize)
        ensures
            n == self.found,
    {
        self.found
    }

    /// The error count so far.
    pub fn error_count(&self) -> (n: usize)
        ensures
            n == self.errors,
    {
        self.errors
    }
}

} // verus!
