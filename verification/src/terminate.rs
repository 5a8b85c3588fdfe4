//! The termination executor: one attempt for each target, each outcome
//! kept with its target.

use vstd::prelude::*;

verus! {

/// Why a process could not be asked to terminate.
#[derive(Debug, Clone, Copy, PartialEq, Eq)]
pub enum TerminationError {
    /// No process has the identifier.
    NotFound,
    /// The caller may not signal the process.
    PermissionDenied,
    /// The operating system gave another reason.
    Other,
}

/// The outcome of the attempt on one process.
#[derive(Debug, Clone, Copy, PartialEq, Eq)]
pub struct TerminationResult {
    pub pid: u32,
    pub outcome: Result<(), TerminationError>,
}

/// A run of the executor over its targets. The caller asks for the next
/// target, signals it, and records what the operating system answered;
/// a failure never ends the run.
#[derive(Debug)]
pub struct Termination {
    targets: Vec<u32>,
    results: Vec<TerminationResult>,
}

/// The mathematical value of a [`Termination`].
pub struct TerminationView {
    pub targets: Seq<u32>,
    pub results: Seq<TerminationResult>,
}

impl View for Termination {
    type V = TerminationView;

    closed spec fn view(&self) -> TerminationView {
        TerminationView { targets: self.targets@, results: self.results@ }
    }
}

impl Termination {
    /// Validity: the results recorded so far belong to the first targets,
    /// in order.
    pub open spec fn wf(&self) -> bool {
        &&& self@.results.len() <= self@.targets.len()
        &&& forall|i: int|
            0 <= i < self@.results.len() ==> (#[trigger] self@.results[i]).pid == self@.targets[i]
    }

    /// The target whose outcome is awaited, if any is left.
    pub open spec fn pending(&self) -> Option<u32> {
        if self@.results.len() < self@.targets.len() {
            Some(self@.targets[self@.results.len() as int])
        } else {
            None
        }
    }

    /// Starts a run over `targets`.
    pub fn new(targets: Vec<u32>) -> (run: Termination)
        ensures
            run.wf(),
            run@.targets == targets@,
            run@.results == Seq::<TerminationResult>::empty(),
    {
        Termination { targets, results: Vec::new() }
    }

    /// The next process to signal: the first target without an outcome.
    pub fn next_target(&self) -> (target: Option<u32>)
        requires
            self.wf(),
        ensures
            target == self.pending(),
    {
        if self.results.len() < self.targets.len() {
            Some(self.targets[self.results.len()])
        } else {
            None
        }
    }

    /// Records the outcome for the pending target, be it success or
    /// failure. With no target pending nothing changes.
    pub fn record(&mut self, outcome: Result<(), TerminationError>)
        requires
            old(self).wf(),
        ensures
            final(self).wf(),
            final(self)@.targets == old(self)@.targets,
            final(self)@.results == match old(self).pending() {
                Some(pid) => old(self)@.results.push(TerminationResult { pid, outcome }),
                None => old(self)@.results,
            },
    {
        if self.results.len() < self.targets.len() {
            let pid = self.targets[self.results.len()];
            self.results.push(TerminationResult { pid, outcome });
        }
    }

    /// Whether every target has its outcome.
    pub fn is_complete(&self) -> (complete: bool)
        requires
            self.wf(),
        ensures
            complete == (self@.results.len() == self@.targets.len()),
    {
        self.results.len() == self.targets.len()
    }

    /// The outcomes recorded, one for each target attempted, in the order
    /// of the targets.
    pub fn into_results(self) -> (results: Vec<TerminationResult>)
        ensures
            results@ == self@.results,
    {
        self.results
    }
}

} // verus!
