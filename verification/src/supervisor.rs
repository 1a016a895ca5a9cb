//! The rules by which a scan is supervised while a worker runs it.

use vstd::prelude::*;

verus! {

/// The state of the worker that walks the tree.
#[derive(Clone, Copy, Debug, PartialEq, Eq)]
pub enum Worker {
    Running,
    Finished,
}

/// What the reporter does after a pause.
#[derive(Clone, Copy, Debug, PartialEq, Eq)]
pub enum Report {
    /// Show the totals and pause again.
    Again,
    /// Show the totals a last time and stop.
    Last,
}

/// What follows when a directory cannot be listed.
#[derive(Clone, Copy, Debug, PartialEq, Eq)]
pub enum Unlistable {
    /// The scan has nothing to work on and ends with an error.
    Fatal,
    /// The directory is skipped with a diagnostic.
    Skipped,
}

/// The state of the worker, from whether it has returned.
pub fn worker_state(returned: bool) -> (worker: Worker)
    ensures
        worker is Finished <==> returned,
{
    if returned {
        Worker::Finished
    } else {
        Worker::Running
    }
}

/// Decides what the reporter does with the totals it is about to read. The
/// worker's state is taken before the totals are, so that the last report
/// shows the totals of a finished scan.
pub fn next_report(worker: Worker) -> (report: Report)
    ensures
        report is Last <==> worker is Finished,
{
    match worker {
        Worker::Running => Report::Again,
        Worker::Finished => Report::Last,
    }
}

/// Decides what follows when the directory at `depth` below the root cannot
/// be listed: only the root itself ends the scan.
pub fn unlistable(depth: usize) -> (what: Unlistable)
    ensures
        what is Fatal <==> depth == 0,
{
    if depth == 0 {
        Unlistable::Fatal
    } else {
        Unlistable::Skipped
    }
}

} // verus!
