use vstd::prelude::*;

verus! {

/// What one poll of a task reports back to the scheduler.
#[derive(Clone, Copy, PartialEq, Eq, Structural, Debug)]
pub enum TaskStatus {
    /// The task ran to completion and must not be polled again.
    Ready,
    /// The task suspended. `wake` is true when the task woke itself during
    /// this very poll and asks to be scheduled again.
    Pending { wake: bool },
}

/// A cooperative unit of work, driven by the scheduler.
///
/// The scheduler polls a task only while its slot is marked notified: once
/// when it is inserted, and again after each wake. A task that suspends
/// with `wake: true` is observed on the next scan, never re-polled within
/// the scan that is running.
pub trait CoTask: Sized {
    /// A stable, human-readable name for the task.
    fn name(&self) -> String;

    /// Runs the task until it completes or suspends.
    fn poll_task(&mut self) -> TaskStatus;
}

} // verus!
