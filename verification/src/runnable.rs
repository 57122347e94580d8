//! A task in its schedulable form, with the priority it was spawned at.

use async_task::Runnable;
use std::task::Waker;
use vstd::prelude::*;

verus! {

/// `async_task::Runnable`: a task that is ready to be polled once. The
/// scheduler queues it and hands it out; it never looks inside.
#[verifier::external_type_specification]
#[verifier::external_body]
#[verifier::reject_recursive_types(M)]
pub struct ExRunnable<M>(Runnable<M>);

/// `Runnable::waker`: a new waker for the task of `runnable`. Nothing is
/// claimed of it here; waking it schedules the task again.
#[verifier::external_body]
pub(crate) fn task_waker(runnable: &Runnable) -> Waker {
    runnable.waker()
}

/// A runnable task that has a priority. The larger the priority, the sooner
/// the task is handed out.
pub struct PriorityRunnable {
    pub priority: isize,
    pub runnable: Runnable,
}

impl PriorityRunnable {
    /// Pairs a runnable task with its priority.
    pub fn new(priority: isize, runnable: Runnable) -> (p: PriorityRunnable)
        ensures
            p.priority == priority,
            p.runnable == runnable,
    {
        PriorityRunnable { priority, runnable }
    }

    /// The priority the task was spawned at.
    pub fn priority(&self) -> (p: isize)
        ensures
            p == self.priority,
    {
        self.priority
    }

    /// Gives up the task, to be run.
    pub fn into_runnable(self) -> (r: Runnable)
        ensures
            r == self.runnable,
    {
        self.runnable
    }
}

} // verus!
