//! Waiting for work that runs in the background: what the waiting side does
//! while the work goes on, and what it makes of the way the work ended.

use vstd::prelude::*;
use crate::error::Error;
use crate::status::{step_report, UpdateStatus};

verus! {

/// The time between two looks at a background task, in milliseconds.
pub const POLL_INTERVAL_MILLISECONDS: u64 = 50;

/// What the waiting side does next.
pub enum Poll {
    /// The task still runs: report one step, sleep, and look again.
    Wait { report: UpdateStatus, sleep_milliseconds: u64 },
    /// The task has ended: collect its outcome.
    Join,
}

/// How a background task ended.
pub enum TaskEnd<T> {
    /// The task ran to its end and gave its own result.
    Returned(Result<T, Error>),
    /// The task ended abnormally; `detail` says what is known of it.
    Aborted { detail: String },
}

/// What to do next about a task that has or has not finished.
pub fn poll(finished: bool) -> (r: Poll)
    ensures
        match r {
            Poll::Join => finished,
            Poll::Wait { report, sleep_milliseconds } => {
                &&& !finished
                &&& report@ == step_report()
                &&& sleep_milliseconds == POLL_INTERVAL_MILLISECONDS
            },
        },
{
    if finished {
        Poll::Join
    } else {
        Poll::Wait { report: UpdateStatus::step(), sleep_milliseconds: POLL_INTERVAL_MILLISECONDS }
    }
}

/// The outcome of a task for its caller: the task's own result where it ran
/// to its end, and a failure of the task itself where it did not.
pub fn join<T>(end: TaskEnd<T>) -> (r: Result<T, Error>)
    ensures
        match end {
            TaskEnd::Returned(result) => r == result,
            TaskEnd::Aborted { detail } => {
                r matches Err(Error::TaskFailure { detail: d }) && d@ == detail@
            },
        },
{
    match end {
        TaskEnd::Returned(result) => result,
        TaskEnd::Aborted { detail } => Err(Error::TaskFailure { detail }),
    }
}

} // verus!
