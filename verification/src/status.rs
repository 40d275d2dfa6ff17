//! The statuses of runs and tasks.

use vstd::prelude::*;
use vstd::string::*;

verus! {

/// The status of a task's execution attempt.
#[derive(Clone, Copy, Debug, PartialEq, Eq, Structural)]
pub enum TaskStatus {
    /// The task was announced and is being evaluated.
    Initializing,
    /// The task's inputs are being localized.
    Localizing,
    /// The task was submitted to a backend and awaits scheduling.
    Pending,
    /// The task is running.
    Running,
    /// The task ran to completion.
    Completed,
    /// The task was served from the call cache.
    Cached,
    /// The task failed.
    Failed,
    /// The task was canceled.
    Canceled,
    /// The task was preempted.
    Preempted,
    /// The task's owner is gone.
    Orphaned,
}

/// The status of a run.
#[derive(Clone, Copy, Debug, PartialEq, Eq, Structural)]
pub enum RunStatus {
    /// The run is running.
    Running,
    /// The run ran to completion.
    Completed,
    /// The run failed.
    Failed,
    /// The run was asked to cancel.
    Canceling,
    /// The run was canceled.
    Canceled,
    /// The run's owner is gone.
    Orphaned,
}

/// The stream that a piece of task output was written to.
#[derive(Clone, Copy, Debug, PartialEq, Eq, Structural)]
pub enum LogSource {
    /// Standard output.
    Stdout,
    /// Standard error.
    Stderr,
}

/// The rank of a status in the task lifecycle.
pub open spec fn rank(status: TaskStatus) -> int {
    match status {
        TaskStatus::Initializing => 0,
        TaskStatus::Localizing => 1,
        TaskStatus::Pending => 2,
        TaskStatus::Running => 3,
        _ => 4,
    }
}

/// Whether a status is the end of the task lifecycle.
pub open spec fn is_terminal(status: TaskStatus) -> bool {
    rank(status) == 4
}

/// Returns the rank of a status in the task lifecycle.
///
/// The engine and backend event channels are independent and carry no ordering
/// relative to one another, so transitions are kept monotonic: a status only
/// ever advances.
pub fn status_rank(status: TaskStatus) -> (r: u8)
    ensures
        r == rank(status),
{
    match status {
        TaskStatus::Initializing => 0,
        TaskStatus::Localizing => 1,
        TaskStatus::Pending => 2,
        TaskStatus::Running => 3,
        TaskStatus::Completed
        | TaskStatus::Cached
        | TaskStatus::Failed
        | TaskStatus::Canceled
        | TaskStatus::Preempted
        | TaskStatus::Orphaned => 4,
    }
}

/// The name of a task status.
pub open spec fn task_status_name(status: TaskStatus) -> Seq<char> {
    match status {
        TaskStatus::Initializing => "initializing"@,
        TaskStatus::Localizing => "localizing"@,
        TaskStatus::Pending => "pending"@,
        TaskStatus::Running => "running"@,
        TaskStatus::Completed => "completed"@,
        TaskStatus::Cached => "cached"@,
        TaskStatus::Failed => "failed"@,
        TaskStatus::Canceled => "canceled"@,
        TaskStatus::Preempted => "preempted"@,
        TaskStatus::Orphaned => "orphaned"@,
    }
}

/// The name of a run status.
pub open spec fn run_status_name(status: RunStatus) -> Seq<char> {
    match status {
        RunStatus::Running => "running"@,
        RunStatus::Completed => "completed"@,
        RunStatus::Failed => "failed"@,
        RunStatus::Canceling => "canceling"@,
        RunStatus::Canceled => "canceled"@,
        RunStatus::Orphaned => "orphaned"@,
    }
}

impl TaskStatus {
    /// The name of the status.
    pub fn name(self) -> (r: String)
        ensures
            r@ == task_status_name(self),
    {
        let name = match self {
            TaskStatus::Initializing => "initializing",
            TaskStatus::Localizing => "localizing",
            TaskStatus::Pending => "pending",
            TaskStatus::Running => "running",
            TaskStatus::Completed => "completed",
            TaskStatus::Cached => "cached",
            TaskStatus::Failed => "failed",
            TaskStatus::Canceled => "canceled",
            TaskStatus::Preempted => "preempted",
            TaskStatus::Orphaned => "orphaned",
        };
        name.to_owned()
    }
}

impl RunStatus {
    /// The name of the status.
    pub fn name(self) -> (r: String)
        ensures
            r@ == run_status_name(self),
    {
        let name = match self {
            RunStatus::Running => "running",
            RunStatus::Completed => "completed",
            RunStatus::Failed => "failed",
            RunStatus::Canceling => "canceling",
            RunStatus::Canceled => "canceled",
            RunStatus::Orphaned => "orphaned",
        };
        name.to_owned()
    }
}

} // verus!
