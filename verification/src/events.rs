//! The events that announce the progress of tasks.
//!
//! The engine and the backends announce events on independent channels, which
//! carry no ordering relative to one another.

use vstd::prelude::*;

use crate::json::Json;

verus! {

/// An event of the engine.
///
/// Where an event carries a serialized value, `None` means that the value could
/// not be serialized.
#[derive(Debug)]
pub enum EngineEvent {
    /// A task's execution attempt is being initialized.
    TaskInitializing {
        /// The stable call path shared by every attempt of the same call.
        id: String,
        /// The unique name of the attempt.
        name: String,
        /// The 0-based attempt number within the call.
        attempt: u64,
    },
    /// A task's inputs are being localized.
    TaskLocalizing {
        /// The unique name of the attempt.
        name: String,
    },
    /// A task was handed to its backend.
    TaskExecuting {
        /// The unique name of the attempt.
        name: String,
        /// The resolved execution constraints.
        constraints: Option<Json>,
    },
    /// A task is being retried.
    TaskRetrying {
        /// The name of the attempt that failed.
        prior_name: String,
        /// The name of the attempt that follows.
        next_name: String,
        /// The number of the attempt that follows.
        attempt: u64,
        /// Why the attempt failed.
        cause: Option<Json>,
    },
    /// A task was served from the call cache.
    ReusedCachedExecutionResult {
        /// The stable call path shared by every attempt of the same call.
        id: String,
        /// The unique name of the attempt.
        name: String,
    },
    /// A backend's scheduler reported the resource utilization of an attempt.
    TaskUtilization {
        /// The unique name of the attempt.
        name: String,
        /// The observed utilization.
        utilization: Option<Json>,
    },
    /// The engine measured the resource usage of an attempt.
    TaskUsageMeasured {
        /// The unique name of the attempt.
        name: String,
        /// The measured usage.
        usage: Option<Json>,
    },
    /// A task was parked until the host has resources for it.
    TaskParked,
    /// A parked task was resumed.
    TaskUnparked,
}

/// The exit codes of a task's executions, of which there is at least one.
///
/// An execution that was ended by a signal has no code.
#[derive(Debug)]
pub struct ExitCodes {
    /// The code of the first execution.
    pub first: Option<i32>,
    /// The codes of the executions that followed.
    pub rest: Vec<Option<i32>>,
}

/// The exit code of a task's last execution.
pub open spec fn last_code(codes: ExitCodes) -> Option<i32> {
    if codes.rest@.len() > 0 {
        codes.rest@.last()
    } else {
        codes.first
    }
}

impl ExitCodes {
    /// The exit code of the last execution.
    pub fn last(&self) -> (r: Option<i32>)
        ensures
            r == last_code(*self),
    {
        if self.rest.len() > 0 {
            self.rest[self.rest.len() - 1]
        } else {
            self.first
        }
    }
}

/// An event of a task execution backend.
#[allow(inconsistent_fields)]
#[derive(Debug)]
pub enum CrankshaftEvent {
    /// A task has been created.
    TaskCreated {
        /// The id of the task.
        id: u64,
        /// The name of the task.
        name: String,
    },
    /// A task has started execution.
    TaskStarted {
        /// The id of the task.
        id: u64,
    },
    /// A container has been created for a task.
    TaskContainerCreated {
        /// The id of the task.
        id: u64,
    },
    /// A container has exited for a task.
    TaskContainerExited {
        /// The id of the task.
        id: u64,
    },
    /// A task has completed.
    TaskCompleted {
        /// The id of the task.
        id: u64,
        /// The exit codes of the task's executions.
        exit_codes: ExitCodes,
    },
    /// A task has failed.
    TaskFailed {
        /// The id of the task.
        id: u64,
        /// The error message.
        message: String,
    },
    /// A task has been canceled.
    TaskCanceled {
        /// The id of the task.
        id: u64,
    },
    /// A task was preempted.
    TaskPreempted {
        /// The id of the task.
        id: u64,
    },
    /// The resource utilization observed for a task.
    TaskResourceUsage {
        /// The id of the task.
        id: u64,
        /// The observed utilization; `None` when it could not be serialized.
        usage: Option<Json>,
    },
    /// A task has logged to its standard output.
    TaskStdout {
        /// The id of the task.
        id: u64,
        /// The logged bytes.
        message: Vec<u8>,
    },
    /// A task has logged to its standard error.
    TaskStderr {
        /// The id of the task.
        id: u64,
        /// The logged bytes.
        message: Vec<u8>,
    },
    /// A container image pull was started.
    ImagePullStarted {
        /// The id of the task that triggered the pull.
        id: u64,
    },
    /// A container image could not be pulled.
    ImagePullFailed {
        /// The id of the task that triggered the pull.
        id: u64,
    },
    /// A container image was pulled.
    ImagePullFinished {
        /// The id of the task that triggered the pull.
        id: u64,
    },
}

/// The task that a backend event is about.
pub open spec fn event_id(event: CrankshaftEvent) -> u64 {
    match event {
        CrankshaftEvent::TaskCreated { id, .. } => id,
        CrankshaftEvent::TaskStarted { id } => id,
        CrankshaftEvent::TaskContainerCreated { id } => id,
        CrankshaftEvent::TaskContainerExited { id } => id,
        CrankshaftEvent::TaskCompleted { id, .. } => id,
        CrankshaftEvent::TaskFailed { id, .. } => id,
        CrankshaftEvent::TaskCanceled { id } => id,
        CrankshaftEvent::TaskPreempted { id } => id,
        CrankshaftEvent::TaskResourceUsage { id, .. } => id,
        CrankshaftEvent::TaskStdout { id, .. } => id,
        CrankshaftEvent::TaskStderr { id, .. } => id,
        CrankshaftEvent::ImagePullStarted { id } => id,
        CrankshaftEvent::ImagePullFailed { id } => id,
        CrankshaftEvent::ImagePullFinished { id } => id,
    }
}

/// An attempt number as it is recorded: capped at the largest that fits.
pub open spec fn recorded_attempt(attempt: u64) -> i64 {
    if attempt > i64::MAX {
        i64::MAX
    } else {
        attempt as i64
    }
}

/// The attempt number as it is recorded.
pub fn record_attempt(attempt: u64) -> (r: i64)
    ensures
        r == recorded_attempt(attempt),
{
    if attempt > i64::MAX as u64 {
        i64::MAX
    } else {
        attempt as i64
    }
}

} // verus!
