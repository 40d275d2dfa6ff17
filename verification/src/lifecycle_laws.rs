//! What holds of every status and of what events carry.

use vstd::prelude::*;

use crate::events::{event_id, last_code, recorded_attempt, CrankshaftEvent, ExitCodes};
use crate::status::{
    is_terminal, rank, run_status_name, task_status_name, RunStatus, TaskStatus,
};

verus! {

/// Whether a task with this status has come to its end.
pub open spec fn has_ended(status: TaskStatus) -> bool {
    ||| status is Completed
    ||| status is Cached
    ||| status is Failed
    ||| status is Canceled
    ||| status is Preempted
    ||| status is Orphaned
}

/// Whether a task goes through the first status before the second: it is
/// initialized, localized, submitted and run before it comes to an end.
pub open spec fn precedes_status(a: TaskStatus, b: TaskStatus) -> bool {
    ||| a is Initializing && !(b is Initializing)
    ||| a is Localizing && !(b is Initializing) && !(b is Localizing)
    ||| a is Pending && (b is Running || has_ended(b))
    ||| a is Running && has_ended(b)
}

/// Ranks order statuses as a task goes through them, and the statuses of the
/// highest rank are those in which it ends.
pub proof fn law_ranks_follow_the_lifecycle(a: TaskStatus, b: TaskStatus)
    ensures
        rank(a) < rank(b) <==> precedes_status(a, b),
        is_terminal(a) <==> has_ended(a),
{
}

/// Each status of a task has a name of its own.
pub proof fn law_task_statuses_are_named(status: TaskStatus)
    ensures
        task_status_name(status) == "initializing"@ <==> status is Initializing,
        task_status_name(status) == "localizing"@ <==> status is Localizing,
        task_status_name(status) == "pending"@ <==> status is Pending,
        task_status_name(status) == "running"@ <==> status is Running,
        task_status_name(status) == "completed"@ <==> status is Completed,
        task_status_name(status) == "cached"@ <==> status is Cached,
        task_status_name(status) == "failed"@ <==> status is Failed,
        task_status_name(status) == "canceled"@ <==> status is Canceled,
        task_status_name(status) == "preempted"@ <==> status is Preempted,
        task_status_name(status) == "orphaned"@ <==> status is Orphaned,
        task_status_name(status).len() <= 12,
{
    lemma_names_differ();
}

/// The names of the statuses differ in their length or in a character.
proof fn lemma_names_differ()
    ensures
        "initializing"@.len() == 12 && "localizing"@.len() == 10,
        "pending"@.len() == 7 && "pending"@[0] == 'p',
        "running"@.len() == 7 && "running"@[0] == 'r',
        "completed"@.len() == 9 && "completed"@[0] == 'c',
        "cached"@.len() == 6 && "cached"@[0] == 'c',
        "failed"@.len() == 6 && "failed"@[0] == 'f',
        "canceled"@.len() == 8 && "canceled"@[0] == 'c',
        "preempted"@.len() == 9 && "preempted"@[0] == 'p',
        "orphaned"@.len() == 8 && "orphaned"@[0] == 'o',
        "canceling"@.len() == 9 && "canceling"@[0] == 'c' && "canceling"@[1] == 'a',
        "completed"@[1] == 'o',
{
    reveal_strlit("initializing");
    reveal_strlit("localizing");
    reveal_strlit("pending");
    reveal_strlit("running");
    reveal_strlit("completed");
    reveal_strlit("cached");
    reveal_strlit("failed");
    reveal_strlit("canceled");
    reveal_strlit("preempted");
    reveal_strlit("orphaned");
    reveal_strlit("canceling");
}

/// Each status of a run has a name of its own.
pub proof fn law_run_statuses_are_named(status: RunStatus)
    ensures
        run_status_name(status) == "running"@ <==> status is Running,
        run_status_name(status) == "completed"@ <==> status is Completed,
        run_status_name(status) == "failed"@ <==> status is Failed,
        run_status_name(status) == "canceling"@ <==> status is Canceling,
        run_status_name(status) == "canceled"@ <==> status is Canceled,
        run_status_name(status) == "orphaned"@ <==> status is Orphaned,
{
    lemma_names_differ();
}

/// The exit code of a task is that of the execution that came last.
pub proof fn law_the_last_execution_decides(codes: ExitCodes, more: ExitCodes, code: Option<i32>)
    requires
        more.first == codes.first,
        more.rest@ == codes.rest@.push(code),
    ensures
        last_code(more) == code,
        codes.rest@.len() == 0 ==> last_code(codes) == codes.first,
{
}

/// An attempt number is recorded as it is when it fits, and as the largest that
/// fits otherwise.
pub proof fn law_attempt_numbers_are_recorded(attempt: u64)
    ensures
        0 <= recorded_attempt(attempt) <= attempt,
        recorded_attempt(attempt) == attempt || (recorded_attempt(attempt) == i64::MAX && attempt
            > i64::MAX),
{
}

/// Every event of a backend is about the task whose id it carries.
pub proof fn law_events_are_about_their_task(event: CrankshaftEvent)
    ensures
        event matches CrankshaftEvent::TaskCreated { id, .. } ==> event_id(event) == id,
        event matches CrankshaftEvent::TaskStarted { id } ==> event_id(event) == id,
        event matches CrankshaftEvent::TaskContainerCreated { id } ==> event_id(event) == id,
        event matches CrankshaftEvent::TaskContainerExited { id } ==> event_id(event) == id,
        event matches CrankshaftEvent::TaskCompleted { id, .. } ==> event_id(event) == id,
        event matches CrankshaftEvent::TaskFailed { id, .. } ==> event_id(event) == id,
        event matches CrankshaftEvent::TaskCanceled { id } ==> event_id(event) == id,
        event matches CrankshaftEvent::TaskPreempted { id } ==> event_id(event) == id,
        event matches CrankshaftEvent::TaskResourceUsage { id, .. } ==> event_id(event) == id,
        event matches CrankshaftEvent::TaskStdout { id, .. } ==> event_id(event) == id,
        event matches CrankshaftEvent::TaskStderr { id, .. } ==> event_id(event) == id,
        event matches CrankshaftEvent::ImagePullStarted { id } ==> event_id(event) == id,
        event matches CrankshaftEvent::ImagePullFailed { id } ==> event_id(event) == id,
        event matches CrankshaftEvent::ImagePullFinished { id } ==> event_id(event) == id,
{
}

} // verus!
