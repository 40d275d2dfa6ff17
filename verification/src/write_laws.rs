//! What each write about a task leaves of the record, and what each update
//! leaves of a run.

use vstd::prelude::*;

use crate::db::{
    after_calls, after_change, after_write, after_writes, calls_of, carried_out, changed,
    creation, error_text, failure_of, run_row, task_operations, with_run, write_views, wrote, Call, Change, Contents,
    DatabaseError, NewTask, Operation, RunChange, RunRecord, RunRow, SqlxError,
    TaskRecord, TaskRow, TaskWrite, Write,
};
use crate::lifecycle_laws::has_ended;
use crate::status::{LogSource, RunStatus, TaskStatus};
use crate::time::Timestamp;
use crate::uuid::Uuid;

verus! {

/// Whether the row of the task `name` was replaced, and nothing else was
/// touched.
pub open spec fn replaced(
    before: Contents,
    after: Contents,
    name: Seq<char>,
    row: TaskRow,
    updated: bool,
) -> bool {
    &&& updated
    &&& after.tasks == before.tasks.insert(name, row)
    &&& after.logs == before.logs
    &&& after.runs == before.runs
}

/// Constraints are recorded for every task that has not come to its end,
/// whatever its status, and for no other.
pub proof fn law_constraints_are_recorded(
    before: Contents,
    after: Contents,
    name: Seq<char>,
    constraints: Seq<char>,
    updated: bool,
)
    requires
        wrote(before, after, Write { name, change: Change::Constraints(constraints) }, updated),
    ensures
        updated <==> before.tasks.contains_key(name) && !has_ended(before.tasks[name].status),
        !updated ==> after == before,
        updated ==> replaced(
            before,
            after,
            name,
            TaskRow { constraints: Some(constraints), ..before.tasks[name] },
            updated,
        ),
{
}

/// The cause of a retry is recorded for every task, whatever its status.
pub proof fn law_retry_causes_are_recorded(
    before: Contents,
    after: Contents,
    name: Seq<char>,
    cause: Seq<char>,
    updated: bool,
)
    requires
        wrote(before, after, Write { name, change: Change::RetryCause(cause) }, updated),
    ensures
        updated <==> before.tasks.contains_key(name),
        !updated ==> after == before,
        updated ==> replaced(
            before,
            after,
            name,
            TaskRow { retry_cause: Some(cause), ..before.tasks[name] },
            updated,
        ),
{
}

/// Resource utilization is recorded for every task, whatever its status, after
/// all that was recorded before.
pub proof fn law_utilization_is_recorded(
    before: Contents,
    after: Contents,
    name: Seq<char>,
    patch: Seq<char>,
    updated: bool,
)
    requires
        wrote(before, after, Write { name, change: Change::Utilization(patch) }, updated),
    ensures
        updated <==> before.tasks.contains_key(name),
        !updated ==> after == before,
        updated ==> replaced(
            before,
            after,
            name,
            TaskRow {
                patches: before.tasks[name].patches + seq![patch],
                ..before.tasks[name]
            },
            updated,
        ),
{
    if before.tasks.contains_key(name) {
        assert(before.tasks[name].patches.push(patch) =~= before.tasks[name].patches + seq![patch]);
    }
}

/// A task is localizing once it was seen to localize while it was initializing;
/// one that is further on is left alone.
pub proof fn law_localizing_is_recorded(
    before: Contents,
    after: Contents,
    name: Seq<char>,
    updated: bool,
)
    requires
        wrote(before, after, Write { name, change: Change::Localizing }, updated),
    ensures
        updated <==> before.tasks.contains_key(name) && before.tasks[name].status is Initializing,
        !updated ==> after == before,
        updated ==> replaced(
            before,
            after,
            name,
            TaskRow { status: TaskStatus::Localizing, ..before.tasks[name] },
            updated,
        ),
{
}

/// A submission makes a task pending that was initializing or localizing, and
/// dates one that is pending without a submission time; a submission time that
/// is there stands, and a task that is further on is left alone.
pub proof fn law_submissions_are_recorded(
    before: Contents,
    after: Contents,
    name: Seq<char>,
    at: Timestamp,
    updated: bool,
)
    requires
        wrote(before, after, Write { name, change: Change::Pending(at) }, updated),
    ensures
        updated <==> before.tasks.contains_key(name) && {
            let row = before.tasks[name];
            ||| row.status is Initializing
            ||| row.status is Localizing
            ||| row.status is Pending && row.submitted_at is None
        },
        !updated ==> after == before,
        updated ==> replaced(
            before,
            after,
            name,
            TaskRow {
                status: TaskStatus::Pending,
                submitted_at: Some(
                    match before.tasks[name].submitted_at {
                        Some(first) => first,
                        None => at,
                    },
                ),
                ..before.tasks[name]
            },
            updated,
        ),
{
}

/// A start makes a task running, with its starting time, unless it is running or
/// has come to its end.
pub proof fn law_starts_are_recorded(
    before: Contents,
    after: Contents,
    name: Seq<char>,
    at: Timestamp,
    updated: bool,
)
    requires
        wrote(before, after, Write { name, change: Change::Started(at) }, updated),
    ensures
        updated <==> before.tasks.contains_key(name) && {
            let status = before.tasks[name].status;
            status is Initializing || status is Localizing || status is Pending
        },
        !updated ==> after == before,
        updated ==> replaced(
            before,
            after,
            name,
            TaskRow {
                status: TaskStatus::Running,
                started_at: Some(at),
                ..before.tasks[name]
            },
            updated,
        ),
{
}

/// The first end of a task is recorded, with its time and with what came of it,
/// wherever the task had got to; a later one is refused.
pub proof fn law_the_first_end_is_recorded(
    before: Contents,
    after: Contents,
    name: Seq<char>,
    change: Change,
    updated: bool,
)
    requires
        wrote(before, after, Write { name, change }, updated),
        change is Cached || change is Completed || change is Failed || change is Canceled
            || change is Preempted,
    ensures
        updated <==> before.tasks.contains_key(name) && !has_ended(before.tasks[name].status),
        !updated ==> after == before,
        updated ==> ({
            let row = before.tasks[name];
            replaced(
                before,
                after,
                name,
                match change {
                    Change::Cached(at) => TaskRow {
                        status: TaskStatus::Cached,
                        completed_at: Some(at),
                        ..row
                    },
                    Change::Completed(code, at) => TaskRow {
                        status: TaskStatus::Completed,
                        exit_status: code,
                        completed_at: Some(at),
                        ..row
                    },
                    Change::Failed(error, at) => TaskRow {
                        status: TaskStatus::Failed,
                        error: Some(error),
                        completed_at: Some(at),
                        ..row
                    },
                    Change::Canceled(at) => TaskRow {
                        status: TaskStatus::Canceled,
                        completed_at: Some(at),
                        ..row
                    },
                    Change::Preempted(at) => TaskRow {
                        status: TaskStatus::Preempted,
                        completed_at: Some(at),
                        ..row
                    },
                    _ => row,
                },
                updated,
            )
        }),
{
}

/// Creating a task that is not there leaves it with what it was created with, and
/// with nothing else; creating one that is there fills in a call path that was
/// missing, keeps the larger attempt number and leaves all else alone.
pub proof fn law_creations_are_recorded(before: Contents, task: NewTask<'_>)
    ensures
        ({
            let name = task.name@;
            let call_id: Option<Seq<char>> = match task.call_id {
                Some(call_id) => Some(call_id@),
                None => None,
            };
            let after = after_write(before, creation(task));
            &&& after.logs == before.logs
            &&& after.runs == before.runs
            &&& after.tasks.dom() == before.tasks.dom().insert(name)
            &&& forall|other: Seq<char>|
                before.tasks.contains_key(other) && other != name
                    ==> #[trigger] after.tasks[other] == before.tasks[other]
            &&& !before.tasks.contains_key(name) ==> after.tasks[name] == (TaskRow {
                run_id: task.run_id,
                status: task.status,
                call_id,
                attempt: task.attempt,
                constraints: None,
                retry_cause: None,
                patches: Seq::empty(),
                submitted_at: None,
                started_at: None,
                completed_at: None,
                exit_status: None,
                error: None,
            })
            &&& before.tasks.contains_key(name) ==> {
                let row = before.tasks[name];
                after.tasks[name] == (TaskRow {
                    call_id: if row.call_id is None {
                        call_id
                    } else {
                        row.call_id
                    },
                    attempt: if task.attempt > row.attempt {
                        task.attempt
                    } else {
                        row.attempt
                    },
                    ..row
                })
            }
        }),
{
    let after = after_write(before, creation(task));
    assert(after.tasks.dom() =~= before.tasks.dom().insert(task.name@));
}

/// Output is appended to all that was logged before, whether or not its task is
/// there, and touches nothing else.
pub proof fn law_output_is_appended(
    before: Contents,
    name: Seq<char>,
    source: LogSource,
    chunk: Seq<u8>,
)
    ensures
        ({
            let after = after_write(before, Write { name, change: Change::Log(source, chunk) });
            let last = before.logs.len() as int;
            &&& after.tasks == before.tasks
            &&& after.runs == before.runs
            &&& after.logs.len() == last + 1
            &&& after.logs.take(last) == before.logs
            &&& after.logs[last].name == name
            &&& after.logs[last].source == source
            &&& after.logs[last].chunk == chunk
        }),
{
    let after = after_write(before, Write { name, change: Change::Log(source, chunk) });
    assert(after.logs.take(before.logs.len() as int) =~= before.logs);
}

/// A batch of writes leaves what its writes leave, one after another: none is
/// left out, and none comes before an earlier one.
pub proof fn law_batches_apply_in_order(before: Contents, first: Write, rest: Seq<Write>)
    ensures
        after_writes(before, Seq::empty()) == before,
        after_writes(before, seq![first] + rest) == after_writes(after_write(before, first), rest),
    decreases rest.len(),
{
    let all = seq![first] + rest;
    if rest.len() == 0 {
        assert(all.drop_last() =~= Seq::<Write>::empty());
        assert(all.last() == first);
        assert(after_writes(before, all.drop_last()) == before);
    } else {
        law_batches_apply_in_order(before, first, rest.drop_last());
        assert(all.drop_last() =~= seq![first] + rest.drop_last());
        assert(all.last() == rest.last());
    }
}

/// A buffered write is about the task that it names, and changes what it says.
pub proof fn law_buffered_writes_say_what_they_change(write: TaskWrite)
    ensures
        match write {
            TaskWrite::Create { name, run_id, status, call_id, attempt } => write@.name == name@
                && match write@.change {
                Change::Create { run_id: run, status: start, call_id: path, attempt: number } => {
                    &&& run == run_id
                    &&& start == status
                    &&& number == attempt
                    &&& path is Some <==> call_id is Some
                    &&& call_id is Some ==> path == Some(call_id->0@)
                },
                _ => false,
            },
            TaskWrite::Localizing { name } => write@ == (Write {
                name: name@,
                change: Change::Localizing,
            }),
            TaskWrite::Constraints { name, constraints } => write@ == (Write {
                name: name@,
                change: Change::Constraints(constraints@),
            }),
            TaskWrite::RetryCause { name, cause } => write@ == (Write {
                name: name@,
                change: Change::RetryCause(cause@),
            }),
            TaskWrite::Utilization { name, patch } => write@ == (Write {
                name: name@,
                change: Change::Utilization(patch@),
            }),
            TaskWrite::Pending { name, submitted_at } => write@ == (Write {
                name: name@,
                change: Change::Pending(submitted_at),
            }),
            TaskWrite::Cached { name, completed_at } => write@ == (Write {
                name: name@,
                change: Change::Cached(completed_at),
            }),
            TaskWrite::Started { name, started_at } => write@ == (Write {
                name: name@,
                change: Change::Started(started_at),
            }),
            TaskWrite::Completed { name, exit_status, completed_at } => write@ == (Write {
                name: name@,
                change: Change::Completed(exit_status, completed_at),
            }),
            TaskWrite::Failed { name, error, completed_at } => write@ == (Write {
                name: name@,
                change: Change::Failed(error@, completed_at),
            }),
            TaskWrite::Canceled { name, completed_at } => write@ == (Write {
                name: name@,
                change: Change::Canceled(completed_at),
            }),
            TaskWrite::Preempted { name, completed_at } => write@ == (Write {
                name: name@,
                change: Change::Preempted(completed_at),
            }),
            TaskWrite::Log { name, source, chunk } => write@ == (Write {
                name: name@,
                change: Change::Log(source, chunk@),
            }),
        },
{
}

/// The record of a task shows what is recorded of it, each under its own name.
pub proof fn law_task_records_show_what_is_recorded(record: TaskRecord)
    ensures
        record@.run_id == record.run_id,
        record@.status == record.status,
        record@.attempt == record.attempt,
        record@.submitted_at == record.submitted_at,
        record@.started_at == record.started_at,
        record@.completed_at == record.completed_at,
        record@.exit_status == record.exit_status,
        shows(record.call_id, record@.call_id),
        shows(record.constraints, record@.constraints),
        shows(record.retry_cause, record@.retry_cause),
        shows(record.error, record@.error),
        record@.patches.len() == record.patches@.len(),
        forall|i: int|
            0 <= i < record.patches@.len() ==> #[trigger] record@.patches[i] == record.patches@[i]@,
{
}

/// The record of a run shows what is recorded of it, each under its own name.
pub proof fn law_run_records_show_what_is_recorded(record: RunRecord)
    ensures
        record@.status == record.status,
        record@.started_at == record.started_at,
        record@.completed_at == record.completed_at,
        shows(record.outputs, record@.outputs),
        shows(record.error, record@.error),
        shows(record.target, record@.target),
        shows(record.directory, record@.directory),
        shows(record.index_directory, record@.index_directory),
        shows(record.backend, record@.backend),
        shows(record.transfer_totals, record@.transfer_totals),
{
}

/// Whether an optional string holds an optional text.
pub open spec fn shows(string: Option<String>, text: Option<Seq<char>>) -> bool {
    &&& string is Some <==> text is Some
    &&& string is Some ==> text == Some(string->0@)
}

/// Whether a run has come to its end.
pub open spec fn run_has_ended(status: RunStatus) -> bool {
    ||| status is Completed
    ||| status is Failed
    ||| status is Canceled
    ||| status is Orphaned
}

/// An update of a run replaces what it is about and nothing else, in that run and
/// in no other; a run that is not there is not made. Only a request to cancel is
/// refused by a run that has come to its end.
pub proof fn law_run_updates_are_recorded(before: Contents, id: Uuid, change: RunChange)
    ensures
        ({
            let after = after_change(before, id, change);
            let row = before.runs[id];
            &&& after.tasks == before.tasks
            &&& after.logs == before.logs
            &&& after.runs.dom() == before.runs.dom()
            &&& forall|other: Uuid|
                before.runs.contains_key(other) && other != id ==> #[trigger] after.runs[other]
                    == before.runs[other]
            &&& before.runs.contains_key(id) ==> after.runs[id] == match change {
                RunChange::Status(status) => RunRow { status, ..row },
                RunChange::StartedAt(at) => RunRow { started_at: at, ..row },
                RunChange::CompletedAt(at) => RunRow { completed_at: at, ..row },
                RunChange::Outputs(text) => RunRow { outputs: Some(text), ..row },
                RunChange::Error(text) => RunRow { error: Some(text), ..row },
                RunChange::Target(text) => RunRow { target: Some(text), ..row },
                RunChange::Directory(text) => RunRow { directory: Some(text), ..row },
                RunChange::IndexDirectory(text) => RunRow { index_directory: Some(text), ..row },
                RunChange::Backend(text) => RunRow { backend: Some(text), ..row },
                RunChange::TransferTotals(text) => RunRow { transfer_totals: Some(text), ..row },
                RunChange::Canceling => if run_has_ended(row.status) {
                    row
                } else {
                    RunRow { status: RunStatus::Canceling, ..row }
                },
            }
        }),
{
    let after = after_change(before, id, change);
    assert(after.runs.dom() =~= before.runs.dom());
}

/// An update of a run that reports whether it took effect reports so exactly when
/// the run is there and does not refuse it.
pub proof fn law_run_updates_are_reported(
    before: Contents,
    after: Contents,
    id: Uuid,
    change: RunChange,
    updated: bool,
)
    requires
        changed(before, after, id, change, updated),
    ensures
        updated <==> before.runs.contains_key(id) && !(change is Canceling && run_has_ended(
            before.runs[id].status,
        )),
        !updated ==> after == before,
        after == after_change(before, id, change),
{
}

/// A run whose row is replaced is the only one that changes, and one that is not
/// there is not made.
pub proof fn law_one_run_is_replaced(before: Contents, id: Uuid, row: RunRow)
    ensures
        with_run(before, id, None) == before,
        with_run(before, id, Some(row)).tasks == before.tasks,
        with_run(before, id, Some(row)).logs == before.logs,
        with_run(before, id, Some(row)).runs == before.runs.insert(id, row),
        run_row(before, id) is Some <==> before.runs.contains_key(id),
        before.runs.contains_key(id) ==> run_row(before, id) == Some(before.runs[id]),
{
}

/// A run that starts, completes, fails or is canceled has its new status and the
/// time of it, with its outputs or its error where it has one: this is what the
/// updates leave that the transition is made of.
pub proof fn law_transitions_are_made_of_updates(
    before: Contents,
    id: Uuid,
    status: RunStatus,
    at: Timestamp,
    text: Seq<char>,
)
    requires
        before.runs.contains_key(id),
    ensures
        ({
            let row = before.runs[id];
            let moved = after_change(before, id, RunChange::Status(status));
            let failed = after_change(moved, id, RunChange::Error(text));
            let produced = after_change(before, id, RunChange::Outputs(text));
            let ended = after_change(produced, id, RunChange::Status(status));
            &&& after_change(moved, id, RunChange::StartedAt(Some(at))).runs == before.runs.insert(
                id,
                RunRow { status, started_at: Some(at), ..row },
            )
            &&& after_change(moved, id, RunChange::CompletedAt(Some(at))).runs
                == before.runs.insert(id, RunRow { status, completed_at: Some(at), ..row })
            &&& after_change(failed, id, RunChange::CompletedAt(Some(at))).runs
                == before.runs.insert(
                id,
                RunRow { status, error: Some(text), completed_at: Some(at), ..row },
            )
            &&& after_change(ended, id, RunChange::CompletedAt(Some(at))).runs
                == before.runs.insert(
                id,
                RunRow { status, outputs: Some(text), completed_at: Some(at), ..row },
            )
        }),
{
    let row = before.runs[id];
    let moved = after_change(before, id, RunChange::Status(status));
    let failed = after_change(moved, id, RunChange::Error(text));
    let produced = after_change(before, id, RunChange::Outputs(text));
    let ended = after_change(produced, id, RunChange::Status(status));
    assert(after_change(moved, id, RunChange::StartedAt(Some(at))).runs =~= before.runs.insert(
        id,
        RunRow { status, started_at: Some(at), ..row },
    ));
    assert(after_change(moved, id, RunChange::CompletedAt(Some(at))).runs =~= before.runs.insert(
        id,
        RunRow { status, completed_at: Some(at), ..row },
    ));
    assert(after_change(failed, id, RunChange::CompletedAt(Some(at))).runs =~= before.runs.insert(
        id,
        RunRow { status, error: Some(text), completed_at: Some(at), ..row },
    ));
    assert(after_change(ended, id, RunChange::CompletedAt(Some(at))).runs =~= before.runs.insert(
        id,
        RunRow { status, outputs: Some(text), completed_at: Some(at), ..row },
    ));
}

/// Operations that were carried out stand in the history one by one, in order,
/// behind all that stood there. All of them do when the result is a success;
/// otherwise those up to the one that failed, each but the last as a success and
/// the last with the error that is the result.
pub proof fn law_operations_are_carried_out(
    before: Seq<Call>,
    after: Seq<Call>,
    operations: Seq<Operation>,
    result: Result<(), DatabaseError>,
)
    requires
        carried_out(before, after, operations, result),
    ensures
        before.len() <= after.len() <= before.len() + operations.len(),
        after.take(before.len() as int) == before,
        forall|i: int|
            before.len() <= i < after.len() ==> (#[trigger] after[i]).operation == operations[i
                - before.len()],
        forall|i: int|
            before.len() <= i < after.len() - 1 ==> (#[trigger] after[i]).failure is None,
        result is Ok ==> after.len() == before.len() + operations.len(),
        result is Ok && after.len() > before.len() ==> after.last().failure is None,
        result matches Err(error) ==> after.len() > before.len() && after.last().failure == Some(
            error,
        ),
{
    match result {
        Ok(_) => {
            assert(after.take(before.len() as int) =~= before);
        },
        Err(error) => {
            let k = choose|k: int|
                0 < k <= operations.len() && after == #[trigger] after_calls(
                    before,
                    operations,
                    k,
                    Some(error),
                );
            assert(calls_of(operations.take(k), Some(error)).len() == k);
            assert(after.take(before.len() as int) =~= before);
        },
    }
}

/// Every write of a batch is an operation, in order.
pub proof fn law_batches_are_operations(writes: Seq<TaskWrite>)
    ensures
        task_operations(write_views(writes)).len() == writes.len(),
        forall|i: int|
            0 <= i < writes.len() ==> #[trigger] task_operations(write_views(writes))[i]
                == Operation::Task(writes[i]@),
{
}

/// A failure is recorded with the error that is returned.
pub proof fn law_failures_are_recorded(error: DatabaseError)
    ensures
        failure_of(Err::<(), DatabaseError>(error)) == Some(error),
        failure_of(Ok::<(), DatabaseError>(())) is None,
{
}

/// An error is told in the words of what raised it, and one about the version of
/// a schema tells the version that was expected before the one that was found.
pub proof fn law_errors_are_told(error: DatabaseError)
    ensures
        error matches DatabaseError::Sqlx(SqlxError::Database { message, .. }) ==> error_text(error)
            == message@,
        error matches DatabaseError::Sqlx(SqlxError::Other { message }) ==> error_text(error)
            == message@,
        error matches DatabaseError::WhoAmI { message } ==> error_text(error) == message@,
        error matches DatabaseError::Migration { message } ==> error_text(error) == message@,
        error matches DatabaseError::Io { message } ==> error_text(error) == message@,
        error matches DatabaseError::Json { message } ==> error_text(error) == message@,
        error matches DatabaseError::InvalidVersion { expected, found } ==> error_text(error)
            == "invalid database schema version: expected `"@ + expected@ + "`, found `"@ + found@
            + "`"@,
        error is NotFound ==> error_text(error) == "not found"@,
{
}

} // verus!
