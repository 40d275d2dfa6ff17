//! What each operation on a database gives back and leaves behind.

use vstd::prelude::*;

use crate::db::{
    after_change, after_writes, failure_of, task_operations, write_views, Call, Change, Contents, Database, DatabaseError, NewTask, Operation, RunChange,
    RunRecord, RunRow, TaskRecord, TaskRow, TaskWrite, Write,
};
use crate::lifecycle_laws::has_ended;
use crate::memory::{LogRecord, MemoryDatabase};
use crate::status::{LogSource, RunStatus, TaskStatus};
use crate::time::Timestamp;
use crate::uuid::Uuid;
use crate::write_laws::{
    law_constraints_are_recorded, law_creations_are_recorded, law_localizing_is_recorded,
    law_one_run_is_replaced, law_operations_are_carried_out, law_output_is_appended,
    law_retry_causes_are_recorded, law_run_updates_are_recorded, law_run_updates_are_reported,
    law_starts_are_recorded, law_submissions_are_recorded, law_the_first_end_is_recorded,
    law_utilization_is_recorded, replaced, run_has_ended,
};

verus! {

/// Whether one more operation stands in the history, with its outcome, and a
/// database that cannot fail has not failed and still cannot.
pub open spec fn noted<D: Database, T>(
    before: D,
    after: D,
    operation: Operation,
    result: Result<T, DatabaseError>,
) -> bool {
    &&& after.history().calls == before.history().calls + seq![
        Call {
            operation,
            failure: match result {
                Ok(_) => None,
                Err(error) => Some(error),
            },
        },
    ]
    &&& before.reliable() ==> result is Ok && after.reliable()
}

/// Constraints are recorded for a task unless it is missing or has ended, and this
/// is reported.
pub proof fn law_update_task_constraints<D: Database>(
    db: &mut D,
    name: &str,
    constraints: &str,
    result: Result<bool, DatabaseError>,
)
    requires
        call_ensures(D::update_task_constraints, (db, name, constraints), result),
    ensures
        noted(
            *old(db),
            *final(db),
            Operation::Task(Write { name: name@, change: Change::Constraints(constraints@) }),
            result,
        ),
        result matches Ok(updated) ==> {
            let before = old(db).contents();
            let after = final(db).contents();
            let there = before.tasks.contains_key(name@);
            let row = before.tasks[name@];
            &&& updated <==> there && !has_ended(row.status)
            &&& !updated ==> after == before
            &&& updated ==> replaced(before, after, name@, TaskRow { constraints: Some(constraints@), ..row }, updated)
        },
{
    let call = Call {
        operation: Operation::Task(Write { name: name@, change: Change::Constraints(constraints@) }),
        failure: failure_of(result),
    };
    assert(old(db).history().calls.push(call) =~= old(db).history().calls + seq![call]);
    match result {
        Ok(updated) => {
            law_constraints_are_recorded(
                old(db).contents(),
                final(db).contents(),
                name@,
                constraints@,
                updated,
            );
        },
        Err(_) => {},
    }
}

/// The cause of a retry is recorded for a task unless it is missing, and this is
/// reported.
pub proof fn law_update_task_retry_cause<D: Database>(
    db: &mut D,
    name: &str,
    cause: &str,
    result: Result<bool, DatabaseError>,
)
    requires
        call_ensures(D::update_task_retry_cause, (db, name, cause), result),
    ensures
        noted(
            *old(db),
            *final(db),
            Operation::Task(Write { name: name@, change: Change::RetryCause(cause@) }),
            result,
        ),
        result matches Ok(updated) ==> {
            let before = old(db).contents();
            let after = final(db).contents();
            let there = before.tasks.contains_key(name@);
            let row = before.tasks[name@];
            &&& updated <==> there && true
            &&& !updated ==> after == before
            &&& updated ==> replaced(before, after, name@, TaskRow { retry_cause: Some(cause@), ..row }, updated)
        },
{
    let call = Call {
        operation: Operation::Task(Write { name: name@, change: Change::RetryCause(cause@) }),
        failure: failure_of(result),
    };
    assert(old(db).history().calls.push(call) =~= old(db).history().calls + seq![call]);
    match result {
        Ok(updated) => {
            law_retry_causes_are_recorded(
                old(db).contents(),
                final(db).contents(),
                name@,
                cause@,
                updated,
            );
        },
        Err(_) => {},
    }
}

/// Utilization is recorded for a task unless it is missing, behind what was
/// recorded before, and this is reported.
pub proof fn law_update_task_utilization<D: Database>(
    db: &mut D,
    name: &str,
    patch: &str,
    result: Result<bool, DatabaseError>,
)
    requires
        call_ensures(D::update_task_utilization, (db, name, patch), result),
    ensures
        noted(
            *old(db),
            *final(db),
            Operation::Task(Write { name: name@, change: Change::Utilization(patch@) }),
            result,
        ),
        result matches Ok(updated) ==> {
            let before = old(db).contents();
            let after = final(db).contents();
            let there = before.tasks.contains_key(name@);
            let row = before.tasks[name@];
            &&& updated <==> there && true
            &&& !updated ==> after == before
            &&& updated ==> replaced(before, after, name@, TaskRow { patches: row.patches + seq![patch@], ..row }, updated)
        },
{
    let call = Call {
        operation: Operation::Task(Write { name: name@, change: Change::Utilization(patch@) }),
        failure: failure_of(result),
    };
    assert(old(db).history().calls.push(call) =~= old(db).history().calls + seq![call]);
    match result {
        Ok(updated) => {
            law_utilization_is_recorded(
                old(db).contents(),
                final(db).contents(),
                name@,
                patch@,
                updated,
            );
        },
        Err(_) => {},
    }
}

/// A task that is initializing becomes localizing, and this is reported.
pub proof fn law_update_task_localizing<D: Database>(
    db: &mut D,
    name: &str,
    result: Result<bool, DatabaseError>,
)
    requires
        call_ensures(D::update_task_localizing, (db, name), result),
    ensures
        noted(
            *old(db),
            *final(db),
            Operation::Task(Write { name: name@, change: Change::Localizing }),
            result,
        ),
        result matches Ok(updated) ==> {
            let before = old(db).contents();
            let after = final(db).contents();
            let there = before.tasks.contains_key(name@);
            let row = before.tasks[name@];
            &&& updated <==> there && row.status is Initializing
            &&& !updated ==> after == before
            &&& updated ==> replaced(before, after, name@, TaskRow { status: TaskStatus::Localizing, ..row }, updated)
        },
{
    let call = Call {
        operation: Operation::Task(Write { name: name@, change: Change::Localizing }),
        failure: failure_of(result),
    };
    assert(old(db).history().calls.push(call) =~= old(db).history().calls + seq![call]);
    match result {
        Ok(updated) => {
            law_localizing_is_recorded(
                old(db).contents(),
                final(db).contents(),
                name@,
                updated,
            );
        },
        Err(_) => {},
    }
}

/// A task that has not got as far, or is pending without a submission time, becomes
/// pending as of the first submission, and this is reported.
pub proof fn law_update_task_pending<D: Database>(
    db: &mut D,
    name: &str,
    submitted_at: Timestamp,
    result: Result<bool, DatabaseError>,
)
    requires
        call_ensures(D::update_task_pending, (db, name, submitted_at), result),
    ensures
        noted(
            *old(db),
            *final(db),
            Operation::Task(Write { name: name@, change: Change::Pending(submitted_at) }),
            result,
        ),
        result matches Ok(updated) ==> {
            let before = old(db).contents();
            let after = final(db).contents();
            let there = before.tasks.contains_key(name@);
            let row = before.tasks[name@];
            &&& updated <==> there && (row.status is Initializing || row.status is Localizing || (
            row.status is Pending && row.submitted_at is None))
            &&& !updated ==> after == before
            &&& updated ==> replaced(before, after, name@, TaskRow {
                status: TaskStatus::Pending,
                submitted_at: Some(
                    match row.submitted_at {
                        Some(first) => first,
                        None => submitted_at,
                    },
                ),
                ..row
            }, updated)
        },
{
    let call = Call {
        operation: Operation::Task(Write { name: name@, change: Change::Pending(submitted_at) }),
        failure: failure_of(result),
    };
    assert(old(db).history().calls.push(call) =~= old(db).history().calls + seq![call]);
    match result {
        Ok(updated) => {
            law_submissions_are_recorded(
                old(db).contents(),
                final(db).contents(),
                name@,
                submitted_at,
                updated,
            );
        },
        Err(_) => {},
    }
}

/// A task that has neither started nor ended becomes running as of its start, and
/// this is reported.
pub proof fn law_update_task_started<D: Database>(
    db: &mut D,
    name: &str,
    started_at: Timestamp,
    result: Result<bool, DatabaseError>,
)
    requires
        call_ensures(D::update_task_started, (db, name, started_at), result),
    ensures
        noted(
            *old(db),
            *final(db),
            Operation::Task(Write { name: name@, change: Change::Started(started_at) }),
            result,
        ),
        result matches Ok(updated) ==> {
            let before = old(db).contents();
            let after = final(db).contents();
            let there = before.tasks.contains_key(name@);
            let row = before.tasks[name@];
            &&& updated <==> there && (row.status is Initializing || row.status is Localizing || row.status is Pending)
            &&& !updated ==> after == before
            &&& updated ==> replaced(before, after, name@, TaskRow { status: TaskStatus::Running, started_at: Some(started_at), ..row }, updated)
        },
{
    let call = Call {
        operation: Operation::Task(Write { name: name@, change: Change::Started(started_at) }),
        failure: failure_of(result),
    };
    assert(old(db).history().calls.push(call) =~= old(db).history().calls + seq![call]);
    match result {
        Ok(updated) => {
            law_starts_are_recorded(
                old(db).contents(),
                final(db).contents(),
                name@,
                started_at,
                updated,
            );
        },
        Err(_) => {},
    }
}

/// A task that has not ended is served from the call cache as of that time, and this
/// is reported.
pub proof fn law_update_task_cached<D: Database>(
    db: &mut D,
    name: &str,
    completed_at: Timestamp,
    result: Result<bool, DatabaseError>,
)
    requires
        call_ensures(D::update_task_cached, (db, name, completed_at), result),
    ensures
        noted(
            *old(db),
            *final(db),
            Operation::Task(Write { name: name@, change: Change::Cached(completed_at) }),
            result,
        ),
        result matches Ok(updated) ==> {
            let before = old(db).contents();
            let after = final(db).contents();
            let there = before.tasks.contains_key(name@);
            let row = before.tasks[name@];
            &&& updated <==> there && !has_ended(row.status)
            &&& !updated ==> after == before
            &&& updated ==> replaced(before, after, name@, TaskRow {
                status: TaskStatus::Cached,
                completed_at: Some(completed_at),
                ..row
            }, updated)
        },
{
    let call = Call {
        operation: Operation::Task(Write { name: name@, change: Change::Cached(completed_at) }),
        failure: failure_of(result),
    };
    assert(old(db).history().calls.push(call) =~= old(db).history().calls + seq![call]);
    match result {
        Ok(updated) => {
            law_the_first_end_is_recorded(
                old(db).contents(),
                final(db).contents(),
                name@,
                Change::Cached(completed_at),
                updated,
            );
        },
        Err(_) => {},
    }
}

/// A task that has not ended completes, with its exit status, as of that time, and this
/// is reported.
pub proof fn law_update_task_completed<D: Database>(
    db: &mut D,
    name: &str,
    exit_status: Option<i32>,
    completed_at: Timestamp,
    result: Result<bool, DatabaseError>,
)
    requires
        call_ensures(D::update_task_completed, (db, name, exit_status, completed_at), result),
    ensures
        noted(
            *old(db),
            *final(db),
            Operation::Task(Write { name: name@, change: Change::Completed(exit_status, completed_at) }),
            result,
        ),
        result matches Ok(updated) ==> {
            let before = old(db).contents();
            let after = final(db).contents();
            let there = before.tasks.contains_key(name@);
            let row = before.tasks[name@];
            &&& updated <==> there && !has_ended(row.status)
            &&& !updated ==> after == before
            &&& updated ==> replaced(before, after, name@, TaskRow {
                status: TaskStatus::Completed, exit_status,
                completed_at: Some(completed_at),
                ..row
            }, updated)
        },
{
    let call = Call {
        operation: Operation::Task(Write { name: name@, change: Change::Completed(exit_status, completed_at) }),
        failure: failure_of(result),
    };
    assert(old(db).history().calls.push(call) =~= old(db).history().calls + seq![call]);
    match result {
        Ok(updated) => {
            law_the_first_end_is_recorded(
                old(db).contents(),
                final(db).contents(),
                name@,
                Change::Completed(exit_status, completed_at),
                updated,
            );
        },
        Err(_) => {},
    }
}

/// A task that has not ended fails, with its error, as of that time, and this
/// is reported.
pub proof fn law_update_task_failed<D: Database>(
    db: &mut D,
    name: &str,
    error: &str,
    completed_at: Timestamp,
    result: Result<bool, DatabaseError>,
)
    requires
        call_ensures(D::update_task_failed, (db, name, error, completed_at), result),
    ensures
        noted(
            *old(db),
            *final(db),
            Operation::Task(Write { name: name@, change: Change::Failed(error@, completed_at) }),
            result,
        ),
        result matches Ok(updated) ==> {
            let before = old(db).contents();
            let after = final(db).contents();
            let there = before.tasks.contains_key(name@);
            let row = before.tasks[name@];
            &&& updated <==> there && !has_ended(row.status)
            &&& !updated ==> after == before
            &&& updated ==> replaced(before, after, name@, TaskRow {
                status: TaskStatus::Failed, error: Some(error@),
                completed_at: Some(completed_at),
                ..row
            }, updated)
        },
{
    let call = Call {
        operation: Operation::Task(Write { name: name@, change: Change::Failed(error@, completed_at) }),
        failure: failure_of(result),
    };
    assert(old(db).history().calls.push(call) =~= old(db).history().calls + seq![call]);
    match result {
        Ok(updated) => {
            law_the_first_end_is_recorded(
                old(db).contents(),
                final(db).contents(),
                name@,
                Change::Failed(error@, completed_at),
                updated,
            );
        },
        Err(_) => {},
    }
}

/// A task that has not ended is canceled as of that time, and this
/// is reported.
pub proof fn law_update_task_canceled<D: Database>(
    db: &mut D,
    name: &str,
    completed_at: Timestamp,
    result: Result<bool, DatabaseError>,
)
    requires
        call_ensures(D::update_task_canceled, (db, name, completed_at), result),
    ensures
        noted(
            *old(db),
            *final(db),
            Operation::Task(Write { name: name@, change: Change::Canceled(completed_at) }),
            result,
        ),
        result matches Ok(updated) ==> {
            let before = old(db).contents();
            let after = final(db).contents();
            let there = before.tasks.contains_key(name@);
            let row = before.tasks[name@];
            &&& updated <==> there && !has_ended(row.status)
            &&& !updated ==> after == before
            &&& updated ==> replaced(before, after, name@, TaskRow {
                status: TaskStatus::Canceled,
                completed_at: Some(completed_at),
                ..row
            }, updated)
        },
{
    let call = Call {
        operation: Operation::Task(Write { name: name@, change: Change::Canceled(completed_at) }),
        failure: failure_of(result),
    };
    assert(old(db).history().calls.push(call) =~= old(db).history().calls + seq![call]);
    match result {
        Ok(updated) => {
            law_the_first_end_is_recorded(
                old(db).contents(),
                final(db).contents(),
                name@,
                Change::Canceled(completed_at),
                updated,
            );
        },
        Err(_) => {},
    }
}

/// A task that has not ended is preempted as of that time, and this
/// is reported.
pub proof fn law_update_task_preempted<D: Database>(
    db: &mut D,
    name: &str,
    completed_at: Timestamp,
    result: Result<bool, DatabaseError>,
)
    requires
        call_ensures(D::update_task_preempted, (db, name, completed_at), result),
    ensures
        noted(
            *old(db),
            *final(db),
            Operation::Task(Write { name: name@, change: Change::Preempted(completed_at) }),
            result,
        ),
        result matches Ok(updated) ==> {
            let before = old(db).contents();
            let after = final(db).contents();
            let there = before.tasks.contains_key(name@);
            let row = before.tasks[name@];
            &&& updated <==> there && !has_ended(row.status)
            &&& !updated ==> after == before
            &&& updated ==> replaced(before, after, name@, TaskRow {
                status: TaskStatus::Preempted,
                completed_at: Some(completed_at),
                ..row
            }, updated)
        },
{
    let call = Call {
        operation: Operation::Task(Write { name: name@, change: Change::Preempted(completed_at) }),
        failure: failure_of(result),
    };
    assert(old(db).history().calls.push(call) =~= old(db).history().calls + seq![call]);
    match result {
        Ok(updated) => {
            law_the_first_end_is_recorded(
                old(db).contents(),
                final(db).contents(),
                name@,
                Change::Preempted(completed_at),
                updated,
            );
        },
        Err(_) => {},
    }
}

/// Creating a task gives back the task as it is recorded from then on: as it was
/// created or, where it was there, as it was but for a call path that is filled in
/// and a larger attempt number.
pub proof fn law_create_task<D: Database>(
    db: &mut D,
    task: NewTask<'_>,
    result: Result<TaskRecord, DatabaseError>,
)
    requires
        call_ensures(D::create_task, (db, task), result),
    ensures
        old(db).reliable() ==> result is Ok && final(db).reliable(),
        final(db).history().calls.len() == old(db).history().calls.len() + 1,
        result matches Ok(record) ==> {
            let before = old(db).contents();
            let after = final(db).contents();
            let there = before.tasks.contains_key(task.name@);
            let row = before.tasks[task.name@];
            let call_id: Option<Seq<char>> = match task.call_id {
                Some(call_id) => Some(call_id@),
                None => None,
            };
            &&& record.name@ == task.name@
            &&& after.tasks.contains_key(task.name@) && record@ == after.tasks[task.name@]
            &&& !there ==> {
                &&& record@.run_id == task.run_id && record@.status == task.status
                &&& record@.call_id == call_id && record@.attempt == task.attempt
                &&& record@.constraints is None && record@.retry_cause is None
                &&& record@.patches.len() == 0 && record@.error is None
                &&& record@.submitted_at is None && record@.started_at is None
                &&& record@.completed_at is None && record@.exit_status is None
            }
            &&& there ==> record@ == (TaskRow {
                call_id: if row.call_id is None {
                    call_id
                } else {
                    row.call_id
                },
                attempt: if task.attempt > row.attempt {
                    task.attempt
                } else {
                    row.attempt
                },
                ..row
            })
            &&& after.logs == before.logs && after.runs == before.runs
            &&& forall|other: Seq<char>|
                other != task.name@ ==> (#[trigger] after.tasks.contains_key(other)
                    <==> before.tasks.contains_key(other))
            &&& forall|other: Seq<char>|
                before.tasks.contains_key(other) && other != task.name@
                    ==> #[trigger] after.tasks[other] == before.tasks[other]
        },
{
    law_creations_are_recorded(old(db).contents(), task);
}

/// Output that is inserted stands behind all output, under its task and stream.
pub proof fn law_insert_task_log<D: Database>(
    db: &mut D,
    name: &str,
    source: LogSource,
    chunk: &Vec<u8>,
    result: Result<(), DatabaseError>,
)
    requires
        call_ensures(D::insert_task_log, (db, name, source, chunk), result),
    ensures
        noted(
            *old(db),
            *final(db),
            Operation::Task(Write { name: name@, change: Change::Log(source, chunk@) }),
            result,
        ),
        result is Ok ==> {
            let before = old(db).contents();
            let after = final(db).contents();
            &&& after.tasks == before.tasks && after.runs == before.runs
            &&& after.logs.len() == before.logs.len() + 1
            &&& after.logs.drop_last() == before.logs
            &&& after.logs.last().name == name@
            &&& after.logs.last().source == source
            &&& after.logs.last().chunk == chunk@
        },
{
    let call = Call {
        operation: Operation::Task(Write { name: name@, change: Change::Log(source, chunk@) }),
        failure: failure_of(result),
    };
    assert(old(db).history().calls.push(call) =~= old(db).history().calls + seq![call]);
    law_output_is_appended(old(db).contents(), name@, source, chunk@);
    if result is Ok {
        assert(final(db).contents().logs.drop_last() =~= old(db).contents().logs);
    }
}

/// A task is read back as it is recorded, and one that is not there is not found.
pub proof fn law_get_task<D: Database>(
    db: &D,
    name: &str,
    result: Result<TaskRecord, DatabaseError>,
)
    requires
        call_ensures(D::get_task, (db, name), result),
    ensures
        result matches Ok(record) ==> db.contents().tasks.contains_key(name@) && record.name@
            == name@ && record@ == db.contents().tasks[name@],
        db.reliable() && db.contents().tasks.contains_key(name@) ==> result is Ok,
        db.reliable() && !db.contents().tasks.contains_key(name@) ==> result is Err
            && result->Err_0 is NotFound,
{
}

/// A run is read back as it is recorded, and one that is not there is not found.
pub proof fn law_get_run<D: Database>(
    db: &D,
    id: Uuid,
    result: Result<Option<RunRecord>, DatabaseError>,
)
    requires
        call_ensures(D::get_run, (db, id), result),
    ensures
        result matches Ok(found) ==> {
            &&& found is Some <==> db.contents().runs.contains_key(id)
            &&& found matches Some(record) ==> record.id == id && record@
                == db.contents().runs[id]
        },
        db.reliable() ==> result is Ok,
{
}

/// Whether the row of one run was replaced, and nothing else was touched.
pub open spec fn run_replaced(before: Contents, after: Contents, id: Uuid, row: RunRow) -> bool {
    &&& after.runs == before.runs.insert(id, row)
    &&& after.tasks == before.tasks
    &&& after.logs == before.logs
}

/// A change of a run replaces its row.
proof fn lemma_run_replaced(before: Contents, id: Uuid, change: RunChange)
    requires
        before.runs.contains_key(id),
    ensures
        ({
            let after = after_change(before, id, change);
            run_replaced(before, after, id, after.runs[id])
        }),
{
    let after = after_change(before, id, change);
    law_run_updates_are_recorded(before, id, change);
    assert(after.runs =~= before.runs.insert(id, after.runs[id]));
}

/// The status of a run is replaced.
pub proof fn law_update_run_status<D: Database>(
    db: &mut D,
    id: Uuid,
    status: RunStatus,
    result: Result<(), DatabaseError>,
)
    requires
        call_ensures(D::update_run_status, (db, id, status), result),
    ensures
        noted(*old(db), *final(db), Operation::Run(id, RunChange::Status(status)), result),
        result is Ok ==> {
            let before = old(db).contents();
            let after = final(db).contents();
            let row = before.runs[id];
            &&& !before.runs.contains_key(id) ==> after == before
            &&& before.runs.contains_key(id) ==> run_replaced(
                before,
                after,
                id,
                RunRow { status, ..row },
            )
        },
{
    let call = Call { operation: Operation::Run(id, RunChange::Status(status)), failure: failure_of(result) };
    assert(old(db).history().calls.push(call) =~= old(db).history().calls + seq![call]);
    law_run_updates_are_recorded(old(db).contents(), id, RunChange::Status(status));
    if result is Ok && old(db).contents().runs.contains_key(id) {
        lemma_run_replaced(old(db).contents(), id, RunChange::Status(status));
    }
}

/// The start of a run is replaced.
pub proof fn law_update_run_started_at<D: Database>(
    db: &mut D,
    id: Uuid,
    at: Option<Timestamp>,
    result: Result<(), DatabaseError>,
)
    requires
        call_ensures(D::update_run_started_at, (db, id, at), result),
    ensures
        noted(*old(db), *final(db), Operation::Run(id, RunChange::StartedAt(at)), result),
        result is Ok ==> {
            let before = old(db).contents();
            let after = final(db).contents();
            let row = before.runs[id];
            &&& !before.runs.contains_key(id) ==> after == before
            &&& before.runs.contains_key(id) ==> run_replaced(
                before,
                after,
                id,
                RunRow { started_at: at, ..row },
            )
        },
{
    let call = Call { operation: Operation::Run(id, RunChange::StartedAt(at)), failure: failure_of(result) };
    assert(old(db).history().calls.push(call) =~= old(db).history().calls + seq![call]);
    law_run_updates_are_recorded(old(db).contents(), id, RunChange::StartedAt(at));
    if result is Ok && old(db).contents().runs.contains_key(id) {
        lemma_run_replaced(old(db).contents(), id, RunChange::StartedAt(at));
    }
}

/// The completion of a run is replaced.
pub proof fn law_update_run_completed_at<D: Database>(
    db: &mut D,
    id: Uuid,
    at: Option<Timestamp>,
    result: Result<(), DatabaseError>,
)
    requires
        call_ensures(D::update_run_completed_at, (db, id, at), result),
    ensures
        noted(*old(db), *final(db), Operation::Run(id, RunChange::CompletedAt(at)), result),
        result is Ok ==> {
            let before = old(db).contents();
            let after = final(db).contents();
            let row = before.runs[id];
            &&& !before.runs.contains_key(id) ==> after == before
            &&& before.runs.contains_key(id) ==> run_replaced(
                before,
                after,
                id,
                RunRow { completed_at: at, ..row },
            )
        },
{
    let call = Call { operation: Operation::Run(id, RunChange::CompletedAt(at)), failure: failure_of(result) };
    assert(old(db).history().calls.push(call) =~= old(db).history().calls + seq![call]);
    law_run_updates_are_recorded(old(db).contents(), id, RunChange::CompletedAt(at));
    if result is Ok && old(db).contents().runs.contains_key(id) {
        lemma_run_replaced(old(db).contents(), id, RunChange::CompletedAt(at));
    }
}

/// The outputs of a run are replaced.
pub proof fn law_update_run_outputs<D: Database>(
    db: &mut D,
    id: Uuid,
    text: &str,
    result: Result<(), DatabaseError>,
)
    requires
        call_ensures(D::update_run_outputs, (db, id, text), result),
    ensures
        noted(*old(db), *final(db), Operation::Run(id, RunChange::Outputs(text@)), result),
        result is Ok ==> {
            let before = old(db).contents();
            let after = final(db).contents();
            let row = before.runs[id];
            &&& !before.runs.contains_key(id) ==> after == before
            &&& before.runs.contains_key(id) ==> run_replaced(
                before,
                after,
                id,
                RunRow { outputs: Some(text@), ..row },
            )
        },
{
    let call = Call { operation: Operation::Run(id, RunChange::Outputs(text@)), failure: failure_of(result) };
    assert(old(db).history().calls.push(call) =~= old(db).history().calls + seq![call]);
    law_run_updates_are_recorded(old(db).contents(), id, RunChange::Outputs(text@));
    if result is Ok && old(db).contents().runs.contains_key(id) {
        lemma_run_replaced(old(db).contents(), id, RunChange::Outputs(text@));
    }
}

/// The error of a run is replaced.
pub proof fn law_update_run_error<D: Database>(
    db: &mut D,
    id: Uuid,
    text: &str,
    result: Result<(), DatabaseError>,
)
    requires
        call_ensures(D::update_run_error, (db, id, text), result),
    ensures
        noted(*old(db), *final(db), Operation::Run(id, RunChange::Error(text@)), result),
        result is Ok ==> {
            let before = old(db).contents();
            let after = final(db).contents();
            let row = before.runs[id];
            &&& !before.runs.contains_key(id) ==> after == before
            &&& before.runs.contains_key(id) ==> run_replaced(
                before,
                after,
                id,
                RunRow { error: Some(text@), ..row },
            )
        },
{
    let call = Call { operation: Operation::Run(id, RunChange::Error(text@)), failure: failure_of(result) };
    assert(old(db).history().calls.push(call) =~= old(db).history().calls + seq![call]);
    law_run_updates_are_recorded(old(db).contents(), id, RunChange::Error(text@));
    if result is Ok && old(db).contents().runs.contains_key(id) {
        lemma_run_replaced(old(db).contents(), id, RunChange::Error(text@));
    }
}

/// The target of a run is replaced, and it is reported whether the run is there.
pub proof fn law_update_run_target<D: Database>(
    db: &mut D,
    id: Uuid,
    text: &str,
    result: Result<bool, DatabaseError>,
)
    requires
        call_ensures(D::update_run_target, (db, id, text), result),
    ensures
        noted(*old(db), *final(db), Operation::Run(id, RunChange::Target(text@)), result),
        result matches Ok(updated) ==> {
            let before = old(db).contents();
            let after = final(db).contents();
            let row = before.runs[id];
            &&& updated <==> before.runs.contains_key(id)
            &&& !before.runs.contains_key(id) ==> after == before
            &&& before.runs.contains_key(id) ==> run_replaced(
                before,
                after,
                id,
                RunRow { target: Some(text@), ..row },
            )
        },
{
    let call = Call { operation: Operation::Run(id, RunChange::Target(text@)), failure: failure_of(result) };
    assert(old(db).history().calls.push(call) =~= old(db).history().calls + seq![call]);
    law_run_updates_are_recorded(old(db).contents(), id, RunChange::Target(text@));
    match result {
        Ok(updated) => {
            law_run_updates_are_reported(
                old(db).contents(),
                final(db).contents(),
                id,
                RunChange::Target(text@),
                updated,
            );
        },
        Err(_) => {},
    }
    if result is Ok && old(db).contents().runs.contains_key(id) {
        lemma_run_replaced(old(db).contents(), id, RunChange::Target(text@));
    }
}

/// The directory of a run is replaced, and it is reported whether the run is there.
pub proof fn law_update_run_directory<D: Database>(
    db: &mut D,
    id: Uuid,
    text: &str,
    result: Result<bool, DatabaseError>,
)
    requires
        call_ensures(D::update_run_directory, (db, id, text), result),
    ensures
        noted(*old(db), *final(db), Operation::Run(id, RunChange::Directory(text@)), result),
        result matches Ok(updated) ==> {
            let before = old(db).contents();
            let after = final(db).contents();
            let row = before.runs[id];
            &&& updated <==> before.runs.contains_key(id)
            &&& !before.runs.contains_key(id) ==> after == before
            &&& before.runs.contains_key(id) ==> run_replaced(
                before,
                after,
                id,
                RunRow { directory: Some(text@), ..row },
            )
        },
{
    let call = Call { operation: Operation::Run(id, RunChange::Directory(text@)), failure: failure_of(result) };
    assert(old(db).history().calls.push(call) =~= old(db).history().calls + seq![call]);
    law_run_updates_are_recorded(old(db).contents(), id, RunChange::Directory(text@));
    match result {
        Ok(updated) => {
            law_run_updates_are_reported(
                old(db).contents(),
                final(db).contents(),
                id,
                RunChange::Directory(text@),
                updated,
            );
        },
        Err(_) => {},
    }
    if result is Ok && old(db).contents().runs.contains_key(id) {
        lemma_run_replaced(old(db).contents(), id, RunChange::Directory(text@));
    }
}

/// The index directory of a run is replaced, and it is reported whether the run is there.
pub proof fn law_update_run_index_directory<D: Database>(
    db: &mut D,
    id: Uuid,
    text: &str,
    result: Result<bool, DatabaseError>,
)
    requires
        call_ensures(D::update_run_index_directory, (db, id, text), result),
    ensures
        noted(*old(db), *final(db), Operation::Run(id, RunChange::IndexDirectory(text@)), result),
        result matches Ok(updated) ==> {
            let before = old(db).contents();
            let after = final(db).contents();
            let row = before.runs[id];
            &&& updated <==> before.runs.contains_key(id)
            &&& !before.runs.contains_key(id) ==> after == before
            &&& before.runs.contains_key(id) ==> run_replaced(
                before,
                after,
                id,
                RunRow { index_directory: Some(text@), ..row },
            )
        },
{
    let call = Call { operation: Operation::Run(id, RunChange::IndexDirectory(text@)), failure: failure_of(result) };
    assert(old(db).history().calls.push(call) =~= old(db).history().calls + seq![call]);
    law_run_updates_are_recorded(old(db).contents(), id, RunChange::IndexDirectory(text@));
    match result {
        Ok(updated) => {
            law_run_updates_are_reported(
                old(db).contents(),
                final(db).contents(),
                id,
                RunChange::IndexDirectory(text@),
                updated,
            );
        },
        Err(_) => {},
    }
    if result is Ok && old(db).contents().runs.contains_key(id) {
        lemma_run_replaced(old(db).contents(), id, RunChange::IndexDirectory(text@));
    }
}

/// The backend of a run is replaced, and it is reported whether the run is there.
pub proof fn law_update_run_backend<D: Database>(
    db: &mut D,
    id: Uuid,
    text: &str,
    result: Result<bool, DatabaseError>,
)
    requires
        call_ensures(D::update_run_backend, (db, id, text), result),
    ensures
        noted(*old(db), *final(db), Operation::Run(id, RunChange::Backend(text@)), result),
        result matches Ok(updated) ==> {
            let before = old(db).contents();
            let after = final(db).contents();
            let row = before.runs[id];
            &&& updated <==> before.runs.contains_key(id)
            &&& !before.runs.contains_key(id) ==> after == before
            &&& before.runs.contains_key(id) ==> run_replaced(
                before,
                after,
                id,
                RunRow { backend: Some(text@), ..row },
            )
        },
{
    let call = Call { operation: Operation::Run(id, RunChange::Backend(text@)), failure: failure_of(result) };
    assert(old(db).history().calls.push(call) =~= old(db).history().calls + seq![call]);
    law_run_updates_are_recorded(old(db).contents(), id, RunChange::Backend(text@));
    match result {
        Ok(updated) => {
            law_run_updates_are_reported(
                old(db).contents(),
                final(db).contents(),
                id,
                RunChange::Backend(text@),
                updated,
            );
        },
        Err(_) => {},
    }
    if result is Ok && old(db).contents().runs.contains_key(id) {
        lemma_run_replaced(old(db).contents(), id, RunChange::Backend(text@));
    }
}

/// The transfer totals of a run are replaced, and it is reported whether the run is there.
pub proof fn law_update_run_transfer_totals<D: Database>(
    db: &mut D,
    id: Uuid,
    text: &str,
    result: Result<bool, DatabaseError>,
)
    requires
        call_ensures(D::update_run_transfer_totals, (db, id, text), result),
    ensures
        noted(*old(db), *final(db), Operation::Run(id, RunChange::TransferTotals(text@)), result),
        result matches Ok(updated) ==> {
            let before = old(db).contents();
            let after = final(db).contents();
            let row = before.runs[id];
            &&& updated <==> before.runs.contains_key(id)
            &&& !before.runs.contains_key(id) ==> after == before
            &&& before.runs.contains_key(id) ==> run_replaced(
                before,
                after,
                id,
                RunRow { transfer_totals: Some(text@), ..row },
            )
        },
{
    let call = Call { operation: Operation::Run(id, RunChange::TransferTotals(text@)), failure: failure_of(result) };
    assert(old(db).history().calls.push(call) =~= old(db).history().calls + seq![call]);
    law_run_updates_are_recorded(old(db).contents(), id, RunChange::TransferTotals(text@));
    match result {
        Ok(updated) => {
            law_run_updates_are_reported(
                old(db).contents(),
                final(db).contents(),
                id,
                RunChange::TransferTotals(text@),
                updated,
            );
        },
        Err(_) => {},
    }
    if result is Ok && old(db).contents().runs.contains_key(id) {
        lemma_run_replaced(old(db).contents(), id, RunChange::TransferTotals(text@));
    }
}

/// A run that is there and has not ended is asked to cancel, and this is reported;
/// one that has ended keeps its outcome.
pub proof fn law_mark_run_canceling<D: Database>(
    db: &mut D,
    id: Uuid,
    result: Result<bool, DatabaseError>,
)
    requires
        call_ensures(D::mark_run_canceling, (db, id), result),
    ensures
        noted(*old(db), *final(db), Operation::Run(id, RunChange::Canceling), result),
        result matches Ok(updated) ==> {
            let before = old(db).contents();
            let after = final(db).contents();
            let row = before.runs[id];
            &&& updated <==> before.runs.contains_key(id) && !run_has_ended(row.status)
            &&& !updated ==> after == before
            &&& updated ==> run_replaced(
                before,
                after,
                id,
                RunRow { status: RunStatus::Canceling, ..row },
            )
        },
{
    let call = Call {
        operation: Operation::Run(id, RunChange::Canceling),
        failure: failure_of(result),
    };
    assert(old(db).history().calls.push(call) =~= old(db).history().calls + seq![call]);
    law_run_updates_are_recorded(old(db).contents(), id, RunChange::Canceling);
    match result {
        Ok(updated) => {
            law_run_updates_are_reported(
                old(db).contents(),
                final(db).contents(),
                id,
                RunChange::Canceling,
                updated,
            );
            if updated {
                lemma_run_replaced(old(db).contents(), id, RunChange::Canceling);
            }
        },
        Err(_) => {},
    }
}

/// Whether a run has gone through a transition: its row is replaced if it is
/// there, nothing else is touched, and the operations that make up the transition
/// were carried out in order, all of them or up to the one that failed.
pub open spec fn went_through<D: Database>(
    before: D,
    after: D,
    id: Uuid,
    row: RunRow,
    operations: Seq<Operation>,
    result: Result<(), DatabaseError>,
) -> bool {
    let start = before.history().calls;
    let end = after.history().calls;
    &&& before.reliable() ==> result is Ok && after.reliable()
    &&& result is Ok ==> {
        &&& before.contents().runs.contains_key(id) ==> run_replaced(
            before.contents(),
            after.contents(),
            id,
            row,
        )
        &&& !before.contents().runs.contains_key(id) ==> after.contents() == before.contents()
        &&& end.len() == start.len() + operations.len()
    }
    &&& start.len() <= end.len() <= start.len() + operations.len()
    &&& end.take(start.len() as int) == start
    &&& forall|i: int|
        start.len() <= i < end.len() ==> (#[trigger] end[i]).operation == operations[i
            - start.len()]
    &&& forall|i: int|
        start.len() <= i < end.len() - 1 ==> (#[trigger] end[i]).failure is None
    &&& result is Ok && end.len() > start.len() ==> end.last().failure is None
    &&& result matches Err(error) ==> end.len() > start.len() && end.last().failure == Some(error)
}

/// A run that starts is running as of its start.
pub proof fn law_start_run<D: Database>(
    db: &mut D,
    id: Uuid,
    at: Timestamp,
    result: Result<(), DatabaseError>,
)
    requires
        call_ensures(D::start_run, (db, id, at), result),
    ensures
        went_through(
            *old(db),
            *final(db),
            id,
            RunRow { status: RunStatus::Running, started_at: Some(at), ..old(db).contents().runs[id] },
            seq![
                Operation::Run(id, RunChange::Status(RunStatus::Running)),
                Operation::Run(id, RunChange::StartedAt(Some(at))),
            ],
            result,
        ),
{
    law_operations_are_carried_out(
        old(db).history().calls,
        final(db).history().calls,
        seq![
            Operation::Run(id, RunChange::Status(RunStatus::Running)),
                Operation::Run(id, RunChange::StartedAt(Some(at))),
        ],
        result,
    );
    law_one_run_is_replaced(
        old(db).contents(),
        id,
        RunRow { status: RunStatus::Running, started_at: Some(at), ..old(db).contents().runs[id] },
    );
}

/// A run that completes is completed as of that time.
pub proof fn law_complete_run<D: Database>(
    db: &mut D,
    id: Uuid,
    at: Timestamp,
    result: Result<(), DatabaseError>,
)
    requires
        call_ensures(D::complete_run, (db, id, at), result),
    ensures
        went_through(
            *old(db),
            *final(db),
            id,
            RunRow { status: RunStatus::Completed, completed_at: Some(at), ..old(db).contents().runs[id] },
            seq![
                Operation::Run(id, RunChange::Status(RunStatus::Completed)),
                Operation::Run(id, RunChange::CompletedAt(Some(at))),
            ],
            result,
        ),
{
    law_operations_are_carried_out(
        old(db).history().calls,
        final(db).history().calls,
        seq![
            Operation::Run(id, RunChange::Status(RunStatus::Completed)),
                Operation::Run(id, RunChange::CompletedAt(Some(at))),
        ],
        result,
    );
    law_one_run_is_replaced(
        old(db).contents(),
        id,
        RunRow { status: RunStatus::Completed, completed_at: Some(at), ..old(db).contents().runs[id] },
    );
}

/// A run that fails is failed as of that time, with its error.
pub proof fn law_fail_run<D: Database>(
    db: &mut D,
    id: Uuid,
    error: &str,
    at: Timestamp,
    result: Result<(), DatabaseError>,
)
    requires
        call_ensures(D::fail_run, (db, id, error, at), result),
    ensures
        went_through(
            *old(db),
            *final(db),
            id,
            RunRow {
                status: RunStatus::Failed,
                error: Some(error@),
                completed_at: Some(at),
                ..old(db).contents().runs[id]
            },
            seq![
                Operation::Run(id, RunChange::Status(RunStatus::Failed)),
                Operation::Run(id, RunChange::Error(error@)),
                Operation::Run(id, RunChange::CompletedAt(Some(at))),
            ],
            result,
        ),
{
    law_operations_are_carried_out(
        old(db).history().calls,
        final(db).history().calls,
        seq![
            Operation::Run(id, RunChange::Status(RunStatus::Failed)),
                Operation::Run(id, RunChange::Error(error@)),
                Operation::Run(id, RunChange::CompletedAt(Some(at))),
        ],
        result,
    );
    law_one_run_is_replaced(
        old(db).contents(),
        id,
        RunRow {
                status: RunStatus::Failed,
                error: Some(error@),
                completed_at: Some(at),
                ..old(db).contents().runs[id]
            },
    );
}

/// A run that is canceled is canceled as of that time.
pub proof fn law_cancel_run<D: Database>(
    db: &mut D,
    id: Uuid,
    at: Timestamp,
    result: Result<(), DatabaseError>,
)
    requires
        call_ensures(D::cancel_run, (db, id, at), result),
    ensures
        went_through(
            *old(db),
            *final(db),
            id,
            RunRow { status: RunStatus::Canceled, completed_at: Some(at), ..old(db).contents().runs[id] },
            seq![
                Operation::Run(id, RunChange::Status(RunStatus::Canceled)),
                Operation::Run(id, RunChange::CompletedAt(Some(at))),
            ],
            result,
        ),
{
    law_operations_are_carried_out(
        old(db).history().calls,
        final(db).history().calls,
        seq![
            Operation::Run(id, RunChange::Status(RunStatus::Canceled)),
                Operation::Run(id, RunChange::CompletedAt(Some(at))),
        ],
        result,
    );
    law_one_run_is_replaced(
        old(db).contents(),
        id,
        RunRow { status: RunStatus::Canceled, completed_at: Some(at), ..old(db).contents().runs[id] },
    );
}

/// A run that completes with outputs is completed as of that time, with these.
pub proof fn law_complete_run_with_outputs<D: Database>(
    db: &mut D,
    id: Uuid,
    at: Timestamp,
    outputs: &str,
    result: Result<(), DatabaseError>,
)
    requires
        call_ensures(D::complete_run_with_outputs, (db, id, at, outputs), result),
    ensures
        went_through(
            *old(db),
            *final(db),
            id,
            RunRow {
                status: RunStatus::Completed,
                outputs: Some(outputs@),
                completed_at: Some(at),
                ..old(db).contents().runs[id]
            },
            seq![
                Operation::Run(id, RunChange::Outputs(outputs@)),
                Operation::Run(id, RunChange::Status(RunStatus::Completed)),
                Operation::Run(id, RunChange::CompletedAt(Some(at))),
            ],
            result,
        ),
{
    law_operations_are_carried_out(
        old(db).history().calls,
        final(db).history().calls,
        seq![
            Operation::Run(id, RunChange::Outputs(outputs@)),
                Operation::Run(id, RunChange::Status(RunStatus::Completed)),
                Operation::Run(id, RunChange::CompletedAt(Some(at))),
        ],
        result,
    );
    law_one_run_is_replaced(
        old(db).contents(),
        id,
        RunRow {
                status: RunStatus::Completed,
                outputs: Some(outputs@),
                completed_at: Some(at),
                ..old(db).contents().runs[id]
            },
    );
}

/// A batch that is applied leaves what its writes leave one after another, each of
/// them an operation of its own; one that fails has been carried out up to the
/// write that failed.
pub proof fn law_apply_task_writes<D: Database>(
    db: &mut D,
    writes: Vec<TaskWrite>,
    result: Result<(), DatabaseError>,
)
    requires
        call_ensures(D::apply_task_writes, (db, writes), result),
    ensures
        old(db).reliable() || writes@.len() == 0 ==> result is Ok,
        old(db).reliable() ==> final(db).reliable(),
        result is Ok ==> final(db).contents() == after_writes(
            old(db).contents(),
            writes@.map_values(|write: TaskWrite| write@),
        ),
        ({
            let start = old(db).history().calls;
            let end = final(db).history().calls;
            &&& start.len() <= end.len() <= start.len() + writes@.len()
            &&& end.take(start.len() as int) == start
            &&& forall|i: int|
                start.len() <= i < end.len() ==> (#[trigger] end[i]).operation == Operation::Task(
                    writes@[i - start.len()]@,
                )
            &&& forall|i: int|
                start.len() <= i < end.len() - 1 ==> (#[trigger] end[i]).failure is None
            &&& result is Ok ==> end.len() == start.len() + writes@.len()
            &&& result is Ok && end.len() > start.len() ==> end.last().failure is None
            &&& result matches Err(error) ==> end.len() > start.len() && end.last().failure == Some(
                error,
            )
        }),
{
    let views = write_views(writes@);
    assert(views =~= writes@.map_values(|write: TaskWrite| write@));
    law_operations_are_carried_out(
        old(db).history().calls,
        final(db).history().calls,
        task_operations(views),
        result,
    );
}

/// A new database in memory is empty and cannot fail; a run is added to it unless
/// it is there, and output is read back piece by piece.
pub proof fn law_memory_databases(
    new: MemoryDatabase,
    db: &mut MemoryDatabase,
    record: RunRecord,
    added: bool,
)
    requires
        call_ensures(MemoryDatabase::new, (), new),
        call_ensures(MemoryDatabase::add_run, (db, record), added),
    ensures
        new.reliable(),
        new.contents().tasks =~= Map::<Seq<char>, TaskRow>::empty(),
        new.contents().runs =~= Map::<Uuid, RunRow>::empty(),
        new.contents().logs.len() == 0,
        new.history().calls.len() == 0,
        added <==> !old(db).contents().runs.contains_key(record.id),
        !added ==> final(db).contents() == old(db).contents(),
        added ==> run_replaced(old(db).contents(), final(db).contents(), record.id, record@),
        final(db).history().calls == old(db).history().calls,
{
}

/// Output that is kept in memory is counted and read back, oldest first.
pub proof fn law_memory_logs(
    db: &MemoryDatabase,
    at: usize,
    count: usize,
    found: Option<&LogRecord>,
)
    requires
        call_ensures(MemoryDatabase::log_count, (db,), count),
        call_ensures(MemoryDatabase::log, (db, at), found),
    ensures
        count == db.contents().logs.len(),
        found is Some <==> at < count,
        found matches Some(record) ==> {
            &&& record.name@ == db.contents().logs[at as int].name
            &&& record.source == db.contents().logs[at as int].source
            &&& record.chunk@ == db.contents().logs[at as int].chunk
        },
{
}

/// A task that is observed through a backend's event is created without a call
/// path or an attempt number.
pub proof fn law_from_backend_event<'a>(
    name: &'a str,
    run_id: Uuid,
    status: TaskStatus,
    task: NewTask<'a>,
)
    requires
        call_ensures(NewTask::from_backend_event, (name, run_id, status), task),
    ensures
        task.name@ == name@ && task.run_id == run_id && task.status == status,
        task.call_id is None && task.attempt == 0,
{
}

} // verus!
