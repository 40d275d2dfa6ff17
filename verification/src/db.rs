//! The record of runs and tasks: its operations, errors and retries.

use vstd::prelude::*;
use vstd::string::*;

use crate::status::{is_terminal, LogSource, RunStatus, TaskStatus};
use crate::text::{opt_view, views};
use crate::time::Timestamp;
use crate::uuid::Uuid;

verus! {

/// Parameters for creating a task record.
///
/// See [`Database::create_task`].
#[derive(Clone, Copy, Debug)]
pub struct NewTask<'a> {
    /// The unique name of the task's execution attempt.
    pub name: &'a str,
    /// The identifier of the run managing the task.
    pub run_id: Uuid,
    /// The starting status of the task.
    pub status: TaskStatus,
    /// The stable call path shared by every attempt of the same call.
    ///
    /// `None` when the creation is driven by a backend event, which does not
    /// carry the call id.
    pub call_id: Option<&'a str>,
    /// The 0-based execution attempt number within the call.
    pub attempt: i64,
}

impl<'a> NewTask<'a> {
    /// Creates task parameters for a task observed through a backend event,
    /// which carries neither a call id nor an attempt number.
    pub fn from_backend_event(name: &'a str, run_id: Uuid, status: TaskStatus) -> (r: Self)
        ensures
            r.name@ == name@,
            r.run_id == run_id,
            r.status == status,
            r.call_id is None,
            r.attempt == 0,
    {
        NewTask { name, run_id, status, call_id: None, attempt: 0 }
    }
}

/// A single buffered database write associated with a task.
///
/// The task monitor constructs these as it observes engine and backend events
/// and periodically flushes a batch of them via
/// [`Database::apply_task_writes`], rather than issuing one write per event.
#[derive(Debug)]
pub enum TaskWrite {
    /// Create a new task row (or fold into an existing one; see
    /// [`Database::create_task`]).
    Create {
        /// The unique name of the task's execution attempt.
        name: String,
        /// The identifier of the run managing the task.
        run_id: Uuid,
        /// The starting status of the task.
        status: TaskStatus,
        /// The stable call path shared by every attempt of the same call, if
        /// known.
        call_id: Option<String>,
        /// The 0-based execution attempt number within the call.
        attempt: i64,
    },
    /// Advance a task to localizing (see
    /// [`Database::update_task_localizing`]).
    Localizing {
        /// The task's name.
        name: String,
    },
    /// Record resolved execution constraints (see
    /// [`Database::update_task_constraints`]).
    Constraints {
        /// The task's name.
        name: String,
        /// The serialized constraints.
        constraints: String,
    },
    /// Record why a task's execution attempt was retried (see
    /// [`Database::update_task_retry_cause`]).
    RetryCause {
        /// The task's name.
        name: String,
        /// The serialized retry cause.
        cause: String,
    },
    /// Merge newly observed resource-utilization fields (see
    /// [`Database::update_task_utilization`]).
    Utilization {
        /// The task's name.
        name: String,
        /// The JSON Merge Patch fragment to apply.
        patch: String,
    },
    /// Advance a task to pending (see [`Database::update_task_pending`]).
    Pending {
        /// The task's name.
        name: String,
        /// When the task was submitted to a backend.
        submitted_at: Timestamp,
    },
    /// Advance a task to cached (see [`Database::update_task_cached`]).
    Cached {
        /// The task's name.
        name: String,
        /// When the cached result was observed.
        completed_at: Timestamp,
    },
    /// Advance a task to running (see [`Database::update_task_started`]).
    Started {
        /// The task's name.
        name: String,
        /// When the task started running.
        started_at: Timestamp,
    },
    /// Advance a task to completed (see [`Database::update_task_completed`]).
    Completed {
        /// The task's name.
        name: String,
        /// The task's exit status, if any.
        exit_status: Option<i32>,
        /// When the task completed.
        completed_at: Timestamp,
    },
    /// Advance a task to failed (see [`Database::update_task_failed`]).
    Failed {
        /// The task's name.
        name: String,
        /// The error message.
        error: String,
        /// When the task failed.
        completed_at: Timestamp,
    },
    /// Advance a task to canceled (see [`Database::update_task_canceled`]).
    Canceled {
        /// The task's name.
        name: String,
        /// When the task was canceled.
        completed_at: Timestamp,
    },
    /// Advance a task to preempted (see
    /// [`Database::update_task_preempted`]).
    Preempted {
        /// The task's name.
        name: String,
        /// When the task was preempted.
        completed_at: Timestamp,
    },
    /// Append a chunk of task log output (see
    /// [`Database::insert_task_log`]).
    Log {
        /// The task's name.
        name: String,
        /// The log's source stream.
        source: LogSource,
        /// The logged bytes.
        chunk: Vec<u8>,
    },
}

/// What a write changes about the task that it names.
pub enum Change {
    /// The task is created, or folded into an existing row.
    Create {
        /// The run managing the task.
        run_id: Uuid,
        /// The starting status.
        status: TaskStatus,
        /// The call path, if known.
        call_id: Option<Seq<char>>,
        /// The attempt number.
        attempt: i64,
    },
    /// The task advances to localizing.
    Localizing,
    /// The execution constraints are recorded.
    Constraints(Seq<char>),
    /// The retry cause is recorded.
    RetryCause(Seq<char>),
    /// Resource utilization is merged in.
    Utilization(Seq<char>),
    /// The task advances to pending.
    Pending(Timestamp),
    /// The task advances to cached.
    Cached(Timestamp),
    /// The task advances to running.
    Started(Timestamp),
    /// The task advances to completed.
    Completed(Option<i32>, Timestamp),
    /// The task advances to failed.
    Failed(Seq<char>, Timestamp),
    /// The task advances to canceled.
    Canceled(Timestamp),
    /// The task advances to preempted.
    Preempted(Timestamp),
    /// Output is appended to the task's log.
    Log(LogSource, Seq<u8>),
}

/// A write: the task that it names, and what it changes.
pub struct Write {
    /// The task's name.
    pub name: Seq<char>,
    /// What changes.
    pub change: Change,
}

impl View for TaskWrite {
    type V = Write;

    open spec fn view(&self) -> Write {
        match *self {
            TaskWrite::Create { name, run_id, status, call_id, attempt } => Write {
                name: name@,
                change: Change::Create { run_id, status, call_id: opt_view(call_id), attempt },
            },
            TaskWrite::Localizing { name } => Write { name: name@, change: Change::Localizing },
            TaskWrite::Constraints { name, constraints } => Write {
                name: name@,
                change: Change::Constraints(constraints@),
            },
            TaskWrite::RetryCause { name, cause } => Write {
                name: name@,
                change: Change::RetryCause(cause@),
            },
            TaskWrite::Utilization { name, patch } => Write {
                name: name@,
                change: Change::Utilization(patch@),
            },
            TaskWrite::Pending { name, submitted_at } => Write {
                name: name@,
                change: Change::Pending(submitted_at),
            },
            TaskWrite::Cached { name, completed_at } => Write {
                name: name@,
                change: Change::Cached(completed_at),
            },
            TaskWrite::Started { name, started_at } => Write {
                name: name@,
                change: Change::Started(started_at),
            },
            TaskWrite::Completed { name, exit_status, completed_at } => Write {
                name: name@,
                change: Change::Completed(exit_status, completed_at),
            },
            TaskWrite::Failed { name, error, completed_at } => Write {
                name: name@,
                change: Change::Failed(error@, completed_at),
            },
            TaskWrite::Canceled { name, completed_at } => Write {
                name: name@,
                change: Change::Canceled(completed_at),
            },
            TaskWrite::Preempted { name, completed_at } => Write {
                name: name@,
                change: Change::Preempted(completed_at),
            },
            TaskWrite::Log { name, source, chunk } => Write {
                name: name@,
                change: Change::Log(source, chunk@),
            },
        }
    }
}

/// The writes of a batch.
pub open spec fn write_views(writes: Seq<TaskWrite>) -> Seq<Write> {
    Seq::new(writes.len(), |i: int| writes[i]@)
}

/// What is recorded of a task.
#[verifier::ext_equal]
pub struct TaskRow {
    /// The run managing the task.
    pub run_id: Uuid,
    /// The status.
    pub status: TaskStatus,
    /// The stable call path shared by every attempt of the same call.
    pub call_id: Option<Seq<char>>,
    /// The 0-based attempt number within the call.
    pub attempt: i64,
    /// The execution constraints.
    pub constraints: Option<Seq<char>>,
    /// Why the attempt was retried.
    pub retry_cause: Option<Seq<char>>,
    /// The merge patches that make up the resource utilization, oldest first.
    pub patches: Seq<Seq<char>>,
    /// When the task was submitted to a backend.
    pub submitted_at: Option<Timestamp>,
    /// When the task started running.
    pub started_at: Option<Timestamp>,
    /// When the task reached a terminal status.
    pub completed_at: Option<Timestamp>,
    /// The exit status.
    pub exit_status: Option<i32>,
    /// The error message.
    pub error: Option<Seq<char>>,
}

/// What is recorded of a run.
#[verifier::ext_equal]
pub struct RunRow {
    /// The status.
    pub status: RunStatus,
    /// When the run started.
    pub started_at: Option<Timestamp>,
    /// When the run completed.
    pub completed_at: Option<Timestamp>,
    /// The outputs.
    pub outputs: Option<Seq<char>>,
    /// The error message.
    pub error: Option<Seq<char>>,
    /// The resolved target.
    pub target: Option<Seq<char>>,
    /// The run directory.
    pub directory: Option<Seq<char>>,
    /// The index directory.
    pub index_directory: Option<Seq<char>>,
    /// The name of the execution backend.
    pub backend: Option<Seq<char>>,
    /// The transferred bytes.
    pub transfer_totals: Option<Seq<char>>,
}

/// A piece of a task's output.
#[verifier::ext_equal]
pub struct LogRow {
    /// The task's name.
    pub name: Seq<char>,
    /// The stream.
    pub source: LogSource,
    /// The logged bytes.
    pub chunk: Seq<u8>,
}

/// The contents of a database.
#[verifier::ext_equal]
pub struct Contents {
    /// The tasks by name.
    pub tasks: Map<Seq<char>, TaskRow>,
    /// The output of the tasks, oldest first.
    pub logs: Seq<LogRow>,
    /// The runs by identifier.
    pub runs: Map<Uuid, RunRow>,
}

/// The first of two optional values that is there.
pub open spec fn first_of<T>(a: Option<T>, b: Option<T>) -> Option<T> {
    if a is Some {
        a
    } else {
        b
    }
}

/// The larger of two attempt numbers.
pub open spec fn larger(a: i64, b: i64) -> i64 {
    if a < b {
        b
    } else {
        a
    }
}

/// The row of a task that was just created.
pub open spec fn new_row(
    run_id: Uuid,
    status: TaskStatus,
    call_id: Option<Seq<char>>,
    attempt: i64,
) -> TaskRow {
    TaskRow {
        run_id,
        status,
        call_id,
        attempt,
        constraints: None,
        retry_cause: None,
        patches: Seq::empty(),
        submitted_at: None,
        started_at: None,
        completed_at: None,
        exit_status: None,
        error: None,
    }
}

/// The row as a change leaves it, or `None` when the change does not apply.
pub open spec fn changed_row(row: TaskRow, change: Change) -> Option<TaskRow> {
    match change {
        Change::Create { run_id, status, call_id, attempt } => Some(
            TaskRow {
                call_id: first_of(row.call_id, call_id),
                attempt: larger(row.attempt, attempt),
                ..row
            },
        ),
        Change::Localizing => if row.status == TaskStatus::Initializing {
            Some(TaskRow { status: TaskStatus::Localizing, ..row })
        } else {
            None
        },
        Change::Constraints(constraints) => if is_terminal(row.status) {
            None
        } else {
            Some(TaskRow { constraints: Some(constraints), ..row })
        },
        Change::RetryCause(cause) => Some(TaskRow { retry_cause: Some(cause), ..row }),
        Change::Utilization(patch) => Some(TaskRow { patches: row.patches.push(patch), ..row }),
        Change::Pending(at) => if row.status == TaskStatus::Initializing || row.status
            == TaskStatus::Localizing {
            Some(
                TaskRow {
                    status: TaskStatus::Pending,
                    submitted_at: first_of(row.submitted_at, Some(at)),
                    ..row
                },
            )
        } else if row.status == TaskStatus::Pending && row.submitted_at is None {
            Some(TaskRow { submitted_at: Some(at), ..row })
        } else {
            None
        },
        Change::Started(at) => if is_terminal(row.status) || row.status == TaskStatus::Running {
            None
        } else {
            Some(TaskRow { status: TaskStatus::Running, started_at: Some(at), ..row })
        },
        Change::Cached(at) => if is_terminal(row.status) {
            None
        } else {
            Some(TaskRow { status: TaskStatus::Cached, completed_at: Some(at), ..row })
        },
        Change::Completed(exit_status, at) => if is_terminal(row.status) {
            None
        } else {
            Some(
                TaskRow {
                    status: TaskStatus::Completed,
                    exit_status,
                    completed_at: Some(at),
                    ..row
                },
            )
        },
        Change::Failed(error, at) => if is_terminal(row.status) {
            None
        } else {
            Some(
                TaskRow {
                    status: TaskStatus::Failed,
                    error: Some(error),
                    completed_at: Some(at),
                    ..row
                },
            )
        },
        Change::Canceled(at) => if is_terminal(row.status) {
            None
        } else {
            Some(TaskRow { status: TaskStatus::Canceled, completed_at: Some(at), ..row })
        },
        Change::Preempted(at) => if is_terminal(row.status) {
            None
        } else {
            Some(TaskRow { status: TaskStatus::Preempted, completed_at: Some(at), ..row })
        },
        Change::Log(..) => None,
    }
}

/// The row of the named task after a write, or `None` when the write leaves the
/// tasks as they are.
pub open spec fn written_row(tasks: Map<Seq<char>, TaskRow>, write: Write) -> Option<TaskRow> {
    if tasks.contains_key(write.name) {
        changed_row(tasks[write.name], write.change)
    } else {
        match write.change {
            Change::Create { run_id, status, call_id, attempt } => Some(
                new_row(run_id, status, call_id, attempt),
            ),
            _ => None,
        }
    }
}

/// The contents after a write.
pub open spec fn after_write(before: Contents, write: Write) -> Contents {
    match write.change {
        Change::Log(source, chunk) => Contents {
            logs: before.logs.push(LogRow { name: write.name, source, chunk }),
            ..before
        },
        _ => match written_row(before.tasks, write) {
            Some(row) => Contents { tasks: before.tasks.insert(write.name, row), ..before },
            None => before,
        },
    }
}

/// The contents after a batch of writes, applied in order.
pub open spec fn after_writes(before: Contents, writes: Seq<Write>) -> Contents
    decreases writes.len(),
{
    if writes.len() == 0 {
        before
    } else {
        after_write(after_writes(before, writes.drop_last()), writes.last())
    }
}

/// Whether a run's status is final.
pub open spec fn run_is_terminal(status: RunStatus) -> bool {
    match status {
        RunStatus::Completed | RunStatus::Failed | RunStatus::Canceled | RunStatus::Orphaned => true,
        RunStatus::Running | RunStatus::Canceling => false,
    }
}

/// What an update changes about a run.
pub enum RunChange {
    /// The status.
    Status(RunStatus),
    /// The start.
    StartedAt(Option<Timestamp>),
    /// The completion.
    CompletedAt(Option<Timestamp>),
    /// The outputs.
    Outputs(Seq<char>),
    /// The error message.
    Error(Seq<char>),
    /// The resolved target.
    Target(Seq<char>),
    /// The run directory.
    Directory(Seq<char>),
    /// The index directory.
    IndexDirectory(Seq<char>),
    /// The name of the execution backend.
    Backend(Seq<char>),
    /// The transferred bytes.
    TransferTotals(Seq<char>),
    /// The run is asked to cancel.
    Canceling,
}

/// The row of a run as a change leaves it, or `None` when the change does not
/// apply.
pub open spec fn changed_run(row: RunRow, change: RunChange) -> Option<RunRow> {
    match change {
        RunChange::Status(status) => Some(RunRow { status, ..row }),
        RunChange::StartedAt(started_at) => Some(RunRow { started_at, ..row }),
        RunChange::CompletedAt(completed_at) => Some(RunRow { completed_at, ..row }),
        RunChange::Outputs(outputs) => Some(RunRow { outputs: Some(outputs), ..row }),
        RunChange::Error(error) => Some(RunRow { error: Some(error), ..row }),
        RunChange::Target(target) => Some(RunRow { target: Some(target), ..row }),
        RunChange::Directory(directory) => Some(RunRow { directory: Some(directory), ..row }),
        RunChange::IndexDirectory(directory) => Some(
            RunRow { index_directory: Some(directory), ..row },
        ),
        RunChange::Backend(backend) => Some(RunRow { backend: Some(backend), ..row }),
        RunChange::TransferTotals(totals) => Some(RunRow { transfer_totals: Some(totals), ..row }),
        RunChange::Canceling => if run_is_terminal(row.status) {
            None
        } else {
            Some(RunRow { status: RunStatus::Canceling, ..row })
        },
    }
}

/// The row of a run after a change, or `None` when no run is changed.
pub open spec fn updated_run(before: Contents, id: Uuid, change: RunChange) -> Option<RunRow> {
    if before.runs.contains_key(id) {
        changed_run(before.runs[id], change)
    } else {
        None
    }
}

/// The contents with the row of a run replaced, where there is a new one.
pub open spec fn with_run(before: Contents, id: Uuid, row: Option<RunRow>) -> Contents {
    match row {
        Some(row) => Contents { runs: before.runs.insert(id, row), ..before },
        None => before,
    }
}

/// The contents after a change of a run.
pub open spec fn after_change(before: Contents, id: Uuid, change: RunChange) -> Contents {
    with_run(before, id, updated_run(before, id, change))
}

/// The row of the run `id`, if there is one.
pub open spec fn run_row(contents: Contents, id: Uuid) -> Option<RunRow> {
    if contents.runs.contains_key(id) {
        Some(contents.runs[id])
    } else {
        None
    }
}

/// The record of a task, as it is read back.
#[derive(Debug)]
pub struct TaskRecord {
    /// The unique name of the task's execution attempt.
    pub name: String,
    /// The run managing the task.
    pub run_id: Uuid,
    /// The status.
    pub status: TaskStatus,
    /// The stable call path shared by every attempt of the same call.
    pub call_id: Option<String>,
    /// The 0-based attempt number within the call.
    pub attempt: i64,
    /// The serialized execution constraints.
    pub constraints: Option<String>,
    /// The serialized retry cause.
    pub retry_cause: Option<String>,
    /// The merge patches that make up the resource utilization, oldest first.
    pub patches: Vec<String>,
    /// When the task was submitted to a backend.
    pub submitted_at: Option<Timestamp>,
    /// When the task started running.
    pub started_at: Option<Timestamp>,
    /// When the task reached a terminal status.
    pub completed_at: Option<Timestamp>,
    /// The exit status.
    pub exit_status: Option<i32>,
    /// The error message.
    pub error: Option<String>,
}

impl View for TaskRecord {
    type V = TaskRow;

    open spec fn view(&self) -> TaskRow {
        TaskRow {
            run_id: self.run_id,
            status: self.status,
            call_id: opt_view(self.call_id),
            attempt: self.attempt,
            constraints: opt_view(self.constraints),
            retry_cause: opt_view(self.retry_cause),
            patches: views(self.patches@),
            submitted_at: self.submitted_at,
            started_at: self.started_at,
            completed_at: self.completed_at,
            exit_status: self.exit_status,
            error: opt_view(self.error),
        }
    }
}

/// The record of a run, as it is read back.
#[derive(Debug)]
pub struct RunRecord {
    /// The identifier of the run.
    pub id: Uuid,
    /// The status.
    pub status: RunStatus,
    /// When the run started.
    pub started_at: Option<Timestamp>,
    /// When the run completed.
    pub completed_at: Option<Timestamp>,
    /// The outputs.
    pub outputs: Option<String>,
    /// The error message.
    pub error: Option<String>,
    /// The resolved target.
    pub target: Option<String>,
    /// The run directory.
    pub directory: Option<String>,
    /// The index directory.
    pub index_directory: Option<String>,
    /// The name of the execution backend.
    pub backend: Option<String>,
    /// The serialized transfer totals.
    pub transfer_totals: Option<String>,
}

impl View for RunRecord {
    type V = RunRow;

    open spec fn view(&self) -> RunRow {
        RunRow {
            status: self.status,
            started_at: self.started_at,
            completed_at: self.completed_at,
            outputs: opt_view(self.outputs),
            error: opt_view(self.error),
            target: opt_view(self.target),
            directory: opt_view(self.directory),
            index_directory: opt_view(self.index_directory),
            backend: opt_view(self.backend),
            transfer_totals: opt_view(self.transfer_totals),
        }
    }
}

/// The write that creates a task.
pub open spec fn creation(task: NewTask<'_>) -> Write {
    Write {
        name: task.name@,
        change: Change::Create {
            run_id: task.run_id,
            status: task.status,
            call_id: match task.call_id {
                Some(id) => Some(id@),
                None => None,
            },
            attempt: task.attempt,
        },
    }
}

/// What a database operation reports.
#[derive(Debug)]
pub enum SqlxError {
    /// The database refused the operation.
    Database {
        /// The extended result code.
        code: Option<String>,
        /// The error message.
        message: String,
    },
    /// Anything else.
    Other {
        /// The error message.
        message: String,
    },
}

/// Database errors.
#[derive(Debug)]
pub enum DatabaseError {
    /// A database error.
    Sqlx(SqlxError),
    /// The user could not be determined.
    WhoAmI {
        /// The error message.
        message: String,
    },
    /// A migration error.
    Migration {
        /// The error message.
        message: String,
    },
    /// An I/O error.
    Io {
        /// The error message.
        message: String,
    },
    /// A JSON serialization error.
    Json {
        /// The error message.
        message: String,
    },
    /// Invalid database schema version.
    InvalidVersion {
        /// Expected version.
        expected: String,
        /// Found version.
        found: String,
    },
    /// Resource not found.
    NotFound,
}

/// The text of a database error.
pub open spec fn error_text(error: DatabaseError) -> Seq<char> {
    match error {
        DatabaseError::Sqlx(SqlxError::Database { message, .. }) => message@,
        DatabaseError::Sqlx(SqlxError::Other { message }) => message@,
        DatabaseError::WhoAmI { message } => message@,
        DatabaseError::Migration { message } => message@,
        DatabaseError::Io { message } => message@,
        DatabaseError::Json { message } => message@,
        DatabaseError::InvalidVersion { expected, found } =>
            "invalid database schema version: expected `"@ + expected@ + "`, found `"@ + found@
            + "`"@,
        DatabaseError::NotFound => "not found"@,
    }
}

impl DatabaseError {
    /// The text of the error.
    pub fn message(&self) -> (r: String)
        ensures
            r@ == error_text(*self),
    {
        match self {
            DatabaseError::Sqlx(SqlxError::Database { message, .. }) => message.clone(),
            DatabaseError::Sqlx(SqlxError::Other { message }) => message.clone(),
            DatabaseError::WhoAmI { message } => message.clone(),
            DatabaseError::Migration { message } => message.clone(),
            DatabaseError::Io { message } => message.clone(),
            DatabaseError::Json { message } => message.clone(),
            DatabaseError::InvalidVersion { expected, found } => {
                let mut text = "invalid database schema version: expected `".to_owned();
                text.append(expected.as_str());
                text.append("`, found `");
                text.append(found.as_str());
                text.append("`");
                text
            },
            DatabaseError::NotFound => "not found".to_owned(),
        }
    }
}

/// Whether an operation that reported `updated` made `after` of `before` by a
/// write.
pub open spec fn wrote(before: Contents, after: Contents, write: Write, updated: bool) -> bool {
    &&& after == after_write(before, write)
    &&& updated == (written_row(before.tasks, write) is Some)
}

/// Whether an operation that reported `updated` made `after` of `before` by a
/// change of a run.
pub open spec fn changed(
    before: Contents,
    after: Contents,
    id: Uuid,
    change: RunChange,
    updated: bool,
) -> bool {
    &&& after == after_change(before, id, change)
    &&& updated == (updated_run(before, id, change) is Some)
}

/// A single operation.
pub enum Operation {
    /// A write about a task.
    Task(Write),
    /// A change of a run.
    Run(Uuid, RunChange),
}

/// An operation that was carried out.
pub struct Call {
    /// The operation.
    pub operation: Operation,
    /// The error, if it failed.
    pub failure: Option<DatabaseError>,
}

/// The operations that were carried out.
#[verifier::ext_equal]
pub struct History {
    /// The operations, oldest first.
    pub calls: Seq<Call>,
}

/// The error of a result.
pub open spec fn failure_of<T>(result: Result<T, DatabaseError>) -> Option<DatabaseError> {
    match result {
        Ok(_) => None,
        Err(error) => Some(error),
    }
}

/// The operations of a batch of writes.
pub open spec fn task_operations(writes: Seq<Write>) -> Seq<Operation> {
    Seq::new(writes.len(), |i: int| Operation::Task(writes[i]))
}

/// Operations one after another, all of which succeeded but for the last, which
/// had the given outcome.
pub open spec fn calls_of(operations: Seq<Operation>, failure: Option<DatabaseError>) -> Seq<Call> {
    Seq::new(
        operations.len(),
        |i: int|
            Call {
                operation: operations[i],
                failure: if i == operations.len() - 1 {
                    failure
                } else {
                    None
                },
            },
    )
}

/// The history after the first `k` operations, the last of which had the given
/// outcome.
pub open spec fn after_calls(
    before: Seq<Call>,
    operations: Seq<Operation>,
    k: int,
    failure: Option<DatabaseError>,
) -> Seq<Call> {
    before + calls_of(operations.take(k), failure)
}

/// Whether `operations` were carried out in order, each once and nothing else,
/// up to the first that failed, whose error is the result.
pub open spec fn carried_out(
    before: Seq<Call>,
    after: Seq<Call>,
    operations: Seq<Operation>,
    result: Result<(), DatabaseError>,
) -> bool {
    match result {
        Ok(_) => after == after_calls(before, operations, operations.len() as int, None),
        Err(error) => exists|k: int|
            0 < k <= operations.len() && after == #[trigger] after_calls(
                before,
                operations,
                k,
                Some(error),
            ),
    }
}

/// Operations extend the history one by one.
proof fn lemma_calls(before: Seq<Call>, operations: Seq<Operation>)
    ensures
        after_calls(before, operations, 0, None) == before,
        forall|k: int, failure: Option<DatabaseError>|
            0 <= k < operations.len() ==> #[trigger] after_calls(before, operations, k, None).push(
                Call { operation: operations[k], failure },
            ) == after_calls(before, operations, k + 1, failure),
{
    assert(after_calls(before, operations, 0, None) =~= before);
    assert forall|k: int, failure: Option<DatabaseError>| 0 <= k < operations.len() implies
        #[trigger] after_calls(before, operations, k, None).push(
        Call { operation: operations[k], failure },
    ) == after_calls(before, operations, k + 1, failure) by {
        assert(after_calls(before, operations, k, None).push(
            Call { operation: operations[k], failure },
        ) =~= after_calls(before, operations, k + 1, failure));
    }
}

/// Operations that follow one that succeeded.
proof fn lemma_calls_compose(
    before: Seq<Call>,
    first: Operation,
    rest: Seq<Operation>,
    after: Seq<Call>,
    result: Result<(), DatabaseError>,
)
    requires
        carried_out(
            before.push(Call { operation: first, failure: None }),
            after,
            rest,
            result,
        ),
        rest.len() > 0,
    ensures
        carried_out(before, after, seq![first] + rest, result),
{
    let middle = before.push(Call { operation: first, failure: None });
    let all = seq![first] + rest;
    match result {
        Ok(_) => {
            assert(after_calls(middle, rest, rest.len() as int, None) =~= after_calls(
                before,
                all,
                all.len() as int,
                None,
            ));
        },
        Err(error) => {
            let k = choose|k: int|
                0 < k <= rest.len() && after == #[trigger] after_calls(
                    middle,
                    rest,
                    k,
                    Some(error),
                );
            assert(after_calls(middle, rest, k, Some(error)) =~= after_calls(
                before,
                all,
                k + 1,
                Some(error),
            ));
        },
    }
}

/// A record of runs and tasks.
///
/// An operation that returns an error promises nothing of the contents.
pub trait Database {
    /// The contents.
    spec fn contents(&self) -> Contents;

    /// Whether no operation can fail, now or later.
    spec fn reliable(&self) -> bool;

    /// The single operations that were carried out, oldest first, each with its
    /// outcome.
    ///
    /// An operation that stands for several appears as those, up to the first
    /// that failed.
    spec fn history(&self) -> History;

    /// Create a task record in the given starting status.
    ///
    /// Creation is idempotent: if the task already exists, its current record
    /// and status are returned unchanged, except that a `call_id` is filled in
    /// when the existing row has none and the `attempt` number is raised to
    /// the larger of the two. Engine and backend events arrive on independent
    /// channels with no ordering between them, so either may be the first to
    /// observe a task, and only the engine's announcement carries the call id
    /// and attempt number.
    fn create_task(&mut self, task: NewTask<'_>) -> (r: Result<TaskRecord, DatabaseError>)
        ensures
            match r {
                Ok(record) => {
                    &&& final(self).contents() == after_write(
                        old(self).contents(),
                        creation(task),
                    )
                    &&& record.name@ == task.name@
                    &&& final(self).contents().tasks.contains_key(task.name@)
                    &&& record@ == final(self).contents().tasks[task.name@]
                },
                Err(_) => !old(self).reliable(),
            },
            old(self).reliable() ==> final(self).reliable(),
            final(self).history().calls == old(self).history().calls.push(
                (Call { operation: Operation::Task(creation(task)), failure: failure_of(r) }),
            ),
    ;

    /// Record the resolved execution constraints for a task.
    ///
    /// Returns `true` if a task was updated, `false` if it was not found or
    /// has already reached a terminal status.
    fn update_task_constraints(&mut self, name: &str, constraints: &str) -> (r: Result<
        bool,
        DatabaseError,
    >)
        ensures
            match r {
                Ok(updated) => wrote(
                    old(self).contents(),
                    final(self).contents(),
                    (Write { name: name@, change: Change::Constraints(constraints@) }),
                    updated,
                ),
                Err(_) => !old(self).reliable(),
            },
            old(self).reliable() ==> final(self).reliable(),
            final(self).history().calls == old(self).history().calls.push(
                (Call { operation: Operation::Task(Write { name: name@, change: Change::Constraints(constraints@) }), failure: failure_of(r) }),
            ),
    ;

    /// Record why a task's execution attempt was retried.
    ///
    /// This is set on the row of the attempt that failed, which has usually
    /// already reached a terminal status, so no status guard applies.
    ///
    /// Returns `true` if a task was updated, `false` if it was not found.
    fn update_task_retry_cause(&mut self, name: &str, cause: &str) -> (r: Result<
        bool,
        DatabaseError,
    >)
        ensures
            match r {
                Ok(updated) => wrote(
                    old(self).contents(),
                    final(self).contents(),
                    (Write { name: name@, change: Change::RetryCause(cause@) }),
                    updated,
                ),
                Err(_) => !old(self).reliable(),
            },
            old(self).reliable() ==> final(self).reliable(),
            final(self).history().calls == old(self).history().calls.push(
                (Call { operation: Operation::Task(Write { name: name@, change: Change::RetryCause(cause@) }), failure: failure_of(r) }),
            ),
    ;

    /// Merge newly observed resource utilization fields for a task into
    /// whatever has already been recorded.
    ///
    /// `patch` is a JSON object containing only the fields being reported; it
    /// is merged into the recorded utilization as a JSON Merge Patch rather
    /// than replacing it outright. Callers must omit any key whose value is not
    /// currently known, since a JSON Merge Patch interprets an explicit `null`
    /// as "delete this key" rather than "no information."
    ///
    /// This is recorded at the attempt's termination, which races the
    /// completion event on the other channel, so the row is usually already in
    /// a terminal status and no status guard applies.
    ///
    /// Returns `true` if a task was updated, `false` if it was not found.
    fn update_task_utilization(&mut self, name: &str, patch: &str) -> (r: Result<
        bool,
        DatabaseError,
    >)
        ensures
            match r {
                Ok(updated) => wrote(
                    old(self).contents(),
                    final(self).contents(),
                    (Write { name: name@, change: Change::Utilization(patch@) }),
                    updated,
                ),
                Err(_) => !old(self).reliable(),
            },
            old(self).reliable() ==> final(self).reliable(),
            final(self).history().calls == old(self).history().calls.push(
                (Call { operation: Operation::Task(Write { name: name@, change: Change::Utilization(patch@) }), failure: failure_of(r) }),
            ),
    ;

    /// Advance a task to localizing its inputs.
    ///
    /// Returns `true` if a task was updated, `false` if it was not found or
    /// has already advanced past initializing.
    fn update_task_localizing(&mut self, name: &str) -> (r: Result<bool, DatabaseError>)
        ensures
            match r {
                Ok(updated) => wrote(
                    old(self).contents(),
                    final(self).contents(),
                    (Write { name: name@, change: Change::Localizing }),
                    updated,
                ),
                Err(_) => !old(self).reliable(),
            },
            old(self).reliable() ==> final(self).reliable(),
            final(self).history().calls == old(self).history().calls.push(
                (Call { operation: Operation::Task(Write { name: name@, change: Change::Localizing }), failure: failure_of(r) }),
            ),
    ;

    /// Advance a task to pending, meaning it has been submitted to a backend
    /// and is awaiting scheduling.
    ///
    /// Records the submission time (keeping the first observed time if
    /// repeated). A task that was created as pending, by a backend's
    /// announcement, gets its submission time here.
    ///
    /// Returns `true` if a task was updated, `false` if it was not found or
    /// has already advanced past localizing and is not awaiting its submission
    /// time.
    fn update_task_pending(&mut self, name: &str, submitted_at: Timestamp) -> (r: Result<
        bool,
        DatabaseError,
    >)
        ensures
            match r {
                Ok(updated) => wrote(
                    old(self).contents(),
                    final(self).contents(),
                    (Write { name: name@, change: Change::Pending(submitted_at) }),
                    updated,
                ),
                Err(_) => !old(self).reliable(),
            },
            old(self).reliable() ==> final(self).reliable(),
            final(self).history().calls == old(self).history().calls.push(
                (Call { operation: Operation::Task(Write { name: name@, change: Change::Pending(submitted_at) }), failure: failure_of(r) }),
            ),
    ;

    /// Update a task as served from the call cache.
    ///
    /// Returns `true` if a task was updated, `false` if it was not found or
    /// has already reached a terminal status.
    fn update_task_cached(&mut self, name: &str, completed_at: Timestamp) -> (r: Result<
        bool,
        DatabaseError,
    >)
        ensures
            match r {
                Ok(updated) => wrote(
                    old(self).contents(),
                    final(self).contents(),
                    (Write { name: name@, change: Change::Cached(completed_at) }),
                    updated,
                ),
                Err(_) => !old(self).reliable(),
            },
            old(self).reliable() ==> final(self).reliable(),
            final(self).history().calls == old(self).history().calls.push(
                (Call { operation: Operation::Task(Write { name: name@, change: Change::Cached(completed_at) }), failure: failure_of(r) }),
            ),
    ;

    /// Update task with started timestamp.
    ///
    /// Returns `true` if a task was updated, `false` if it was not found or
    /// has already advanced past pending.
    fn update_task_started(&mut self, name: &str, started_at: Timestamp) -> (r: Result<
        bool,
        DatabaseError,
    >)
        ensures
            match r {
                Ok(updated) => wrote(
                    old(self).contents(),
                    final(self).contents(),
                    (Write { name: name@, change: Change::Started(started_at) }),
                    updated,
                ),
                Err(_) => !old(self).reliable(),
            },
            old(self).reliable() ==> final(self).reliable(),
            final(self).history().calls == old(self).history().calls.push(
                (Call { operation: Operation::Task(Write { name: name@, change: Change::Started(started_at) }), failure: failure_of(r) }),
            ),
    ;

    /// Update task with completion data.
    ///
    /// Returns `true` if a task was updated, `false` if it was not found or
    /// has already reached a terminal status.
    fn update_task_completed(
        &mut self,
        name: &str,
        exit_status: Option<i32>,
        completed_at: Timestamp,
    ) -> (r: Result<bool, DatabaseError>)
        ensures
            match r {
                Ok(updated) => wrote(
                    old(self).contents(),
                    final(self).contents(),
                    (Write { name: name@, change: Change::Completed(exit_status, completed_at) }),
                    updated,
                ),
                Err(_) => !old(self).reliable(),
            },
            old(self).reliable() ==> final(self).reliable(),
            final(self).history().calls == old(self).history().calls.push(
                (Call { operation: Operation::Task(Write { name: name@, change: Change::Completed(exit_status, completed_at) }), failure: failure_of(r) }),
            ),
    ;

    /// Update task with failure data.
    ///
    /// Returns `true` if a task was updated, `false` if it was not found or
    /// has already reached a terminal status.
    fn update_task_failed(&mut self, name: &str, error: &str, completed_at: Timestamp) -> (r:
        Result<bool, DatabaseError>)
        ensures
            match r {
                Ok(updated) => wrote(
                    old(self).contents(),
                    final(self).contents(),
                    (Write { name: name@, change: Change::Failed(error@, completed_at) }),
                    updated,
                ),
                Err(_) => !old(self).reliable(),
            },
            old(self).reliable() ==> final(self).reliable(),
            final(self).history().calls == old(self).history().calls.push(
                (Call { operation: Operation::Task(Write { name: name@, change: Change::Failed(error@, completed_at) }), failure: failure_of(r) }),
            ),
    ;

    /// Update task as canceled.
    ///
    /// Returns `true` if a task was updated, `false` if it was not found or
    /// has already reached a terminal status.
    fn update_task_canceled(&mut self, name: &str, completed_at: Timestamp) -> (r: Result<
        bool,
        DatabaseError,
    >)
        ensures
            match r {
                Ok(updated) => wrote(
                    old(self).contents(),
                    final(self).contents(),
                    (Write { name: name@, change: Change::Canceled(completed_at) }),
                    updated,
                ),
                Err(_) => !old(self).reliable(),
            },
            old(self).reliable() ==> final(self).reliable(),
            final(self).history().calls == old(self).history().calls.push(
                (Call { operation: Operation::Task(Write { name: name@, change: Change::Canceled(completed_at) }), failure: failure_of(r) }),
            ),
    ;

    /// Update task as preempted.
    ///
    /// Returns `true` if a task was updated, `false` if it was not found or
    /// has already reached a terminal status.
    fn update_task_preempted(&mut self, name: &str, completed_at: Timestamp) -> (r: Result<
        bool,
        DatabaseError,
    >)
        ensures
            match r {
                Ok(updated) => wrote(
                    old(self).contents(),
                    final(self).contents(),
                    (Write { name: name@, change: Change::Preempted(completed_at) }),
                    updated,
                ),
                Err(_) => !old(self).reliable(),
            },
            old(self).reliable() ==> final(self).reliable(),
            final(self).history().calls == old(self).history().calls.push(
                (Call { operation: Operation::Task(Write { name: name@, change: Change::Preempted(completed_at) }), failure: failure_of(r) }),
            ),
    ;

    /// Get task by name.
    fn get_task(&self, name: &str) -> (r: Result<TaskRecord, DatabaseError>)
        ensures
            match r {
                Ok(record) => self.contents().tasks.contains_key(name@) && record.name@ == name@
                    && record@ == self.contents().tasks[name@],
                Err(error) => self.reliable() ==> error is NotFound
                    && !self.contents().tasks.contains_key(name@),
            },
    ;

    /// Insert a task log entry.
    fn insert_task_log(&mut self, task_name: &str, source: LogSource, chunk: &Vec<u8>) -> (r:
        Result<(), DatabaseError>)
        ensures
            match r {
                Ok(_) => final(self).contents() == after_write(
                    old(self).contents(),
                    (Write { name: task_name@, change: Change::Log(source, chunk@) }),
                ),
                Err(_) => !old(self).reliable(),
            },
            old(self).reliable() ==> final(self).reliable(),
            final(self).history().calls == old(self).history().calls.push(
                (Call { operation: Operation::Task(Write { name: task_name@, change: Change::Log(source, chunk@) }), failure: failure_of(r) }),
            ),
    ;

    /// Get a run by ID.
    fn get_run(&self, id: Uuid) -> (r: Result<Option<RunRecord>, DatabaseError>)
        ensures
            match r {
                Ok(Some(record)) => self.contents().runs.contains_key(id) && record.id == id
                    && record@ == self.contents().runs[id],
                Ok(None) => !self.contents().runs.contains_key(id),
                Err(_) => !self.reliable(),
            },
    ;

    /// Update run status.
    fn update_run_status(&mut self, id: Uuid, status: RunStatus) -> (r: Result<(), DatabaseError>)
        ensures
            match r {
                Ok(_) => final(self).contents() == after_change(
                    old(self).contents(),
                    id,
                    RunChange::Status(status),
                ),
                Err(_) => !old(self).reliable(),
            },
            old(self).reliable() ==> final(self).reliable(),
            final(self).history().calls == old(self).history().calls.push(
                (Call { operation: Operation::Run(id, RunChange::Status(status)), failure: failure_of(r) }),
            ),
    ;

    /// Update run started at.
    fn update_run_started_at(&mut self, id: Uuid, started_at: Option<Timestamp>) -> (r: Result<
        (),
        DatabaseError,
    >)
        ensures
            match r {
                Ok(_) => final(self).contents() == after_change(
                    old(self).contents(),
                    id,
                    RunChange::StartedAt(started_at),
                ),
                Err(_) => !old(self).reliable(),
            },
            old(self).reliable() ==> final(self).reliable(),
            final(self).history().calls == old(self).history().calls.push(
                (Call { operation: Operation::Run(id, RunChange::StartedAt(started_at)), failure: failure_of(r) }),
            ),
    ;

    /// Update run completed at.
    fn update_run_completed_at(&mut self, id: Uuid, completed_at: Option<Timestamp>) -> (r: Result<
        (),
        DatabaseError,
    >)
        ensures
            match r {
                Ok(_) => final(self).contents() == after_change(
                    old(self).contents(),
                    id,
                    RunChange::CompletedAt(completed_at),
                ),
                Err(_) => !old(self).reliable(),
            },
            old(self).reliable() ==> final(self).reliable(),
            final(self).history().calls == old(self).history().calls.push(
                (Call { operation: Operation::Run(id, RunChange::CompletedAt(completed_at)), failure: failure_of(r) }),
            ),
    ;

    /// Update run outputs.
    fn update_run_outputs(&mut self, id: Uuid, outputs: &str) -> (r: Result<(), DatabaseError>)
        ensures
            match r {
                Ok(_) => final(self).contents() == after_change(
                    old(self).contents(),
                    id,
                    RunChange::Outputs(outputs@),
                ),
                Err(_) => !old(self).reliable(),
            },
            old(self).reliable() ==> final(self).reliable(),
            final(self).history().calls == old(self).history().calls.push(
                (Call { operation: Operation::Run(id, RunChange::Outputs(outputs@)), failure: failure_of(r) }),
            ),
    ;

    /// Update run error.
    fn update_run_error(&mut self, id: Uuid, error: &str) -> (r: Result<(), DatabaseError>)
        ensures
            match r {
                Ok(_) => final(self).contents() == after_change(
                    old(self).contents(),
                    id,
                    RunChange::Error(error@),
                ),
                Err(_) => !old(self).reliable(),
            },
            old(self).reliable() ==> final(self).reliable(),
            final(self).history().calls == old(self).history().calls.push(
                (Call { operation: Operation::Run(id, RunChange::Error(error@)), failure: failure_of(r) }),
            ),
    ;

    /// Update run target after resolution.
    ///
    /// Returns `true` if a run was updated, `false` if the run was not found.
    fn update_run_target(&mut self, id: Uuid, target: &str) -> (r: Result<bool, DatabaseError>)
        ensures
            match r {
                Ok(updated) => changed(
                    old(self).contents(),
                    final(self).contents(),
                    id,
                    RunChange::Target(target@),
                    updated,
                ),
                Err(_) => !old(self).reliable(),
            },
            old(self).reliable() ==> final(self).reliable(),
            final(self).history().calls == old(self).history().calls.push(
                (Call { operation: Operation::Run(id, RunChange::Target(target@)), failure: failure_of(r) }),
            ),
    ;

    /// Update run directory.
    ///
    /// Returns `true` if a run was updated, `false` if the run was not found.
    fn update_run_directory(&mut self, id: Uuid, directory: &str) -> (r: Result<
        bool,
        DatabaseError,
    >)
        ensures
            match r {
                Ok(updated) => changed(
                    old(self).contents(),
                    final(self).contents(),
                    id,
                    RunChange::Directory(directory@),
                    updated,
                ),
                Err(_) => !old(self).reliable(),
            },
            old(self).reliable() ==> final(self).reliable(),
            final(self).history().calls == old(self).history().calls.push(
                (Call { operation: Operation::Run(id, RunChange::Directory(directory@)), failure: failure_of(r) }),
            ),
    ;

    /// Update run index directory.
    ///
    /// Returns `true` if a run was updated, `false` if the run was not found.
    fn update_run_index_directory(&mut self, id: Uuid, index_directory: &str) -> (r: Result<
        bool,
        DatabaseError,
    >)
        ensures
            match r {
                Ok(updated) => changed(
                    old(self).contents(),
                    final(self).contents(),
                    id,
                    RunChange::IndexDirectory(index_directory@),
                    updated,
                ),
                Err(_) => !old(self).reliable(),
            },
            old(self).reliable() ==> final(self).reliable(),
            final(self).history().calls == old(self).history().calls.push(
                (Call { operation: Operation::Run(id, RunChange::IndexDirectory(index_directory@)), failure: failure_of(r) }),
            ),
    ;

    /// Record the name of the execution backend the run executed on.
    ///
    /// Returns `true` if a run was updated, `false` if it was not found.
    fn update_run_backend(&mut self, id: Uuid, backend: &str) -> (r: Result<bool, DatabaseError>)
        ensures
            match r {
                Ok(updated) => changed(
                    old(self).contents(),
                    final(self).contents(),
                    id,
                    RunChange::Backend(backend@),
                    updated,
                ),
                Err(_) => !old(self).reliable(),
            },
            old(self).reliable() ==> final(self).reliable(),
            final(self).history().calls == old(self).history().calls.push(
                (Call { operation: Operation::Run(id, RunChange::Backend(backend@)), failure: failure_of(r) }),
            ),
    ;

    /// Record the run's transfer byte totals.
    ///
    /// Returns `true` if a run was updated, `false` if it was not found.
    fn update_run_transfer_totals(&mut self, id: Uuid, transfer_totals: &str) -> (r: Result<
        bool,
        DatabaseError,
    >)
        ensures
            match r {
                Ok(updated) => changed(
                    old(self).contents(),
                    final(self).contents(),
                    id,
                    RunChange::TransferTotals(transfer_totals@),
                    updated,
                ),
                Err(_) => !old(self).reliable(),
            },
            old(self).reliable() ==> final(self).reliable(),
            final(self).history().calls == old(self).history().calls.push(
                (Call { operation: Operation::Run(id, RunChange::TransferTotals(transfer_totals@)), failure: failure_of(r) }),
            ),
    ;

    /// Transition a run to `Canceling` status.
    ///
    /// Returns `true` if the run was updated, `false` if it was not found or
    /// has already reached a terminal status.
    ///
    /// Cancellation is requested by signaling the run and then recording the
    /// request, so a run that finishes in between would otherwise have its
    /// outcome overwritten by the request to cancel it, and would appear to be
    /// canceling forever.
    fn mark_run_canceling(&mut self, id: Uuid) -> (r: Result<bool, DatabaseError>)
        ensures
            match r {
                Ok(updated) => changed(
                    old(self).contents(),
                    final(self).contents(),
                    id,
                    RunChange::Canceling,
                    updated,
                ),
                Err(_) => !old(self).reliable(),
            },
            old(self).reliable() ==> final(self).reliable(),
            final(self).history().calls == old(self).history().calls.push(
                (Call { operation: Operation::Run(id, RunChange::Canceling), failure: failure_of(r) }),
            ),
    ;

    /// Apply a batch of buffered task writes together.
    ///
    /// Writes are applied in the order they appear in `writes`, which preserves
    /// per-task ordering since the monitor only ever appends to the buffer in
    /// the order it observes events.
    ///
    /// The default implementation calls the corresponding per-operation method
    /// once for each buffered write and stops at the first error, with no
    /// shared transaction; backends should override this method to apply the
    /// whole batch within a single transaction.
    fn apply_task_writes(&mut self, writes: Vec<TaskWrite>) -> (r: Result<(), DatabaseError>)
        ensures
            match r {
                Ok(_) => final(self).contents() == after_writes(
                    old(self).contents(),
                    write_views(writes@),
                ),
                Err(_) => !old(self).reliable() && writes@.len() > 0,
            },
            old(self).reliable() ==> final(self).reliable(),
            carried_out(
                old(self).history().calls,
                final(self).history().calls,
                task_operations(write_views(writes@)),
                r,
            ),
    {
        let ghost before = self.contents();
        let ghost was_reliable = self.reliable();
        let ghost all = writes@;
        let ghost start = self.history().calls;
        let ghost operations = task_operations(write_views(all));
        proof {
            assert(write_views(all.take(0)) =~= Seq::<Write>::empty());
            lemma_calls(start, operations);
        }
        for write in it: writes
            invariant
                it.seq() == all,
                self.contents() == after_writes(before, write_views(all.take(it.index()))),
                was_reliable == old(self).reliable(),
                start == old(self).history().calls,
                operations == task_operations(write_views(all)),
                self.history().calls == after_calls(start, operations, it.index(), None),
                was_reliable ==> self.reliable(),
        {
            let ghost view = write@;
            proof {
                let done = write_views(all.take(it.index()));
                let next = write_views(all.take(it.index() + 1));
                assert(next.drop_last() =~= done);
                assert(next.last() == view);
                assert(operations[it.index()] == Operation::Task(view));
                lemma_calls(start, operations);
            }
            match write {
                TaskWrite::Create { name, run_id, status, call_id, attempt } => {
                    let task = NewTask {
                        name: name.as_str(),
                        run_id,
                        status,
                        call_id: match &call_id {
                            Some(id) => Some(id.as_str()),
                            None => None,
                        },
                        attempt,
                    };
                    match self.create_task(task) {
                        Ok(_) => {},
                        Err(error) => return Err(error),
                    }
                },
                TaskWrite::Localizing { name } => {
                    match self.update_task_localizing(name.as_str()) {
                        Ok(_) => {},
                        Err(error) => return Err(error),
                    }
                },
                TaskWrite::Constraints { name, constraints } => {
                    match self.update_task_constraints(name.as_str(), constraints.as_str()) {
                        Ok(_) => {},
                        Err(error) => return Err(error),
                    }
                },
                TaskWrite::RetryCause { name, cause } => {
                    match self.update_task_retry_cause(name.as_str(), cause.as_str()) {
                        Ok(_) => {},
                        Err(error) => return Err(error),
                    }
                },
                TaskWrite::Utilization { name, patch } => {
                    match self.update_task_utilization(name.as_str(), patch.as_str()) {
                        Ok(_) => {},
                        Err(error) => return Err(error),
                    }
                },
                TaskWrite::Pending { name, submitted_at } => {
                    match self.update_task_pending(name.as_str(), submitted_at) {
                        Ok(_) => {},
                        Err(error) => return Err(error),
                    }
                },
                TaskWrite::Cached { name, completed_at } => {
                    match self.update_task_cached(name.as_str(), completed_at) {
                        Ok(_) => {},
                        Err(error) => return Err(error),
                    }
                },
                TaskWrite::Started { name, started_at } => {
                    match self.update_task_started(name.as_str(), started_at) {
                        Ok(_) => {},
                        Err(error) => return Err(error),
                    }
                },
                TaskWrite::Completed { name, exit_status, completed_at } => {
                    match self.update_task_completed(name.as_str(), exit_status, completed_at) {
                        Ok(_) => {},
                        Err(error) => return Err(error),
                    }
                },
                TaskWrite::Failed { name, error, completed_at } => {
                    match self.update_task_failed(name.as_str(), error.as_str(), completed_at) {
                        Ok(_) => {},
                        Err(error) => return Err(error),
                    }
                },
                TaskWrite::Canceled { name, completed_at } => {
                    match self.update_task_canceled(name.as_str(), completed_at) {
                        Ok(_) => {},
                        Err(error) => return Err(error),
                    }
                },
                TaskWrite::Preempted { name, completed_at } => {
                    match self.update_task_preempted(name.as_str(), completed_at) {
                        Ok(_) => {},
                        Err(error) => return Err(error),
                    }
                },
                TaskWrite::Log { name, source, chunk } => {
                    match self.insert_task_log(name.as_str(), source, &chunk) {
                        Ok(_) => {},
                        Err(error) => return Err(error),
                    }
                },
            }
        }
        proof {
            assert(all.take(all.len() as int) =~= all);
        }
        Ok(())
    }

    /// Transition a run to `Running` status with `started_at` timestamp.
    ///
    /// The default implementation performs two separate writes; an
    /// implementation that pays a high cost per commit should override this to
    /// perform both in a single transaction instead.
    fn start_run(&mut self, id: Uuid, started_at: Timestamp) -> (r: Result<(), DatabaseError>)
        ensures
            match r {
                Ok(_) => final(self).contents() == with_run(
                    old(self).contents(),
                    id,
                    match run_row(old(self).contents(), id) {
                        Some(row) => Some(
                            RunRow {
                                status: RunStatus::Running,
                                started_at: Some(started_at),
                                ..row
                            },
                        ),
                        None => None,
                    },
                ),
                Err(_) => !old(self).reliable(),
            },
            old(self).reliable() ==> final(self).reliable(),
            carried_out(
                old(self).history().calls,
                final(self).history().calls,
                seq![
                    Operation::Run(id, RunChange::Status(RunStatus::Running)),
                    Operation::Run(id, RunChange::StartedAt(Some(started_at))),
                ],
                r,
            ),
    {
        proof {
            lemma_calls(
                self.history().calls,
                seq![
                    Operation::Run(id, RunChange::Status(RunStatus::Running)),
                    Operation::Run(id, RunChange::StartedAt(Some(started_at))),
                ],
            );
        }
        match self.update_run_status(id, RunStatus::Running) {
            Ok(_) => self.update_run_started_at(id, Some(started_at)),
            Err(error) => Err(error),
        }
    }

    /// Transition a run to `Completed` status with `completed_at` timestamp.
    ///
    /// See the note on [`start_run`](Self::start_run) about overriding for a
    /// single-write implementation.
    fn complete_run(&mut self, id: Uuid, completed_at: Timestamp) -> (r: Result<(), DatabaseError>)
        ensures
            match r {
                Ok(_) => final(self).contents() == with_run(
                    old(self).contents(),
                    id,
                    match run_row(old(self).contents(), id) {
                        Some(row) => Some(
                            RunRow {
                                status: RunStatus::Completed,
                                completed_at: Some(completed_at),
                                ..row
                            },
                        ),
                        None => None,
                    },
                ),
                Err(_) => !old(self).reliable(),
            },
            old(self).reliable() ==> final(self).reliable(),
            carried_out(
                old(self).history().calls,
                final(self).history().calls,
                seq![
                    Operation::Run(id, RunChange::Status(RunStatus::Completed)),
                    Operation::Run(id, RunChange::CompletedAt(Some(completed_at))),
                ],
                r,
            ),
    {
        proof {
            lemma_calls(
                self.history().calls,
                seq![
                    Operation::Run(id, RunChange::Status(RunStatus::Completed)),
                    Operation::Run(id, RunChange::CompletedAt(Some(completed_at))),
                ],
            );
        }
        match self.update_run_status(id, RunStatus::Completed) {
            Ok(_) => self.update_run_completed_at(id, Some(completed_at)),
            Err(error) => Err(error),
        }
    }

    /// Transition a run to `Failed` status with error message and
    /// `completed_at` timestamp.
    ///
    /// See the note on [`start_run`](Self::start_run) about overriding for a
    /// single-write implementation.
    fn fail_run(&mut self, id: Uuid, error: &str, completed_at: Timestamp) -> (r: Result<
        (),
        DatabaseError,
    >)
        ensures
            match r {
                Ok(_) => final(self).contents() == with_run(
                    old(self).contents(),
                    id,
                    match run_row(old(self).contents(), id) {
                        Some(row) => Some(
                            RunRow {
                                status: RunStatus::Failed,
                                error: Some(error@),
                                completed_at: Some(completed_at),
                                ..row
                            },
                        ),
                        None => None,
                    },
                ),
                Err(_) => !old(self).reliable(),
            },
            old(self).reliable() ==> final(self).reliable(),
            carried_out(
                old(self).history().calls,
                final(self).history().calls,
                seq![
                    Operation::Run(id, RunChange::Status(RunStatus::Failed)),
                    Operation::Run(id, RunChange::Error(error@)),
                    Operation::Run(id, RunChange::CompletedAt(Some(completed_at))),
                ],
                r,
            ),
    {
        proof {
            lemma_calls(
                self.history().calls,
                seq![
                    Operation::Run(id, RunChange::Status(RunStatus::Failed)),
                    Operation::Run(id, RunChange::Error(error@)),
                    Operation::Run(id, RunChange::CompletedAt(Some(completed_at))),
                ],
            );
        }
        match self.update_run_status(id, RunStatus::Failed) {
            Ok(_) => match self.update_run_error(id, error) {
                Ok(_) => self.update_run_completed_at(id, Some(completed_at)),
                Err(error) => Err(error),
            },
            Err(error) => Err(error),
        }
    }

    /// Transition a run to `Canceled` status with `completed_at` timestamp.
    ///
    /// See the note on [`start_run`](Self::start_run) about overriding for a
    /// single-write implementation.
    fn cancel_run(&mut self, id: Uuid, completed_at: Timestamp) -> (r: Result<(), DatabaseError>)
        ensures
            match r {
                Ok(_) => final(self).contents() == with_run(
                    old(self).contents(),
                    id,
                    match run_row(old(self).contents(), id) {
                        Some(row) => Some(
                            RunRow {
                                status: RunStatus::Canceled,
                                completed_at: Some(completed_at),
                                ..row
                            },
                        ),
                        None => None,
                    },
                ),
                Err(_) => !old(self).reliable(),
            },
            old(self).reliable() ==> final(self).reliable(),
            carried_out(
                old(self).history().calls,
                final(self).history().calls,
                seq![
                    Operation::Run(id, RunChange::Status(RunStatus::Canceled)),
                    Operation::Run(id, RunChange::CompletedAt(Some(completed_at))),
                ],
                r,
            ),
    {
        proof {
            lemma_calls(
                self.history().calls,
                seq![
                    Operation::Run(id, RunChange::Status(RunStatus::Canceled)),
                    Operation::Run(id, RunChange::CompletedAt(Some(completed_at))),
                ],
            );
        }
        match self.update_run_status(id, RunStatus::Canceled) {
            Ok(_) => self.update_run_completed_at(id, Some(completed_at)),
            Err(error) => Err(error),
        }
    }

    /// Transition a run to `Completed` status with `completed_at` timestamp
    /// and record its outputs.
    ///
    /// The default implementation performs the underlying writes one by one;
    /// implementations should override this to perform them in a single
    /// transaction where possible (see the note on
    /// [`start_run`](Self::start_run)).
    fn complete_run_with_outputs(
        &mut self,
        id: Uuid,
        completed_at: Timestamp,
        outputs: &str,
    ) -> (r: Result<(), DatabaseError>)
        ensures
            match r {
                Ok(_) => final(self).contents() == with_run(
                    old(self).contents(),
                    id,
                    match run_row(old(self).contents(), id) {
                        Some(row) => Some(
                            RunRow {
                                status: RunStatus::Completed,
                                outputs: Some(outputs@),
                                completed_at: Some(completed_at),
                                ..row
                            },
                        ),
                        None => None,
                    },
                ),
                Err(_) => !old(self).reliable(),
            },
            old(self).reliable() ==> final(self).reliable(),
            carried_out(
                old(self).history().calls,
                final(self).history().calls,
                seq![
                    Operation::Run(id, RunChange::Outputs(outputs@)),
                    Operation::Run(id, RunChange::Status(RunStatus::Completed)),
                    Operation::Run(id, RunChange::CompletedAt(Some(completed_at))),
                ],
                r,
            ),
    {
        let ghost before = self.history().calls;
        let ghost first = Operation::Run(id, RunChange::Outputs(outputs@));
        let ghost rest = seq![
            Operation::Run(id, RunChange::Status(RunStatus::Completed)),
            Operation::Run(id, RunChange::CompletedAt(Some(completed_at))),
        ];
        proof {
            assert(seq![first] + rest =~= seq![first, rest[0], rest[1]]);
            lemma_calls(before, seq![first, rest[0], rest[1]]);
        }
        match self.update_run_outputs(id, outputs) {
            Ok(_) => {
                let result = self.complete_run(id, completed_at);
                proof {
                    lemma_calls_compose(before, first, rest, self.history().calls, result);
                }
                result
            },
            Err(error) => Err(error),
        }
    }
}

} // verus!
