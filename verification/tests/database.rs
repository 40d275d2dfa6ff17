use sprocket_metrics::db::{
    Contents, Database, DatabaseError, History, NewTask, RunRecord, SqlxError, TaskRecord, TaskWrite,
};
use sprocket_metrics::memory::MemoryDatabase;
use sprocket_metrics::retry::{
    is_transient_lock_error, parse_i32, LockRetry, MAX_LOCK_RETRIES,
};
use sprocket_metrics::status::{LogSource, RunStatus, TaskStatus};
use sprocket_metrics::time::Timestamp;
use sprocket_metrics::uuid::Uuid;

fn at(secs: i64) -> Timestamp {
    Timestamp::new(secs, 0).unwrap()
}

fn ok<T>(result: Result<T, DatabaseError>) -> T {
    match result {
        Ok(value) => value,
        Err(error) => panic!("{}", error.message()),
    }
}

fn database_error(code: Option<&str>) -> DatabaseError {
    DatabaseError::Sqlx(SqlxError::Database {
        code: code.map(str::to_string),
        message: "database is locked".to_string(),
    })
}

fn created(db: &mut MemoryDatabase, name: &str, status: TaskStatus) -> TaskRecord {
    ok(db.create_task(NewTask::from_backend_event(name, Uuid { value: 3 }, status)))
}

fn run(id: u128) -> RunRecord {
    RunRecord {
        id: Uuid { value: id },
        status: RunStatus::Running,
        started_at: None,
        completed_at: None,
        outputs: None,
        error: None,
        target: None,
        directory: None,
        index_directory: None,
        backend: None,
        transfer_totals: None,
    }
}

#[test]
fn errors_have_texts() {
    assert_eq!(DatabaseError::NotFound.message(), "not found");
    assert_eq!(
        DatabaseError::InvalidVersion {
            expected: "2".to_string(),
            found: "1".to_string(),
        }
        .message(),
        "invalid database schema version: expected `2`, found `1`"
    );
    assert_eq!(database_error(None).message(), "database is locked");
    let message = "detail".to_string();
    for error in [
        DatabaseError::Sqlx(SqlxError::Other {
            message: message.clone(),
        }),
        DatabaseError::WhoAmI {
            message: message.clone(),
        },
        DatabaseError::Migration {
            message: message.clone(),
        },
        DatabaseError::Io {
            message: message.clone(),
        },
        DatabaseError::Json { message },
    ] {
        assert_eq!(error.message(), "detail");
        assert!(!is_transient_lock_error(&error));
    }
}

#[test]
fn integers_are_read_as_the_standard_library_reads_them() {
    for text in [
        "",
        "0",
        "5",
        "+5",
        "-5",
        "--5",
        "+-5",
        "+",
        "-",
        "773",
        " 773",
        "773 ",
        "7 3",
        "0007",
        "2147483647",
        "2147483648",
        "-2147483648",
        "-2147483649",
        "99999999999999999999999",
        "0x5",
        "5.0",
        "٣",
        "-0",
    ] {
        assert_eq!(parse_i32(text), text.parse::<i32>().ok(), "{text:?}");
    }
}

#[test]
fn lock_errors_are_told_by_their_primary_code() {
    // Busy, busy timeout, locked, locked shared cache.
    for code in ["5", "6", "261", "517", "773", "262", "518"] {
        assert!(is_transient_lock_error(&database_error(Some(code))), "{code}");
    }
    // Constraint, unique constraint, I/O error, nonsense.
    for code in ["19", "2067", "10", "0", "4", "7", "", "busy", "5x"] {
        assert!(!is_transient_lock_error(&database_error(Some(code))), "{code}");
    }
    for code in -2_000..2_000i32 {
        assert_eq!(
            is_transient_lock_error(&database_error(Some(&code.to_string()))),
            matches!(code & 0xff, 5 | 6)
        );
    }
    assert!(!is_transient_lock_error(&database_error(None)));
    assert!(!is_transient_lock_error(&DatabaseError::NotFound));
}

#[test]
fn contention_is_retried_until_the_attempts_run_out() {
    let mut retry = LockRetry::new();
    let mut delays = Vec::new();
    while let Some(delay) = retry.after_failure(&database_error(Some("773"))) {
        delays.push(delay);
    }
    assert_eq!(delays, [500, 5_000, 5_000, 5_000]);
    assert_eq!(delays.len() + 1, MAX_LOCK_RETRIES);
    assert_eq!(retry.after_failure(&database_error(Some("773"))), None);
}

#[test]
fn permanent_errors_fail_fast() {
    let mut retry = LockRetry::new();
    assert_eq!(retry.after_failure(&database_error(Some("5"))), Some(500));
    assert_eq!(retry.after_failure(&DatabaseError::NotFound), None);
}

#[test]
fn creation_is_idempotent() {
    let mut db = MemoryDatabase::new();
    let first = created(&mut db, "t-x1", TaskStatus::Pending);
    assert_eq!(first.status, TaskStatus::Pending);
    assert_eq!(first.call_id, None);
    assert_eq!(first.attempt, 0);
    assert_eq!(first.run_id, Uuid { value: 3 });
    let second = ok(db.create_task(NewTask {
        name: "t-x1",
        run_id: Uuid { value: 4 },
        status: TaskStatus::Initializing,
        call_id: Some("t"),
        attempt: 2,
    }));
    // The status and the run stay; the call id and attempt are filled in.
    assert_eq!(second.status, TaskStatus::Pending);
    assert_eq!(second.run_id, Uuid { value: 3 });
    assert_eq!(second.call_id.as_deref(), Some("t"));
    assert_eq!(second.attempt, 2);
    let third = ok(db.create_task(NewTask {
        name: "t-x1",
        run_id: Uuid { value: 3 },
        status: TaskStatus::Initializing,
        call_id: Some("other"),
        attempt: 1,
    }));
    assert_eq!(third.call_id.as_deref(), Some("t"));
    assert_eq!(third.attempt, 2);
}

#[test]
fn updates_are_guarded_by_status() {
    let mut db = MemoryDatabase::new();
    created(&mut db, "t", TaskStatus::Initializing);
    assert!(ok(db.update_task_localizing("t")));
    assert!(!ok(db.update_task_localizing("t")));
    assert!(ok(db.update_task_constraints("t", "{}")));
    assert!(ok(db.update_task_pending("t", at(1))));
    assert!(!ok(db.update_task_pending("t", at(2))));
    assert!(ok(db.update_task_started("t", at(3))));
    assert!(!ok(db.update_task_started("t", at(4))));
    assert!(ok(db.update_task_failed("t", "boom", at(5))));
    assert!(!ok(db.update_task_completed("t", Some(0), at(6))));
    assert!(!ok(db.update_task_canceled("t", at(6))));
    assert!(!ok(db.update_task_preempted("t", at(6))));
    assert!(!ok(db.update_task_cached("t", at(6))));
    assert!(!ok(db.update_task_constraints("t", "{\"cpu\":1}")));
    // These two have no guard.
    assert!(ok(db.update_task_retry_cause("t", "cause")));
    assert!(ok(db.update_task_utilization("t", "{\"a\":1}")));
    assert!(ok(db.update_task_utilization("t", "{\"b\":2}")));
    let record = ok(db.get_task("t"));
    assert_eq!(record.status, TaskStatus::Failed);
    assert_eq!(record.error.as_deref(), Some("boom"));
    assert_eq!(record.constraints.as_deref(), Some("{}"));
    assert_eq!(record.submitted_at, Some(at(1)));
    assert_eq!(record.started_at, Some(at(3)));
    assert_eq!(record.completed_at, Some(at(5)));
    assert_eq!(record.retry_cause.as_deref(), Some("cause"));
    assert_eq!(record.patches, ["{\"a\":1}", "{\"b\":2}"]);
}

#[test]
fn each_end_of_a_task_is_recorded() {
    let mut db = MemoryDatabase::new();
    for name in ["a", "b", "c", "d"] {
        created(&mut db, name, TaskStatus::Running);
    }
    assert!(ok(db.update_task_cached("a", at(1))));
    assert!(ok(db.update_task_completed("b", Some(4), at(2))));
    assert!(ok(db.update_task_canceled("c", at(3))));
    assert!(ok(db.update_task_preempted("d", at(4))));
    assert_eq!(ok(db.get_task("a")).status, TaskStatus::Cached);
    assert_eq!(ok(db.get_task("b")).exit_status, Some(4));
    assert_eq!(ok(db.get_task("c")).status, TaskStatus::Canceled);
    assert_eq!(ok(db.get_task("d")).completed_at, Some(at(4)));
}

#[test]
fn missing_tasks_are_not_updated() {
    let mut db = MemoryDatabase::new();
    assert!(!ok(db.update_task_localizing("t")));
    assert!(!ok(db.update_task_retry_cause("t", "cause")));
    assert!(!ok(db.update_task_utilization("t", "{}")));
    assert!(matches!(db.get_task("t"), Err(DatabaseError::NotFound)));
}

#[test]
fn batches_are_applied_in_order() {
    let write = |status| TaskWrite::Create {
        name: "t".to_string(),
        run_id: Uuid::nil(),
        status,
        call_id: None,
        attempt: 0,
    };
    let mut db = MemoryDatabase::new();
    let name = || "t".to_string();
    ok(db.apply_task_writes(vec![
        TaskWrite::Localizing { name: name() },
        write(TaskStatus::Initializing),
        TaskWrite::Localizing { name: name() },
        TaskWrite::Constraints {
            name: name(),
            constraints: "c".to_string(),
        },
        TaskWrite::RetryCause {
            name: name(),
            cause: "r".to_string(),
        },
        TaskWrite::Utilization {
            name: name(),
            patch: "p".to_string(),
        },
        TaskWrite::Pending {
            name: name(),
            submitted_at: at(1),
        },
        TaskWrite::Started {
            name: name(),
            started_at: at(2),
        },
        TaskWrite::Log {
            name: name(),
            source: LogSource::Stderr,
            chunk: vec![7],
        },
        TaskWrite::Preempted {
            name: name(),
            completed_at: at(3),
        },
        TaskWrite::Completed {
            name: name(),
            exit_status: None,
            completed_at: at(4),
        },
        TaskWrite::Failed {
            name: name(),
            error: "e".to_string(),
            completed_at: at(4),
        },
        TaskWrite::Canceled {
            name: name(),
            completed_at: at(4),
        },
        TaskWrite::Cached {
            name: name(),
            completed_at: at(4),
        },
    ]));
    let record = ok(db.get_task("t"));
    assert_eq!(record.status, TaskStatus::Preempted);
    assert_eq!(record.completed_at, Some(at(3)));
    assert_eq!(record.submitted_at, Some(at(1)));
    assert_eq!(record.constraints.as_deref(), Some("c"));
    assert_eq!(record.retry_cause.as_deref(), Some("r"));
    assert_eq!(record.patches, ["p"]);
    assert_eq!(record.error, None);
    assert_eq!(db.log_count(), 1);
    assert_eq!(db.log(0).unwrap().name, "t");
    assert!(db.log(1).is_none());
    ok(db.apply_task_writes(Vec::new()));
}

#[test]
fn runs_are_moved_through_their_statuses() {
    let mut db = MemoryDatabase::new();
    for id in 1..6 {
        assert!(db.add_run(run(id)));
    }
    assert!(!db.add_run(run(1)));
    let id = |value| Uuid { value };
    ok(db.start_run(id(1), at(1)));
    assert_eq!(ok(db.get_run(id(1))).unwrap().status, RunStatus::Running);
    assert_eq!(ok(db.get_run(id(1))).unwrap().started_at, Some(at(1)));
    assert!(ok(db.mark_run_canceling(id(1))));
    assert_eq!(ok(db.get_run(id(1))).unwrap().status, RunStatus::Canceling);
    ok(db.complete_run(id(1), at(2)));
    assert_eq!(ok(db.get_run(id(1))).unwrap().completed_at, Some(at(2)));
    // A late request to cancel does not overwrite the outcome.
    assert!(!ok(db.mark_run_canceling(id(1))));
    assert_eq!(ok(db.get_run(id(1))).unwrap().status, RunStatus::Completed);
    ok(db.fail_run(id(2), "boom", at(3)));
    assert_eq!(ok(db.get_run(id(2))).unwrap().status, RunStatus::Failed);
    assert_eq!(ok(db.get_run(id(2))).unwrap().error.as_deref(), Some("boom"));
    ok(db.cancel_run(id(3), at(4)));
    assert_eq!(ok(db.get_run(id(3))).unwrap().status, RunStatus::Canceled);
    ok(db.complete_run_with_outputs(id(4), at(5), "{}"));
    assert_eq!(ok(db.get_run(id(4))).unwrap().status, RunStatus::Completed);
    assert_eq!(ok(db.get_run(id(4))).unwrap().outputs.as_deref(), Some("{}"));
    assert_eq!(ok(db.get_run(id(4))).unwrap().completed_at, Some(at(5)));
    assert!(ok(db.update_run_target(id(5), "main")));
    assert!(ok(db.update_run_directory(id(5), "d")));
    assert!(ok(db.update_run_index_directory(id(5), "i")));
    assert!(ok(db.update_run_backend(id(5), "docker")));
    assert!(ok(db.update_run_transfer_totals(id(5), "t")));
    let last = ok(db.get_run(id(5))).unwrap();
    assert_eq!(last.target.as_deref(), Some("main"));
    assert_eq!(last.directory.as_deref(), Some("d"));
    assert_eq!(last.index_directory.as_deref(), Some("i"));
    assert_eq!(last.backend.as_deref(), Some("docker"));
    assert_eq!(last.transfer_totals.as_deref(), Some("t"));
    assert!(!ok(db.update_run_target(id(9), "main")));
    ok(db.start_run(id(9), at(1)));
    assert!(ok(db.get_run(id(9))).is_none());
}

fn engine_creation() -> TaskWrite {
    TaskWrite::Create {
        name: "t".to_string(),
        run_id: Uuid::nil(),
        status: TaskStatus::Initializing,
        call_id: Some("call".to_string()),
        attempt: 3,
    }
}

fn backend_creation() -> TaskWrite {
    TaskWrite::Create {
        name: "t".to_string(),
        run_id: Uuid::nil(),
        status: TaskStatus::Pending,
        call_id: None,
        attempt: 0,
    }
}

fn submission() -> TaskWrite {
    TaskWrite::Pending {
        name: "t".to_string(),
        submitted_at: at(2),
    }
}

#[test]
fn either_channel_may_create_the_row() {
    for writes in [
        vec![engine_creation(), backend_creation(), submission()],
        vec![backend_creation(), submission(), engine_creation()],
    ] {
        let mut db = MemoryDatabase::new();
        ok(db.apply_task_writes(writes));
        let record = ok(db.get_task("t"));
        assert_eq!(record.status, TaskStatus::Pending);
        assert_eq!(record.call_id.as_deref(), Some("call"));
        assert_eq!(record.attempt, 3);
        assert_eq!(record.submitted_at, Some(at(2)));
    }
}

#[test]
fn the_first_submission_is_recorded() {
    let mut db = MemoryDatabase::new();
    created(&mut db, "t", TaskStatus::Pending);
    assert!(ok(db.update_task_pending("t", at(1))));
    assert!(!ok(db.update_task_pending("t", at(2))));
    assert!(ok(db.update_task_started("t", at(3))));
    assert!(!ok(db.update_task_pending("t", at(4))));
    let record = ok(db.get_task("t"));
    assert_eq!(record.status, TaskStatus::Running);
    assert_eq!(record.submitted_at, Some(at(1)));
    // A task that is past pending is left without one.
    created(&mut db, "running", TaskStatus::Running);
    assert!(!ok(db.update_task_pending("running", at(5))));
    assert_eq!(ok(db.get_task("running")).submitted_at, None);
    assert!(!ok(db.update_task_pending("unknown", at(5))));
}

#[test]
fn splitting_a_batch_makes_no_difference() {
    let writes = || {
        vec![
            engine_creation(),
            submission(),
            TaskWrite::Started {
                name: "t".to_string(),
                started_at: at(3),
            },
            TaskWrite::Localizing {
                name: "t".to_string(),
            },
            TaskWrite::Canceled {
                name: "t".to_string(),
                completed_at: at(4),
            },
        ]
    };
    let mut whole = MemoryDatabase::new();
    ok(whole.apply_task_writes(writes()));
    for split in 0..=writes().len() {
        let mut first = writes();
        let second = first.split_off(split);
        let mut db = MemoryDatabase::new();
        ok(db.apply_task_writes(first));
        ok(db.apply_task_writes(second));
        assert_eq!(
            format!("{:?}", ok(db.get_task("t"))),
            format!("{:?}", ok(whole.get_task("t")))
        );
    }
}

#[test]
fn writes_touch_one_task() {
    let mut db = MemoryDatabase::new();
    created(&mut db, "a", TaskStatus::Running);
    created(&mut db, "b", TaskStatus::Running);
    let before = format!("{:?}", ok(db.get_task("b")));
    assert!(ok(db.update_task_completed("a", Some(1), at(1))));
    assert_eq!(format!("{:?}", ok(db.get_task("b"))), before);
    assert_eq!(ok(db.get_task("a")).status, TaskStatus::Completed);
}

/// A database whose operations are counted, and fail from a given one on.
struct Flaky {
    calls: Vec<String>,
    fail_at: usize,
}

impl Flaky {
    fn new(fail_at: usize) -> Self {
        Flaky {
            calls: Vec::new(),
            fail_at,
        }
    }

    fn call<T>(&mut self, name: &str, value: T) -> Result<T, DatabaseError> {
        self.calls.push(name.to_string());
        if self.calls.len() > self.fail_at {
            Err(DatabaseError::Io {
                message: format!("failed at {name}"),
            })
        } else {
            Ok(value)
        }
    }
}

impl Database for Flaky {
    fn contents(&self) -> Contents {
        unreachable!("only contracts speak of the contents")
    }

    fn reliable(&self) -> bool {
        unreachable!("only contracts speak of reliability")
    }

    fn history(&self) -> History {
        unreachable!("only contracts speak of the history")
    }

    fn create_task(&mut self, _task: NewTask<'_>) -> Result<TaskRecord, DatabaseError> {
        let record = TaskRecord {
            name: _task.name.to_string(),
            run_id: _task.run_id,
            status: _task.status,
            call_id: None,
            attempt: _task.attempt,
            constraints: None,
            retry_cause: None,
            patches: Vec::new(),
            submitted_at: None,
            started_at: None,
            completed_at: None,
            exit_status: None,
            error: None,
        };
        self.call("create_task", record)
    }

    fn update_task_constraints(&mut self, _name: &str, _constraints: &str) -> Result<bool, DatabaseError> {
        self.call("update_task_constraints", false)
    }

    fn update_task_retry_cause(&mut self, _name: &str, _cause: &str) -> Result<bool, DatabaseError> {
        self.call("update_task_retry_cause", false)
    }

    fn update_task_utilization(&mut self, _name: &str, _patch: &str) -> Result<bool, DatabaseError> {
        self.call("update_task_utilization", false)
    }

    fn update_task_localizing(&mut self, _name: &str) -> Result<bool, DatabaseError> {
        self.call("update_task_localizing", false)
    }

    fn update_task_pending(&mut self, _name: &str, _submitted_at: Timestamp) -> Result<bool, DatabaseError> {
        self.call("update_task_pending", false)
    }

    fn update_task_cached(&mut self, _name: &str, _completed_at: Timestamp) -> Result<bool, DatabaseError> {
        self.call("update_task_cached", false)
    }

    fn update_task_started(&mut self, _name: &str, _started_at: Timestamp) -> Result<bool, DatabaseError> {
        self.call("update_task_started", false)
    }

    fn update_task_completed(&mut self, _name: &str, _exit_status: Option<i32>, _completed_at: Timestamp) -> Result<bool, DatabaseError> {
        self.call("update_task_completed", false)
    }

    fn update_task_failed(&mut self, _name: &str, _error: &str, _completed_at: Timestamp) -> Result<bool, DatabaseError> {
        self.call("update_task_failed", false)
    }

    fn update_task_canceled(&mut self, _name: &str, _completed_at: Timestamp) -> Result<bool, DatabaseError> {
        self.call("update_task_canceled", false)
    }

    fn update_task_preempted(&mut self, _name: &str, _completed_at: Timestamp) -> Result<bool, DatabaseError> {
        self.call("update_task_preempted", false)
    }

    fn get_task(&self, _name: &str) -> Result<TaskRecord, DatabaseError> {
        Err(DatabaseError::NotFound)
    }

    fn insert_task_log(&mut self, _task_name: &str, _source: LogSource, _chunk: &Vec<u8>) -> Result<(), DatabaseError> {
        self.call("insert_task_log", ())
    }

    fn get_run(&self, _id: Uuid) -> Result<Option<RunRecord>, DatabaseError> {
        Ok(None)
    }

    fn update_run_status(&mut self, _id: Uuid, _status: RunStatus) -> Result<(), DatabaseError> {
        self.call("update_run_status", ())
    }

    fn update_run_started_at(&mut self, _id: Uuid, _started_at: Option<Timestamp>) -> Result<(), DatabaseError> {
        self.call("update_run_started_at", ())
    }

    fn update_run_completed_at(&mut self, _id: Uuid, _completed_at: Option<Timestamp>) -> Result<(), DatabaseError> {
        self.call("update_run_completed_at", ())
    }

    fn update_run_outputs(&mut self, _id: Uuid, _outputs: &str) -> Result<(), DatabaseError> {
        self.call("update_run_outputs", ())
    }

    fn update_run_error(&mut self, _id: Uuid, _error: &str) -> Result<(), DatabaseError> {
        self.call("update_run_error", ())
    }

    fn update_run_target(&mut self, _id: Uuid, _target: &str) -> Result<bool, DatabaseError> {
        self.call("update_run_target", false)
    }

    fn update_run_directory(&mut self, _id: Uuid, _directory: &str) -> Result<bool, DatabaseError> {
        self.call("update_run_directory", false)
    }

    fn update_run_index_directory(&mut self, _id: Uuid, _index_directory: &str) -> Result<bool, DatabaseError> {
        self.call("update_run_index_directory", false)
    }

    fn update_run_backend(&mut self, _id: Uuid, _backend: &str) -> Result<bool, DatabaseError> {
        self.call("update_run_backend", false)
    }

    fn update_run_transfer_totals(&mut self, _id: Uuid, _transfer_totals: &str) -> Result<bool, DatabaseError> {
        self.call("update_run_transfer_totals", false)
    }

    fn mark_run_canceling(&mut self, _id: Uuid) -> Result<bool, DatabaseError> {
        self.call("mark_run_canceling", false)
    }
}

fn failure(result: Result<(), DatabaseError>) -> String {
    match result {
        Ok(()) => "none".to_string(),
        Err(error) => error.message(),
    }
}

#[test]
fn batches_stop_at_the_first_error() {
    let writes = || {
        vec![
            engine_creation(),
            submission(),
            TaskWrite::Localizing {
                name: "t".to_string(),
            },
            TaskWrite::Log {
                name: "t".to_string(),
                source: LogSource::Stdout,
                chunk: vec![1],
            },
        ]
    };
    let names = [
        "create_task",
        "update_task_pending",
        "update_task_localizing",
        "insert_task_log",
    ];
    for fail_at in 0..names.len() {
        let mut db = Flaky::new(fail_at);
        let result = db.apply_task_writes(writes());
        assert_eq!(failure(result), format!("failed at {}", names[fail_at]));
        assert_eq!(db.calls, names[..=fail_at]);
    }
    let mut db = Flaky::new(names.len());
    assert_eq!(failure(db.apply_task_writes(writes())), "none");
    assert_eq!(db.calls, names);
}

#[test]
fn run_transitions_stop_at_the_first_error() {
    let id = Uuid::nil();
    type Transition = fn(&mut Flaky, Uuid) -> Result<(), DatabaseError>;
    let transitions: Vec<(Transition, Vec<&str>)> = vec![
        (
            |db, id| db.start_run(id, at(1)),
            vec!["update_run_status", "update_run_started_at"],
        ),
        (
            |db, id| db.complete_run(id, at(1)),
            vec!["update_run_status", "update_run_completed_at"],
        ),
        (
            |db, id| db.fail_run(id, "boom", at(1)),
            vec![
                "update_run_status",
                "update_run_error",
                "update_run_completed_at",
            ],
        ),
        (
            |db, id| db.cancel_run(id, at(1)),
            vec!["update_run_status", "update_run_completed_at"],
        ),
        (
            |db, id| db.complete_run_with_outputs(id, at(1), "{}"),
            vec![
                "update_run_outputs",
                "update_run_status",
                "update_run_completed_at",
            ],
        ),
    ];
    for (transition, names) in transitions {
        for fail_at in 0..names.len() {
            let mut db = Flaky::new(fail_at);
            let result = transition(&mut db, id);
            assert_eq!(failure(result), format!("failed at {}", names[fail_at]));
            assert_eq!(db.calls, names[..=fail_at]);
        }
        let mut db = Flaky::new(names.len());
        assert_eq!(failure(transition(&mut db, id)), "none");
        assert_eq!(db.calls, names);
    }
}
