//! Collection of execution metrics from engine and backend events.
//!
//! A server persists metrics to its database through the task monitor; local
//! runs have no database, so the collector accumulates the same information
//! directly from the event streams and renders it into the same response shape
//! that a server reports.

use std::collections::hash_map::RandomState;
use std::collections::HashMap;

use indexmap::IndexMap;
use vstd::prelude::*;
use vstd::string::*;

use crate::db::{first_of, larger};
use crate::events::{
    event_id, last_code, record_attempt, recorded_attempt, CrankshaftEvent, EngineEvent,
};
use crate::json::Json;
use crate::metrics::{
    build_run_metrics, checked_build_run_metrics, sorted_tasks, summarizes,
    totals_fit, CallMetrics, RunMetricsResponse, RunMetricsRun, Task,
};
use crate::status::{rank, status_rank, RunStatus, TaskStatus};
use crate::text::{begins_with, copy_opt, opt_view, starts_with};
use crate::time::{millis_between, Timestamp};
use crate::uuid::Uuid;

verus! {

/// A single execution attempt observed from the event streams.
#[derive(Debug)]
pub struct AttemptRecord {
    /// The stable call path, when the engine announced it.
    pub call_id: Option<String>,
    /// The 0-based attempt number within the call.
    pub attempt: i64,
    /// The current status of the attempt.
    pub status: TaskStatus,
    /// The exit status, when the attempt completed execution.
    pub exit_status: Option<i32>,
    /// The resolved execution constraints, when the attempt reached a backend.
    pub constraints: Option<Json>,
    /// Why the attempt was retried, when it was.
    pub retry_cause: Option<Json>,
    /// The resource utilization observed for the attempt, when the backend
    /// reported it.
    pub utilization: Option<Json>,
    /// When the attempt was first observed.
    pub created_at: Timestamp,
    /// When the attempt started executing.
    pub started_at: Option<Timestamp>,
    /// When the attempt reached a terminal status.
    pub completed_at: Option<Timestamp>,
}

/// What is known of an attempt.
pub struct Attempt {
    /// The stable call path, when the engine announced it.
    pub call_id: Option<Seq<char>>,
    /// The 0-based attempt number within the call.
    pub attempt: i64,
    /// The current status of the attempt.
    pub status: TaskStatus,
    /// The exit status, when the attempt completed execution.
    pub exit_status: Option<i32>,
    /// The resolved execution constraints.
    pub constraints: Option<Json>,
    /// Why the attempt was retried.
    pub retry_cause: Option<Json>,
    /// The observed resource utilization.
    pub utilization: Option<Json>,
    /// When the attempt was first observed.
    pub created_at: Timestamp,
    /// When the attempt started executing.
    pub started_at: Option<Timestamp>,
    /// When the attempt reached a terminal status.
    pub completed_at: Option<Timestamp>,
}

impl View for AttemptRecord {
    type V = Attempt;

    open spec fn view(&self) -> Attempt {
        Attempt {
            call_id: opt_view(self.call_id),
            attempt: self.attempt,
            status: self.status,
            exit_status: self.exit_status,
            constraints: self.constraints,
            retry_cause: self.retry_cause,
            utilization: self.utilization,
            created_at: self.created_at,
            started_at: self.started_at,
            completed_at: self.completed_at,
        }
    }
}

/// A hash map that keeps its entries in the order of their insertion.
#[verifier::external_type_specification]
#[verifier::external_body]
#[verifier::reject_recursive_types(K)]
#[verifier::reject_recursive_types(V)]
#[verifier::reject_recursive_types(S)]
pub struct ExIndexMap<K, V, S>(indexmap::IndexMap<K, V, S>);

/// The entries of a map of attempts by name, in the order of their insertion.
pub uninterp spec fn attempt_entries(map: IndexMap<String, AttemptRecord, RandomState>) -> Seq<
    (String, AttemptRecord),
>;

/// The position of the first entry under `name`, or the number of entries.
pub open spec fn entry_position(entries: Seq<(String, AttemptRecord)>, name: Seq<char>) -> int
    decreases entries.len(),
{
    if entries.len() == 0 {
        0
    } else if entries[0].0@ == name {
        0
    } else {
        1 + entry_position(entries.drop_first(), name)
    }
}

/// Makes an empty map.
///
/// This is `indexmap::IndexMap::new`. It is trusted to give a map without
/// entries.
#[verifier::external_body]
fn new_map() -> (r: IndexMap<String, AttemptRecord, RandomState>)
    ensures
        attempt_entries(r) == Seq::<(String, AttemptRecord)>::empty(),
{
    IndexMap::new()
}

/// Gives access to the record under a name, which is added if there is none.
///
/// This is `indexmap::IndexMap::entry` and `Entry::or_insert`. It is trusted to
/// find an entry by the characters of its name, to leave a found entry in its
/// place, and to add a missing one behind all others.
#[verifier::external_body]
fn entry_or_insert(
    map: &mut IndexMap<String, AttemptRecord, RandomState>,
    name: String,
    record: AttemptRecord,
) -> (r: &mut AttemptRecord)
    ensures
        ({
            let before = attempt_entries(*old(map));
            let at = entry_position(before, name@);
            if at < before.len() {
                *r == before[at].1 && attempt_entries(*final(map)) == before.update(
                    at,
                    (before[at].0, *final(r)),
                )
            } else {
                *r == record && attempt_entries(*final(map)) == before.push((name, *final(r)))
            }
        }),
{
    map.entry(name).or_insert(record)
}

/// Finds the record under a name.
///
/// This is `indexmap::IndexMap::get`. It is trusted to find an entry by the
/// characters of its name.
#[verifier::external_body]
fn find_record<'a>(map: &'a IndexMap<String, AttemptRecord, RandomState>, name: &str) -> (r: Option<
    &'a AttemptRecord,
>)
    ensures
        ({
            let entries = attempt_entries(*map);
            let at = entry_position(entries, name@);
            match r {
                Some(record) => at < entries.len() && *record == entries[at].1,
                None => at == entries.len(),
            }
        }),
{
    map.get(name)
}

/// Takes the entries out of a map.
///
/// This is `into_iter` on an `indexmap::IndexMap`. It is trusted to give the
/// entries in the order of their insertion.
#[verifier::external_body]
fn into_entries(map: IndexMap<String, AttemptRecord, RandomState>) -> (r: Vec<
    (String, AttemptRecord),
>)
    ensures
        r@ == attempt_entries(map),
{
    map.into_iter().collect()
}

/// What the collector knows.
#[verifier::ext_equal]
pub struct Collected {
    /// How the names of tasks begin that a backend runs on its own behalf.
    pub cleanup_prefix: Seq<char>,
    /// The attempts by name, in the order in which they were first observed.
    pub attempts: Seq<(Seq<char>, Attempt)>,
    /// The names of the backends' tasks.
    pub names: Map<u64, Seq<char>>,
}

/// What a collector knows that has observed nothing.
pub open spec fn nothing_observed(cleanup_prefix: Seq<char>) -> Collected {
    Collected { cleanup_prefix, attempts: Seq::empty(), names: Map::empty() }
}

/// The position of the first attempt under `name`, or the number of attempts.
pub open spec fn attempt_position(attempts: Seq<(Seq<char>, Attempt)>, name: Seq<char>) -> int
    decreases attempts.len(),
{
    if attempts.len() == 0 {
        0
    } else if attempts[0].0 == name {
        0
    } else {
        1 + attempt_position(attempts.drop_first(), name)
    }
}

/// Whether an attempt was observed.
pub open spec fn is_observed(collected: Collected, name: Seq<char>) -> bool {
    attempt_position(collected.attempts, name) < collected.attempts.len()
}

/// What is known of an attempt that was observed.
pub open spec fn attempt_of(collected: Collected, name: Seq<char>) -> Attempt {
    collected.attempts[attempt_position(collected.attempts, name)].1
}

/// An attempt first observed at the given time.
pub open spec fn new_attempt(
    call_id: Option<Seq<char>>,
    attempt: i64,
    status: TaskStatus,
    now: Timestamp,
) -> Attempt {
    Attempt {
        call_id,
        attempt,
        status,
        exit_status: None,
        constraints: None,
        retry_cause: None,
        utilization: None,
        created_at: now,
        started_at: None,
        completed_at: None,
    }
}

/// What is known of an attempt once it was observed: the first observation makes
/// it known, and a later one fills in the call path and raises the attempt
/// number.
pub open spec fn observed(
    before: Collected,
    name: Seq<char>,
    call_id: Option<Seq<char>>,
    attempt: i64,
    status: TaskStatus,
    now: Timestamp,
) -> Attempt {
    if is_observed(before, name) {
        let known = attempt_of(before, name);
        Attempt {
            call_id: first_of(known.call_id, call_id),
            attempt: larger(known.attempt, attempt),
            ..known
        }
    } else {
        new_attempt(call_id, attempt, status, now)
    }
}

/// What the collector knows when it knows `attempt` under `name`.
pub open spec fn with_attempt(before: Collected, name: Seq<char>, attempt: Attempt) -> Collected {
    let at = attempt_position(before.attempts, name);
    Collected {
        attempts: if at < before.attempts.len() {
            before.attempts.update(at, (name, attempt))
        } else {
            before.attempts.push((name, attempt))
        },
        ..before
    }
}

/// An attempt whose status has advanced, unless it had advanced further.
pub open spec fn advanced_to(attempt: Attempt, status: TaskStatus) -> Attempt {
    if rank(status) > rank(attempt.status) {
        Attempt { status, ..attempt }
    } else {
        attempt
    }
}

/// What the collector knows after an attempt was seen to reach a status.
pub open spec fn after_advance(
    before: Collected,
    name: Seq<char>,
    status: TaskStatus,
    now: Timestamp,
) -> Collected {
    with_attempt(before, name, advanced_to(observed(before, name, None, 0, status, now), status))
}

/// An attempt that has reached a terminal status, unless it had done so before.
pub open spec fn finished(
    attempt: Attempt,
    status: TaskStatus,
    exit_status: Option<i32>,
    now: Timestamp,
) -> Attempt {
    if rank(attempt.status) < rank(status) || attempt.completed_at is None {
        Attempt { status, exit_status, completed_at: Some(now), ..attempt }
    } else {
        attempt
    }
}

/// What the collector knows after an attempt was seen to reach a terminal
/// status; `first` is when it is first observed, if it had not been before.
pub open spec fn after_finish(
    before: Collected,
    name: Seq<char>,
    status: TaskStatus,
    exit_status: Option<i32>,
    first: Timestamp,
    second: Timestamp,
) -> Collected {
    with_attempt(
        before,
        name,
        finished(observed(before, name, None, 0, status, first), status, exit_status, second),
    )
}

/// What the collector knows after an engine event, which may be the first
/// observation of up to two attempts; `first` and `second` are successive
/// readings of the clock.
pub open spec fn after_engine(
    before: Collected,
    event: EngineEvent,
    first: Timestamp,
    second: Timestamp,
) -> Collected {
    match event {
        EngineEvent::TaskInitializing { id, name, attempt } => with_attempt(
            before,
            name@,
            observed(
                before,
                name@,
                Some(id@),
                recorded_attempt(attempt),
                TaskStatus::Initializing,
                first,
            ),
        ),
        EngineEvent::TaskLocalizing { name } => after_advance(
            before,
            name@,
            TaskStatus::Localizing,
            first,
        ),
        EngineEvent::TaskExecuting { name, constraints } => with_attempt(
            before,
            name@,
            Attempt {
                constraints,
                ..observed(before, name@, None, 0, TaskStatus::Initializing, first)
            },
        ),
        EngineEvent::TaskRetrying { prior_name, next_name, attempt: _, cause } => {
            // The successor inherits the call id and attempt number.
            let prior = Attempt {
                retry_cause: cause,
                ..observed(before, prior_name@, None, 0, TaskStatus::Initializing, first)
            };
            let middle = with_attempt(before, prior_name@, prior);
            with_attempt(
                middle,
                next_name@,
                observed(
                    middle,
                    next_name@,
                    prior.call_id,
                    prior.attempt,
                    TaskStatus::Initializing,
                    second,
                ),
            )
        },
        EngineEvent::ReusedCachedExecutionResult { id, name } => with_attempt(
            before,
            name@,
            Attempt {
                status: TaskStatus::Cached,
                completed_at: Some(second),
                ..observed(before, name@, Some(id@), 0, TaskStatus::Initializing, first)
            },
        ),
        EngineEvent::TaskUtilization { name, utilization } => with_attempt(
            before,
            name@,
            Attempt {
                utilization,
                ..observed(before, name@, None, 0, TaskStatus::Initializing, first)
            },
        ),
        _ => before,
    }
}

/// What the collector knows after a backend event about the task `name`, which
/// was created before.
pub open spec fn after_task(
    before: Collected,
    name: Seq<char>,
    event: CrankshaftEvent,
    first: Timestamp,
    second: Timestamp,
) -> Collected {
    match event {
        CrankshaftEvent::TaskStarted { .. } => {
            let running = advanced_to(
                observed(before, name, None, 0, TaskStatus::Running, first),
                TaskStatus::Running,
            );
            with_attempt(
                before,
                name,
                Attempt { started_at: first_of(running.started_at, Some(second)), ..running },
            )
        },
        CrankshaftEvent::TaskCompleted { exit_codes, .. } => after_finish(
            before,
            name,
            TaskStatus::Completed,
            last_code(exit_codes),
            first,
            second,
        ),
        CrankshaftEvent::TaskFailed { .. } => after_finish(
            before,
            name,
            TaskStatus::Failed,
            None,
            first,
            second,
        ),
        CrankshaftEvent::TaskCanceled { .. } => after_finish(
            before,
            name,
            TaskStatus::Canceled,
            None,
            first,
            second,
        ),
        CrankshaftEvent::TaskPreempted { .. } => after_finish(
            before,
            name,
            TaskStatus::Preempted,
            None,
            first,
            second,
        ),
        _ => before,
    }
}

/// What the collector knows after a backend event.
pub open spec fn after_crankshaft(
    before: Collected,
    event: CrankshaftEvent,
    first: Timestamp,
    second: Timestamp,
) -> Collected {
    match event {
        CrankshaftEvent::TaskCreated { id, name } => if begins_with(name@, before.cleanup_prefix) {
            before
        } else {
            after_advance(
                Collected { names: before.names.insert(id, name@), ..before },
                name@,
                TaskStatus::Pending,
                first,
            )
        },
        _ => if before.names.contains_key(event_id(event)) {
            after_task(before, before.names[event_id(event)], event, first, second)
        } else {
            before
        },
    }
}

/// The record of an attempt as a task of a run.
pub open spec fn task_of(entry: (String, AttemptRecord), run_uuid: Uuid) -> Task {
    Task {
        name: entry.0,
        run_uuid,
        status: entry.1.status,
        exit_status: entry.1.exit_status,
        error: None,
        call_id: entry.1.call_id,
        attempt: entry.1.attempt,
        constraints: entry.1.constraints,
        retry_cause: entry.1.retry_cause,
        utilization: entry.1.utilization,
        created_at: entry.1.created_at,
        submitted_at: None,
        started_at: entry.1.started_at,
        completed_at: entry.1.completed_at,
    }
}

/// The attempts as tasks of a run.
pub open spec fn tasks_of(entries: Seq<(String, AttemptRecord)>, run_uuid: Uuid) -> Seq<Task> {
    Seq::new(entries.len(), |i: int| task_of(entries[i], run_uuid))
}

/// Whether `task` is the attempt under `name`, as a task of a run.
pub open spec fn is_task_of(task: Task, name: Seq<char>, attempt: Attempt, run_uuid: Uuid) -> bool {
    &&& task.name@ == name
    &&& task.run_uuid == run_uuid
    &&& task.status == attempt.status
    &&& task.exit_status == attempt.exit_status
    &&& task.error is None
    &&& opt_view(task.call_id) == attempt.call_id
    &&& task.attempt == attempt.attempt
    &&& task.constraints == attempt.constraints
    &&& task.retry_cause == attempt.retry_cause
    &&& task.utilization == attempt.utilization
    &&& task.created_at == attempt.created_at
    &&& task.submitted_at is None
    &&& task.started_at == attempt.started_at
    &&& task.completed_at == attempt.completed_at
}

/// Whether `tasks` are the attempts, as tasks of a run.
pub open spec fn are_tasks_of(tasks: Seq<Task>, collected: Collected, run_uuid: Uuid) -> bool {
    &&& tasks.len() == collected.attempts.len()
    &&& forall|i: int|
        0 <= i < tasks.len() ==> is_task_of(
            #[trigger] tasks[i],
            collected.attempts[i].0,
            collected.attempts[i].1,
            run_uuid,
        )
}

/// Whether the log reference of each attempt of a call is the attempt's name.
pub open spec fn logs_are_names(call: CallMetrics) -> bool {
    forall|j: int|
        0 <= j < call.attempts@.len() ==> (#[trigger] call.attempts@[j]).logs@
            == call.attempts@[j].name@
}

/// Whether the log reference of each attempt is the attempt's name.
pub open spec fn all_logs_are_names(response: RunMetricsResponse) -> bool {
    forall|i: int|
        0 <= i < response.calls@.len() ==> logs_are_names(#[trigger] response.calls@[i])
}

/// The entries of a map of attempts, as far as they are known.
pub open spec fn known_attempts(entries: Seq<(String, AttemptRecord)>) -> Seq<
    (Seq<char>, Attempt),
> {
    Seq::new(entries.len(), |i: int| (entries[i].0@, entries[i].1@))
}

/// Attempts are found by name alike in either form.
proof fn lemma_known_position(entries: Seq<(String, AttemptRecord)>, name: Seq<char>)
    ensures
        attempt_position(known_attempts(entries), name) == entry_position(entries, name),
        0 <= entry_position(entries, name) <= entries.len(),
        entry_position(entries, name) < entries.len() ==> entries[entry_position(
            entries,
            name,
        )].0@ == name,
    decreases entries.len(),
{
    if entries.len() > 0 {
        lemma_known_position(entries.drop_first(), name);
        assert(known_attempts(entries).drop_first() =~= known_attempts(entries.drop_first()));
    }
}

/// Accumulates execution metrics from the engine and backend event streams.
#[derive(Debug)]
pub struct MetricsCollector {
    cleanup_prefix: String,
    attempts: IndexMap<String, AttemptRecord, RandomState>,
    task_names: HashMap<u64, String>,
}

impl View for MetricsCollector {
    type V = Collected;

    closed spec fn view(&self) -> Collected {
        Collected {
            cleanup_prefix: self.cleanup_prefix@,
            attempts: known_attempts(attempt_entries(self.attempts)),
            names: self.task_names@.map_values(|text: String| text@),
        }
    }
}

impl AttemptRecord {
    /// Creates a record for an attempt first observed at the given time.
    fn new(call_id: Option<String>, attempt: i64, status: TaskStatus, now: Timestamp) -> (r: Self)
        ensures
            r@ == new_attempt(opt_view(call_id), attempt, status, now),
    {
        AttemptRecord {
            call_id,
            attempt,
            status,
            exit_status: None,
            constraints: None,
            retry_cause: None,
            utilization: None,
            created_at: now,
            started_at: None,
            completed_at: None,
        }
    }
}

/// The characters of an optional text.
pub open spec fn opt_str(text: Option<&str>) -> Option<Seq<char>> {
    match text {
        Some(text) => Some(text@),
        None => None,
    }
}

impl MetricsCollector {
    /// Gets an attempt record, creating it if this is the first observation.
    fn attempt(
        &mut self,
        name: &str,
        call_id: Option<&str>,
        attempt: i64,
        status: TaskStatus,
        now: Timestamp,
    ) -> (r: &mut AttemptRecord)
        ensures
            r@ == observed(old(self)@, name@, opt_str(call_id), attempt, status, now),
            final(self)@ == with_attempt(old(self)@, name@, final(r)@),
    {
        let ghost before = attempt_entries(self.attempts);
        proof {
            lemma_known_position(before, name@);
        }
        let given = match call_id {
            Some(id) => Some(id.to_owned()),
            None => None,
        };
        let record = AttemptRecord::new(copy_opt(&given), attempt, status, now);
        let found = entry_or_insert(&mut self.attempts, name.to_owned(), record);
        // Whichever channel observes the attempt first creates the record; only
        // the engine's announcement carries the call id and attempt number, so
        // fill them in when they arrive late.
        if found.call_id.is_none() {
            found.call_id = given;
        }
        if found.attempt < attempt {
            found.attempt = attempt;
        }
        found
    }

    /// Makes a collector that has observed nothing.
    ///
    /// Tasks whose name begins with `cleanup_prefix` are those that a backend
    /// runs on its own behalf rather than on behalf of a task of the run.
    pub fn new(cleanup_prefix: String) -> (r: Self)
        ensures
            r@ == nothing_observed(cleanup_prefix@),
    {
        broadcast use vstd::std_specs::hash::group_hash_axioms;

        let r = MetricsCollector {
            cleanup_prefix,
            attempts: new_map(),
            task_names: HashMap::new(),
        };
        proof {
            assert(r@.attempts =~= Seq::<(Seq<char>, Attempt)>::empty());
            assert(r@.names =~= Map::<u64, Seq<char>>::empty());
        }
        r
    }

    /// The record of an attempt.
    pub fn record(&self, name: &str) -> (r: Option<&AttemptRecord>)
        ensures
            match r {
                Some(record) => is_observed(self@, name@) && record@ == attempt_of(self@, name@),
                None => !is_observed(self@, name@),
            },
    {
        proof {
            lemma_known_position(attempt_entries(self.attempts), name@);
        }
        find_record(&self.attempts, name)
    }

    /// Advances an attempt's status at the given time, keeping transitions
    /// monotonic.
    pub fn advance_at(&mut self, name: &str, status: TaskStatus, now: Timestamp)
        ensures
            final(self)@ == after_advance(old(self)@, name@, status, now),
    {
        let record = self.attempt(name, None, 0, status, now);
        if status_rank(status) > status_rank(record.status) {
            record.status = status;
        }
    }

    /// Advances an attempt's status, keeping transitions monotonic.
    pub fn advance(&mut self, name: &str, status: TaskStatus)
        ensures
            exists|now: Timestamp| final(self)@ == #[trigger] after_advance(
                old(self)@,
                name@,
                status,
                now,
            ),
    {
        let now = Timestamp::now();
        self.advance_at(name, status, now);
    }

    /// Records an attempt reaching a terminal status.
    fn finish(
        &mut self,
        name: &str,
        status: TaskStatus,
        exit_status: Option<i32>,
        first: Timestamp,
        second: Timestamp,
    )
        ensures
            final(self)@ == after_finish(old(self)@, name@, status, exit_status, first, second),
    {
        let record = self.attempt(name, None, 0, status, first);
        if status_rank(record.status) < status_rank(status) || record.completed_at.is_none() {
            record.status = status;
            record.exit_status = exit_status;
            record.completed_at = Some(second);
        }
    }

    /// Handles an engine event, given successive readings of the clock.
    pub fn handle_engine_event_at(
        &mut self,
        event: EngineEvent,
        first: Timestamp,
        second: Timestamp,
    )
        ensures
            final(self)@ == after_engine(old(self)@, event, first, second),
    {
        match event {
            EngineEvent::TaskInitializing { id, name, attempt } => {
                let attempt: i64 = record_attempt(attempt);
                self.attempt(
                    name.as_str(),
                    Some(id.as_str()),
                    attempt,
                    TaskStatus::Initializing,
                    first,
                );
            },
            EngineEvent::TaskLocalizing { name } => {
                self.advance_at(name.as_str(), TaskStatus::Localizing, first);
            },
            EngineEvent::TaskExecuting { name, constraints } => {
                let record = self.attempt(
                    name.as_str(),
                    None,
                    0,
                    TaskStatus::Initializing,
                    first,
                );
                record.constraints = constraints;
            },
            EngineEvent::TaskRetrying { prior_name, next_name, attempt: _, cause } => {
                // Record the cause on the attempt that failed and create the
                // successor, inheriting the call id and attempt number. An
                // evaluator retry is followed by an announcement that raises
                // the attempt number; a backend-local resubmission is not, and
                // remains part of the same attempt.
                let record = self.attempt(
                    prior_name.as_str(),
                    None,
                    0,
                    TaskStatus::Initializing,
                    first,
                );
                record.retry_cause = cause;
                let call_id = copy_opt(&record.call_id);
                let attempt: i64 = record.attempt;
                let inherited = match &call_id {
                    Some(id) => Some(id.as_str()),
                    None => None,
                };
                self.attempt(
                    next_name.as_str(),
                    inherited,
                    attempt,
                    TaskStatus::Initializing,
                    second,
                );
            },
            EngineEvent::ReusedCachedExecutionResult { id, name } => {
                let record = self.attempt(
                    name.as_str(),
                    Some(id.as_str()),
                    0,
                    TaskStatus::Initializing,
                    first,
                );
                record.status = TaskStatus::Cached;
                record.completed_at = Some(second);
            },
            EngineEvent::TaskUtilization { name, utilization } => {
                let record = self.attempt(
                    name.as_str(),
                    None,
                    0,
                    TaskStatus::Initializing,
                    first,
                );
                record.utilization = utilization;
            },
            EngineEvent::TaskUsageMeasured { name: _, usage: _ } => {},
            EngineEvent::TaskParked | EngineEvent::TaskUnparked => {},
        }
    }

    /// Handles an engine event.
    pub fn handle_engine_event(&mut self, event: EngineEvent)
        ensures
            exists|first: Timestamp, second: Timestamp| final(self)@ == #[trigger] after_engine(
                old(self)@,
                event,
                first,
                second,
            ),
    {
        let first = Timestamp::now();
        let second = Timestamp::now();
        self.handle_engine_event_at(event, first, second);
    }

    /// The name of a backend's task.
    fn task_name(&self, id: u64) -> (r: Option<String>)
        ensures
            match r {
                Some(name) => self@.names.contains_key(id) && name@ == self@.names[id],
                None => !self@.names.contains_key(id),
            },
    {
        broadcast use vstd::std_specs::hash::group_hash_axioms;

        match self.task_names.get(&id) {
            Some(name) => Some(name.clone()),
            None => None,
        }
    }

    /// Handles a backend event, given successive readings of the clock.
    pub fn handle_crankshaft_event_at(
        &mut self,
        event: CrankshaftEvent,
        first: Timestamp,
        second: Timestamp,
    )
        ensures
            final(self)@ == after_crankshaft(old(self)@, event, first, second),
    {
        broadcast use vstd::std_specs::hash::group_hash_axioms;

        match event {
            CrankshaftEvent::TaskCreated { id, name } => {
                // Work a backend runs on its own behalf is not a task of the
                // workflow.
                if starts_with(name.as_str(), self.cleanup_prefix.as_str()) {
                    return ;
                }
                let ghost before = self@;
                self.task_names.insert(id, name.clone());
                proof {
                    assert(self@ =~= Collected { names: before.names.insert(id, name@), ..before });
                }
                self.advance_at(name.as_str(), TaskStatus::Pending, first);
            },
            CrankshaftEvent::TaskStarted { id } => {
                match self.task_name(id) {
                    Some(name) => {
                        let record = self.attempt(
                            name.as_str(),
                            None,
                            0,
                            TaskStatus::Running,
                            first,
                        );
                        if status_rank(record.status) < status_rank(TaskStatus::Running) {
                            record.status = TaskStatus::Running;
                        }
                        if record.started_at.is_none() {
                            record.started_at = Some(second);
                        }
                    },
                    None => {},
                }
            },
            CrankshaftEvent::TaskCompleted { id, exit_codes } => {
                match self.task_name(id) {
                    Some(name) => {
                        let exit_status = exit_codes.last();
                        self.finish(
                            name.as_str(),
                            TaskStatus::Completed,
                            exit_status,
                            first,
                            second,
                        );
                    },
                    None => {},
                }
            },
            CrankshaftEvent::TaskFailed { id, message: _ } => {
                match self.task_name(id) {
                    Some(name) => {
                        self.finish(name.as_str(), TaskStatus::Failed, None, first, second);
                    },
                    None => {},
                }
            },
            CrankshaftEvent::TaskCanceled { id } => {
                match self.task_name(id) {
                    Some(name) => {
                        self.finish(name.as_str(), TaskStatus::Canceled, None, first, second);
                    },
                    None => {},
                }
            },
            CrankshaftEvent::TaskPreempted { id } => {
                match self.task_name(id) {
                    Some(name) => {
                        self.finish(name.as_str(), TaskStatus::Preempted, None, first, second);
                    },
                    None => {},
                }
            },
            _ => {},
        }
    }

    /// Handles a backend event.
    pub fn handle_crankshaft_event(&mut self, event: CrankshaftEvent)
        ensures
            exists|first: Timestamp, second: Timestamp| final(self)@ == #[trigger] after_crankshaft(
                old(self)@,
                event,
                first,
                second,
            ),
    {
        let first = Timestamp::now();
        let second = Timestamp::now();
        self.handle_crankshaft_event_at(event, first, second);
    }

    /// The collected attempts, as tasks of a run.
    pub closed spec fn tasks(self, run_uuid: Uuid) -> Seq<Task> {
        tasks_of(attempt_entries(self.attempts), run_uuid)
    }

    /// The tasks of a run are the attempts that the collector knows.
    pub proof fn lemma_tasks(self, run_uuid: Uuid)
        ensures
            are_tasks_of(self.tasks(run_uuid), self@, run_uuid),
    {
    }

    /// Turns the collected attempts into the tasks of a run, in the order in
    /// which they were first observed.
    pub fn into_tasks(self, run_uuid: Uuid) -> (r: Vec<Task>)
        ensures
            r@ == self.tasks(run_uuid),
            are_tasks_of(r@, self@, run_uuid),
    {
        let ghost all = attempt_entries(self.attempts);
        let entries = into_entries(self.attempts);
        let mut tasks: Vec<Task> = Vec::new();
        for entry in it: entries
            invariant
                it.seq() == all,
                tasks@ == tasks_of(all.take(it.index()), run_uuid),
        {
            let ghost row = task_of(entry, run_uuid);
            let (name, record) = entry;
            let task = Task {
                name,
                run_uuid,
                status: record.status,
                exit_status: record.exit_status,
                error: None,
                call_id: record.call_id,
                attempt: record.attempt,
                constraints: record.constraints,
                retry_cause: record.retry_cause,
                utilization: record.utilization,
                created_at: record.created_at,
                submitted_at: None,
                started_at: record.started_at,
                completed_at: record.completed_at,
            };
            tasks.push(task);
            proof {
                assert(task == row);
                assert(tasks_of(all.take(it.index() + 1), run_uuid) =~= tasks_of(
                    all.take(it.index()),
                    run_uuid,
                ).push(row));
            }
        }
        proof {
            assert(all.take(all.len() as int) =~= all);
        }
        tasks
    }

    /// Renders the collected metrics into the shared response shape.
    ///
    /// Log references are best-effort relative paths within the run directory,
    /// pointing at each attempt's directory.
    pub fn into_response(self, run: RunMetricsRun) -> (r: RunMetricsResponse)
        requires
            totals_fit(sorted_tasks(self.tasks(run.uuid))),
        ensures
            summarizes(r, run, sorted_tasks(self.tasks(run.uuid))),
            all_logs_are_names(r),
    {
        let tasks = self.into_tasks(run.uuid);
        let logs_for = |name: &str| -> (logs: String)
            ensures
                logs@ == name@,
            { name.to_owned() };
        build_run_metrics(run, tasks, logs_for)
    }

    /// Renders the collected metrics, unless a total over the attempts
    /// overflows.
    pub fn checked_into_response(self, run: RunMetricsRun) -> (r: Option<RunMetricsResponse>)
        ensures
            match r {
                Some(response) => {
                    &&& totals_fit(sorted_tasks(self.tasks(run.uuid)))
                    &&& summarizes(response, run, sorted_tasks(self.tasks(run.uuid)))
                    &&& all_logs_are_names(response)
                },
                None => !totals_fit(sorted_tasks(self.tasks(run.uuid))),
            },
    {
        let tasks = self.into_tasks(run.uuid);
        let logs_for = |name: &str| -> (logs: String)
            ensures
                logs@ == name@,
            { name.to_owned() };
        checked_build_run_metrics(run, tasks, logs_for)
    }
}

/// What is received while metrics are collected.
pub enum Received {
    /// A backend event.
    Crankshaft(CrankshaftEvent),
    /// An engine event.
    Engine(EngineEvent),
    /// A channel dropped events because the collection could not keep up.
    Lagged,
    /// The backend channel closed.
    CrankshaftClosed,
    /// The engine channel closed.
    EngineClosed,
}

/// A collection of execution metrics that goes on until both event streams
/// close.
pub struct MetricsCollection {
    /// The collector.
    pub collector: MetricsCollector,
    /// Whether the backend channel is open.
    pub crankshaft_open: bool,
    /// Whether the engine channel is open.
    pub engine_open: bool,
}

/// What the collector knows after what was received.
pub open spec fn after_received(
    before: Collected,
    received: Received,
    first: Timestamp,
    second: Timestamp,
) -> Collected {
    match received {
        Received::Crankshaft(event) => after_crankshaft(before, event, first, second),
        Received::Engine(event) => after_engine(before, event, first, second),
        _ => before,
    }
}

impl MetricsCollection {
    /// Starts collecting, with both channels open.
    pub fn new(collector: MetricsCollector) -> (r: Self)
        ensures
            r.collector == collector,
            r.crankshaft_open,
            r.engine_open,
    {
        MetricsCollection { collector, crankshaft_open: true, engine_open: true }
    }

    /// Takes in what was received, given successive readings of the clock.
    /// Returns whether a channel is still open.
    pub fn receive_at(&mut self, received: Received, first: Timestamp, second: Timestamp) -> (r:
        bool)
        ensures
            final(self).collector@ == after_received(
                old(self).collector@,
                received,
                first,
                second,
            ),
            final(self).crankshaft_open == (old(self).crankshaft_open && !(
            received is CrankshaftClosed)),
            final(self).engine_open == (old(self).engine_open && !(received is EngineClosed)),
            r == (final(self).crankshaft_open || final(self).engine_open),
    {
        match received {
            Received::Crankshaft(event) => {
                self.collector.handle_crankshaft_event_at(event, first, second);
            },
            Received::Engine(event) => {
                self.collector.handle_engine_event_at(event, first, second);
            },
            Received::Lagged => {},
            Received::CrankshaftClosed => {
                self.crankshaft_open = false;
            },
            Received::EngineClosed => {
                self.engine_open = false;
            },
        }
        self.crankshaft_open || self.engine_open
    }

    /// Takes in what was received. Returns whether a channel is still open.
    pub fn receive(&mut self, received: Received) -> (r: bool)
        ensures
            exists|first: Timestamp, second: Timestamp|
                final(self).collector@ == #[trigger] after_received(
                    old(self).collector@,
                    received,
                    first,
                    second,
                ),
            final(self).crankshaft_open == (old(self).crankshaft_open && !(
            received is CrankshaftClosed)),
            final(self).engine_open == (old(self).engine_open && !(received is EngineClosed)),
            r == (final(self).crankshaft_open || final(self).engine_open),
    {
        let first = Timestamp::now();
        let second = Timestamp::now();
        self.receive_at(received, first, second)
    }
}

/// Whether `run` summarizes a locally executed run at the given time.
pub open spec fn is_local_summary(
    run: RunMetricsRun,
    run_id: Uuid,
    name: Seq<char>,
    status: RunStatus,
    started_at: Timestamp,
    version: Seq<char>,
    now: Timestamp,
) -> bool {
    &&& run.uuid == run_id
    &&& run.name@ == name
    &&& run.status == status
    &&& run.wall_time_ms matches Some(ms) && ms == millis_between(started_at, now)
    &&& run.backend is None
    &&& run.sprocket_version@ == version
    &&& run.transfer is None
}

/// Builds the run summary for a locally executed run at the given time.
///
/// `version` is the version of the program that produces the report.
pub fn local_run_summary_at(
    run_id: Uuid,
    name: &str,
    status: RunStatus,
    started_at: Timestamp,
    version: &str,
    now: Timestamp,
) -> (r: RunMetricsRun)
    ensures
        is_local_summary(r, run_id, name@, status, started_at, version@, now),
{
    RunMetricsRun {
        uuid: run_id,
        name: name.to_owned(),
        status,
        wall_time_ms: Some(started_at.millis_until(&now)),
        backend: None,
        sprocket_version: version.to_owned(),
        transfer: None,
    }
}

/// Builds the run summary for a locally executed run.
///
/// `version` is the version of the program that produces the report.
pub fn local_run_summary(
    run_id: Uuid,
    name: &str,
    status: RunStatus,
    started_at: Timestamp,
    version: &str,
) -> (r: RunMetricsRun)
    ensures
        exists|now: Timestamp| #[trigger]
            is_local_summary(r, run_id, name@, status, started_at, version@, now),
{
    let now = Timestamp::now();
    local_run_summary_at(run_id, name, status, started_at, version, now)
}

} // verus!
