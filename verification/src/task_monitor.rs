//! The task monitor: what the events of a run mean for its record.

use std::collections::HashMap;

use vstd::hash_map::StringHashMap;
use vstd::prelude::*;
use vstd::string::*;

use crate::db::{write_views, Change, TaskWrite, Write};
use crate::events::{
    event_id, last_code, record_attempt, recorded_attempt, CrankshaftEvent, EngineEvent,
};
use crate::json::{is_text_without_nulls, is_written, text_without_nulls, Json};
use crate::json_laws::law_patches_are_written;
use crate::status::{LogSource, TaskStatus};
use crate::text::{begins_with, copy_opt, opt_view, starts_with, views};
use crate::time::Timestamp;
use crate::uuid::Uuid;
use crate::watchlist::{with_name, without_name, Watchlist};

verus! {

/// How often buffered task writes are flushed to the database, absent a
/// buffer-size-triggered flush, in milliseconds.
///
/// This bounds how stale a reader's view can be relative to what the monitor
/// has actually observed; it does not affect correctness, since every buffered
/// write is still applied (just later).
pub const FLUSH_INTERVAL_MS: u64 = 250;

/// The maximum number of buffered writes kept before an out-of-band flush is
/// triggered, bounding memory use for a chatty task (e.g. a burst of log
/// output) between ticks.
pub const MAX_BUFFERED_WRITES: usize = 256;

/// In-memory record of a task's call id and attempt number.
///
/// The monitor is the sole writer of a task's row, and knows this information
/// at the moment it creates the row; tracking it here lets a retry look up the
/// failed attempt's call id and attempt number without reading the database,
/// which would otherwise race a create that is still sitting in the write
/// buffer, unflushed.
pub struct TaskMeta {
    /// The stable call path shared by every attempt of the same call.
    pub call_id: Option<String>,
    /// The 0-based execution attempt number within the call.
    pub attempt: i64,
}

/// What is known of a task's call.
pub struct Meta {
    /// The stable call path shared by every attempt of the same call.
    pub call_id: Option<Seq<char>>,
    /// The 0-based execution attempt number within the call.
    pub attempt: i64,
}

impl View for TaskMeta {
    type V = Meta;

    open spec fn view(&self) -> Meta {
        Meta { call_id: opt_view(self.call_id), attempt: self.attempt }
    }
}

/// Why an event implies no writes: a value that it carries could not be
/// serialized.
#[derive(Clone, Copy, Debug, PartialEq, Eq, Structural)]
pub enum MonitorError {
    /// The execution constraints of a task.
    Constraints,
    /// The cause of a retry.
    RetryCause,
    /// The resource usage of a task.
    ResourceUsage,
}

/// The text of a monitor error.
pub open spec fn monitor_error_text(error: MonitorError) -> Seq<char> {
    match error {
        MonitorError::Constraints => "failed to serialize task constraints"@,
        MonitorError::RetryCause => "failed to serialize retry cause"@,
        MonitorError::ResourceUsage => "failed to serialize task resource usage"@,
    }
}

impl MonitorError {
    /// The text of the error.
    pub fn message(self) -> (r: String)
        ensures
            r@ == monitor_error_text(self),
    {
        match self {
            MonitorError::Constraints => "failed to serialize task constraints".to_owned(),
            MonitorError::RetryCause => "failed to serialize retry cause".to_owned(),
            MonitorError::ResourceUsage => "failed to serialize task resource usage".to_owned(),
        }
    }
}

/// An event received by the monitor, or the loss of the channel carrying it.
pub enum Incoming {
    /// A backend event.
    Crankshaft(CrankshaftEvent),
    /// An engine event.
    Engine(EngineEvent),
    /// A transfer event.
    Transfer,
    /// A channel dropped events because the monitor could not keep up.
    Lagged,
    /// The backend channel closed.
    CrankshaftClosed,
    /// The engine channel closed.
    EngineClosed,
    /// The transfer channel closed.
    TransferClosed,
    /// The periodic flush tick elapsed.
    Tick,
    /// The monitor was asked to shut down.
    Shutdown,
}

/// What the monitor wants done about what it received.
pub struct Reaction {
    /// The writes to flush to the database now, as a single batch.
    pub flush: Vec<TaskWrite>,
    /// What was wrong with the event.
    pub failure: Option<MonitorError>,
    /// Whether the monitor is done listening.
    pub done: bool,
}

/// What the monitor knows.
#[verifier::ext_equal]
pub struct Monitored {
    /// The run to associate with monitored tasks.
    pub run_id: Uuid,
    /// How the names of tasks begin that a backend runs on its own behalf.
    pub cleanup_prefix: Seq<char>,
    /// The names of the backends' tasks.
    pub names: Map<u64, Seq<char>>,
    /// The tasks that have a row but have not been observed reaching a terminal
    /// status.
    pub unfinished: Seq<Seq<char>>,
    /// The tasks that have been observed reaching a terminal status.
    pub finished: Set<Seq<char>>,
    /// The writes that await a flush.
    pub pending: Seq<Write>,
    /// The calls of the tasks.
    pub meta: Map<Seq<char>, Meta>,
    /// Whether the backend channel is open.
    pub crankshaft_open: bool,
    /// Whether the engine channel is open.
    pub engine_open: bool,
}

/// One more write awaits a flush.
pub open spec fn buffered(before: Monitored, name: Seq<char>, change: Change) -> Monitored {
    Monitored { pending: before.pending.push(Write { name, change }), ..before }
}

/// The task has a row. Unless it has been observed reaching a terminal status,
/// it is unfinished.
pub open spec fn watched(before: Monitored, name: Seq<char>) -> Monitored {
    if before.finished.contains(name) {
        before
    } else {
        Monitored { unfinished: with_name(before.unfinished, name), ..before }
    }
}

/// The task has been observed reaching a terminal status.
pub open spec fn unwatched(before: Monitored, name: Seq<char>) -> Monitored {
    Monitored {
        unfinished: without_name(before.unfinished, name),
        finished: before.finished.insert(name),
        ..before
    }
}

/// What is known of the call of a task; by default, nothing.
pub open spec fn meta_of(before: Monitored, name: Seq<char>) -> Meta {
    if before.meta.contains_key(name) {
        before.meta[name]
    } else {
        Meta { call_id: None, attempt: 0 }
    }
}

/// The engine announced an attempt.
pub open spec fn announced(
    before: Monitored,
    name: Seq<char>,
    call_id: Option<Seq<char>>,
    attempt: i64,
) -> Monitored {
    buffered(
        Monitored { meta: before.meta.insert(name, Meta { call_id, attempt }), ..before },
        name,
        Change::Create {
            run_id: before.run_id,
            status: TaskStatus::Initializing,
            call_id,
            attempt,
        },
    )
}

/// What is wrong with an engine event.
pub open spec fn engine_failure(event: EngineEvent) -> Option<MonitorError> {
    match event {
        EngineEvent::TaskExecuting { constraints: None, .. } => Some(MonitorError::Constraints),
        EngineEvent::TaskRetrying { cause: None, .. } => Some(MonitorError::RetryCause),
        EngineEvent::TaskUsageMeasured { usage: None, .. } => Some(MonitorError::ResourceUsage),
        _ => None,
    }
}

/// What the monitor knows after an engine event.
pub open spec fn after_engine_event(before: Monitored, event: EngineEvent, now: Timestamp) ->
    Monitored {
    match event {
        EngineEvent::TaskInitializing { id, name, attempt } => watched(
            announced(before, name@, Some(id@), recorded_attempt(attempt)),
            name@,
        ),
        EngineEvent::TaskLocalizing { name } => buffered(before, name@, Change::Localizing),
        EngineEvent::TaskExecuting { name, constraints: Some(constraints) } => buffered(
            before,
            name@,
            Change::Constraints(constraints.text@),
        ),
        EngineEvent::TaskRetrying { prior_name, next_name, attempt: _, cause: Some(cause) } => {
            // The successor inherits the call id and attempt number from the
            // failed attempt.
            let meta = meta_of(before, prior_name@);
            watched(
                announced(
                    buffered(before, prior_name@, Change::RetryCause(cause.text@)),
                    next_name@,
                    meta.call_id,
                    meta.attempt,
                ),
                next_name@,
            )
        },
        EngineEvent::ReusedCachedExecutionResult { id, name } => unwatched(
            buffered(announced(before, name@, Some(id@), 0), name@, Change::Cached(now)),
            name@,
        ),
        EngineEvent::TaskUsageMeasured { name, usage: Some(usage) } => buffered(
            before,
            name@,
            Change::Utilization(text_without_nulls(usage)),
        ),
        // Parking is a property of the host's resource pool rather than of the
        // task's own progress.
        _ => before,
    }
}

/// What is wrong with a backend event.
pub open spec fn crankshaft_failure(before: Monitored, event: CrankshaftEvent) -> Option<
    MonitorError,
> {
    match event {
        CrankshaftEvent::TaskResourceUsage { id, usage: None } => if before.names.contains_key(id) {
            Some(MonitorError::ResourceUsage)
        } else {
            None
        },
        _ => None,
    }
}

/// What the monitor knows after a backend event about the task `name`, which
/// was created before.
pub open spec fn after_task_event(
    before: Monitored,
    name: Seq<char>,
    event: CrankshaftEvent,
    now: Timestamp,
) -> Monitored {
    match event {
        CrankshaftEvent::TaskStarted { .. } => buffered(before, name, Change::Started(now)),
        CrankshaftEvent::TaskCompleted { exit_codes, .. } => unwatched(
            buffered(before, name, Change::Completed(last_code(exit_codes), now)),
            name,
        ),
        CrankshaftEvent::TaskFailed { message, .. } => unwatched(
            buffered(before, name, Change::Failed(message@, now)),
            name,
        ),
        CrankshaftEvent::TaskCanceled { .. } => unwatched(
            buffered(before, name, Change::Canceled(now)),
            name,
        ),
        CrankshaftEvent::TaskPreempted { .. } => unwatched(
            buffered(before, name, Change::Preempted(now)),
            name,
        ),
        CrankshaftEvent::TaskResourceUsage { usage: Some(usage), .. } => buffered(
            before,
            name,
            Change::Utilization(text_without_nulls(usage)),
        ),
        CrankshaftEvent::TaskStdout { message, .. } => buffered(
            before,
            name,
            Change::Log(LogSource::Stdout, message@),
        ),
        CrankshaftEvent::TaskStderr { message, .. } => buffered(
            before,
            name,
            Change::Log(LogSource::Stderr, message@),
        ),
        // Image pulls and containers are progress information and are not
        // persisted.
        _ => before,
    }
}

/// What the monitor knows after a backend event.
pub open spec fn after_crankshaft_event(
    before: Monitored,
    event: CrankshaftEvent,
    now: Timestamp,
) -> Monitored {
    match event {
        CrankshaftEvent::TaskCreated { id, name } => if begins_with(name@, before.cleanup_prefix) {
            // A task that a backend runs on its own behalf is left out of the
            // run's tasks entirely.
            before
        } else {
            watched(
                buffered(
                    buffered(
                        Monitored { names: before.names.insert(id, name@), ..before },
                        name@,
                        Change::Create {
                            run_id: before.run_id,
                            status: TaskStatus::Pending,
                            call_id: None,
                            attempt: 0,
                        },
                    ),
                    name@,
                    Change::Pending(now),
                ),
                name@,
            )
        },
        _ => {
            let id = event_id(event);
            if before.names.contains_key(id) {
                after_task_event(before, before.names[id], event, now)
            } else {
                before
            }
        },
    }
}

/// The writes that mark tasks as canceled.
pub open spec fn cancellations(names: Seq<Seq<char>>, now: Timestamp) -> Seq<Write> {
    Seq::new(names.len(), |i: int| Write { name: names[i], change: Change::Canceled(now) })
}

/// What the monitor knows once it has written off the unfinished tasks.
pub open spec fn reconciled(before: Monitored, now: Timestamp) -> Monitored {
    Monitored {
        pending: before.pending + cancellations(before.unfinished, now),
        unfinished: Seq::empty(),
        ..before
    }
}

/// What the monitor knows once the pending writes were handed out.
pub open spec fn flushed(before: Monitored) -> Monitored {
    Monitored { pending: Seq::empty(), ..before }
}

/// What the monitor knows after what it received, before any flush.
pub open spec fn after_received(before: Monitored, incoming: Incoming, now: Timestamp) -> Monitored {
    match incoming {
        Incoming::Crankshaft(event) => after_crankshaft_event(before, event, now),
        Incoming::Engine(event) => after_engine_event(before, event, now),
        Incoming::CrankshaftClosed => Monitored { crankshaft_open: false, ..before },
        Incoming::EngineClosed => Monitored { engine_open: false, ..before },
        _ => before,
    }
}

/// What is wrong with what the monitor received.
pub open spec fn received_failure(before: Monitored, incoming: Incoming) -> Option<MonitorError> {
    match incoming {
        Incoming::Crankshaft(event) => crankshaft_failure(before, event),
        Incoming::Engine(event) => engine_failure(event),
        _ => None,
    }
}

/// Whether what was received calls for a flush: at each tick, and when the
/// buffer is full; a shutdown has a flush of its own.
pub open spec fn calls_for_flush(received: Monitored, incoming: Incoming) -> bool {
    incoming is Tick || (!(incoming is Shutdown) && received.pending.len() >= MAX_BUFFERED_WRITES)
}

/// What the monitor knows after a step.
pub open spec fn after_step(before: Monitored, incoming: Incoming, now: Timestamp) -> Monitored {
    let received = after_received(before, incoming, now);
    if calls_for_flush(received, incoming) {
        flushed(received)
    } else {
        received
    }
}

/// The writes that a step hands out.
pub open spec fn step_flush(before: Monitored, incoming: Incoming, now: Timestamp) -> Seq<Write> {
    let received = after_received(before, incoming, now);
    if calls_for_flush(received, incoming) {
        received.pending
    } else {
        Seq::empty()
    }
}

/// Whether the monitor is done after a step: when it is shut down, or when both
/// event channels have closed.
pub open spec fn done_after(after: Monitored, incoming: Incoming) -> bool {
    incoming is Shutdown || (!after.crankshaft_open && !after.engine_open)
}

/// The texts of the values of a map.
pub open spec fn text_values(map: Map<u64, String>) -> Map<u64, Seq<char>> {
    map.map_values(|text: String| text@)
}

/// The views of the values of a map.
pub open spec fn meta_values(map: Map<Seq<char>, TaskMeta>) -> Map<Seq<char>, Meta> {
    map.map_values(|meta: TaskMeta| meta@)
}

/// Serializes a resource usage sample into a JSON Merge Patch fragment,
/// omitting any top-level field whose value is `null`.
///
/// A JSON Merge Patch interprets an explicit `null` as "delete this key," but
/// an absent measurement here means "no information," not "clear the
/// previously recorded value," so such fields must not appear in the patch at
/// all.
pub fn utilization_patch(usage: &Json) -> (r: String)
    ensures
        r@ == text_without_nulls(*usage),
        is_written(*usage) ==> is_text_without_nulls(r@, usage.value),
{
    proof {
        if is_written(*usage) {
            law_patches_are_written(*usage);
        }
    }
    usage.without_nulls()
}

/// A task monitoring service.
///
/// One task monitor is run per run and keeps track of all of the tasks therein
/// (multiple tasks for a workflow run or a single task for a task run).
///
/// The two event channels are independent and carry no ordering relative to
/// one another, so a task's submission may be observed before the engine
/// events that precede it. Every transition the monitor performs is therefore
/// monotonic in the database: a status only ever advances.
///
/// Rather than writing to the database once per observed event, the monitor
/// buffers the writes an event implies and periodically hands out a batch of
/// them together, so that many logically-separate operations collected over a
/// short window can share a single commit. A flush happens whichever comes
/// first of [`FLUSH_INTERVAL_MS`] elapsing, the buffer reaching
/// [`MAX_BUFFERED_WRITES`], or the monitor shutting down.
pub struct TaskMonitorSvc {
    run_id: Uuid,
    cleanup_prefix: String,
    task_names: HashMap<u64, String>,
    watchlist: Watchlist,
    pending: Vec<TaskWrite>,
    task_meta: StringHashMap<TaskMeta>,
    crankshaft_open: bool,
    engine_open: bool,
}

impl View for TaskMonitorSvc {
    type V = Monitored;

    closed spec fn view(&self) -> Monitored {
        Monitored {
            run_id: self.run_id,
            cleanup_prefix: self.cleanup_prefix@,
            names: text_values(self.task_names@),
            unfinished: self.watchlist.unfinished(),
            finished: self.watchlist.finished(),
            pending: write_views(self.pending@),
            meta: meta_values(self.task_meta@),
            crankshaft_open: self.crankshaft_open,
            engine_open: self.engine_open,
        }
    }
}

/// What a new monitor knows.
pub open spec fn initially(run_id: Uuid, cleanup_prefix: Seq<char>) -> Monitored {
    Monitored {
        run_id,
        cleanup_prefix,
        names: Map::empty(),
        unfinished: Seq::empty(),
        finished: Set::empty(),
        pending: Seq::empty(),
        meta: Map::empty(),
        crankshaft_open: true,
        engine_open: true,
    }
}

impl TaskMonitorSvc {
    /// Create a new task monitor.
    ///
    /// Tasks whose name begins with `cleanup_prefix` are those that a backend
    /// runs on its own behalf rather than on behalf of a task of the run.
    pub fn new(run_id: Uuid, cleanup_prefix: String) -> (r: Self)
        ensures
            r@ == initially(run_id, cleanup_prefix@),
    {
        broadcast use vstd::std_specs::hash::group_hash_axioms;

        let r = TaskMonitorSvc {
            run_id,
            cleanup_prefix,
            task_names: HashMap::new(),
            watchlist: Watchlist::new(),
            pending: Vec::new(),
            task_meta: StringHashMap::new(),
            crankshaft_open: true,
            engine_open: true,
        };
        proof {
            assert(r@.names =~= Map::<u64, Seq<char>>::empty());
            assert(r@.meta =~= Map::<Seq<char>, Meta>::empty());
            assert(r@.pending =~= Seq::<Write>::empty());
        }
        r
    }

    /// Buffers a write.
    fn push(&mut self, write: TaskWrite)
        ensures
            final(self)@ == buffered(old(self)@, write@.name, write@.change),
    {
        let ghost before = self.pending@;
        self.pending.push(write);
        proof {
            assert(write_views(self.pending@) =~= write_views(before).push(write@));
        }
    }

    /// Notes a task that has a row.
    fn watch(&mut self, name: String)
        ensures
            final(self)@ == watched(old(self)@, name@),
    {
        self.watchlist.watch(name);
    }

    /// Notes that a task has reached a terminal status.
    fn unwatch(&mut self, name: String)
        ensures
            final(self)@ == unwatched(old(self)@, name@),
    {
        self.watchlist.finish(name);
    }

    /// Notes the call of an attempt and creates the attempt's row.
    fn announce(&mut self, name: &String, call_id: Option<String>, attempt: i64)
        ensures
            final(self)@ == announced(old(self)@, name@, opt_view(call_id), attempt),
    {
        let ghost before = self.task_meta@;
        let meta = TaskMeta { call_id: copy_opt(&call_id), attempt };
        self.task_meta.insert(name.clone(), meta);
        proof {
            assert(meta_values(self.task_meta@) =~= meta_values(before).insert(name@, meta@));
        }
        let run_id: Uuid = self.run_id;
        self.push(
            TaskWrite::Create {
                name: name.clone(),
                run_id,
                status: TaskStatus::Initializing,
                call_id,
                attempt,
            },
        );
    }

    /// The call of an attempt, as far as it is known.
    fn known_meta(&self, name: &String) -> (r: TaskMeta)
        ensures
            r@ == meta_of(self@, name@),
    {
        match self.task_meta.get(name.as_str()) {
            Some(meta) => TaskMeta { call_id: copy_opt(&meta.call_id), attempt: meta.attempt },
            None => TaskMeta { call_id: None, attempt: 0 },
        }
    }

    /// The name of a backend's task.
    fn task_name(&self, id: u64) -> (r: Option<String>)
        ensures
            match r {
                Some(name) => self@.names.contains_key(id) && name@ == self@.names[id],
                None => !self@.names.contains_key(id),
            },
    {
        broadcast use vstd::std_specs::hash::group_hash_axioms;

        match self.task_names.get(&id) {
            Some(name) => Some(name.clone()),
            None => None,
        }
    }

    /// Builds the buffered writes implied by an engine event that was received
    /// at the given time.
    pub fn handle_engine_event_at(&mut self, event: EngineEvent, now: Timestamp) -> (r: Result<
        (),
        MonitorError,
    >)
        ensures
            final(self)@ == after_engine_event(old(self)@, event, now),
            match engine_failure(event) {
                Some(error) => r == Err::<(), MonitorError>(error),
                None => r is Ok,
            },
    {
        match event {
            EngineEvent::TaskInitializing { id, name, attempt } => {
                let attempt: i64 = record_attempt(attempt);
                self.announce(&name, Some(id), attempt);
                self.watch(name);
            },
            EngineEvent::TaskLocalizing { name } => {
                self.push(TaskWrite::Localizing { name });
            },
            EngineEvent::TaskExecuting { name, constraints } => {
                match constraints {
                    Some(constraints) => {
                        let constraints = constraints.text;
                        self.push(TaskWrite::Constraints { name, constraints });
                    },
                    None => {
                        return Err(MonitorError::Constraints);
                    },
                }
            },
            EngineEvent::TaskRetrying { prior_name, next_name, attempt: _, cause } => {
                // Record the cause on the attempt that failed; that row has
                // usually already reached a terminal status.
                let cause = match cause {
                    Some(cause) => cause.text,
                    None => {
                        return Err(MonitorError::RetryCause);
                    },
                };
                // Create the successor's row, inheriting the call id and
                // attempt number from the failed attempt. An evaluator retry is
                // followed by an announcement that raises the attempt number; a
                // backend-local resubmission is not, and remains part of the
                // same attempt.
                let meta = self.known_meta(&prior_name);
                self.push(TaskWrite::RetryCause { name: prior_name, cause });
                self.announce(&next_name, meta.call_id, meta.attempt);
                self.watch(next_name);
            },
            EngineEvent::ReusedCachedExecutionResult { id, name } => {
                // The task may never have been announced as initializing if
                // that event is still in flight on the other channel.
                self.announce(&name, Some(id), 0);
                self.push(TaskWrite::Cached { name: name.clone(), completed_at: now });
                self.unwatch(name);
            },
            EngineEvent::TaskUsageMeasured { name, usage } => {
                // Merge the engine-measured fields into whatever the backend
                // may have already reported (or will later report), rather than
                // overwriting it outright.
                match usage {
                    Some(usage) => {
                        let patch = utilization_patch(&usage);
                        self.push(TaskWrite::Utilization { name, patch });
                    },
                    None => {
                        return Err(MonitorError::ResourceUsage);
                    },
                }
            },
            EngineEvent::TaskUtilization { name: _, utilization: _ } => {},
            EngineEvent::TaskParked | EngineEvent::TaskUnparked => {
                // The task remains pending throughout.
            },
        }
        Ok(())
    }

    /// Builds the buffered writes implied by a received engine event.
    pub fn handle_engine_event_inner(&mut self, event: EngineEvent) -> (r: Result<(), MonitorError>)
        ensures
            exists|now: Timestamp| final(self)@ == #[trigger] after_engine_event(
                old(self)@,
                event,
                now,
            ),
            match engine_failure(event) {
                Some(error) => r == Err::<(), MonitorError>(error),
                None => r is Ok,
            },
    {
        let now = Timestamp::now();
        self.handle_engine_event_at(event, now)
    }

    /// Builds the buffered writes implied by a backend event that was received
    /// at the given time.
    pub fn handle_crankshaft_event_at(&mut self, event: CrankshaftEvent, now: Timestamp) -> (r:
        Result<(), MonitorError>)
        ensures
            final(self)@ == after_crankshaft_event(old(self)@, event, now),
            match crankshaft_failure(old(self)@, event) {
                Some(error) => r == Err::<(), MonitorError>(error),
                None => r is Ok,
            },
    {
        broadcast use vstd::std_specs::hash::group_hash_axioms;

        match event {
            CrankshaftEvent::TaskCreated { id, name } => {
                // A backend may run a task on its own behalf, such as to change
                // the owner of a work directory. It is an implementation detail
                // of running a task rather than something a user submitted, so
                // it is left out of the run's tasks entirely. Dropping its id
                // here is enough: every later event is resolved through
                // `task_names`.
                if starts_with(name.as_str(), self.cleanup_prefix.as_str()) {
                    return Ok(());
                }
                let ghost before = self.task_names@;
                self.task_names.insert(id, name.clone());
                proof {
                    assert(text_values(self.task_names@) =~= text_values(before).insert(id, name@));
                }
                let run_id: Uuid = self.run_id;
                self.push(
                    TaskWrite::Create {
                        name: name.clone(),
                        run_id,
                        status: TaskStatus::Pending,
                        call_id: None,
                        attempt: 0,
                    },
                );
                self.push(TaskWrite::Pending { name: name.clone(), submitted_at: now });
                self.watch(name);
            },
            CrankshaftEvent::TaskStarted { id } => {
                match self.task_name(id) {
                    Some(name) => {
                        self.push(TaskWrite::Started { name, started_at: now });
                    },
                    None => {},
                }
            },
            CrankshaftEvent::TaskCompleted { id, exit_codes } => {
                match self.task_name(id) {
                    Some(name) => {
                        let exit_status = exit_codes.last();
                        self.push(
                            TaskWrite::Completed {
                                name: name.clone(),
                                exit_status,
                                completed_at: now,
                            },
                        );
                        self.unwatch(name);
                    },
                    None => {},
                }
            },
            CrankshaftEvent::TaskFailed { id, message } => {
                match self.task_name(id) {
                    Some(name) => {
                        self.push(
                            TaskWrite::Failed {
                                name: name.clone(),
                                error: message,
                                completed_at: now,
                            },
                        );
                        self.unwatch(name);
                    },
                    None => {},
                }
            },
            CrankshaftEvent::TaskCanceled { id } => {
                match self.task_name(id) {
                    Some(name) => {
                        self.push(TaskWrite::Canceled { name: name.clone(), completed_at: now });
                        self.unwatch(name);
                    },
                    None => {},
                }
            },
            CrankshaftEvent::TaskPreempted { id } => {
                match self.task_name(id) {
                    Some(name) => {
                        self.push(TaskWrite::Preempted { name: name.clone(), completed_at: now });
                        self.unwatch(name);
                    },
                    None => {},
                }
            },
            CrankshaftEvent::TaskResourceUsage { id, usage } => {
                // Utilization is a cumulative snapshot: the last received sample
                // for each field is authoritative, and the write is guard-free,
                // so repeated samples simply patch over the previous value for
                // the fields they report.
                match self.task_name(id) {
                    Some(name) => match usage {
                        Some(usage) => {
                            let patch = utilization_patch(&usage);
                            self.push(TaskWrite::Utilization { name, patch });
                        },
                        None => {
                            return Err(MonitorError::ResourceUsage);
                        },
                    },
                    None => {},
                }
            },
            CrankshaftEvent::ImagePullStarted { id: _ }
            | CrankshaftEvent::ImagePullFailed { id: _ }
            | CrankshaftEvent::ImagePullFinished { id: _ } => {
                // Image pulls are progress information and are not persisted.
            },
            CrankshaftEvent::TaskStdout { id, message } => {
                match self.task_name(id) {
                    Some(name) => {
                        self.push(
                            TaskWrite::Log { name, source: LogSource::Stdout, chunk: message },
                        );
                    },
                    None => {},
                }
            },
            CrankshaftEvent::TaskStderr { id, message } => {
                match self.task_name(id) {
                    Some(name) => {
                        self.push(
                            TaskWrite::Log { name, source: LogSource::Stderr, chunk: message },
                        );
                    },
                    None => {},
                }
            },
            CrankshaftEvent::TaskContainerCreated { id: _ }
            | CrankshaftEvent::TaskContainerExited { id: _ } => {},
        }
        Ok(())
    }

    /// Builds the buffered writes implied by a received backend event.
    pub fn handle_crankshaft_event_inner(&mut self, event: CrankshaftEvent) -> (r: Result<
        (),
        MonitorError,
    >)
        ensures
            exists|now: Timestamp| final(self)@ == #[trigger] after_crankshaft_event(
                old(self)@,
                event,
                now,
            ),
            match crankshaft_failure(old(self)@, event) {
                Some(error) => r == Err::<(), MonitorError>(error),
                None => r is Ok,
            },
    {
        let now = Timestamp::now();
        self.handle_crankshaft_event_at(event, now)
    }

    /// Hands out every buffered write, as a single batch.
    pub fn flush(&mut self) -> (r: Vec<TaskWrite>)
        ensures
            write_views(r@) == old(self)@.pending,
            final(self)@ == flushed(old(self)@),
    {
        let mut writes: Vec<TaskWrite> = Vec::new();
        std::mem::swap(&mut writes, &mut self.pending);
        proof {
            assert(write_views(self.pending@) =~= Seq::<Write>::empty());
        }
        writes
    }

    /// Marks any task that never reached a terminal status as canceled, at the
    /// given time.
    ///
    /// A task can be left in a non-terminal status when the run fails or is
    /// canceled before the task reaches its backend, in which case no event
    /// announcing its fate is ever emitted. The run's own error carries why;
    /// this only ensures the task does not appear to be working forever.
    pub fn reconcile_at(&mut self, now: Timestamp)
        ensures
            final(self)@ == reconciled(old(self)@, now),
    {
        let ghost start = self@;
        let names = self.watchlist.take_unfinished();
        let ghost all = names@;
        proof {
            assert(views(all) == start.unfinished);
            assert(cancellations(views(all).take(0), now) =~= Seq::<Write>::empty());
            assert(start.pending + cancellations(views(all).take(0), now) =~= start.pending);
        }
        for name in it: names
            invariant
                it.seq() == all,
                self@ == (Monitored {
                    pending: start.pending + cancellations(views(all).take(it.index()), now),
                    unfinished: Seq::empty(),
                    ..start
                }),
        {
            let ghost done = views(all).take(it.index());
            let ghost next = views(all).take(it.index() + 1);
            proof {
                assert(cancellations(next, now) =~= cancellations(done, now).push(
                    Write { name: name@, change: Change::Canceled(now) },
                ));
                assert(start.pending + cancellations(next, now) =~= (start.pending + cancellations(
                    done,
                    now,
                )).push(Write { name: name@, change: Change::Canceled(now) }));
            }
            self.push(TaskWrite::Canceled { name, completed_at: now });
        }
        proof {
            assert(views(all).take(all.len() as int) =~= views(all));
        }
    }

    /// Marks any task that never reached a terminal status as canceled.
    pub fn reconcile(&mut self)
        ensures
            exists|now: Timestamp| final(self)@ == #[trigger] reconciled(old(self)@, now),
    {
        let now = Timestamp::now();
        self.reconcile_at(now);
    }

    /// Takes in what was received at the given time, and decides what to do.
    ///
    /// The monitor listens for events from the engine and from the backends. It
    /// ends when it is shut down or when both event channels have closed.
    pub fn step_at(&mut self, incoming: Incoming, now: Timestamp) -> (r: Reaction)
        ensures
            final(self)@ == after_step(old(self)@, incoming, now),
            write_views(r.flush@) == step_flush(old(self)@, incoming, now),
            r.failure == received_failure(old(self)@, incoming),
            r.done == done_after(final(self)@, incoming),
    {
        let ghost before = self@;
        let mut failure: Option<MonitorError> = None;
        let mut tick = false;
        let mut shutdown = false;
        match incoming {
            Incoming::Crankshaft(event) => {
                match self.handle_crankshaft_event_at(event, now) {
                    Ok(()) => {},
                    Err(error) => {
                        failure = Some(error);
                    },
                }
            },
            Incoming::Engine(event) => {
                match self.handle_engine_event_at(event, now) {
                    Ok(()) => {},
                    Err(error) => {
                        failure = Some(error);
                    },
                }
            },
            Incoming::Transfer | Incoming::Lagged | Incoming::TransferClosed => {},
            Incoming::CrankshaftClosed => {
                self.crankshaft_open = false;
            },
            Incoming::EngineClosed => {
                self.engine_open = false;
            },
            Incoming::Tick => {
                tick = true;
            },
            Incoming::Shutdown => {
                shutdown = true;
            },
        }
        assert(self@ == after_received(before, incoming, now));
        let flush = if tick || (!shutdown && self.pending.len() >= MAX_BUFFERED_WRITES) {
            self.flush()
        } else {
            Vec::new()
        };
        proof {
            if flush@.len() == 0 {
                assert(write_views(flush@) =~= Seq::<Write>::empty());
            }
        }
        Reaction {
            flush,
            failure,
            done: shutdown || (!self.crankshaft_open && !self.engine_open),
        }
    }

    /// Takes in what was received, and decides what to do.
    pub fn step(&mut self, incoming: Incoming) -> (r: Reaction)
        ensures
            exists|now: Timestamp|
                {
                    &&& final(self)@ == #[trigger] after_step(old(self)@, incoming, now)
                    &&& write_views(r.flush@) == step_flush(old(self)@, incoming, now)
                },
            r.failure == received_failure(old(self)@, incoming),
            r.done == done_after(final(self)@, incoming),
    {
        let now = Timestamp::now();
        self.step_at(incoming, now)
    }

    /// Ends the monitor, at the given time: writes off the unfinished tasks and
    /// hands out the final batch of writes.
    pub fn finish_at(&mut self, now: Timestamp) -> (r: Vec<TaskWrite>)
        ensures
            write_views(r@) == old(self)@.pending + cancellations(old(self)@.unfinished, now),
            final(self)@ == flushed(reconciled(old(self)@, now)),
    {
        self.reconcile_at(now);
        self.flush()
    }

    /// Ends the monitor.
    pub fn finish(&mut self) -> (r: Vec<TaskWrite>)
        ensures
            exists|now: Timestamp|
                {
                    &&& write_views(r@) == old(self)@.pending + #[trigger] cancellations(
                        old(self)@.unfinished,
                        now,
                    )
                    &&& final(self)@ == flushed(reconciled(old(self)@, now))
                },
    {
        let now = Timestamp::now();
        self.finish_at(now)
    }
}

} // verus!
