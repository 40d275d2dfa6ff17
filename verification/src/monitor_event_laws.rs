//! What each event means for the record that the task monitor keeps.

use vstd::prelude::*;

use crate::db::{after_write, after_writes, Change, Contents, Write};
use crate::db_laws::law_batches_compose;
use crate::events::{CrankshaftEvent, EngineEvent};
use crate::json::{non_null, object_text, Json, JsonValue};
use crate::lifecycle_laws::has_ended;
use crate::status::{LogSource, TaskStatus};
use crate::task_monitor::{
    after_crankshaft_event, after_engine_event, after_received, after_step, cancellations,
    crankshaft_failure, done_after, engine_failure, flushed, initially, monitor_error_text,
    received_failure, reconciled, step_flush, Incoming, Meta, MonitorError, Monitored,
};
use crate::task_monitor_laws::recorded;
use crate::text::begins_with;
use crate::time::Timestamp;
use crate::uuid::Uuid;
use crate::watchlist::{lemma_name_position, name_position, with_name, without_name};
use crate::write_laws::law_batches_apply_in_order;

verus! {

/// Whether what the monitor is about has stayed: its run, the names that it
/// leaves out, and the channels that it listens to.
pub open spec fn same_setting(before: Monitored, after: Monitored) -> bool {
    &&& after.run_id == before.run_id
    &&& after.cleanup_prefix == before.cleanup_prefix
    &&& after.crankshaft_open == before.crankshaft_open
    &&& after.engine_open == before.engine_open
}

/// Whether the given writes, and no others, have come to await a flush.
pub open spec fn appended(before: Monitored, after: Monitored, writes: Seq<Write>) -> bool {
    after.pending == before.pending + writes
}

/// Whether the same tasks are watched, and the same are known to have finished.
pub open spec fn same_watch(before: Monitored, after: Monitored) -> bool {
    after.unfinished == before.unfinished && after.finished == before.finished
}

/// Whether the task `name` is watched unless it has finished, behind all that
/// were watched before, and nothing else has changed in the watch.
pub open spec fn now_watched(before: Monitored, after: Monitored, name: Seq<char>) -> bool {
    &&& after.finished == before.finished
    &&& if before.finished.contains(name) || before.unfinished.contains(name) {
        after.unfinished == before.unfinished
    } else {
        after.unfinished == before.unfinished + seq![name]
    }
}

/// Whether the task `name` has finished and is no longer watched, and all others
/// are as they were, in the same order.
pub open spec fn now_finished(before: Monitored, after: Monitored, name: Seq<char>) -> bool {
    &&& after.finished == before.finished.insert(name)
    &&& !before.unfinished.contains(name) ==> after.unfinished == before.unfinished
    &&& before.unfinished.contains(name) ==> exists|at: int|
        0 <= at < before.unfinished.len() && before.unfinished[at] == name && after.unfinished
            == #[trigger] before.unfinished.remove(at)
    &&& before.unfinished.no_duplicates() ==> !after.unfinished.contains(name)
}

/// Watching a name puts it behind the others, unless it is there.
proof fn lemma_with_name(names: Seq<Seq<char>>, name: Seq<char>)
    ensures
        names.contains(name) ==> with_name(names, name) == names,
        !names.contains(name) ==> with_name(names, name) == names + seq![name],
{
    lemma_name_position(names, name);
    if name_position(names, name) < names.len() {
        assert(names[name_position(names, name)] == name);
    } else {
        assert(names.push(name) =~= names + seq![name]);
    }
}

/// A name that is taken out is gone, if it was there once.
proof fn lemma_without_name(names: Seq<Seq<char>>, name: Seq<char>)
    ensures
        !names.contains(name) ==> without_name(names, name) == names,
        names.contains(name) ==> exists|at: int|
            0 <= at < names.len() && names[at] == name && without_name(names, name)
                == #[trigger] names.remove(at),
        names.no_duplicates() ==> !without_name(names, name).contains(name),
{
    lemma_name_position(names, name);
    let at = name_position(names, name);
    if at < names.len() {
        assert(names[at] == name);
        assert(without_name(names, name) == names.remove(at));
        if names.no_duplicates() {
            assert forall|i: int| 0 <= i < names.remove(at).len() implies #[trigger] names.remove(
                at,
            )[i] != name by {
                let k = if i < at { i } else { i + 1 };
                assert(names.remove(at)[i] == names[k]);
            }
        }
    }
}

/// A task that a backend creates is recorded as pending as of that time, whether
/// or not the engine announced it before, and is known by its id from then on.
pub proof fn law_created_tasks_are_submitted(
    before: Monitored,
    event: CrankshaftEvent,
    now: Timestamp,
)
    requires
        event matches CrankshaftEvent::TaskCreated { name, .. } && !before.cleanup_prefix.is_prefix_of(
            name@,
        ),
    ensures
        event matches CrankshaftEvent::TaskCreated { id, name } && {
            let after = after_crankshaft_event(before, event, now);
            &&& appended(
                before,
                after,
                seq![
                    Write {
                        name: name@,
                        change: Change::Create {
                            run_id: before.run_id,
                            status: TaskStatus::Pending,
                            call_id: None,
                            attempt: 0,
                        },
                    },
                    Write { name: name@, change: Change::Pending(now) },
                ],
            )
            &&& after.names == before.names.insert(id, name@)
            &&& after.meta == before.meta
            &&& now_watched(before, after, name@)
            &&& same_setting(before, after)
            &&& crankshaft_failure(before, event) is None
        },
{
    match event {
        CrankshaftEvent::TaskCreated { id, name } => {
            let after = after_crankshaft_event(before, event, now);
            assert(begins_with(name@, before.cleanup_prefix)
                ==> before.cleanup_prefix.is_prefix_of(name@));
            lemma_with_name(before.unfinished, name@);
            assert(after.pending =~= before.pending + seq![
                Write {
                    name: name@,
                    change: Change::Create {
                        run_id: before.run_id,
                        status: TaskStatus::Pending,
                        call_id: None,
                        attempt: 0,
                    },
                },
                Write { name: name@, change: Change::Pending(now) },
            ]);
        },
        _ => {},
    }
}

/// A task that a backend creates on its own behalf is ignored.
pub proof fn law_cleanup_tasks_are_ignored(
    before: Monitored,
    event: CrankshaftEvent,
    now: Timestamp,
)
    requires
        event matches CrankshaftEvent::TaskCreated { name, .. } && before.cleanup_prefix.is_prefix_of(
            name@,
        ),
    ensures
        after_crankshaft_event(before, event, now) == before,
        crankshaft_failure(before, event) is None,
{
    match event {
        CrankshaftEvent::TaskCreated { id, name } => {
            let prefix = before.cleanup_prefix;
            assert(name@.subrange(0, prefix.len() as int) =~= prefix);
        },
        _ => {},
    }
}

/// The write that a backend's event about a task means, if it means one; a value
/// that could not be serialized means none.
pub open spec fn meant_by(event: CrankshaftEvent, now: Timestamp) -> Option<Change> {
    match event {
        CrankshaftEvent::TaskStarted { .. } => Some(Change::Started(now)),
        CrankshaftEvent::TaskCompleted { exit_codes, .. } => Some(
            Change::Completed(
                (seq![exit_codes.first] + exit_codes.rest@)[exit_codes.rest@.len() as int],
                now,
            ),
        ),
        CrankshaftEvent::TaskFailed { message, .. } => Some(Change::Failed(message@, now)),
        CrankshaftEvent::TaskCanceled { .. } => Some(Change::Canceled(now)),
        CrankshaftEvent::TaskPreempted { .. } => Some(Change::Preempted(now)),
        CrankshaftEvent::TaskResourceUsage { usage: Some(usage), .. } => Some(
            Change::Utilization(patch_of(usage)),
        ),
        CrankshaftEvent::TaskStdout { message, .. } => Some(
            Change::Log(LogSource::Stdout, message@),
        ),
        CrankshaftEvent::TaskStderr { message, .. } => Some(
            Change::Log(LogSource::Stderr, message@),
        ),
        _ => None,
    }
}

/// The merge patch for a sample: an object is written without the entries that
/// are null, and all else as it is.
pub open spec fn patch_of(usage: Json) -> Seq<char> {
    match usage.value {
        JsonValue::Object(entries) => object_text(
            entries@.filter(|entry: (String, Json)| !(entry.1.value is Null)),
        ),
        _ => usage.text@,
    }
}

/// The entries that are not null are those that a filter leaves.
pub proof fn law_null_entries_are_left_out(entries: Seq<(String, Json)>)
    ensures
        non_null(entries) == entries.filter(|entry: (String, Json)| !(entry.1.value is Null)),
    decreases entries.len(),
{
    reveal(Seq::filter);
    if entries.len() > 0 {
        law_null_entries_are_left_out(entries.drop_last());
    }
}

/// A backend's event about a task that it created means one write about that
/// task, or none, and the task has finished when it says so; nothing else
/// changes. An event about any other task changes nothing.
pub proof fn law_backend_events_are_about_one_task(
    before: Monitored,
    event: CrankshaftEvent,
    id: u64,
    now: Timestamp,
)
    requires
        !(event is TaskCreated),
        match event {
            CrankshaftEvent::TaskCreated { id: about, .. } => about == id,
            CrankshaftEvent::TaskStarted { id: about } => about == id,
            CrankshaftEvent::TaskContainerCreated { id: about } => about == id,
            CrankshaftEvent::TaskContainerExited { id: about } => about == id,
            CrankshaftEvent::TaskCompleted { id: about, .. } => about == id,
            CrankshaftEvent::TaskFailed { id: about, .. } => about == id,
            CrankshaftEvent::TaskCanceled { id: about } => about == id,
            CrankshaftEvent::TaskPreempted { id: about } => about == id,
            CrankshaftEvent::TaskResourceUsage { id: about, .. } => about == id,
            CrankshaftEvent::TaskStdout { id: about, .. } => about == id,
            CrankshaftEvent::TaskStderr { id: about, .. } => about == id,
            CrankshaftEvent::ImagePullStarted { id: about } => about == id,
            CrankshaftEvent::ImagePullFailed { id: about } => about == id,
            CrankshaftEvent::ImagePullFinished { id: about } => about == id,
        },
    ensures
        ({
            let after = after_crankshaft_event(before, event, now);
            let name = before.names[id];
            &&& !before.names.contains_key(id) ==> after == before
            &&& same_setting(before, after)
            &&& after.names == before.names
            &&& after.meta == before.meta
            &&& before.names.contains_key(id) ==> appended(
                before,
                after,
                match meant_by(event, now) {
                    Some(change) => seq![Write { name, change }],
                    None => Seq::empty(),
                },
            )
            &&& before.names.contains_key(id) && (event is TaskCompleted || event is TaskFailed
                || event is TaskCanceled || event is TaskPreempted) ==> now_finished(
                before,
                after,
                name,
            )
            &&& !(event is TaskCompleted || event is TaskFailed || event is TaskCanceled
                || event is TaskPreempted) ==> same_watch(before, after)
            &&& crankshaft_failure(before, event) == if before.names.contains_key(id) && (event
                matches CrankshaftEvent::TaskResourceUsage { usage, .. } && usage is None) {
                Some(MonitorError::ResourceUsage)
            } else {
                None
            }
        }),
{
    let after = after_crankshaft_event(before, event, now);
    if before.names.contains_key(id) {
        let name = before.names[id];
        lemma_without_name(before.unfinished, name);
        match event {
            CrankshaftEvent::TaskResourceUsage { usage: Some(usage), .. } => {
                match usage.value {
                    JsonValue::Object(entries) => {
                        law_null_entries_are_left_out(entries@);
                    },
                    _ => {},
                }
            },
            _ => {},
        }
        match meant_by(event, now) {
            Some(change) => {
                assert(after.pending =~= before.pending + seq![Write { name, change }]);
            },
            None => {
                assert(before.pending + Seq::<Write>::empty() =~= before.pending);
            },
        }
    }
}

/// An attempt that the engine announces is created in the record under its call
/// path and its number, which a later retry can look up, and is watched.
pub proof fn law_announced_attempts_are_created(
    before: Monitored,
    event: EngineEvent,
    now: Timestamp,
)
    requires
        event is TaskInitializing,
    ensures
        event matches EngineEvent::TaskInitializing { id, name, attempt } && {
            let after = after_engine_event(before, event, now);
            let number = if attempt < 0x8000_0000_0000_0000 {
                attempt as i64
            } else {
                0x7fff_ffff_ffff_ffff
            };
            &&& appended(
                before,
                after,
                seq![
                    Write {
                        name: name@,
                        change: Change::Create {
                            run_id: before.run_id,
                            status: TaskStatus::Initializing,
                            call_id: Some(id@),
                            attempt: number,
                        },
                    },
                ],
            )
            &&& after.meta == before.meta.insert(
                name@,
                Meta { call_id: Some(id@), attempt: number },
            )
            &&& after.names == before.names
            &&& now_watched(before, after, name@)
            &&& same_setting(before, after)
            &&& engine_failure(event) is None
        },
{
    match event {
        EngineEvent::TaskInitializing { id, name, attempt } => {
            let after = after_engine_event(before, event, now);
            lemma_with_name(before.unfinished, name@);
            assert(after.pending =~= before.pending + seq![after.pending.last()]);
        },
        _ => {},
    }
}

/// An attempt that localizes, is handed to its backend or has its usage measured
/// gets one write, of what the event carries; a value that could not be
/// serialized is a failure and means no write.
pub proof fn law_engine_reports_are_written(before: Monitored, event: EngineEvent, now: Timestamp)
    requires
        event is TaskLocalizing || event is TaskExecuting || event is TaskUsageMeasured,
    ensures
        ({
            let after = after_engine_event(before, event, now);
            &&& appended(
                before,
                after,
                match event {
                    EngineEvent::TaskLocalizing { name } => seq![
                        Write { name: name@, change: Change::Localizing },
                    ],
                    EngineEvent::TaskExecuting { name, constraints: Some(constraints) } => seq![
                        Write {
                            name: name@,
                            change: Change::Constraints(constraints.text@),
                        },
                    ],
                    EngineEvent::TaskUsageMeasured { name, usage: Some(usage) } => seq![
                        Write { name: name@, change: Change::Utilization(patch_of(usage)) },
                    ],
                    _ => Seq::empty(),
                },
            )
            &&& after.meta == before.meta
            &&& after.names == before.names
            &&& same_watch(before, after)
            &&& same_setting(before, after)
            &&& engine_failure(event) == match event {
                EngineEvent::TaskExecuting { constraints, .. } => if constraints is Some {
                    None
                } else {
                    Some(MonitorError::Constraints)
                },
                EngineEvent::TaskUsageMeasured { usage, .. } => if usage is Some {
                    None
                } else {
                    Some(MonitorError::ResourceUsage)
                },
                _ => None,
            }
        }),
{
    let after = after_engine_event(before, event, now);
    match event {
        EngineEvent::TaskUsageMeasured { usage: Some(usage), .. } => {
            match usage.value {
                JsonValue::Object(entries) => {
                    law_null_entries_are_left_out(entries@);
                },
                _ => {},
            }
        },
        _ => {},
    }
    if after.pending.len() == before.pending.len() {
        assert(before.pending + Seq::<Write>::empty() =~= before.pending);
    } else {
        assert(after.pending =~= before.pending + seq![after.pending.last()]);
    }
}

/// A retry records its cause with the attempt that failed, and creates the
/// attempt that follows under the call path and number of the one that failed,
/// as far as they are known. A cause that could not be serialized is a failure
/// and changes nothing.
pub proof fn law_retries_are_written(before: Monitored, event: EngineEvent, now: Timestamp)
    requires
        event is TaskRetrying,
    ensures
        event matches EngineEvent::TaskRetrying { prior_name, next_name, attempt, cause } && {
            let after = after_engine_event(before, event, now);
            let known = before.meta.contains_key(prior_name@);
            let inherited = Meta {
                call_id: if known {
                    before.meta[prior_name@].call_id
                } else {
                    None
                },
                attempt: if known {
                    before.meta[prior_name@].attempt
                } else {
                    0
                },
            };
            &&& cause is None ==> after == before
            &&& engine_failure(event) == if cause is None {
                Some(MonitorError::RetryCause)
            } else {
                None
            }
            &&& cause is Some ==> {
                &&& appended(
                    before,
                    after,
                    seq![
                        Write {
                            name: prior_name@,
                            change: Change::RetryCause(cause->0.text@),
                        },
                        Write {
                            name: next_name@,
                            change: Change::Create {
                                run_id: before.run_id,
                                status: TaskStatus::Initializing,
                                call_id: inherited.call_id,
                                attempt: inherited.attempt,
                            },
                        },
                    ],
                )
                &&& after.meta == before.meta.insert(next_name@, inherited)
                &&& after.names == before.names
                &&& now_watched(before, after, next_name@)
                &&& same_setting(before, after)
            }
        },
{
    match event {
        EngineEvent::TaskRetrying { prior_name, next_name, attempt, cause } => {
            let after = after_engine_event(before, event, now);
            lemma_with_name(before.unfinished, next_name@);
            if cause is Some {
                let n = before.pending.len() as int;
                assert(after.pending =~= before.pending + seq![after.pending[n], after.pending[n
                    + 1]]);
            }
        },
        _ => {},
    }
}

/// An attempt that was served from the call cache is created and ended at once,
/// and has finished.
pub proof fn law_cached_attempts_are_written(before: Monitored, event: EngineEvent, now: Timestamp)
    requires
        event is ReusedCachedExecutionResult,
    ensures
        event matches EngineEvent::ReusedCachedExecutionResult { id, name } && {
            let after = after_engine_event(before, event, now);
            &&& appended(
                before,
                after,
                seq![
                    Write {
                        name: name@,
                        change: Change::Create {
                            run_id: before.run_id,
                            status: TaskStatus::Initializing,
                            call_id: Some(id@),
                            attempt: 0,
                        },
                    },
                    Write { name: name@, change: Change::Cached(now) },
                ],
            )
            &&& after.meta == before.meta.insert(name@, Meta { call_id: Some(id@), attempt: 0 })
            &&& after.names == before.names
            &&& now_finished(before, after, name@)
            &&& same_setting(before, after)
            &&& engine_failure(event) is None
        },
{
    match event {
        EngineEvent::ReusedCachedExecutionResult { id, name } => {
            let after = after_engine_event(before, event, now);
            let n = before.pending.len() as int;
            lemma_without_name(before.unfinished, name@);
            assert(after.pending =~= before.pending + seq![after.pending[n], after.pending[n + 1]]);
        },
        _ => {},
    }
}

/// Parking, unparking and what the engine hears of utilization from a backend's
/// scheduler leave the monitor as it was.
pub proof fn law_other_engine_events_change_nothing(
    before: Monitored,
    event: EngineEvent,
    now: Timestamp,
)
    requires
        event is TaskParked || event is TaskUnparked || event is TaskUtilization,
    ensures
        after_engine_event(before, event, now) == before,
        engine_failure(event) is None,
{
}

/// A step takes in what was received before anything else: an event as such, a
/// closed channel as closed, and all else without effect.
pub proof fn law_steps_take_in_what_is_received(
    before: Monitored,
    incoming: Incoming,
    now: Timestamp,
)
    ensures
        ({
            let received = after_received(before, incoming, now);
            let failure = received_failure(before, incoming);
            match incoming {
                Incoming::Crankshaft(event) => received == after_crankshaft_event(
                    before,
                    event,
                    now,
                ) && failure == crankshaft_failure(before, event),
                Incoming::Engine(event) => received == after_engine_event(before, event, now)
                    && failure == engine_failure(event),
                Incoming::CrankshaftClosed => received == (Monitored {
                    crankshaft_open: false,
                    ..before
                }) && failure is None,
                Incoming::EngineClosed => received == (Monitored { engine_open: false, ..before })
                    && failure is None,
                Incoming::Transfer
                | Incoming::Lagged
                | Incoming::TransferClosed
                | Incoming::Tick
                | Incoming::Shutdown => received == before && failure is None,
            }
        }),
{
}

/// A step hands out everything that awaits a flush, or nothing: everything at a
/// tick and, except at a shutdown, whenever 256 writes or more await it. What it
/// hands out no longer awaits a flush, and nothing else is touched.
pub proof fn law_steps_flush_all_or_nothing(before: Monitored, incoming: Incoming, now: Timestamp)
    ensures
        ({
            let received = after_received(before, incoming, now);
            let after = after_step(before, incoming, now);
            let flush = step_flush(before, incoming, now);
            let due = incoming is Tick || (received.pending.len() >= 256 && !(
            incoming is Shutdown));
            &&& due ==> flush == received.pending && after.pending.len() == 0
            &&& !due ==> flush.len() == 0 && after.pending == received.pending
            &&& after.run_id == received.run_id
            &&& after.cleanup_prefix == received.cleanup_prefix
            &&& after.names == received.names
            &&& after.unfinished == received.unfinished
            &&& after.finished == received.finished
            &&& after.meta == received.meta
            &&& after.crankshaft_open == received.crankshaft_open
            &&& after.engine_open == received.engine_open
        }),
{
}

/// The monitor is done when it is shut down and when neither event channel is
/// open, and goes on otherwise.
pub proof fn law_the_monitor_ends(after: Monitored, incoming: Incoming)
    ensures
        incoming is Shutdown ==> done_after(after, incoming),
        !(incoming is Shutdown) && (after.crankshaft_open || after.engine_open) ==> !done_after(
            after,
            incoming,
        ),
        !after.crankshaft_open && !after.engine_open ==> done_after(after, incoming),
{
}

/// Reconciling writes off each unfinished task as canceled at that time, in the
/// order in which they are watched, behind the writes that await a flush; a flush
/// leaves none of them waiting. Neither touches anything else.
pub proof fn law_unfinished_tasks_are_written_off(before: Monitored, now: Timestamp)
    ensures
        ({
            let after = reconciled(before, now);
            let waiting = before.pending.len() as int;
            &&& after.pending.len() == waiting + before.unfinished.len()
            &&& after.pending.take(waiting) == before.pending
            &&& forall|i: int|
                0 <= i < before.unfinished.len() ==> #[trigger] after.pending[waiting + i] == (
                Write { name: before.unfinished[i], change: Change::Canceled(now) })
            &&& after.unfinished.len() == 0
            &&& after.finished == before.finished
            &&& after.names == before.names
            &&& after.meta == before.meta
            &&& same_setting(before, after)
            &&& cancellations(before.unfinished, now) == after.pending.skip(waiting)
        }),
        flushed(before).pending.len() == 0,
        flushed(before).unfinished == before.unfinished,
        flushed(before).finished == before.finished,
        flushed(before).names == before.names,
        flushed(before).meta == before.meta,
        same_setting(before, flushed(before)),
{
    let after = reconciled(before, now);
    let waiting = before.pending.len() as int;
    assert(after.pending.take(waiting) =~= before.pending);
    assert(after.pending.skip(waiting) =~= cancellations(before.unfinished, now));
}

/// A new monitor listens to both channels and knows of no task.
pub proof fn law_a_new_monitor_knows_nothing(run_id: Uuid, prefix: Seq<char>)
    ensures
        ({
            let monitor = initially(run_id, prefix);
            &&& monitor.run_id == run_id
            &&& monitor.cleanup_prefix == prefix
            &&& monitor.crankshaft_open && monitor.engine_open
            &&& monitor.pending.len() == 0
            &&& monitor.unfinished.len() == 0
            &&& forall|name: Seq<char>|
                !(#[trigger] monitor.finished.contains(name)) && !monitor.meta.contains_key(name)
            &&& forall|id: u64| !(#[trigger] monitor.names.contains_key(id))
        }),
{
}

/// A failure is told by what could not be serialized.
pub proof fn law_failures_are_told(error: MonitorError)
    ensures
        error is Constraints <==> monitor_error_text(error)
            == "failed to serialize task constraints"@,
        error is RetryCause <==> monitor_error_text(error) == "failed to serialize retry cause"@,
        error is ResourceUsage <==> monitor_error_text(error)
            == "failed to serialize task resource usage"@,
{
    reveal_strlit("failed to serialize task constraints");
    reveal_strlit("failed to serialize retry cause");
    reveal_strlit("failed to serialize task resource usage");
    assert("failed to serialize task constraints"@.len() == 36);
    assert("failed to serialize retry cause"@.len() == 31);
    assert("failed to serialize task resource usage"@.len() == 39);
}

/// The engine announces a task and a backend creates it, in either order. Once
/// the writes are applied the task is pending, as of the time at which it was
/// created, under the call path and number that the engine gave it.
pub proof fn law_announced_and_created_tasks_are_pending(
    contents: Contents,
    before: Monitored,
    announcement: EngineEvent,
    creation: CrankshaftEvent,
    announced_at: Timestamp,
    created_at: Timestamp,
)
    requires
        announcement matches EngineEvent::TaskInitializing { name, attempt, .. } && creation
            matches CrankshaftEvent::TaskCreated { name: created, .. } && created@ == name@
            && attempt <= i64::MAX && !before.cleanup_prefix.is_prefix_of(name@) && !recorded(
            contents,
            before,
        ).tasks.contains_key(name@),
    ensures
        announcement matches EngineEvent::TaskInitializing { id, name, attempt } && {
            let engine_first = recorded(
                contents,
                after_crankshaft_event(
                    after_engine_event(before, announcement, announced_at),
                    creation,
                    created_at,
                ),
            );
            let backend_first = recorded(
                contents,
                after_engine_event(
                    after_crankshaft_event(before, creation, created_at),
                    announcement,
                    announced_at,
                ),
            );
            &&& engine_first.tasks.contains_key(name@) && backend_first.tasks.contains_key(name@)
            &&& engine_first.tasks[name@].status == TaskStatus::Pending
            &&& backend_first.tasks[name@].status == TaskStatus::Pending
            &&& engine_first.tasks[name@].submitted_at == Some(created_at)
            &&& backend_first.tasks[name@].submitted_at == Some(created_at)
            &&& engine_first.tasks[name@].call_id == Some(id@)
            &&& backend_first.tasks[name@].call_id == Some(id@)
            &&& engine_first.tasks[name@].attempt == attempt
            &&& backend_first.tasks[name@].attempt == attempt
        },
{
    match (announcement, creation) {
        (
            EngineEvent::TaskInitializing { id, name, attempt },
            CrankshaftEvent::TaskCreated { .. },
        ) => {
            let announce = Write {
                name: name@,
                change: Change::Create {
                    run_id: before.run_id,
                    status: TaskStatus::Initializing,
                    call_id: Some(id@),
                    attempt: attempt as i64,
                },
            };
            let create = Write {
                name: name@,
                change: Change::Create {
                    run_id: before.run_id,
                    status: TaskStatus::Pending,
                    call_id: None,
                    attempt: 0,
                },
            };
            let submit = Write { name: name@, change: Change::Pending(created_at) };
            law_announced_attempts_are_created(before, announcement, announced_at);
            law_created_tasks_are_submitted(before, creation, created_at);
            let announced = after_engine_event(before, announcement, announced_at);
            let created = after_crankshaft_event(before, creation, created_at);
            law_created_tasks_are_submitted(announced, creation, created_at);
            law_announced_attempts_are_created(created, announcement, announced_at);
            let one = after_crankshaft_event(announced, creation, created_at);
            let other = after_engine_event(created, announcement, announced_at);
            assert(one.pending =~= before.pending + seq![announce, create, submit]);
            assert(other.pending =~= before.pending + seq![create, submit, announce]);
            law_batches_compose(contents, before.pending, seq![announce, create, submit]);
            law_batches_compose(contents, before.pending, seq![create, submit, announce]);
            lemma_three(recorded(contents, before), announce, create, submit);
            lemma_three(recorded(contents, before), create, submit, announce);
        },
        _ => {},
    }
}

/// The end of a task that a backend created reaches its row, with the time of the
/// event: once the writes are applied the task has ended as the event says, unless
/// it had ended before.
pub proof fn law_ends_reach_the_record(
    contents: Contents,
    before: Monitored,
    event: CrankshaftEvent,
    id: u64,
    now: Timestamp,
)
    requires
        match event {
            CrankshaftEvent::TaskCompleted { id: about, .. } => about == id,
            CrankshaftEvent::TaskFailed { id: about, .. } => about == id,
            CrankshaftEvent::TaskCanceled { id: about } => about == id,
            CrankshaftEvent::TaskPreempted { id: about } => about == id,
            _ => false,
        },
        before.names.contains_key(id),
        recorded(contents, before).tasks.contains_key(before.names[id]),
    ensures
        ({
            let name = before.names[id];
            let was = recorded(contents, before).tasks[name];
            let row = recorded(contents, after_crankshaft_event(before, event, now)).tasks[name];
            &&& has_ended(was.status) ==> row == was
            &&& !has_ended(was.status) ==> row.completed_at == Some(now) && match event {
                CrankshaftEvent::TaskCompleted { exit_codes, .. } => row.status
                    == TaskStatus::Completed && row.exit_status == (seq![exit_codes.first]
                    + exit_codes.rest@)[exit_codes.rest@.len() as int],
                CrankshaftEvent::TaskFailed { message, .. } => row.status == TaskStatus::Failed
                    && row.error == Some(message@),
                CrankshaftEvent::TaskCanceled { .. } => row.status == TaskStatus::Canceled,
                _ => row.status == TaskStatus::Preempted,
            }
        }),
{
    let name = before.names[id];
    let after = after_crankshaft_event(before, event, now);
    law_backend_events_are_about_one_task(before, event, id, now);
    let write = Write { name, change: meant_by(event, now)->0 };
    assert(after.pending == before.pending + seq![write]);
    law_batches_compose(contents, before.pending, seq![write]);
    law_batches_apply_in_order(recorded(contents, before), write, Seq::empty());
    assert(seq![write] =~= seq![write] + Seq::<Write>::empty());
    assert(recorded(contents, after) == after_write(recorded(contents, before), write));
}

/// Three writes are applied one after another.
proof fn lemma_three(contents: Contents, a: Write, b: Write, c: Write)
    ensures
        after_writes(contents, seq![a, b, c]) == after_write(
            after_write(after_write(contents, a), b),
            c,
        ),
{
    let one = after_write(contents, a);
    let two = after_write(one, b);
    law_batches_apply_in_order(contents, a, seq![b, c]);
    law_batches_apply_in_order(one, b, seq![c]);
    law_batches_apply_in_order(two, c, Seq::empty());
    assert(seq![a, b, c] =~= seq![a] + seq![b, c]);
    assert(seq![b, c] =~= seq![b] + seq![c]);
    assert(seq![c] =~= seq![c] + Seq::<Write>::empty());
}

} // verus!
