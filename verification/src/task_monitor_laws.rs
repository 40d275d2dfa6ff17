//! What holds of every run of the task monitor.

use vstd::prelude::*;

use crate::db::{after_write, after_writes, Change, Contents, TaskRow, Write};
use crate::db_laws::{law_batches_compose, law_writes_only_advance};
use crate::events::{event_id, CrankshaftEvent, EngineEvent};
use crate::json::text_without_nulls;
use crate::status::{is_terminal, TaskStatus};
use crate::task_monitor::{
    after_crankshaft_event, after_engine_event, after_received, after_step, announced, buffered,
    calls_for_flush, cancellations, initially, meta_of, reconciled, step_flush,
    unwatched, watched, Incoming, Meta, Monitored, MAX_BUFFERED_WRITES,
};
use crate::text::begins_with;
use crate::time::Timestamp;
use crate::uuid::Uuid;
use crate::watchlist::{
    is_consistent, lemma_finishing_is_consistent, lemma_name_position,
    lemma_watching_is_consistent, name_position, with_name, without_name,
};

verus! {

/// What a database holds once the monitor's pending writes are applied.
pub open spec fn recorded(contents: Contents, monitor: Monitored) -> Contents {
    after_writes(contents, monitor.pending)
}

/// Whether every task of the run has either reached a terminal status or is
/// among `unfinished`.
pub open spec fn watched_over(
    tasks: Map<Seq<char>, TaskRow>,
    run_id: Uuid,
    unfinished: Seq<Seq<char>>,
) -> bool {
    forall|name: Seq<char>| #[trigger]
        tasks.contains_key(name) && tasks[name].run_id == run_id ==> is_terminal(tasks[name].status)
            || unfinished.contains(name)
}

/// Whether every task among `finished` has reached a terminal status.
pub open spec fn have_ended(tasks: Map<Seq<char>, TaskRow>, finished: Set<Seq<char>>) -> bool {
    forall|name: Seq<char>| #[trigger]
        finished.contains(name) ==> tasks.contains_key(name) && is_terminal(tasks[name].status)
}

/// Whether the monitor knows which of the recorded tasks of its run are
/// unfinished, the tasks that it takes for finished are, and every task that it
/// knows from a backend is recorded.
pub open spec fn keeps_track(contents: Contents, monitor: Monitored) -> bool {
    let tasks = recorded(contents, monitor).tasks;
    &&& watched_over(tasks, monitor.run_id, monitor.unfinished)
    &&& have_ended(tasks, monitor.finished)
    &&& forall|id: u64| #[trigger]
        monitor.names.contains_key(id) ==> tasks.contains_key(monitor.names[id])
}

/// One more pending write is one more write.
proof fn lemma_buffered(contents: Contents, monitor: Monitored, name: Seq<char>, change: Change)
    ensures
        recorded(contents, buffered(monitor, name, change)) == after_write(
            recorded(contents, monitor),
            Write { name, change },
        ),
{
    let write = Write { name, change };
    assert(monitor.pending.push(write).drop_last() =~= monitor.pending);
}

/// Adding a name keeps the others.
proof fn lemma_with_name(names: Seq<Seq<char>>, name: Seq<char>)
    ensures
        with_name(names, name).contains(name),
        forall|other: Seq<char>| #[trigger]
            names.contains(other) ==> with_name(names, name).contains(other),
{
    lemma_name_position(names, name);
    let after = with_name(names, name);
    if name_position(names, name) < names.len() {
        assert(after[name_position(names, name)] == name);
    } else {
        assert(after[names.len() as int] == name);
    }
    assert forall|other: Seq<char>| #[trigger] names.contains(other) implies after.contains(
        other,
    ) by {
        let i = choose|i: int| 0 <= i < names.len() && names[i] == other;
        assert(after[i] == other);
    }
}

/// Removing a name keeps the others.
proof fn lemma_without_name(names: Seq<Seq<char>>, name: Seq<char>)
    ensures
        forall|other: Seq<char>| #[trigger]
            names.contains(other) && other != name ==> without_name(names, name).contains(other),
{
    lemma_name_position(names, name);
    let at = name_position(names, name);
    let after = without_name(names, name);
    assert forall|other: Seq<char>| #[trigger]
        names.contains(other) && other != name implies after.contains(other) by {
        let i = choose|i: int| 0 <= i < names.len() && names[i] == other;
        if at < names.len() && i > at {
            assert(after[i - 1] == other);
        } else {
            assert(after[i] == other);
        }
    }
}

/// A write that creates no task leaves no further task unfinished.
proof fn lemma_update_keeps_track(
    contents: Contents,
    monitor: Monitored,
    name: Seq<char>,
    change: Change,
)
    requires
        keeps_track(contents, monitor),
        !(change is Create),
    ensures
        keeps_track(contents, buffered(monitor, name, change)),
{
    let write = Write { name, change };
    let before = recorded(contents, monitor);
    let after = recorded(contents, buffered(monitor, name, change));
    lemma_buffered(contents, monitor, name, change);
    law_writes_only_advance(before, write);
    assert forall|other: Seq<char>| #[trigger]
        after.tasks.contains_key(other) && after.tasks[other].run_id == monitor.run_id implies
        is_terminal(after.tasks[other].status) || monitor.unfinished.contains(other) by {
        assert(before.tasks.contains_key(other));
    }
}

/// Creating a task and watching it leaves no task out of sight.
proof fn lemma_create_keeps_track(
    contents: Contents,
    monitor: Monitored,
    name: Seq<char>,
    change: Change,
)
    requires
        keeps_track(contents, monitor),
        change is Create,
    ensures
        keeps_track(contents, watched(buffered(monitor, name, change), name)),
        recorded(contents, buffered(monitor, name, change)).tasks.contains_key(name),
{
    let write = Write { name, change };
    let before = recorded(contents, monitor);
    let after = recorded(contents, buffered(monitor, name, change));
    lemma_buffered(contents, monitor, name, change);
    law_writes_only_advance(before, write);
    lemma_with_name(monitor.unfinished, name);
    assert forall|other: Seq<char>| #[trigger]
        after.tasks.contains_key(other) && after.tasks[other].run_id == monitor.run_id implies
        is_terminal(after.tasks[other].status) || watched(
        monitor,
        name,
    ).unfinished.contains(other) by {
        if other != name {
            assert(before.tasks.contains_key(other));
        } else if monitor.finished.contains(name) {
            assert(before.tasks.contains_key(name));
        }
    }
}

/// Whether a change ends a task.
spec fn ends_task(change: Change) -> bool {
    change is Cached || change is Completed || change is Failed || change is Canceled
        || change is Preempted
}

/// Ending a task allows to stop watching it.
proof fn lemma_end_keeps_track(
    contents: Contents,
    monitor: Monitored,
    name: Seq<char>,
    change: Change,
)
    requires
        keeps_track(contents, monitor),
        recorded(contents, monitor).tasks.contains_key(name),
        ends_task(change),
    ensures
        keeps_track(contents, unwatched(buffered(monitor, name, change), name)),
{
    let before = recorded(contents, monitor);
    let after = recorded(contents, buffered(monitor, name, change));
    lemma_update_keeps_track(contents, monitor, name, change);
    lemma_buffered(contents, monitor, name, change);
    lemma_without_name(monitor.unfinished, name);
    assert forall|other: Seq<char>| #[trigger]
        after.tasks.contains_key(other) && after.tasks[other].run_id == monitor.run_id implies
        is_terminal(after.tasks[other].status) || without_name(
        monitor.unfinished,
        name,
    ).contains(other) by {
        if other == name {
            assert(before.tasks.contains_key(name));
        }
    }
}

/// What is known of the calls does not matter for the tasks.
proof fn lemma_announced_keeps_track(
    contents: Contents,
    monitor: Monitored,
    name: Seq<char>,
    call_id: Option<Seq<char>>,
    attempt: i64,
)
    requires
        keeps_track(contents, monitor),
    ensures
        keeps_track(contents, watched(announced(monitor, name, call_id, attempt), name)),
{
    let known = Monitored {
        meta: monitor.meta.insert(name, Meta { call_id, attempt }),
        ..monitor
    };
    assert(recorded(contents, known) == recorded(contents, monitor));
    lemma_create_keeps_track(
        contents,
        known,
        name,
        Change::Create { run_id: monitor.run_id, status: TaskStatus::Initializing, call_id, attempt },
    );
}

/// Watching and then not watching a task, or only not watching it, comes to the
/// same when it ends in between.
proof fn lemma_cached_keeps_track(
    contents: Contents,
    monitor: Monitored,
    name: Seq<char>,
    call_id: Seq<char>,
    now: Timestamp,
)
    requires
        keeps_track(contents, monitor),
    ensures
        keeps_track(
            contents,
            unwatched(
                buffered(announced(monitor, name, Some(call_id), 0), name, Change::Cached(now)),
                name,
            ),
        ),
{
    let created = announced(monitor, name, Some(call_id), 0);
    let ended = buffered(created, name, Change::Cached(now));
    lemma_announced_keeps_track(contents, monitor, name, Some(call_id), 0);
    let seen = watched(created, name);
    assert(recorded(contents, seen) == recorded(contents, created));
    lemma_buffered(
        contents,
        Monitored { meta: created.meta, ..monitor },
        name,
        Change::Create {
            run_id: monitor.run_id,
            status: TaskStatus::Initializing,
            call_id: Some(call_id),
            attempt: 0,
        },
    );
    lemma_end_keeps_track(contents, seen, name, Change::Cached(now));
    assert(recorded(contents, buffered(seen, name, Change::Cached(now))) == recorded(
        contents,
        ended,
    ));
    let tasks = recorded(contents, ended).tasks;
    lemma_name_position(monitor.unfinished, name);
    lemma_name_position(seen.unfinished, name);
    let at = name_position(monitor.unfinished, name);
    if at == monitor.unfinished.len() && !monitor.finished.contains(name) {
        assert(seen.unfinished[at] == name);
        assert forall|i: int| 0 <= i < at implies #[trigger] seen.unfinished[i] != name by {
            assert(seen.unfinished[i] == monitor.unfinished[i]);
        }
        assert(name_position(seen.unfinished, name) == at);
        assert(without_name(seen.unfinished, name) =~= without_name(monitor.unfinished, name));
    }
}

/// Whatever the monitor receives, it keeps track of which tasks of its run are
/// unfinished, and every task that it knows from a backend is recorded.
proof fn lemma_received_keeps_track(
    contents: Contents,
    before: Monitored,
    incoming: Incoming,
    now: Timestamp,
)
    requires
        keeps_track(contents, before),
    ensures
        keeps_track(contents, after_received(before, incoming, now)),
{
    match incoming {
        Incoming::Crankshaft(event) => {
            lemma_crankshaft_keeps_track(contents, before, event, now);
        },
        Incoming::Engine(event) => {
            lemma_engine_keeps_track(contents, before, event, now);
        },
        _ => {
            assert(recorded(contents, after_received(before, incoming, now)) == recorded(
                contents,
                before,
            ));
        },
    }
}

proof fn lemma_engine_keeps_track(
    contents: Contents,
    before: Monitored,
    event: EngineEvent,
    now: Timestamp,
)
    requires
        keeps_track(contents, before),
    ensures
        keeps_track(contents, after_engine_event(before, event, now)),
{
    match event {
        EngineEvent::TaskInitializing { id, name, attempt } => {
            lemma_announced_keeps_track(
                contents,
                before,
                name@,
                Some(id@),
                crate::events::recorded_attempt(attempt),
            );
        },
        EngineEvent::TaskLocalizing { name } => {
            lemma_update_keeps_track(contents, before, name@, Change::Localizing);
        },
        EngineEvent::TaskExecuting { name, constraints: Some(constraints) } => {
            lemma_update_keeps_track(
                contents,
                before,
                name@,
                Change::Constraints(constraints.text@),
            );
        },
        EngineEvent::TaskRetrying { prior_name, next_name, attempt: _, cause: Some(cause) } => {
            let change = Change::RetryCause(cause.text@);
            let meta = meta_of(before, prior_name@);
            lemma_update_keeps_track(contents, before, prior_name@, change);
            lemma_announced_keeps_track(
                contents,
                buffered(before, prior_name@, change),
                next_name@,
                meta.call_id,
                meta.attempt,
            );
        },
        EngineEvent::ReusedCachedExecutionResult { id, name } => {
            lemma_cached_keeps_track(contents, before, name@, id@, now);
        },
        EngineEvent::TaskUsageMeasured { name, usage: Some(usage) } => {
            lemma_update_keeps_track(
                contents,
                before,
                name@,
                Change::Utilization(text_without_nulls(usage)),
            );
        },
        _ => {},
    }
}

proof fn lemma_crankshaft_keeps_track(
    contents: Contents,
    before: Monitored,
    event: CrankshaftEvent,
    now: Timestamp,
)
    requires
        keeps_track(contents, before),
    ensures
        keeps_track(contents, after_crankshaft_event(before, event, now)),
{
    match event {
        CrankshaftEvent::TaskCreated { id, name } => {
            if !begins_with(name@, before.cleanup_prefix) {
                let create = Change::Create {
                    run_id: before.run_id,
                    status: TaskStatus::Pending,
                    call_id: None,
                    attempt: 0,
                };
                lemma_create_keeps_track(contents, before, name@, create);
                let created = watched(buffered(before, name@, create), name@);
                lemma_update_keeps_track(contents, created, name@, Change::Pending(now));
                let after = after_crankshaft_event(before, event, now);
                let submitted = buffered(created, name@, Change::Pending(now));
                assert(after =~= Monitored { names: before.names.insert(id, name@), ..submitted });
                assert(recorded(contents, after) == recorded(contents, submitted));
                let tasks = recorded(contents, submitted).tasks;
                lemma_buffered(contents, created, name@, Change::Pending(now));
                law_writes_only_advance(
                    recorded(contents, created),
                    Write { name: name@, change: Change::Pending(now) },
                );
                assert(recorded(contents, created).tasks.contains_key(name@));
                assert forall|other: u64| #[trigger] after.names.contains_key(other) implies
                    tasks.contains_key(after.names[other]) by {
                    if other != id {
                        assert(submitted.names.contains_key(other));
                    }
                }
            }
        },
        _ => {
            let id = event_id(event);
            if before.names.contains_key(id) {
                let name = before.names[id];
                match event {
                    CrankshaftEvent::TaskStarted { .. } => {
                        lemma_update_keeps_track(contents, before, name, Change::Started(now));
                    },
                    CrankshaftEvent::TaskCompleted { exit_codes, .. } => {
                        lemma_end_keeps_track(
                            contents,
                            before,
                            name,
                            Change::Completed(crate::events::last_code(exit_codes), now),
                        );
                    },
                    CrankshaftEvent::TaskFailed { message, .. } => {
                        lemma_end_keeps_track(
                            contents,
                            before,
                            name,
                            Change::Failed(message@, now),
                        );
                    },
                    CrankshaftEvent::TaskCanceled { .. } => {
                        lemma_end_keeps_track(contents, before, name, Change::Canceled(now));
                    },
                    CrankshaftEvent::TaskPreempted { .. } => {
                        lemma_end_keeps_track(contents, before, name, Change::Preempted(now));
                    },
                    CrankshaftEvent::TaskResourceUsage { usage: Some(usage), .. } => {
                        lemma_update_keeps_track(
                            contents,
                            before,
                            name,
                            Change::Utilization(text_without_nulls(usage)),
                        );
                    },
                    CrankshaftEvent::TaskStdout { message, .. } => {
                        lemma_update_keeps_track(
                            contents,
                            before,
                            name,
                            Change::Log(crate::status::LogSource::Stdout, message@),
                        );
                    },
                    CrankshaftEvent::TaskStderr { message, .. } => {
                        lemma_update_keeps_track(
                            contents,
                            before,
                            name,
                            Change::Log(crate::status::LogSource::Stderr, message@),
                        );
                    },
                    _ => {},
                }
            }
        },
    }
}

/// A new monitor keeps track of a run of which nothing is recorded.
pub proof fn law_a_new_monitor_keeps_track(contents: Contents, run_id: Uuid, prefix: Seq<char>)
    requires
        forall|name: Seq<char>| #[trigger]
            contents.tasks.contains_key(name) ==> contents.tasks[name].run_id != run_id,
    ensures
        keeps_track(contents, initially(run_id, prefix)),
{
}

/// Whatever the monitor receives, and whenever it flushes, it keeps track of
/// which tasks of its run are unfinished.
pub proof fn law_the_monitor_keeps_track(
    contents: Contents,
    before: Monitored,
    incoming: Incoming,
    now: Timestamp,
)
    requires
        keeps_track(contents, before),
    ensures
        keeps_track(
            after_writes(contents, step_flush(before, incoming, now)),
            after_step(before, incoming, now),
        ),
{
    let received = after_received(before, incoming, now);
    lemma_received_keeps_track(contents, before, incoming, now);
    let flush = step_flush(before, incoming, now);
    let after = after_step(before, incoming, now);
    law_batches_compose(contents, flush, after.pending);
    assert(flush + after.pending =~= received.pending);
    assert(recorded(after_writes(contents, flush), after) == recorded(contents, received));
}

/// Whether every task of the run has reached a terminal status.
pub open spec fn all_ended(tasks: Map<Seq<char>, TaskRow>, run_id: Uuid) -> bool {
    forall|name: Seq<char>| #[trigger]
        tasks.contains_key(name) && tasks[name].run_id == run_id ==> is_terminal(tasks[name].status)
}

/// Cancellations leave no task of theirs in a non-terminal status.
proof fn lemma_cancellations(before: Contents, names: Seq<Seq<char>>, now: Timestamp)
    ensures
        forall|i: int|
            0 <= i < names.len() && after_writes(
                before,
                cancellations(names, now),
            ).tasks.contains_key(#[trigger] names[i]) ==> is_terminal(
                after_writes(before, cancellations(names, now)).tasks[names[i]].status,
            ),
        forall|name: Seq<char>| #[trigger]
            after_writes(before, cancellations(names, now)).tasks.contains_key(name) ==>
            before.tasks.contains_key(name),
    decreases names.len(),
{
    if names.len() > 0 {
        let rest = names.drop_last();
        let middle = after_writes(before, cancellations(rest, now));
        let write = Write { name: names.last(), change: Change::Canceled(now) };
        lemma_cancellations(before, rest, now);
        assert(cancellations(names, now).drop_last() =~= cancellations(rest, now));
        assert(cancellations(names, now).last() == write);
        law_writes_only_advance(middle, write);
        let after = after_write(middle, write);
        assert forall|i: int|
            0 <= i < names.len() && after.tasks.contains_key(#[trigger] names[i]) implies
            is_terminal(after.tasks[names[i]].status) by {
            assert(middle.tasks.contains_key(names[i]));
            if i < rest.len() {
                assert(names[i] == rest[i]);
            }
        }
    }
}

/// Once the monitor has ended and its final batch is applied, no task of its
/// run is left in a non-terminal status.
pub proof fn law_no_task_is_left_unfinished(contents: Contents, before: Monitored, now: Timestamp)
    requires
        keeps_track(contents, before),
    ensures
        all_ended(
            after_writes(contents, before.pending + cancellations(before.unfinished, now)).tasks,
            before.run_id,
        ),
{
    let middle = recorded(contents, before);
    let after = after_writes(middle, cancellations(before.unfinished, now));
    law_batches_compose(contents, before.pending, cancellations(before.unfinished, now));
    lemma_cancellations(middle, before.unfinished, now);
    crate::db_laws::law_batches_only_advance(middle, cancellations(before.unfinished, now));
    assert forall|name: Seq<char>| #[trigger]
        after.tasks.contains_key(name) && after.tasks[name].run_id == before.run_id implies
        is_terminal(after.tasks[name].status) by {
        assert(middle.tasks.contains_key(name));
        if !is_terminal(middle.tasks[name].status) {
            let i = choose|i: int|
                0 <= i < before.unfinished.len() && before.unfinished[i] == name;
            assert(before.unfinished[i] == name);
        }
    }
}

/// No buffered write is dropped or reordered: what was pending stays ahead of
/// what an event adds.
pub proof fn law_events_only_append_writes(before: Monitored, incoming: Incoming, now: Timestamp)
    ensures
        before.pending.is_prefix_of(after_received(before, incoming, now).pending),
{
}

/// A flush hands out exactly the writes that were pending, in order; what it
/// does not hand out stays.
pub proof fn law_flushes_lose_nothing(before: Monitored, incoming: Incoming, now: Timestamp)
    ensures
        step_flush(before, incoming, now) + after_step(before, incoming, now).pending
            == after_received(before, incoming, now).pending,
{
    let received = after_received(before, incoming, now);
    if calls_for_flush(received, incoming) {
        assert(received.pending + Seq::<Write>::empty() =~= received.pending);
    } else {
        assert(Seq::<Write>::empty() + received.pending =~= received.pending);
    }
}

/// It makes no difference to the record when the monitor flushes.
pub proof fn law_flush_timing_does_not_matter(
    contents: Contents,
    before: Monitored,
    incoming: Incoming,
    now: Timestamp,
)
    ensures
        recorded(
            after_writes(contents, step_flush(before, incoming, now)),
            after_step(before, incoming, now),
        ) == recorded(contents, after_received(before, incoming, now)),
{
    law_flushes_lose_nothing(before, incoming, now);
    law_batches_compose(
        contents,
        step_flush(before, incoming, now),
        after_step(before, incoming, now).pending,
    );
}

/// The buffer stays below its maximum.
pub proof fn law_the_buffer_is_bounded(before: Monitored, incoming: Incoming, now: Timestamp)
    requires
        before.pending.len() < MAX_BUFFERED_WRITES,
    ensures
        after_step(before, incoming, now).pending.len() < MAX_BUFFERED_WRITES,
{
}

/// What the monitor knows after backend events, each at its time.
pub open spec fn after_crankshaft_events(
    before: Monitored,
    events: Seq<(CrankshaftEvent, Timestamp)>,
) -> Monitored
    decreases events.len(),
{
    if events.len() == 0 {
        before
    } else {
        after_crankshaft_event(
            after_crankshaft_events(before, events.drop_last()),
            events.last().0,
            events.last().1,
        )
    }
}

/// A task that a backend runs on its own behalf leaves no trace: neither its
/// creation nor any later event about it changes anything.
pub proof fn law_cleanup_tasks_leave_no_trace(
    before: Monitored,
    id: u64,
    events: Seq<(CrankshaftEvent, Timestamp)>,
)
    requires
        !before.names.contains_key(id),
        forall|i: int|
            0 <= i < events.len() ==> {
                &&& event_id((#[trigger] events[i]).0) == id
                &&& events[i].0 matches CrankshaftEvent::TaskCreated { id: _, name } ==> begins_with(
                    name@,
                    before.cleanup_prefix,
                )
            },
    ensures
        after_crankshaft_events(before, events) == before,
    decreases events.len(),
{
    if events.len() > 0 {
        let rest = events.drop_last();
        assert forall|i: int| 0 <= i < rest.len() implies {
            &&& event_id((#[trigger] rest[i]).0) == id
            &&& rest[i].0 matches CrankshaftEvent::TaskCreated { id: _, name } ==> begins_with(
                name@,
                before.cleanup_prefix,
            )
        } by {
            assert(rest[i] == events[i]);
        }
        law_cleanup_tasks_leave_no_trace(before, id, rest);
        assert(events.last() == events[events.len() - 1]);
    }
}

/// The successor of a failed attempt inherits its call id and attempt number.
pub proof fn law_retries_inherit_the_call(before: Monitored, event: EngineEvent, now: Timestamp)
    requires
        event matches EngineEvent::TaskRetrying { cause: Some(_), .. },
    ensures
        event matches EngineEvent::TaskRetrying { prior_name, next_name, .. } && {
            let after = after_engine_event(before, event, now);
            &&& meta_of(after, next_name@) == meta_of(before, prior_name@)
            &&& after.pending.last() == (Write {
                name: next_name@,
                change: Change::Create {
                    run_id: before.run_id,
                    status: TaskStatus::Initializing,
                    call_id: meta_of(before, prior_name@).call_id,
                    attempt: meta_of(before, prior_name@).attempt,
                },
            })
        },
{
}

/// Whether no task is watched twice, and none that has been observed reaching a
/// terminal status is watched.
pub open spec fn watches_unfinished_only(monitor: Monitored) -> bool {
    is_consistent(monitor.unfinished, monitor.finished)
}

/// A new monitor watches no task.
pub proof fn law_a_new_monitor_watches_nothing(run_id: Uuid, prefix: Seq<char>)
    ensures
        watches_unfinished_only(initially(run_id, prefix)),
{
}

proof fn lemma_received_is_consistent(before: Monitored, incoming: Incoming, now: Timestamp)
    requires
        watches_unfinished_only(before),
    ensures
        watches_unfinished_only(after_received(before, incoming, now)),
        before.finished.subset_of(after_received(before, incoming, now).finished),
{
    assert forall|name: Seq<char>| !before.finished.contains(name) implies is_consistent(
        #[trigger] with_name(before.unfinished, name),
        before.finished,
    ) by {
        lemma_watching_is_consistent(before.unfinished, before.finished, name);
    }
    assert forall|name: Seq<char>|
        is_consistent(
            #[trigger] without_name(before.unfinished, name),
            before.finished.insert(name),
        ) by {
        lemma_finishing_is_consistent(before.unfinished, before.finished, name);
    }
}

/// After every step, no task is watched twice, none that has been observed
/// reaching a terminal status is watched, and what was observed stands.
pub proof fn law_finished_tasks_are_not_watched(
    before: Monitored,
    incoming: Incoming,
    now: Timestamp,
)
    requires
        watches_unfinished_only(before),
    ensures
        watches_unfinished_only(after_step(before, incoming, now)),
        before.finished.subset_of(after_step(before, incoming, now).finished),
{
    lemma_received_is_consistent(before, incoming, now);
}

/// Whether an event announces that the task `name` has reached a terminal
/// status.
pub open spec fn announces_end(before: Monitored, incoming: Incoming, name: Seq<char>) -> bool {
    match incoming {
        Incoming::Crankshaft(event) => {
            &&& event is TaskCompleted || event is TaskFailed || event is TaskCanceled
                || event is TaskPreempted
            &&& before.names.contains_key(event_id(event))
            &&& before.names[event_id(event)] == name
        },
        Incoming::Engine(EngineEvent::ReusedCachedExecutionResult { name: cached, .. }) => cached@
            == name,
        _ => false,
    }
}

/// A task is observed reaching a terminal status exactly when an event announces
/// it.
pub proof fn law_ends_are_observed(
    before: Monitored,
    incoming: Incoming,
    now: Timestamp,
    name: Seq<char>,
)
    ensures
        after_step(before, incoming, now).finished.contains(name) <==> before.finished.contains(
            name,
        ) || announces_end(before, incoming, name),
{
}

/// What was observed stands throughout a run.
proof fn lemma_steps_are_consistent(before: Monitored, receipts: Seq<Receipt>)
    requires
        watches_unfinished_only(before),
    ensures
        watches_unfinished_only(after_steps(before, receipts)),
        before.finished.subset_of(after_steps(before, receipts).finished),
    decreases receipts.len(),
{
    if receipts.len() > 0 {
        lemma_steps_are_consistent(before, receipts.drop_last());
        law_finished_tasks_are_not_watched(
            after_steps(before, receipts.drop_last()),
            receipts.last().incoming,
            receipts.last().now,
        );
    }
}

/// What was observed stands while the channels are drained.
proof fn lemma_drain_is_consistent(before: Monitored, drained: Seq<Receipt>)
    requires
        watches_unfinished_only(before),
    ensures
        watches_unfinished_only(without_flushes(before, drained)),
        before.finished.subset_of(without_flushes(before, drained).finished),
    decreases drained.len(),
{
    if drained.len() > 0 {
        lemma_drain_is_consistent(before, drained.drop_last());
        lemma_received_is_consistent(
            without_flushes(before, drained.drop_last()),
            drained.last().incoming,
            drained.last().now,
        );
    }
}

/// Once an event has announced that a task has reached a terminal status, the
/// task is never written off as canceled, whatever is received or drained
/// afterwards, late announcements of the task among it.
pub proof fn law_finished_tasks_are_not_written_off(
    before: Monitored,
    end: Receipt,
    name: Seq<char>,
    receipts: Seq<Receipt>,
    drained: Seq<Receipt>,
    now: Timestamp,
)
    requires
        watches_unfinished_only(before),
        announces_end(before, end.incoming, name),
    ensures
        ({
            let ended = after_step(before, end.incoming, end.now);
            let last = without_flushes(after_steps(ended, receipts), drained);
            let written_off = cancellations(last.unfinished, now);
            &&& reconciled(last, now).pending == last.pending + written_off
            &&& forall|i: int|
                0 <= i < written_off.len() ==> (#[trigger] written_off[i]).name != name
        }),
{
    let ended = after_step(before, end.incoming, end.now);
    law_finished_tasks_are_not_watched(before, end.incoming, end.now);
    law_ends_are_observed(before, end.incoming, end.now, name);
    lemma_steps_are_consistent(ended, receipts);
    lemma_drain_is_consistent(after_steps(ended, receipts), drained);
    let last = without_flushes(after_steps(ended, receipts), drained);
    let written_off = cancellations(last.unfinished, now);
    assert forall|i: int| 0 <= i < written_off.len() implies (#[trigger] written_off[i]).name
        != name by {
        assert(!last.finished.contains(last.unfinished[i]));
        assert(last.finished.contains(name));
    }
}

/// Something that the monitor received, and when.
pub struct Receipt {
    /// What was received.
    pub incoming: Incoming,
    /// When it was received.
    pub now: Timestamp,
}

/// What the monitor knows after all that it received.
pub open spec fn after_steps(before: Monitored, receipts: Seq<Receipt>) -> Monitored
    decreases receipts.len(),
{
    if receipts.len() == 0 {
        before
    } else {
        after_step(
            after_steps(before, receipts.drop_last()),
            receipts.last().incoming,
            receipts.last().now,
        )
    }
}

/// The writes that the monitor hands out along the way.
pub open spec fn handed_out(before: Monitored, receipts: Seq<Receipt>) -> Seq<Write>
    decreases receipts.len(),
{
    if receipts.len() == 0 {
        Seq::empty()
    } else {
        handed_out(before, receipts.drop_last()) + step_flush(
            after_steps(before, receipts.drop_last()),
            receipts.last().incoming,
            receipts.last().now,
        )
    }
}

/// What the monitor would know if it never flushed.
pub open spec fn without_flushes(before: Monitored, receipts: Seq<Receipt>) -> Monitored
    decreases receipts.len(),
{
    if receipts.len() == 0 {
        before
    } else {
        after_received(
            without_flushes(before, receipts.drop_last()),
            receipts.last().incoming,
            receipts.last().now,
        )
    }
}

/// The monitor with writes ahead of its pending ones.
spec fn preceded(monitor: Monitored, writes: Seq<Write>) -> Monitored {
    Monitored { pending: writes + monitor.pending, ..monitor }
}

/// What was pending before does not matter for what an event adds.
proof fn lemma_preceded(before: Monitored, writes: Seq<Write>, incoming: Incoming, now: Timestamp)
    ensures
        after_received(preceded(before, writes), incoming, now) == preceded(
            after_received(before, incoming, now),
            writes,
        ),
{
    let longer = after_received(preceded(before, writes), incoming, now);
    let expected = preceded(after_received(before, incoming, now), writes);
    assert forall|base: Seq<Write>, write: Write| #[trigger]
        (writes + base).push(write) == writes + base.push(write) by {
        assert((writes + base).push(write) =~= writes + base.push(write));
    }
    assert(longer.pending =~= expected.pending);
}

/// No buffered write is ever dropped: what the monitor has handed out, and what
/// is still pending, is all that the events implied, in order. It makes no
/// difference when it flushed.
pub proof fn law_no_write_is_dropped(before: Monitored, receipts: Seq<Receipt>)
    ensures
        without_flushes(before, receipts) == (Monitored {
            pending: handed_out(before, receipts) + after_steps(before, receipts).pending,
            ..after_steps(before, receipts)
        }),
    decreases receipts.len(),
{
    if receipts.len() == 0 {
        assert(Seq::<Write>::empty() + before.pending =~= before.pending);
    } else {
        let rest = receipts.drop_last();
        let last = receipts.last();
        let middle = after_steps(before, rest);
        let out = handed_out(before, rest);
        law_no_write_is_dropped(before, rest);
        assert(without_flushes(before, rest) == preceded(middle, out));
        lemma_preceded(middle, out, last.incoming, last.now);
        law_flushes_lose_nothing(middle, last.incoming, last.now);
        let flush = step_flush(middle, last.incoming, last.now);
        let after = after_step(middle, last.incoming, last.now);
        assert(out + (flush + after.pending) =~= (out + flush) + after.pending);
    }
}

/// The monitor keeps track throughout a run.
proof fn lemma_steps_keep_track(contents: Contents, before: Monitored, receipts: Seq<Receipt>)
    requires
        keeps_track(contents, before),
    ensures
        keeps_track(
            after_writes(contents, handed_out(before, receipts)),
            after_steps(before, receipts),
        ),
    decreases receipts.len(),
{
    if receipts.len() > 0 {
        let rest = receipts.drop_last();
        let last = receipts.last();
        let middle = after_steps(before, rest);
        let out = handed_out(before, rest);
        lemma_steps_keep_track(contents, before, rest);
        law_the_monitor_keeps_track(after_writes(contents, out), middle, last.incoming, last.now);
        law_batches_compose(contents, out, step_flush(middle, last.incoming, last.now));
    }
}

/// Events that are consumed without a flush keep the monitor on track.
proof fn lemma_drain_keeps_track(contents: Contents, before: Monitored, drained: Seq<Receipt>)
    requires
        keeps_track(contents, before),
    ensures
        keeps_track(contents, without_flushes(before, drained)),
    decreases drained.len(),
{
    if drained.len() > 0 {
        lemma_drain_keeps_track(contents, before, drained.drop_last());
        lemma_received_keeps_track(
            contents,
            without_flushes(before, drained.drop_last()),
            drained.last().incoming,
            drained.last().now,
        );
    }
}

/// Whatever a monitor receives over a run of which nothing was recorded, and
/// whatever is drained from its channels at the end: once all that it hands out
/// is applied, no task of the run is left in a non-terminal status.
pub proof fn law_every_task_ends(
    contents: Contents,
    run_id: Uuid,
    prefix: Seq<char>,
    receipts: Seq<Receipt>,
    drained: Seq<Receipt>,
    now: Timestamp,
)
    requires
        forall|name: Seq<char>| #[trigger]
            contents.tasks.contains_key(name) ==> contents.tasks[name].run_id != run_id,
    ensures
        ({
            let monitor = initially(run_id, prefix);
            let drained_monitor = without_flushes(after_steps(monitor, receipts), drained);
            all_ended(
                after_writes(
                    after_writes(contents, handed_out(monitor, receipts)),
                    drained_monitor.pending + cancellations(drained_monitor.unfinished, now),
                ).tasks,
                run_id,
            )
        }),
{
    let monitor = initially(run_id, prefix);
    let flushed_contents = after_writes(contents, handed_out(monitor, receipts));
    let drained_monitor = without_flushes(after_steps(monitor, receipts), drained);
    law_a_new_monitor_keeps_track(contents, run_id, prefix);
    lemma_steps_keep_track(contents, monitor, receipts);
    lemma_drain_keeps_track(flushed_contents, after_steps(monitor, receipts), drained);
    lemma_run_is_fixed(monitor, receipts);
    lemma_run_stays(after_steps(monitor, receipts), drained);
    law_no_task_is_left_unfinished(flushed_contents, drained_monitor, now);
}

/// The monitor stays with its run.
proof fn lemma_run_is_fixed(before: Monitored, receipts: Seq<Receipt>)
    ensures
        after_steps(before, receipts).run_id == before.run_id,
    decreases receipts.len(),
{
    if receipts.len() > 0 {
        lemma_run_is_fixed(before, receipts.drop_last());
    }
}

/// The monitor stays with its run while its channels are drained.
proof fn lemma_run_stays(before: Monitored, drained: Seq<Receipt>)
    ensures
        without_flushes(before, drained).run_id == before.run_id,
    decreases drained.len(),
{
    if drained.len() > 0 {
        lemma_run_stays(before, drained.drop_last());
    }
}

} // verus!
