//! What each event adds to the metrics of an attempt.

use vstd::prelude::*;

use crate::collector::{
    advanced_to, after_advance, after_crankshaft, after_engine, after_finish, after_received,
    all_logs_are_names, are_tasks_of, attempt_of, attempt_position, finished, is_local_summary,
    is_observed, is_task_of, logs_are_names, nothing_observed, observed, with_attempt, Attempt,
    AttemptRecord, Collected, Received,
};
use crate::db::first_of;
use crate::events::{last_code, recorded_attempt, CrankshaftEvent, EngineEvent};
use crate::lifecycle_laws::{has_ended, precedes_status};
use crate::metrics::{RunMetricsResponse, RunMetricsRun, Task};
use crate::status::{RunStatus, TaskStatus};
use crate::text::begins_with;
use crate::time::{millis_between, Timestamp};
use crate::uuid::Uuid;

verus! {

/// What is known under a name, if anything.
pub open spec fn known(attempts: Seq<(Seq<char>, Attempt)>, name: Seq<char>) -> Option<Attempt>
    decreases attempts.len(),
{
    if attempts.len() == 0 {
        None
    } else if attempts.first().0 == name {
        Some(attempts.first().1)
    } else {
        known(attempts.drop_first(), name)
    }
}

/// The names of the attempts, in order.
pub open spec fn names_of(attempts: Seq<(Seq<char>, Attempt)>) -> Seq<Seq<char>> {
    attempts.map_values(|entry: (Seq<char>, Attempt)| entry.0)
}

/// Whether `attempt` is what is known under `name`, and all else is as it was:
/// the other attempts, and the order in which they were first observed.
pub open spec fn now_known(
    before: Collected,
    after: Collected,
    name: Seq<char>,
    attempt: Attempt,
) -> bool {
    &&& known(after.attempts, name) == Some(attempt)
    &&& forall|other: Seq<char>|
        other != name ==> #[trigger] known(after.attempts, other) == known(before.attempts, other)
    &&& names_of(after.attempts) == if known(before.attempts, name) is Some {
        names_of(before.attempts)
    } else {
        names_of(before.attempts) + seq![name]
    }
    &&& after.cleanup_prefix == before.cleanup_prefix
}

/// What is known of an attempt that is observed for the first time.
pub open spec fn fresh(
    call_id: Option<Seq<char>>,
    attempt: i64,
    status: TaskStatus,
    at: Timestamp,
) -> Attempt {
    Attempt {
        call_id,
        attempt,
        status,
        exit_status: None,
        constraints: None,
        retry_cause: None,
        utilization: None,
        created_at: at,
        started_at: None,
        completed_at: None,
    }
}

/// What is known of an attempt once it has been seen under a call path and a
/// number: a call path that is known stands, and so does a larger number.
pub open spec fn seen(
    before: Option<Attempt>,
    call_id: Option<Seq<char>>,
    number: i64,
    status: TaskStatus,
    at: Timestamp,
) -> Attempt {
    match before {
        Some(attempt) => Attempt {
            call_id: if attempt.call_id is None {
                call_id
            } else {
                attempt.call_id
            },
            attempt: if number > attempt.attempt {
                number
            } else {
                attempt.attempt
            },
            ..attempt
        },
        None => fresh(call_id, number, status, at),
    }
}

/// A lookup finds the attempt at the position of its name.
proof fn lemma_known(attempts: Seq<(Seq<char>, Attempt)>, name: Seq<char>)
    ensures
        0 <= attempt_position(attempts, name) <= attempts.len(),
        known(attempts, name) is Some <==> attempt_position(attempts, name) < attempts.len(),
        known(attempts, name) is Some ==> attempts[attempt_position(attempts, name)] == (
            name,
            known(attempts, name)->0,
        ),
    decreases attempts.len(),
{
    if attempts.len() > 0 && attempts[0].0 != name {
        lemma_known(attempts.drop_first(), name);
    }
}

/// What is looked up is what the collector knows: a record is handed out for
/// every attempt that was observed, and for no other.
pub proof fn law_lookups_find_what_is_known(collected: Collected, name: Seq<char>)
    ensures
        is_observed(collected, name) <==> known(collected.attempts, name) is Some,
        is_observed(collected, name) ==> known(collected.attempts, name) == Some(
            attempt_of(collected, name),
        ),
        known(collected.attempts, name) is Some <==> names_of(collected.attempts).contains(name),
{
    lemma_known(collected.attempts, name);
    let names = names_of(collected.attempts);
    let at = attempt_position(collected.attempts, name);
    if known(collected.attempts, name) is Some {
        assert(names[at] == name);
    } else if names.contains(name) {
        let k = choose|k: int| 0 <= k < names.len() && names[k] == name;
        lemma_absent(collected.attempts, name, k);
    }
}

/// A name that no lookup finds is at no position.
proof fn lemma_absent(attempts: Seq<(Seq<char>, Attempt)>, name: Seq<char>, k: int)
    requires
        0 <= k < attempts.len(),
        known(attempts, name) is None,
    ensures
        attempts[k].0 != name,
    decreases attempts.len(),
{
    if k > 0 {
        lemma_absent(attempts.drop_first(), name, k - 1);
        assert(attempts.drop_first()[k - 1] == attempts[k]);
    }
}

/// Replacing what is known under a name is found under that name alone.
proof fn lemma_known_update(
    attempts: Seq<(Seq<char>, Attempt)>,
    name: Seq<char>,
    attempt: Attempt,
    other: Seq<char>,
)
    requires
        attempt_position(attempts, name) < attempts.len(),
    ensures
        known(attempts.update(attempt_position(attempts, name), (name, attempt)), other) == if other
            == name {
            Some(attempt)
        } else {
            known(attempts, other)
        },
    decreases attempts.len(),
{
    let at = attempt_position(attempts, name);
    let after = attempts.update(at, (name, attempt));
    lemma_known(attempts, name);
    if attempts[0].0 == name {
        assert(after.drop_first() =~= attempts.drop_first());
    } else {
        let rest = attempts.drop_first();
        lemma_known_update(rest, name, attempt, other);
        assert(after.drop_first() =~= rest.update(at - 1, (name, attempt)));
        assert(after[0] == attempts[0]);
    }
}

/// What is added under a new name is found under that name alone.
proof fn lemma_known_push(
    attempts: Seq<(Seq<char>, Attempt)>,
    name: Seq<char>,
    attempt: Attempt,
    other: Seq<char>,
)
    requires
        known(attempts, name) is None,
    ensures
        known(attempts.push((name, attempt)), other) == if other == name {
            Some(attempt)
        } else {
            known(attempts, other)
        },
    decreases attempts.len(),
{
    let after = attempts.push((name, attempt));
    if attempts.len() == 0 {
        assert(after.drop_first() =~= attempts);
    } else {
        let rest = attempts.drop_first();
        lemma_known_push(rest, name, attempt, other);
        assert(after.drop_first() =~= rest.push((name, attempt)));
    }
}

/// Knowing more of an attempt leaves all else as it was.
proof fn lemma_now_known(before: Collected, name: Seq<char>, attempt: Attempt)
    ensures
        now_known(before, with_attempt(before, name, attempt), name, attempt),
        with_attempt(before, name, attempt).names == before.names,
{
    let after = with_attempt(before, name, attempt);
    lemma_known(before.attempts, name);
    assert forall|other: Seq<char>| #[trigger]
        known(after.attempts, other) == if other == name {
            Some(attempt)
        } else {
            known(before.attempts, other)
        } by {
        if known(before.attempts, name) is Some {
            lemma_known_update(before.attempts, name, attempt, other);
        } else {
            lemma_known_push(before.attempts, name, attempt, other);
        }
    }
    if known(before.attempts, name) is Some {
        assert(names_of(after.attempts) =~= names_of(before.attempts));
    } else {
        assert(names_of(after.attempts) =~= names_of(before.attempts) + seq![name]);
    }
}

/// A collector that has observed nothing knows nothing.
pub proof fn law_a_new_collector_knows_nothing(prefix: Seq<char>, name: Seq<char>, id: u64)
    ensures
        known(nothing_observed(prefix).attempts, name) is None,
        nothing_observed(prefix).attempts.len() == 0,
        !nothing_observed(prefix).names.contains_key(id),
        nothing_observed(prefix).cleanup_prefix == prefix,
{
}

/// An attempt that the engine announces is known under its call path and number,
/// unless more was known; its progress is left alone.
pub proof fn law_announcements_are_collected(
    before: Collected,
    event: EngineEvent,
    first: Timestamp,
    second: Timestamp,
)
    requires
        event is TaskInitializing,
    ensures
        event matches EngineEvent::TaskInitializing { id, name, attempt } && {
            let after = after_engine(before, event, first, second);
            let number: i64 = if attempt < 0x8000_0000_0000_0000 {
                attempt as i64
            } else {
                0x7fff_ffff_ffff_ffff
            };
            &&& now_known(
                before,
                after,
                name@,
                seen(
                    known(before.attempts, name@),
                    Some(id@),
                    number,
                    TaskStatus::Initializing,
                    first,
                ),
            )
            &&& after.names == before.names
        },
{
    match event {
        EngineEvent::TaskInitializing { id, name, attempt } => {
            lemma_known(before.attempts, name@);
            let after = after_engine(before, event, first, second);
            lemma_now_known(
                before,
                name@,
                observed(
                    before,
                    name@,
                    Some(id@),
                    recorded_attempt(attempt),
                    TaskStatus::Initializing,
                    first,
                ),
            );
        },
        _ => {},
    }
}

/// An attempt whose status is seen to have come as far as `status` has that
/// status, unless it was further on; nothing else about it changes.
pub proof fn law_advances_are_collected(
    before: Collected,
    name: Seq<char>,
    status: TaskStatus,
    now: Timestamp,
)
    ensures
        ({
            let attempt = seen(known(before.attempts, name), None, 0, status, now);
            now_known(
                before,
                after_advance(before, name, status, now),
                name,
                Attempt {
                    status: if precedes_status(attempt.status, status) {
                        status
                    } else {
                        attempt.status
                    },
                    ..attempt
                },
            )
        }),
        after_advance(before, name, status, now).names == before.names,
{
    lemma_known(before.attempts, name);
    lemma_now_known(
        before,
        name,
        advanced_to(observed(before, name, None, 0, status, now), status),
    );
}

/// An attempt that localizes advances to localizing.
pub proof fn law_localization_is_collected(
    before: Collected,
    event: EngineEvent,
    first: Timestamp,
    second: Timestamp,
)
    requires
        event is TaskLocalizing,
    ensures
        event matches EngineEvent::TaskLocalizing { name } && {
            let after = after_engine(before, event, first, second);
            let attempt = seen(
                known(before.attempts, name@),
                None,
                0,
                TaskStatus::Localizing,
                first,
            );
            &&& now_known(
                before,
                after,
                name@,
                Attempt {
                    status: if attempt.status is Initializing {
                        TaskStatus::Localizing
                    } else {
                        attempt.status
                    },
                    ..attempt
                },
            )
            &&& after.names == before.names
        },
{
    match event {
        EngineEvent::TaskLocalizing { name } => {
            law_advances_are_collected(before, name@, TaskStatus::Localizing, first);
        },
        _ => {},
    }
}

/// The constraints, and the utilization, that an attempt is reported with are
/// known of it from then on, whatever its status and whenever it completed;
/// nothing else about it changes.
pub proof fn law_reports_on_attempts_are_collected(
    before: Collected,
    event: EngineEvent,
    first: Timestamp,
    second: Timestamp,
)
    requires
        event is TaskExecuting || event is TaskUtilization,
    ensures
        ({
            let after = after_engine(before, event, first, second);
            &&& event matches EngineEvent::TaskExecuting { name, constraints } ==> now_known(
                before,
                after,
                name@,
                Attempt {
                    constraints,
                    ..seen(
                        known(before.attempts, name@),
                        None,
                        0,
                        TaskStatus::Initializing,
                        first,
                    )
                },
            )
            &&& event matches EngineEvent::TaskUtilization { name, utilization } ==> now_known(
                before,
                after,
                name@,
                Attempt {
                    utilization,
                    ..seen(
                        known(before.attempts, name@),
                        None,
                        0,
                        TaskStatus::Initializing,
                        first,
                    )
                },
            )
            &&& after.names == before.names
        }),
{
    match event {
        EngineEvent::TaskExecuting { name, constraints } => {
            lemma_known(before.attempts, name@);
            lemma_now_known(
                before,
                name@,
                Attempt {
                    constraints,
                    ..observed(
                        before,
                        name@,
                        None,
                        0,
                        TaskStatus::Initializing,
                        first,
                    )
                },
            );
        },
        EngineEvent::TaskUtilization { name, utilization } => {
            lemma_known(before.attempts, name@);
            lemma_now_known(
                before,
                name@,
                Attempt {
                    utilization,
                    ..observed(
                        before,
                        name@,
                        None,
                        0,
                        TaskStatus::Initializing,
                        first,
                    )
                },
            );
        },
        _ => {},
    }
}

/// A retry is the cause known of the attempt that failed, and the attempt that
/// follows is known under the call path and number of the one that failed, unless
/// more was known of it.
pub proof fn law_retries_are_collected(
    before: Collected,
    event: EngineEvent,
    first: Timestamp,
    second: Timestamp,
)
    requires
        event is TaskRetrying,
    ensures
        event matches EngineEvent::TaskRetrying { prior_name, next_name, attempt, cause } && {
            let after = after_engine(before, event, first, second);
            let prior = Attempt {
                retry_cause: cause,
                ..seen(
                    known(before.attempts, prior_name@),
                    None,
                    0,
                    TaskStatus::Initializing,
                    first,
                )
            };
            &&& known(after.attempts, prior_name@) == Some(prior)
            &&& next_name@ != prior_name@ ==> known(after.attempts, next_name@) == Some(
                seen(
                    known(before.attempts, next_name@),
                    prior.call_id,
                    prior.attempt,
                    TaskStatus::Initializing,
                    second,
                ),
            )
            &&& forall|other: Seq<char>|
                other != prior_name@ && other != next_name@ ==> #[trigger] known(
                    after.attempts,
                    other,
                ) == known(before.attempts, other)
            &&& names_of(after.attempts) == names_of(before.attempts) + (if known(
                before.attempts,
                prior_name@,
            ) is Some {
                Seq::empty()
            } else {
                seq![prior_name@]
            }) + (if known(before.attempts, next_name@) is Some || next_name@ == prior_name@ {
                Seq::empty()
            } else {
                seq![next_name@]
            })
            &&& after.names == before.names
            &&& after.cleanup_prefix == before.cleanup_prefix
        },
{
    match event {
        EngineEvent::TaskRetrying { prior_name, next_name, attempt, cause } => {
            lemma_known(before.attempts, prior_name@);
            let prior = Attempt {
                retry_cause: cause,
                ..observed(
                    before,
                    prior_name@,
                    None,
                    0,
                    TaskStatus::Initializing,
                    first,
                )
            };
            let middle = with_attempt(before, prior_name@, prior);
            lemma_now_known(before, prior_name@, prior);
            lemma_known(middle.attempts, next_name@);
            let next = observed(
                middle,
                next_name@,
                prior.call_id,
                prior.attempt,
                TaskStatus::Initializing,
                second,
            );
            lemma_now_known(middle, next_name@, next);
            let after = after_engine(before, event, first, second);
            assert(after == with_attempt(middle, next_name@, next));
            let none = Seq::<Seq<char>>::empty();
            assert(names_of(before.attempts) + none =~= names_of(before.attempts));
            assert(names_of(before.attempts) + seq![prior_name@] + none =~= names_of(
                before.attempts,
            ) + seq![prior_name@]);
            assert(names_of(before.attempts) + none + none =~= names_of(before.attempts));
            assert(names_of(before.attempts) + none + seq![next_name@] =~= names_of(
                before.attempts,
            ) + seq![next_name@]);
        },
        _ => {},
    }
}

/// An attempt that was served from the call cache is cached and complete as of
/// that time, under its call path unless one was known.
pub proof fn law_cached_results_are_collected(
    before: Collected,
    event: EngineEvent,
    first: Timestamp,
    second: Timestamp,
)
    requires
        event is ReusedCachedExecutionResult,
    ensures
        event matches EngineEvent::ReusedCachedExecutionResult { id, name } && {
            let after = after_engine(before, event, first, second);
            &&& now_known(
                before,
                after,
                name@,
                Attempt {
                    status: TaskStatus::Cached,
                    completed_at: Some(second),
                    ..seen(
                        known(before.attempts, name@),
                        Some(id@),
                        0,
                        TaskStatus::Initializing,
                        first,
                    )
                },
            )
            &&& after.names == before.names
        },
{
    match event {
        EngineEvent::ReusedCachedExecutionResult { id, name } => {
            lemma_known(before.attempts, name@);
            lemma_now_known(
                before,
                name@,
                Attempt {
                    status: TaskStatus::Cached,
                    completed_at: Some(second),
                    ..observed(
                        before,
                        name@,
                        Some(id@),
                        0,
                        TaskStatus::Initializing,
                        first,
                    )
                },
            );
        },
        _ => {},
    }
}

/// Parking, unparking and measured usage add nothing to the metrics.
pub proof fn law_other_engine_events_are_not_collected(
    before: Collected,
    event: EngineEvent,
    first: Timestamp,
    second: Timestamp,
)
    requires
        event is TaskParked || event is TaskUnparked || event is TaskUsageMeasured,
    ensures
        after_engine(before, event, first, second) == before,
{
}

/// A task that a backend creates advances to pending, and is known by its id from
/// then on; one that a backend creates on its own behalf is ignored.
pub proof fn law_creations_are_collected(
    before: Collected,
    event: CrankshaftEvent,
    first: Timestamp,
    second: Timestamp,
)
    requires
        event is TaskCreated,
    ensures
        event matches CrankshaftEvent::TaskCreated { id, name } && {
            let after = after_crankshaft(before, event, first, second);
            let attempt = seen(known(before.attempts, name@), None, 0, TaskStatus::Pending, first);
            &&& before.cleanup_prefix.is_prefix_of(name@) ==> after == before
            &&& !before.cleanup_prefix.is_prefix_of(name@) ==> {
                &&& now_known(
                    before,
                    after,
                    name@,
                    Attempt {
                        status: if attempt.status is Initializing || attempt.status is Localizing {
                            TaskStatus::Pending
                        } else {
                            attempt.status
                        },
                        ..attempt
                    },
                )
                &&& after.names == before.names.insert(id, name@)
            }
        },
{
    match event {
        CrankshaftEvent::TaskCreated { id, name } => {
            let prefix = before.cleanup_prefix;
            if prefix.is_prefix_of(name@) {
                assert(name@.subrange(0, prefix.len() as int) =~= prefix);
            } else {
                let told = Collected { names: before.names.insert(id, name@), ..before };
                assert(!begins_with(name@, prefix));
                law_advances_are_collected(told, name@, TaskStatus::Pending, first);
            }
        },
        _ => {},
    }
}

/// The end of an attempt is what is known of it when it had not ended, or had
/// ended without a completion time; otherwise all that is known of it stands.
pub proof fn law_ends_are_collected(
    before: Collected,
    name: Seq<char>,
    status: TaskStatus,
    exit_status: Option<i32>,
    first: Timestamp,
    second: Timestamp,
)
    requires
        has_ended(status),
    ensures
        ({
            let after = after_finish(before, name, status, exit_status, first, second);
            let attempt = seen(known(before.attempts, name), None, 0, status, first);
            now_known(
                before,
                after,
                name,
                if has_ended(attempt.status) && attempt.completed_at is Some {
                    attempt
                } else {
                    Attempt { status, exit_status, completed_at: Some(second), ..attempt }
                },
            )
        }),
        after_finish(before, name, status, exit_status, first, second).names == before.names,
{
    lemma_known(before.attempts, name);
    lemma_now_known(
        before,
        name,
        finished(
            observed(before, name, None, 0, status, first),
            status,
            exit_status,
            second,
        ),
    );
}

/// A backend's event about a task that it created adds its start or its end to
/// the attempt of that name: a start as of the first time it is seen, an end with
/// the exit code of the last execution where the task completed. Any other event
/// adds nothing, and neither does one about a task that is not known.
pub proof fn law_progress_is_collected(
    before: Collected,
    event: CrankshaftEvent,
    id: u64,
    first: Timestamp,
    second: Timestamp,
)
    requires
        match event {
            CrankshaftEvent::TaskCreated { .. } => false,
            CrankshaftEvent::TaskStarted { id: about } => about == id,
            CrankshaftEvent::TaskContainerCreated { id: about } => about == id,
            CrankshaftEvent::TaskContainerExited { id: about } => about == id,
            CrankshaftEvent::TaskCompleted { id: about, .. } => about == id,
            CrankshaftEvent::TaskFailed { id: about, .. } => about == id,
            CrankshaftEvent::TaskCanceled { id: about } => about == id,
            CrankshaftEvent::TaskPreempted { id: about } => about == id,
            CrankshaftEvent::TaskResourceUsage { id: about, .. } => about == id,
            CrankshaftEvent::TaskStdout { id: about, .. } => about == id,
            CrankshaftEvent::TaskStderr { id: about, .. } => about == id,
            CrankshaftEvent::ImagePullStarted { id: about } => about == id,
            CrankshaftEvent::ImagePullFailed { id: about } => about == id,
            CrankshaftEvent::ImagePullFinished { id: about } => about == id,
        },
    ensures
        ({
            let after = after_crankshaft(before, event, first, second);
            let name = before.names[id];
            let ended = |status: TaskStatus, exit_status: Option<i32>| -> Attempt
                {
                    let attempt = seen(known(before.attempts, name), None, 0, status, first);
                    if has_ended(attempt.status) && attempt.completed_at is Some {
                        attempt
                    } else {
                        Attempt { status, exit_status, completed_at: Some(second), ..attempt }
                    }
                };
            let started = seen(known(before.attempts, name), None, 0, TaskStatus::Running, first);
            &&& after.names == before.names
            &&& !before.names.contains_key(id) ==> after == before
            &&& before.names.contains_key(id) ==> match event {
                CrankshaftEvent::TaskStarted { .. } => now_known(
                    before,
                    after,
                    name,
                    Attempt {
                        status: if has_ended(started.status) {
                            started.status
                        } else {
                            TaskStatus::Running
                        },
                        started_at: Some(
                            match started.started_at {
                                Some(at) => at,
                                None => second,
                            },
                        ),
                        ..started
                    },
                ),
                CrankshaftEvent::TaskCompleted { exit_codes, .. } => now_known(
                    before,
                    after,
                    name,
                    ended(
                        TaskStatus::Completed,
                        (seq![exit_codes.first] + exit_codes.rest@)[exit_codes.rest@.len() as int],
                    ),
                ),
                CrankshaftEvent::TaskFailed { .. } => now_known(
                    before,
                    after,
                    name,
                    ended(TaskStatus::Failed, None),
                ),
                CrankshaftEvent::TaskCanceled { .. } => now_known(
                    before,
                    after,
                    name,
                    ended(TaskStatus::Canceled, None),
                ),
                CrankshaftEvent::TaskPreempted { .. } => now_known(
                    before,
                    after,
                    name,
                    ended(TaskStatus::Preempted, None),
                ),
                _ => after == before,
            }
        }),
{
    if before.names.contains_key(id) {
        let name = before.names[id];
        match event {
            CrankshaftEvent::TaskStarted { .. } => {
                lemma_known(before.attempts, name);
                let running = advanced_to(
                    observed(before, name, None, 0, TaskStatus::Running, first),
                    TaskStatus::Running,
                );
                lemma_now_known(
                    before,
                    name,
                    Attempt {
                        started_at: first_of(running.started_at, Some(second)),
                        ..running
                    },
                );
            },
            CrankshaftEvent::TaskCompleted { exit_codes, .. } => {
                law_ends_are_collected(
                    before,
                    name,
                    TaskStatus::Completed,
                    last_code(exit_codes),
                    first,
                    second,
                );
            },
            CrankshaftEvent::TaskFailed { .. } => {
                law_ends_are_collected(before, name, TaskStatus::Failed, None, first, second);
            },
            CrankshaftEvent::TaskCanceled { .. } => {
                law_ends_are_collected(before, name, TaskStatus::Canceled, None, first, second);
            },
            CrankshaftEvent::TaskPreempted { .. } => {
                law_ends_are_collected(before, name, TaskStatus::Preempted, None, first, second);
            },
            _ => {},
        }
    }
}

/// What is received is collected as what it is: an event of the engine, an event
/// of a backend, or nothing.
pub proof fn law_receptions_are_collected(
    before: Collected,
    received: Received,
    first: Timestamp,
    second: Timestamp,
)
    ensures
        ({
            let after = after_received(before, received, first, second);
            &&& received matches Received::Engine(event) ==> after == after_engine(
                before,
                event,
                first,
                second,
            )
            &&& received matches Received::Crankshaft(event) ==> after == after_crankshaft(
                before,
                event,
                first,
                second,
            )
            &&& !(received is Engine) && !(received is Crankshaft) ==> after == before
        }),
{
}

/// A record holds what it shows.
pub proof fn law_records_show_what_is_known(record: AttemptRecord)
    ensures
        record@.call_id is Some <==> record.call_id is Some,
        record.call_id is Some ==> record@.call_id == Some(record.call_id->0@),
        record@.attempt == record.attempt,
        record@.status == record.status,
        record@.exit_status == record.exit_status,
        record@.constraints == record.constraints,
        record@.retry_cause == record.retry_cause,
        record@.utilization == record.utilization,
        record@.created_at == record.created_at,
        record@.started_at == record.started_at,
        record@.completed_at == record.completed_at,
{
}

/// The tasks of a collected run are its attempts, one for one and in the order in
/// which they were first observed, with all that is known of each.
pub proof fn law_collected_attempts_become_tasks(
    tasks: Seq<Task>,
    collected: Collected,
    run_uuid: Uuid,
    i: int,
)
    requires
        are_tasks_of(tasks, collected, run_uuid),
        0 <= i < collected.attempts.len(),
    ensures
        tasks.len() == collected.attempts.len(),
        ({
            let task = tasks[i];
            let (name, attempt) = collected.attempts[i];
            &&& task.name@ == name
            &&& task.run_uuid == run_uuid
            &&& task.status == attempt.status
            &&& task.exit_status == attempt.exit_status
            &&& task.error is None
            &&& task.call_id is Some <==> attempt.call_id is Some
            &&& task.call_id is Some ==> attempt.call_id == Some(task.call_id->0@)
            &&& task.attempt == attempt.attempt
            &&& task.constraints == attempt.constraints
            &&& task.retry_cause == attempt.retry_cause
            &&& task.utilization == attempt.utilization
            &&& task.created_at == attempt.created_at
            &&& task.submitted_at is None
            &&& task.started_at == attempt.started_at
            &&& task.completed_at == attempt.completed_at
        }),
{
    assert(is_task_of(
        tasks[i],
        collected.attempts[i].0,
        collected.attempts[i].1,
        run_uuid,
    ));
}

/// Every attempt of a collected run refers to its logs by its name.
pub proof fn law_collected_logs_are_named(response: RunMetricsResponse, i: int, j: int)
    requires
        all_logs_are_names(response),
        0 <= i < response.calls@.len(),
        0 <= j < response.calls@[i].attempts@.len(),
    ensures
        response.calls@[i].attempts@[j].logs@ == response.calls@[i].attempts@[j].name@,
{
    assert(logs_are_names(response.calls@[i]));
}

/// The summary of a local run says what it was called and how it ended, and lasts
/// from its start until the summary is made; nothing is known of a backend or of
/// transfers.
pub proof fn law_local_runs_are_summarized(
    run: RunMetricsRun,
    run_id: Uuid,
    name: Seq<char>,
    status: RunStatus,
    started_at: Timestamp,
    version: Seq<char>,
    now: Timestamp,
)
    requires
        is_local_summary(run, run_id, name, status, started_at, version, now),
    ensures
        run.uuid == run_id && run.name@ == name && run.status == status,
        run.sprocket_version@ == version,
        run.wall_time_ms is Some && run.wall_time_ms->0 == millis_between(started_at, now),
        run.backend is None && run.transfer is None,
{
}

} // verus!
