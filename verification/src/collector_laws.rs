//! What holds of every collection of metrics.

use vstd::prelude::*;

use crate::collector::{
    advanced_to, after_advance, after_crankshaft, after_engine, after_finish, after_received,
    attempt_of, attempt_position, finished, is_observed, nothing_observed, observed, with_attempt,
    Attempt, Collected, Received,
};
use crate::events::{event_id, CrankshaftEvent, EngineEvent};
use crate::status::{is_terminal, rank, TaskStatus};
use crate::text::begins_with;
use crate::time::Timestamp;

verus! {

/// Whether what is known of an attempt has only moved forward: its status has
/// not gone back, a known call path stands, the attempt number has not gone
/// down, and neither its creation nor its start has changed.
pub open spec fn forward(before: Attempt, after: Attempt) -> bool {
    &&& rank(before.status) <= rank(after.status)
    &&& before.call_id is Some ==> after.call_id == before.call_id
    &&& before.attempt <= after.attempt
    &&& after.created_at == before.created_at
    &&& before.started_at is Some ==> after.started_at == before.started_at
    &&& before.completed_at is Some ==> after.completed_at is Some
}

/// Whether every attempt is still there, in its place, and has only moved
/// forward.
pub open spec fn all_forward(before: Collected, after: Collected) -> bool {
    &&& before.attempts.len() <= after.attempts.len()
    &&& forall|i: int|
        0 <= i < before.attempts.len() ==> {
            &&& (#[trigger] after.attempts[i]).0 == before.attempts[i].0
            &&& forward(before.attempts[i].1, after.attempts[i].1)
        }
}

/// A position found by name holds the first attempt of that name.
proof fn lemma_attempt_position(attempts: Seq<(Seq<char>, Attempt)>, name: Seq<char>)
    ensures
        0 <= attempt_position(attempts, name) <= attempts.len(),
        attempt_position(attempts, name) < attempts.len() ==> attempts[attempt_position(
            attempts,
            name,
        )].0 == name,
        forall|i: int|
            0 <= i < attempt_position(attempts, name) ==> (#[trigger] attempts[i]).0 != name,
    decreases attempts.len(),
{
    if attempts.len() > 0 && attempts[0].0 != name {
        let rest = attempts.drop_first();
        lemma_attempt_position(rest, name);
        assert forall|i: int| 0 <= i < attempt_position(attempts, name) implies (
        #[trigger] attempts[i]).0 != name by {
            if i > 0 {
                assert(attempts[i] == rest[i - 1]);
            }
        }
    }
}

/// Knowing more of one attempt takes nothing back.
proof fn lemma_with_attempt(before: Collected, name: Seq<char>, attempt: Attempt)
    requires
        is_observed(before, name) ==> forward(attempt_of(before, name), attempt),
    ensures
        all_forward(before, with_attempt(before, name, attempt)),
        is_observed(with_attempt(before, name, attempt), name),
        attempt_of(with_attempt(before, name, attempt), name) == attempt,
        attempt_position(with_attempt(before, name, attempt).attempts, name) == attempt_position(
            before.attempts,
            name,
        ),
{
    let after = with_attempt(before, name, attempt);
    let at = attempt_position(before.attempts, name);
    lemma_attempt_position(before.attempts, name);
    lemma_attempt_position(after.attempts, name);
    assert(after.attempts[at].0 == name);
    assert forall|i: int| 0 <= i < at implies (#[trigger] after.attempts[i]).0 != name by {
        assert(after.attempts[i] == before.attempts[i]);
    }
}

/// What moved forward twice has moved forward.
proof fn lemma_forward_chain(a: Collected, b: Collected, c: Collected)
    requires
        all_forward(a, b),
        all_forward(b, c),
    ensures
        all_forward(a, c),
{
    assert forall|i: int| 0 <= i < a.attempts.len() implies {
        &&& (#[trigger] c.attempts[i]).0 == a.attempts[i].0
        &&& forward(a.attempts[i].1, c.attempts[i].1)
    } by {
        assert(b.attempts[i].0 == a.attempts[i].0);
    }
}

/// No engine event takes an attempt back: a status only ever advances.
pub proof fn law_engine_events_only_advance(
    before: Collected,
    event: EngineEvent,
    first: Timestamp,
    second: Timestamp,
)
    ensures
        all_forward(before, after_engine(before, event, first, second)),
{
    match event {
        EngineEvent::TaskInitializing { id, name, attempt } => {
            lemma_with_attempt(
                before,
                name@,
                observed(
                    before,
                    name@,
                    Some(id@),
                    crate::events::recorded_attempt(attempt),
                    TaskStatus::Initializing,
                    first,
                ),
            );
        },
        EngineEvent::TaskLocalizing { name } => {
            let status = TaskStatus::Localizing;
            lemma_with_attempt(
                before,
                name@,
                advanced_to(observed(before, name@, None, 0, status, first), status),
            );
        },
        EngineEvent::TaskExecuting { name, constraints } => {
            lemma_with_attempt(
                before,
                name@,
                Attempt {
                    constraints,
                    ..observed(before, name@, None, 0, TaskStatus::Initializing, first)
                },
            );
        },
        EngineEvent::TaskRetrying { prior_name, next_name, attempt: _, cause } => {
            let prior = Attempt {
                retry_cause: cause,
                ..observed(before, prior_name@, None, 0, TaskStatus::Initializing, first)
            };
            let middle = with_attempt(before, prior_name@, prior);
            let next = observed(
                middle,
                next_name@,
                prior.call_id,
                prior.attempt,
                TaskStatus::Initializing,
                second,
            );
            lemma_with_attempt(before, prior_name@, prior);
            lemma_with_attempt(middle, next_name@, next);
            lemma_forward_chain(before, middle, with_attempt(middle, next_name@, next));
        },
        EngineEvent::ReusedCachedExecutionResult { id, name } => {
            lemma_with_attempt(
                before,
                name@,
                Attempt {
                    status: TaskStatus::Cached,
                    completed_at: Some(second),
                    ..observed(before, name@, Some(id@), 0, TaskStatus::Initializing, first)
                },
            );
        },
        EngineEvent::TaskUtilization { name, utilization } => {
            lemma_with_attempt(
                before,
                name@,
                Attempt {
                    utilization,
                    ..observed(before, name@, None, 0, TaskStatus::Initializing, first)
                },
            );
        },
        _ => {},
    }
}

/// Finishing an attempt takes nothing back.
proof fn lemma_finish_is_forward(
    before: Collected,
    name: Seq<char>,
    status: TaskStatus,
    exit_status: Option<i32>,
    first: Timestamp,
    second: Timestamp,
)
    requires
        is_terminal(status),
    ensures
        all_forward(
            before,
            after_finish(before, name, status, exit_status, first, second),
        ),
{
    lemma_with_attempt(
        before,
        name,
        finished(observed(before, name, None, 0, status, first), status, exit_status, second),
    );
}

/// No backend event takes an attempt back: a status only ever advances.
pub proof fn law_backend_events_only_advance(
    before: Collected,
    event: CrankshaftEvent,
    first: Timestamp,
    second: Timestamp,
)
    ensures
        all_forward(before, after_crankshaft(before, event, first, second)),
{
    match event {
        CrankshaftEvent::TaskCreated { id, name } => {
            if !begins_with(name@, before.cleanup_prefix) {
                let known = Collected { names: before.names.insert(id, name@), ..before };
                let status = TaskStatus::Pending;
                lemma_with_attempt(
                    known,
                    name@,
                    advanced_to(observed(known, name@, None, 0, status, first), status),
                );
            }
        },
        _ => {
            if before.names.contains_key(event_id(event)) {
                let name = before.names[event_id(event)];
                match event {
                    CrankshaftEvent::TaskStarted { .. } => {
                        let running = advanced_to(
                            observed(before, name, None, 0, TaskStatus::Running, first),
                            TaskStatus::Running,
                        );
                        lemma_with_attempt(
                            before,
                            name,
                            Attempt {
                                started_at: crate::db::first_of(running.started_at, Some(second)),
                                ..running
                            },
                        );
                    },
                    CrankshaftEvent::TaskCompleted { exit_codes, .. } => {
                        lemma_finish_is_forward(
                            before,
                            name,
                            TaskStatus::Completed,
                            crate::events::last_code(exit_codes),
                            first,
                            second,
                        );
                    },
                    CrankshaftEvent::TaskFailed { .. } => {
                        lemma_finish_is_forward(
                            before,
                            name,
                            TaskStatus::Failed,
                            None,
                            first,
                            second,
                        );
                    },
                    CrankshaftEvent::TaskCanceled { .. } => {
                        lemma_finish_is_forward(
                            before,
                            name,
                            TaskStatus::Canceled,
                            None,
                            first,
                            second,
                        );
                    },
                    CrankshaftEvent::TaskPreempted { .. } => {
                        lemma_finish_is_forward(
                            before,
                            name,
                            TaskStatus::Preempted,
                            None,
                            first,
                            second,
                        );
                    },
                    _ => {},
                }
            }
        },
    }
}

/// Something that was received, with successive readings of the clock.
pub struct Reception {
    /// What was received.
    pub received: Received,
    /// The first reading of the clock.
    pub first: Timestamp,
    /// The second reading of the clock.
    pub second: Timestamp,
}

/// What the collector knows after all that was received.
pub open spec fn after_all(before: Collected, receptions: Seq<Reception>) -> Collected
    decreases receptions.len(),
{
    if receptions.len() == 0 {
        before
    } else {
        let last = receptions.last();
        after_received(
            after_all(before, receptions.drop_last()),
            last.received,
            last.first,
            last.second,
        )
    }
}

/// Whatever is received, in whatever order, a status only ever advances, and no
/// attempt is lost or moved.
pub proof fn law_statuses_only_advance(before: Collected, receptions: Seq<Reception>)
    ensures
        all_forward(before, after_all(before, receptions)),
    decreases receptions.len(),
{
    if receptions.len() > 0 {
        let last = receptions.last();
        let middle = after_all(before, receptions.drop_last());
        law_statuses_only_advance(before, receptions.drop_last());
        match last.received {
            Received::Crankshaft(event) => {
                law_backend_events_only_advance(middle, event, last.first, last.second);
            },
            Received::Engine(event) => {
                law_engine_events_only_advance(middle, event, last.first, last.second);
            },
            _ => {},
        }
        lemma_forward_chain(before, middle, after_all(before, receptions));
    }
}

/// A cached result is terminal, and has a completion time.
pub proof fn law_cached_results_are_terminal(
    before: Collected,
    event: EngineEvent,
    first: Timestamp,
    second: Timestamp,
)
    requires
        event is ReusedCachedExecutionResult,
    ensures
        event matches EngineEvent::ReusedCachedExecutionResult { id, name } && {
            let after = after_engine(before, event, first, second);
            &&& is_observed(after, name@)
            &&& attempt_of(after, name@).status == TaskStatus::Cached
            &&& attempt_of(after, name@).completed_at == Some(second)
            &&& attempt_of(after, name@).call_id is Some
        },
{
    match event {
        EngineEvent::ReusedCachedExecutionResult { id, name } => {
            lemma_with_attempt(
                before,
                name@,
                Attempt {
                    status: TaskStatus::Cached,
                    completed_at: Some(second),
                    ..observed(before, name@, Some(id@), 0, TaskStatus::Initializing, first)
                },
            );
        },
        _ => {},
    }
}

/// Whether no two attempts share a name.
pub open spec fn names_are_distinct(collected: Collected) -> bool {
    forall|i: int, j: int|
        0 <= i < collected.attempts.len() && 0 <= j < collected.attempts.len() && i != j ==> (
        #[trigger] collected.attempts[i]).0 != (#[trigger] collected.attempts[j]).0
}

proof fn lemma_with_attempt_distinct(before: Collected, name: Seq<char>, attempt: Attempt)
    requires
        names_are_distinct(before),
    ensures
        names_are_distinct(with_attempt(before, name, attempt)),
{
    let after = with_attempt(before, name, attempt);
    lemma_attempt_position(before.attempts, name);
    assert forall|i: int, j: int|
        0 <= i < after.attempts.len() && 0 <= j < after.attempts.len() && i != j implies (
    #[trigger] after.attempts[i]).0 != (#[trigger] after.attempts[j]).0 by {
        if i < before.attempts.len() && j < before.attempts.len() {
            assert(before.attempts[i].0 != before.attempts[j].0);
        }
    }
}

/// Each attempt is collected once.
pub proof fn law_attempts_are_collected_once(
    before: Collected,
    received: Received,
    first: Timestamp,
    second: Timestamp,
)
    requires
        names_are_distinct(before),
    ensures
        names_are_distinct(after_received(before, received, first, second)),
{
    assert forall|name: Seq<char>, attempt: Attempt|
        names_are_distinct(#[trigger] with_attempt(before, name, attempt)) by {
        lemma_with_attempt_distinct(before, name, attempt);
    }
    match received {
        Received::Engine(
            EngineEvent::TaskRetrying { prior_name, next_name, attempt: _, cause },
        ) => {
            let prior = Attempt {
                retry_cause: cause,
                ..observed(before, prior_name@, None, 0, TaskStatus::Initializing, first)
            };
            let middle = with_attempt(before, prior_name@, prior);
            lemma_with_attempt_distinct(
                middle,
                next_name@,
                observed(
                    middle,
                    next_name@,
                    prior.call_id,
                    prior.attempt,
                    TaskStatus::Initializing,
                    second,
                ),
            );
        },
        Received::Crankshaft(CrankshaftEvent::TaskCreated { id, name }) => {
            let known = Collected { names: before.names.insert(id, name@), ..before };
            lemma_with_attempt_distinct(
                known,
                name@,
                advanced_to(
                    observed(known, name@, None, 0, TaskStatus::Pending, first),
                    TaskStatus::Pending,
                ),
            );
        },
        _ => {},
    }
}

/// Work that a backend runs on its own behalf leaves no trace, and neither does
/// an event about a task that was not created.
pub proof fn law_unknown_tasks_leave_no_trace(
    before: Collected,
    event: CrankshaftEvent,
    first: Timestamp,
    second: Timestamp,
)
    requires
        match event {
            CrankshaftEvent::TaskCreated { name, .. } => begins_with(name@, before.cleanup_prefix),
            _ => !before.names.contains_key(event_id(event)),
        },
    ensures
        after_crankshaft(before, event, first, second) == before,
{
}

/// The engine and a backend announce an attempt on independent channels.
/// Whichever announcement comes first, the attempt ends up pending, under the
/// engine's call path and attempt number.
pub proof fn law_either_channel_may_announce_first(
    before: Collected,
    engine: EngineEvent,
    backend: CrankshaftEvent,
    t1: Timestamp,
    t2: Timestamp,
    t3: Timestamp,
    t4: Timestamp,
)
    requires
        engine matches EngineEvent::TaskInitializing { id: _, name: announced, attempt: _ }
            && backend matches CrankshaftEvent::TaskCreated { id: _, name: created } && {
            &&& announced@ == created@
            &&& !is_observed(before, announced@)
            &&& !begins_with(created@, before.cleanup_prefix)
        },
    ensures
        engine matches EngineEvent::TaskInitializing { id, name, attempt } && {
            let engine_first = attempt_of(
                after_crankshaft(after_engine(before, engine, t1, t2), backend, t3, t4),
                name@,
            );
            let backend_first = attempt_of(
                after_engine(after_crankshaft(before, backend, t1, t2), engine, t3, t4),
                name@,
            );
            &&& engine_first.status == TaskStatus::Pending
            &&& backend_first.status == TaskStatus::Pending
            &&& engine_first.call_id == Some(id@)
            &&& backend_first.call_id == Some(id@)
            &&& engine_first.attempt == crate::events::recorded_attempt(attempt)
            &&& backend_first.attempt == crate::events::recorded_attempt(attempt)
        },
{
    match (engine, backend) {
        (
            EngineEvent::TaskInitializing { id, name, attempt },
            CrankshaftEvent::TaskCreated { id: task, name: created },
        ) => {
            let number = crate::events::recorded_attempt(attempt);
            let status = TaskStatus::Pending;
            let a = observed(before, name@, Some(id@), number, TaskStatus::Initializing, t1);
            let announced = with_attempt(before, name@, a);
            lemma_with_attempt(before, name@, a);
            let known = Collected { names: announced.names.insert(task, created@), ..announced };
            let b = advanced_to(observed(known, name@, None, 0, status, t3), status);
            lemma_with_attempt(known, name@, b);
            let named = Collected { names: before.names.insert(task, created@), ..before };
            let c = advanced_to(observed(named, name@, None, 0, status, t1), status);
            let submitted = with_attempt(named, name@, c);
            lemma_with_attempt(named, name@, c);
            let d = observed(submitted, name@, Some(id@), number, TaskStatus::Initializing, t3);
            lemma_with_attempt(submitted, name@, d);
        },
        _ => {},
    }
}

/// The successor of a failed attempt, which was not observed before, inherits
/// the call id and attempt number of that attempt, which has the retry cause.
pub proof fn law_retries_inherit_the_call(
    before: Collected,
    event: EngineEvent,
    first: Timestamp,
    second: Timestamp,
)
    requires
        event matches EngineEvent::TaskRetrying { prior_name, next_name, .. } && prior_name@
            != next_name@ && !is_observed(before, next_name@),
    ensures
        event matches EngineEvent::TaskRetrying { prior_name, next_name, cause, .. } && {
            let after = after_engine(before, event, first, second);
            let prior = observed(
                before,
                prior_name@,
                None,
                0,
                TaskStatus::Initializing,
                first,
            );
            &&& attempt_of(after, next_name@).call_id == prior.call_id
            &&& attempt_of(after, next_name@).attempt == prior.attempt
            &&& attempt_of(after, next_name@).created_at == second
            &&& attempt_of(after, prior_name@).retry_cause == cause
        },
{
    match event {
        EngineEvent::TaskRetrying { prior_name, next_name, attempt: _, cause } => {
            let prior = Attempt {
                retry_cause: cause,
                ..observed(before, prior_name@, None, 0, TaskStatus::Initializing, first)
            };
            let middle = with_attempt(before, prior_name@, prior);
            let next = observed(
                middle,
                next_name@,
                prior.call_id,
                prior.attempt,
                TaskStatus::Initializing,
                second,
            );
            lemma_with_attempt(before, prior_name@, prior);
            lemma_unobserved_stays(before, prior_name@, prior, next_name@);
            lemma_with_attempt(middle, next_name@, next);
            lemma_other_attempt(middle, next_name@, next, prior_name@);
        },
        _ => {},
    }
}

/// Knowing more of one attempt does not make another observed.
proof fn lemma_unobserved_stays(
    before: Collected,
    name: Seq<char>,
    attempt: Attempt,
    other: Seq<char>,
)
    requires
        name != other,
        !is_observed(before, other),
    ensures
        !is_observed(with_attempt(before, name, attempt), other),
{
    let after = with_attempt(before, name, attempt);
    lemma_attempt_position(before.attempts, name);
    lemma_attempt_position(before.attempts, other);
    lemma_attempt_position(after.attempts, other);
    let at = attempt_position(after.attempts, other);
    if at < after.attempts.len() {
        if at < before.attempts.len() {
            assert(before.attempts[at].0 == other);
        }
    }
}

/// Knowing more of one attempt changes nothing about another.
proof fn lemma_other_attempt(
    before: Collected,
    name: Seq<char>,
    attempt: Attempt,
    other: Seq<char>,
)
    requires
        name != other,
        is_observed(before, other),
    ensures
        is_observed(with_attempt(before, name, attempt), other),
        attempt_of(with_attempt(before, name, attempt), other) == attempt_of(before, other),
{
    let after = with_attempt(before, name, attempt);
    let at = attempt_position(before.attempts, other);
    lemma_attempt_position(before.attempts, name);
    lemma_attempt_position(before.attempts, other);
    lemma_attempt_position(after.attempts, other);
    assert(after.attempts[at] == before.attempts[at]);
    assert forall|i: int| 0 <= i < at implies (#[trigger] after.attempts[i]).0 != other by {
        assert(before.attempts[i].0 != other);
    }
}

/// Whether an attempt has reached a terminal status, with its completion time.
pub open spec fn is_settled(attempt: Attempt) -> bool {
    is_terminal(attempt.status) && attempt.completed_at is Some
}

/// Whether the outcome of an attempt is still the same.
pub open spec fn same_outcome(before: Attempt, after: Attempt) -> bool {
    &&& after.status == before.status
    &&& after.exit_status == before.exit_status
    &&& after.completed_at == before.completed_at
}

/// Whether every attempt that was settled still has its outcome.
pub open spec fn outcomes_stand(before: Collected, after: Collected) -> bool {
    forall|i: int|
        0 <= i < before.attempts.len() && is_settled((#[trigger] before.attempts[i]).1) ==> i
            < after.attempts.len() && same_outcome(before.attempts[i].1, after.attempts[i].1)
}

/// The first terminal outcome of an attempt wins: finishing it again leaves what
/// finishing it first has left.
pub proof fn law_the_first_outcome_wins(
    before: Collected,
    name: Seq<char>,
    status: TaskStatus,
    exit_status: Option<i32>,
    first: Timestamp,
    second: Timestamp,
    later_status: TaskStatus,
    later_exit_status: Option<i32>,
    third: Timestamp,
    fourth: Timestamp,
)
    requires
        is_terminal(status),
        is_terminal(later_status),
    ensures
        ({
            let once = after_finish(before, name, status, exit_status, first, second);
            let twice = after_finish(
                once,
                name,
                later_status,
                later_exit_status,
                third,
                fourth,
            );
            &&& twice == once
            &&& is_settled(attempt_of(once, name))
            &&& is_observed(before, name) && is_settled(attempt_of(before, name)) ==> same_outcome(
                attempt_of(before, name),
                attempt_of(once, name),
            )
            &&& is_observed(before, name) && is_settled(attempt_of(before, name)) && attempt_of(
                before,
                name,
            ).attempt >= 0 ==> once == before
            &&& !(is_observed(before, name) && is_settled(attempt_of(before, name))) ==> {
                &&& attempt_of(once, name).status == status
                &&& attempt_of(once, name).exit_status == exit_status
                &&& attempt_of(once, name).completed_at == Some(second)
            }
        }),
{
    let attempt = finished(
        observed(before, name, None, 0, status, first),
        status,
        exit_status,
        second,
    );
    let once = with_attempt(before, name, attempt);
    lemma_with_attempt(before, name, attempt);
    lemma_attempt_position(once.attempts, name);
    let again = finished(
        observed(once, name, None, 0, later_status, third),
        later_status,
        later_exit_status,
        fourth,
    );
    assert(again == attempt);
    assert(with_attempt(once, name, again) =~= once);
    lemma_attempt_position(before.attempts, name);
    if is_observed(before, name) && attempt == attempt_of(before, name) {
        assert(once =~= before);
    }
}

/// Whether every attempt has a number that counts from 0.
pub open spec fn attempts_are_counted(collected: Collected) -> bool {
    forall|i: int|
        0 <= i < collected.attempts.len() ==> (#[trigger] collected.attempts[i]).1.attempt >= 0
}

/// Knowing more of one attempt leaves all of them counted.
proof fn lemma_with_attempt_counted(before: Collected, name: Seq<char>, attempt: Attempt)
    requires
        attempts_are_counted(before),
        attempt.attempt >= 0,
    ensures
        attempts_are_counted(with_attempt(before, name, attempt)),
{
    lemma_attempt_position(before.attempts, name);
}

/// An attempt that was found among counted ones is counted.
proof fn lemma_counted(before: Collected, name: Seq<char>)
    requires
        attempts_are_counted(before),
        is_observed(before, name),
    ensures
        attempt_of(before, name).attempt >= 0,
{
    lemma_attempt_position(before.attempts, name);
}

/// A new collector holds no negative attempt number, and advancing a status
/// brings none in.
pub proof fn law_advances_leave_attempts_counted(
    prefix: Seq<char>,
    before: Collected,
    name: Seq<char>,
    status: TaskStatus,
    now: Timestamp,
)
    ensures
        attempts_are_counted(nothing_observed(prefix)),
        attempts_are_counted(before) ==> attempts_are_counted(
            after_advance(before, name, status, now),
        ),
{
    if attempts_are_counted(before) {
        if is_observed(before, name) {
            lemma_counted(before, name);
        }
        lemma_with_attempt_counted(
            before,
            name,
            advanced_to(observed(before, name, None, 0, status, now), status),
        );
    }
}

/// Nothing that is received brings in a negative attempt number.
pub proof fn law_attempts_are_counted(
    before: Collected,
    received: Received,
    first: Timestamp,
    second: Timestamp,
)
    requires
        attempts_are_counted(before),
    ensures
        attempts_are_counted(after_received(before, received, first, second)),
{
    assert forall|known: Collected, name: Seq<char>, attempt: Attempt|
        attempts_are_counted(known) && attempt.attempt >= 0 implies attempts_are_counted(
        #[trigger] with_attempt(known, name, attempt),
    ) by {
        lemma_with_attempt_counted(known, name, attempt);
    }
    assert forall|known: Collected, name: Seq<char>|
        attempts_are_counted(known) && #[trigger] is_observed(known, name) implies attempt_of(
        known,
        name,
    ).attempt >= 0 by {
        lemma_counted(known, name);
    }
    match received {
        Received::Crankshaft(CrankshaftEvent::TaskCreated { id, name }) => {
            let known = Collected { names: before.names.insert(id, name@), ..before };
            assert(attempts_are_counted(known));
        },
        _ => {},
    }
}

/// Whatever a new collector receives, no attempt number is ever negative.
pub proof fn law_attempts_stay_counted(prefix: Seq<char>, receptions: Seq<Reception>)
    ensures
        attempts_are_counted(after_all(nothing_observed(prefix), receptions)),
    decreases receptions.len(),
{
    if receptions.len() > 0 {
        let last = receptions.last();
        law_attempts_stay_counted(prefix, receptions.drop_last());
        law_attempts_are_counted(
            after_all(nothing_observed(prefix), receptions.drop_last()),
            last.received,
            last.first,
            last.second,
        );
    }
}

/// Whatever a collector has received, finishing an attempt that has its outcome
/// changes nothing at all.
pub proof fn law_settled_attempts_stay(
    prefix: Seq<char>,
    receptions: Seq<Reception>,
    name: Seq<char>,
    status: TaskStatus,
    exit_status: Option<i32>,
    first: Timestamp,
    second: Timestamp,
)
    requires
        is_terminal(status),
        is_observed(after_all(nothing_observed(prefix), receptions), name),
        is_settled(attempt_of(after_all(nothing_observed(prefix), receptions), name)),
    ensures
        ({
            let known = after_all(nothing_observed(prefix), receptions);
            after_finish(known, name, status, exit_status, first, second) == known
        }),
{
    let known = after_all(nothing_observed(prefix), receptions);
    law_attempts_stay_counted(prefix, receptions);
    lemma_counted(known, name);
    law_the_first_outcome_wins(
        known,
        name,
        status,
        exit_status,
        first,
        second,
        status,
        exit_status,
        first,
        second,
    );
}

/// Knowing more of one attempt leaves the outcomes of all.
proof fn lemma_with_attempt_outcomes(before: Collected, name: Seq<char>, attempt: Attempt)
    requires
        is_observed(before, name) && is_settled(attempt_of(before, name)) ==> same_outcome(
            attempt_of(before, name),
            attempt,
        ),
    ensures
        outcomes_stand(before, with_attempt(before, name, attempt)),
{
    lemma_attempt_position(before.attempts, name);
}

/// Once an attempt has reached a terminal status, its status, exit status and
/// completion time stand, whatever is received; only a report that the attempt
/// was served from the call cache is taken over.
pub proof fn law_outcomes_stand(
    before: Collected,
    received: Received,
    first: Timestamp,
    second: Timestamp,
)
    requires
        !(received matches Received::Engine(event) && event is ReusedCachedExecutionResult),
    ensures
        outcomes_stand(before, after_received(before, received, first, second)),
{
    assert forall|name: Seq<char>, attempt: Attempt|
        (is_observed(before, name) && is_settled(attempt_of(before, name)) ==> same_outcome(
            attempt_of(before, name),
            attempt,
        )) implies outcomes_stand(before, #[trigger] with_attempt(before, name, attempt)) by {
        lemma_with_attempt_outcomes(before, name, attempt);
    }
    match received {
        Received::Engine(
            EngineEvent::TaskRetrying { prior_name, next_name, attempt: _, cause },
        ) => {
            let prior = Attempt {
                retry_cause: cause,
                ..observed(before, prior_name@, None, 0, TaskStatus::Initializing, first)
            };
            let middle = with_attempt(before, prior_name@, prior);
            let next = observed(
                middle,
                next_name@,
                prior.call_id,
                prior.attempt,
                TaskStatus::Initializing,
                second,
            );
            let after = with_attempt(middle, next_name@, next);
            lemma_with_attempt_outcomes(middle, next_name@, next);
            assert forall|i: int|
                0 <= i < before.attempts.len() && is_settled(
                    (#[trigger] before.attempts[i]).1,
                ) implies i < after.attempts.len() && same_outcome(
                before.attempts[i].1,
                after.attempts[i].1,
            ) by {
                assert(is_settled(middle.attempts[i].1));
            }
        },
        Received::Crankshaft(CrankshaftEvent::TaskCreated { id, name }) => {
            let known = Collected { names: before.names.insert(id, name@), ..before };
            lemma_with_attempt_outcomes(
                known,
                name@,
                advanced_to(
                    observed(known, name@, None, 0, TaskStatus::Pending, first),
                    TaskStatus::Pending,
                ),
            );
        },
        _ => {},
    }
}

} // verus!
