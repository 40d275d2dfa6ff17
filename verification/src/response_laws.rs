//! What every metrics response says of the attempts that it is built from.

use vstd::prelude::*;
use vstd::seq_lib::group_to_multiset_ensures;

use crate::double::truncated_product;
use crate::metrics::{
    allocated_cpu_time, attempt_matches, call_matches, call_refers_to_logs, calls_match,
    count_retries, count_status, group_position, group_slot, grouped, is_run_summary, opt_millis,
    ordered_groups, page_offset, prefix_fits, refers_to_logs, report_groups, reports, short_name, sorted_tasks, sum_allocated,
    sum_wasted, summarizes, task_before, task_call_id, totals_fit, wall_time,
    was_last_page, CallGroup,
    CallMetrics, RunMetricsResponse, RunMetricsRun, Task, TaskAttemptMetrics,
    TransferTotals, METRICS_PAGE_SIZE,
};
use crate::metrics_laws::{
    attempts_of, in_order, is_call, law_attempts_are_grouped_by_call, law_attempts_are_put_in_order,
    law_attempts_of_a_call_are_ordered, law_every_attempt_is_reported,
    law_ordering_keeps_the_attempts, law_totals_count_every_attempt, lemma_group_position,
    lemma_group_slot, lemma_grouped_are_calls,
};
use crate::status::{RunStatus, TaskStatus};
use crate::text::{occurs_at, occurs_in, text_before};
use crate::time::{millis_between, Timestamp};
use crate::uuid::Uuid;

verus! {

/// What attempts add up to.
#[verifier::ext_equal]
pub struct Sums {
    /// How many there are.
    pub attempts: int,
    /// How many were retried.
    pub retries: int,
    /// How many were served from the call cache.
    pub cached: int,
    /// How many were preempted.
    pub preempted: int,
    /// The CPU time allocated to them.
    pub allocated: int,
    /// The wall time of those that were preempted.
    pub wasted: int,
}

/// What no attempts add up to.
pub open spec fn nothing() -> Sums {
    Sums { attempts: 0, retries: 0, cached: 0, preempted: 0, allocated: 0, wasted: 0 }
}

/// Two sums together.
pub open spec fn plus(a: Sums, b: Sums) -> Sums {
    Sums {
        attempts: a.attempts + b.attempts,
        retries: a.retries + b.retries,
        cached: a.cached + b.cached,
        preempted: a.preempted + b.preempted,
        allocated: a.allocated + b.allocated,
        wasted: a.wasted + b.wasted,
    }
}

/// One for what is so, and nothing for what is not.
pub open spec fn one_if(condition: bool) -> int {
    if condition {
        1
    } else {
        0
    }
}

/// The milliseconds from a start to an end, where both are known.
pub open spec fn span(start: Option<Timestamp>, end: Option<Timestamp>) -> Option<int> {
    if start is Some && end is Some {
        Some(millis_between(start->0, end->0))
    } else {
        None
    }
}

/// The CPU time allocated to an attempt: its CPU count times its wall time, where
/// both are known.
pub open spec fn allocation(task: Task) -> Option<int> {
    if task.constraints is Some && task.constraints->0.number_field("cpu"@) is Some && span(
        task.started_at,
        task.completed_at,
    ) is Some {
        Some(
            truncated_product(
                task.constraints->0.number_field("cpu"@)->0.double_bits,
                span(task.started_at, task.completed_at)->0,
            ),
        )
    } else {
        None
    }
}

/// A number, or zero where there is none.
pub open spec fn or_nothing(n: Option<int>) -> int {
    if n is Some {
        n->0
    } else {
        0
    }
}

/// What one recorded attempt adds to the totals, whatever its status.
pub open spec fn worth(task: Task) -> Sums {
    Sums {
        attempts: 1,
        retries: one_if(task.retry_cause is Some),
        cached: one_if(task.status is Cached),
        preempted: one_if(task.status is Preempted),
        allocated: or_nothing(allocation(task)),
        wasted: if task.status is Preempted {
            or_nothing(span(task.started_at, task.completed_at))
        } else {
            0
        },
    }
}

/// The value of an optional number.
pub open spec fn opt_value(n: Option<i64>) -> Option<int> {
    if n is Some {
        Some(n->0 as int)
    } else {
        None
    }
}

/// What one listed attempt adds to the totals, whatever its status.
pub open spec fn listed_worth(attempt: TaskAttemptMetrics) -> Sums {
    Sums {
        attempts: 1,
        retries: one_if(attempt.retry_cause is Some),
        cached: one_if(attempt.status is Cached),
        preempted: one_if(attempt.status is Preempted),
        allocated: or_nothing(opt_value(attempt.allocated_cpu_time_ms)),
        wasted: if attempt.status is Preempted {
            or_nothing(opt_value(attempt.wall_time_ms))
        } else {
            0
        },
    }
}

/// What recorded attempts add up to.
pub open spec fn worth_of(tasks: Seq<Task>) -> Sums
    decreases tasks.len(),
{
    if tasks.len() == 0 {
        nothing()
    } else {
        plus(worth_of(tasks.drop_last()), worth(tasks.last()))
    }
}

/// What the listed attempts of a call add up to.
pub open spec fn listed_in(attempts: Seq<TaskAttemptMetrics>) -> Sums
    decreases attempts.len(),
{
    if attempts.len() == 0 {
        nothing()
    } else {
        plus(listed_in(attempts.drop_last()), listed_worth(attempts.last()))
    }
}

/// What the listed attempts of all calls add up to.
pub open spec fn listed(calls: Seq<CallMetrics>) -> Sums
    decreases calls.len(),
{
    if calls.len() == 0 {
        nothing()
    } else {
        plus(listed(calls.drop_last()), listed_in(calls.last().attempts@))
    }
}

/// What the attempts of groups add up to.
spec fn worth_of_groups(groups: Seq<CallGroup>) -> Sums
    decreases groups.len(),
{
    if groups.len() == 0 {
        nothing()
    } else {
        plus(worth_of_groups(groups.drop_last()), worth_of(groups.last().tasks))
    }
}

/// Every attempt of a response tells what is recorded of its task: the time from
/// its start to its completion, from its creation and from its submission to its
/// start, and what was allocated to it, each where it is known.
pub proof fn law_attempts_tell_of_their_task(attempt: TaskAttemptMetrics, task: Task)
    requires
        attempt_matches(attempt, task),
    ensures
        attempt.name@ == task.name@,
        attempt.attempt == task.attempt,
        attempt.status == task.status,
        attempt.exit_status == task.exit_status,
        attempt.constraints == task.constraints,
        attempt.retry_cause == task.retry_cause,
        attempt.utilization == task.utilization,
        opt_value(attempt.wall_time_ms) == span(task.started_at, task.completed_at),
        opt_value(attempt.queued_ms) == span(Some(task.created_at), task.started_at),
        opt_value(attempt.pending_ms) == span(task.submitted_at, task.started_at),
        opt_value(attempt.allocated_cpu_time_ms) == allocation(task),
        listed_worth(attempt) == worth(task),
{
}

/// The attempts of a call are worth what its tasks are worth.
proof fn lemma_listed_in(attempts: Seq<TaskAttemptMetrics>, tasks: Seq<Task>)
    requires
        attempts.len() == tasks.len(),
        forall|j: int| 0 <= j < tasks.len() ==> attempt_matches(#[trigger] attempts[j], tasks[j]),
    ensures
        listed_in(attempts) == worth_of(tasks),
    decreases tasks.len(),
{
    if tasks.len() > 0 {
        let fewer = attempts.drop_last();
        let rest = tasks.drop_last();
        assert forall|j: int| 0 <= j < rest.len() implies attempt_matches(
            #[trigger] fewer[j],
            rest[j],
        ) by {
            assert(attempt_matches(attempts[j], tasks[j]));
        }
        lemma_listed_in(fewer, rest);
        assert(attempt_matches(attempts[tasks.len() - 1], tasks[tasks.len() - 1]));
        law_attempts_tell_of_their_task(attempts.last(), tasks.last());
    }
}

/// Calls are worth what their groups are worth.
proof fn lemma_listed(calls: Seq<CallMetrics>, groups: Seq<CallGroup>)
    requires
        calls_match(calls, groups),
    ensures
        listed(calls) == worth_of_groups(groups),
    decreases groups.len(),
{
    if groups.len() > 0 {
        let fewer = calls.drop_last();
        let rest = groups.drop_last();
        assert forall|i: int| 0 <= i < rest.len() implies call_matches(
            #[trigger] fewer[i],
            rest[i],
        ) by {
            assert(call_matches(calls[i], groups[i]));
        }
        lemma_listed(fewer, rest);
        assert(call_matches(calls[groups.len() - 1], groups[groups.len() - 1]));
        lemma_listed_in(calls.last().attempts@, groups.last().tasks);
    }
}

/// One more attempt of a group adds what it is worth.
proof fn lemma_worth_update(groups: Seq<CallGroup>, at: int, task: Task)
    requires
        0 <= at < groups.len(),
    ensures
        worth_of_groups(
            groups.update(
                at,
                CallGroup { call_id: groups[at].call_id, tasks: groups[at].tasks.push(task) },
            ),
        ) == plus(worth_of_groups(groups), worth(task)),
    decreases groups.len(),
{
    let grown = CallGroup { call_id: groups[at].call_id, tasks: groups[at].tasks.push(task) };
    let after = groups.update(at, grown);
    if at == groups.len() - 1 {
        assert(after.drop_last() =~= groups.drop_last());
        assert(grown.tasks.drop_last() =~= groups[at].tasks);
    } else {
        lemma_worth_update(groups.drop_last(), at, task);
        assert(after.drop_last() =~= groups.drop_last().update(at, grown));
        assert(after.last() == groups.last());
    }
}

/// One more group adds what it is worth, wherever it goes.
proof fn lemma_worth_insert(groups: Seq<CallGroup>, at: int, group: CallGroup)
    requires
        0 <= at <= groups.len(),
    ensures
        worth_of_groups(groups.insert(at, group)) == plus(
            worth_of_groups(groups),
            worth_of(group.tasks),
        ),
    decreases groups.len(),
{
    let after = groups.insert(at, group);
    if at == groups.len() {
        assert(after.drop_last() =~= groups);
    } else {
        lemma_worth_insert(groups.drop_last(), at, group);
        assert(after.drop_last() =~= groups.drop_last().insert(at, group));
        assert(after.last() == groups.last());
    }
}

/// Grouping attempts neither loses nor adds anything.
proof fn lemma_worth_grouped(tasks: Seq<Task>)
    ensures
        worth_of_groups(grouped(tasks)) == worth_of(tasks),
    decreases tasks.len(),
{
    if tasks.len() > 0 {
        let groups = grouped(tasks.drop_last());
        let task = tasks.last();
        let at = group_position(groups, task_call_id(task));
        lemma_worth_grouped(tasks.drop_last());
        lemma_group_position(groups, task_call_id(task));
        if at < groups.len() {
            lemma_worth_update(groups, at, task);
        } else {
            let group = CallGroup { call_id: task_call_id(task), tasks: seq![task] };
            assert(groups.push(group).drop_last() =~= groups);
            assert(seq![task].drop_last() =~= Seq::<Task>::empty());
            assert(worth_of(seq![task].drop_last()) == nothing());
            assert(worth_of(seq![task]) == worth(task));
        }
    }
}

/// Ordering groups neither loses nor adds anything.
proof fn lemma_worth_ordered(groups: Seq<CallGroup>)
    ensures
        worth_of_groups(ordered_groups(groups)) == worth_of_groups(groups),
    decreases groups.len(),
{
    if groups.len() > 0 {
        let rest = ordered_groups(groups.drop_last());
        lemma_worth_ordered(groups.drop_last());
        lemma_group_slot(rest, groups.last());
        lemma_worth_insert(rest, group_slot(rest, groups.last()), groups.last());
    }
}

/// The sums over attempts are what the attempts are worth.
proof fn lemma_sums(tasks: Seq<Task>)
    ensures
        worth_of(tasks).attempts == tasks.len(),
        worth_of(tasks).retries == count_retries(tasks),
        worth_of(tasks).cached == count_status(tasks, TaskStatus::Cached),
        worth_of(tasks).preempted == count_status(tasks, TaskStatus::Preempted),
        worth_of(tasks).allocated == sum_allocated(tasks),
        worth_of(tasks).wasted == sum_wasted(tasks),
    decreases tasks.len(),
{
    if tasks.len() > 0 {
        lemma_sums(tasks.drop_last());
    }
}

/// The totals of a response are the sums over all attempts that it lists, in all
/// calls and whatever their status: how many there are, how many were retried,
/// cached and preempted, what was allocated to them, and the wall time of those
/// that were preempted. What is not known of an attempt adds nothing.
pub proof fn law_totals_add_up_what_is_listed(
    response: RunMetricsResponse,
    run: RunMetricsRun,
    sorted: Seq<Task>,
)
    requires
        summarizes(response, run, sorted),
    ensures
        response.run == run,
        response.totals.attempts == listed(response.calls@).attempts,
        response.totals.retries == listed(response.calls@).retries,
        response.totals.cached == listed(response.calls@).cached,
        response.totals.preempted == listed(response.calls@).preempted,
        response.totals.allocated_cpu_time_ms == listed(response.calls@).allocated,
        response.totals.preemption_wasted_ms == listed(response.calls@).wasted,
{
    lemma_listed(response.calls@, ordered_groups(grouped(sorted)));
    lemma_worth_ordered(grouped(sorted));
    lemma_worth_grouped(sorted);
    lemma_sums(sorted);
}

/// A response on one more attempt has the totals of the response without it and
/// what the attempt adds to each of them, whatever its status; a response on no
/// attempts has totals of zero.
pub proof fn law_each_attempt_adds_to_the_totals(
    response: RunMetricsResponse,
    more: RunMetricsResponse,
    run: RunMetricsRun,
    tasks: Seq<Task>,
    task: Task,
)
    requires
        summarizes(response, run, sorted_tasks(tasks)),
        summarizes(more, run, sorted_tasks(tasks.push(task))),
    ensures
        more.totals.attempts == response.totals.attempts + 1,
        more.totals.retries == response.totals.retries + one_if(task.retry_cause is Some),
        more.totals.cached == response.totals.cached + one_if(task.status is Cached),
        more.totals.preempted == response.totals.preempted + one_if(task.status is Preempted),
        more.totals.allocated_cpu_time_ms == response.totals.allocated_cpu_time_ms + or_nothing(
            allocation(task),
        ),
        more.totals.preemption_wasted_ms == response.totals.preemption_wasted_ms + (
        if task.status is Preempted {
            or_nothing(span(task.started_at, task.completed_at))
        } else {
            0
        }),
        tasks.len() == 0 ==> {
            &&& response.totals.attempts == 0
            &&& response.totals.retries == 0
            &&& response.totals.cached == 0
            &&& response.totals.preempted == 0
            &&& response.totals.allocated_cpu_time_ms == 0
            &&& response.totals.preemption_wasted_ms == 0
            &&& response.calls@.len() == 0
        },
{
    law_totals_count_every_attempt(tasks);
    law_totals_count_every_attempt(tasks.push(task));
    assert(tasks.push(task).drop_last() =~= tasks);
    lemma_sums(tasks);
    lemma_sums(tasks.push(task));
    lemma_sums(sorted_tasks(tasks));
    lemma_sums(sorted_tasks(tasks.push(task)));
    assert(count_status(sorted_tasks(tasks), TaskStatus::Cached) == count_status(
        tasks,
        TaskStatus::Cached,
    ));
}

/// Totals can be summed up when each sum on the way stays within 64 bits.
pub proof fn law_totals_fit_while_their_sums_do(tasks: Seq<Task>)
    ensures
        totals_fit(tasks) <==> tasks.len() < 0x8000_0000_0000_0000 && forall|k: int|
            0 <= k <= tasks.len() ==> {
                let sums = worth_of(#[trigger] tasks.take(k));
                &&& -0x8000_0000_0000_0000 <= sums.allocated < 0x8000_0000_0000_0000
                &&& -0x8000_0000_0000_0000 <= sums.wasted < 0x8000_0000_0000_0000
            },
{
    assert forall|k: int| 0 <= k <= tasks.len() implies #[trigger] prefix_fits(tasks, k) == {
        let sums = worth_of(tasks.take(k));
        &&& -0x8000_0000_0000_0000 <= sums.allocated < 0x8000_0000_0000_0000
        &&& -0x8000_0000_0000_0000 <= sums.wasted < 0x8000_0000_0000_0000
    } by {
        lemma_sums(tasks.take(k));
    }
    if totals_fit(tasks) {
        assert forall|k: int| 0 <= k <= tasks.len() implies {
            let sums = worth_of(#[trigger] tasks.take(k));
            &&& -0x8000_0000_0000_0000 <= sums.allocated < 0x8000_0000_0000_0000
            &&& -0x8000_0000_0000_0000 <= sums.wasted < 0x8000_0000_0000_0000
        } by {
            assert(prefix_fits(tasks, k));
        }
    }
}

/// Whether an attempt belongs to a call: the one that its call path names or,
/// without one, a call of its own name.
pub open spec fn belongs_to(task: Task, call_id: Seq<char>) -> bool {
    if task.call_id is Some {
        call_id == task.call_id->0@
    } else {
        call_id == task.name@
    }
}

/// Attempts of groups are among those of one of them.
proof fn lemma_attempts_of(groups: Seq<CallGroup>, task: Task)
    ensures
        attempts_of(groups).count(task) > 0 <==> exists|i: int|
            0 <= i < groups.len() && (#[trigger] groups[i]).tasks.contains(task),
    decreases groups.len(),
{
    broadcast use group_to_multiset_ensures;

    if groups.len() > 0 {
        let rest = groups.drop_last();
        lemma_attempts_of(rest, task);
        let last = groups.len() - 1;
        groups.last().tasks.to_multiset_ensures();
        if attempts_of(rest).count(task) > 0 {
            let i = choose|i: int| 0 <= i < rest.len() && (#[trigger] rest[i]).tasks.contains(task);
            assert(groups[i].tasks.contains(task));
        }
        if exists|i: int| 0 <= i < groups.len() && (#[trigger] groups[i]).tasks.contains(task) {
            let i = choose|i: int|
                0 <= i < groups.len() && (#[trigger] groups[i]).tasks.contains(task);
            if i < last {
                assert(rest[i].tasks.contains(task));
            }
        }
    }
}

/// Every task is listed, under the call that it belongs to.
pub proof fn law_every_task_is_listed(
    response: RunMetricsResponse,
    run: RunMetricsRun,
    tasks: Seq<Task>,
    k: int,
)
    requires
        summarizes(response, run, sorted_tasks(tasks)),
        0 <= k < tasks.len(),
    ensures
        exists|i: int, j: int|
            0 <= i < response.calls@.len() && 0 <= j < response.calls@[i].attempts@.len()
                && belongs_to(tasks[k], response.calls@[i].call_id@) && attempt_matches(
                #[trigger] response.calls@[i].attempts@[j],
                tasks[k],
            ),
{
    let groups = report_groups(tasks);
    law_every_attempt_is_reported(tasks);
    law_attempts_are_grouped_by_call(tasks);
    tasks.to_multiset_ensures();
    assert(tasks.contains(tasks[k]));
    lemma_attempts_of(groups, tasks[k]);
    let i = choose|i: int| 0 <= i < groups.len() && (#[trigger] groups[i]).tasks.contains(tasks[k]);
    let j = choose|j: int| 0 <= j < groups[i].tasks.len() && groups[i].tasks[j] == tasks[k];
    assert(is_call(groups[i]));
    assert(task_call_id(groups[i].tasks[j]) == groups[i].call_id);
    assert(call_matches(response.calls@[i], groups[i]));
    assert(attempt_matches(response.calls@[i].attempts@[j], tasks[k]));
}

/// Every attempt that is listed is one of the tasks, and belongs to the call that
/// it is listed under; every call lists at least one.
pub proof fn law_only_tasks_are_listed(
    response: RunMetricsResponse,
    run: RunMetricsRun,
    tasks: Seq<Task>,
    i: int,
    j: int,
)
    requires
        summarizes(response, run, sorted_tasks(tasks)),
        0 <= i < response.calls@.len(),
        0 <= j < response.calls@[i].attempts@.len(),
    ensures
        response.calls@[i].attempts@.len() > 0,
        exists|k: int|
            0 <= k < tasks.len() && belongs_to(
                #[trigger] tasks[k],
                response.calls@[i].call_id@,
            ) && attempt_matches(response.calls@[i].attempts@[j], tasks[k]),
{
    let groups = report_groups(tasks);
    law_every_attempt_is_reported(tasks);
    law_attempts_are_grouped_by_call(tasks);
    tasks.to_multiset_ensures();
    assert(call_matches(response.calls@[i], groups[i]));
    let task = groups[i].tasks[j];
    assert(attempt_matches(response.calls@[i].attempts@[j], task));
    assert(groups[i].tasks.contains(task));
    lemma_attempts_of(groups, task);
    assert(tasks.contains(task));
    let k = choose|k: int| 0 <= k < tasks.len() && tasks[k] == task;
    assert(is_call(groups[i]));
    assert(task_call_id(groups[i].tasks[j]) == groups[i].call_id);
    assert(belongs_to(tasks[k], response.calls@[i].call_id@));
}

/// No two calls of a response have the same identifier, and each goes by the last
/// level of it.
pub proof fn law_calls_are_listed_once(
    response: RunMetricsResponse,
    run: RunMetricsRun,
    tasks: Seq<Task>,
    i: int,
    j: int,
)
    requires
        summarizes(response, run, sorted_tasks(tasks)),
        0 <= i < response.calls@.len(),
        0 <= j < response.calls@.len(),
    ensures
        response.calls@[i].call_id@ == response.calls@[j].call_id@ <==> i == j,
        response.calls@[i].name@ == short_name(response.calls@[i].call_id@),
        response.calls@[i].attempts@.len() > 0,
{
    let groups = report_groups(tasks);
    law_attempts_are_grouped_by_call(tasks);
    assert(call_matches(response.calls@[i], groups[i]));
    assert(call_matches(response.calls@[j], groups[j]));
    assert(is_call(groups[i]));
}

/// Whether a point in time is no later than another.
pub open spec fn no_later(a: Timestamp, b: Timestamp) -> bool {
    a.secs() < b.secs() || (a.secs() == b.secs() && a.nanos() <= b.nanos())
}

/// Whether an attempt may come before another: it has a smaller number or, with
/// the same number, was created earlier or, created at the same time, does not
/// come later by name.
pub open spec fn may_precede(a: Task, b: Task) -> bool {
    ||| a.attempt < b.attempt
    ||| a.attempt == b.attempt && a.created_at != b.created_at && no_later(
        a.created_at,
        b.created_at,
    )
    ||| a.attempt == b.attempt && a.created_at == b.created_at && !text_before(b.name@, a.name@)
}

/// Attempts are put in order by number, then by creation, then by name: none is
/// lost, and none comes before one that should precede it.
pub proof fn law_attempts_are_sorted(tasks: Seq<Task>, i: int, j: int)
    requires
        0 <= i < j < tasks.len(),
    ensures
        sorted_tasks(tasks).len() == tasks.len(),
        sorted_tasks(tasks).to_multiset() == tasks.to_multiset(),
        may_precede(sorted_tasks(tasks)[i], sorted_tasks(tasks)[j]),
{
    law_attempts_are_put_in_order(tasks);
    law_ordering_keeps_the_attempts(tasks);
    law_totals_count_every_attempt(tasks);
    lemma_may_precede(sorted_tasks(tasks)[i], sorted_tasks(tasks)[j]);
}

/// What does not come after another may precede it.
proof fn lemma_may_precede(a: Task, b: Task)
    requires
        !task_before(b, a),
    ensures
        may_precede(a, b),
{
    if a.attempt == b.attempt && a.created_at != b.created_at {
        if b.created_at.secs() == a.created_at.secs() && b.created_at.nanos()
            == a.created_at.nanos() {
            Timestamp::lemma_parts(a.created_at, b.created_at);
        }
    }
}

/// The attempts of each call are listed in order: by number, then by creation,
/// then by name.
pub proof fn law_attempts_are_listed_in_order(tasks: Seq<Task>, i: int, j: int, k: int)
    requires
        0 <= i < report_groups(tasks).len(),
        0 <= j < k < report_groups(tasks)[i].tasks.len(),
    ensures
        may_precede(report_groups(tasks)[i].tasks[j], report_groups(tasks)[i].tasks[k]),
{
    law_attempts_of_a_call_are_ordered(tasks);
    let group = report_groups(tasks)[i].tasks;
    assert(in_order(group));
    lemma_may_precede(group[j], group[k]);
}

/// Whether the first attempts of calls may precede one another as the calls do.
spec fn firsts_in_order(groups: Seq<CallGroup>) -> bool {
    forall|i: int, j: int|
        0 <= i < j < groups.len() ==> !task_before(
            (#[trigger] groups[j]).tasks[0],
            (#[trigger] groups[i]).tasks[0],
        )
}

/// Grouping ordered attempts leaves the first attempts of the calls in order.
proof fn lemma_firsts_in_order(tasks: Seq<Task>)
    requires
        in_order(tasks),
    ensures
        firsts_in_order(grouped(tasks)),
        forall|i: int|
            0 <= i < grouped(tasks).len() ==> tasks.contains(
                (#[trigger] grouped(tasks)[i]).tasks[0],
            ),
    decreases tasks.len(),
{
    if tasks.len() > 0 {
        let rest = tasks.drop_last();
        let task = tasks.last();
        let groups = grouped(rest);
        let after = grouped(tasks);
        let at = group_position(groups, task_call_id(task));
        assert forall|i: int, j: int| 0 <= i < j < rest.len() implies !task_before(
            #[trigger] rest[j],
            #[trigger] rest[i],
        ) by {
            assert(rest[i] == tasks[i] && rest[j] == tasks[j]);
        }
        lemma_firsts_in_order(rest);
        lemma_group_position(groups, task_call_id(task));
        lemma_grouped_are_calls(rest);
        assert forall|i: int| 0 <= i < groups.len() implies (#[trigger] after[i]).tasks[0]
            == groups[i].tasks[0] by {
            assert(is_call(groups[i]));
        }
        assert forall|i: int| 0 <= i < after.len() implies tasks.contains(
            (#[trigger] after[i]).tasks[0],
        ) by {
            if i < groups.len() {
                assert(rest.contains(groups[i].tasks[0]));
                let k = choose|k: int| 0 <= k < rest.len() && rest[k] == groups[i].tasks[0];
                assert(tasks[k] == groups[i].tasks[0]);
            } else {
                assert(tasks[tasks.len() - 1] == task);
            }
        }
        assert forall|i: int, j: int| 0 <= i < j < after.len() implies !task_before(
            (#[trigger] after[j]).tasks[0],
            (#[trigger] after[i]).tasks[0],
        ) by {
            if j < groups.len() {
                assert(!task_before(groups[j].tasks[0], groups[i].tasks[0]));
            } else {
                assert(rest.contains(groups[i].tasks[0]));
                let k = choose|k: int| 0 <= k < rest.len() && rest[k] == groups[i].tasks[0];
                assert(tasks[k] == groups[i].tasks[0]);
                assert(tasks[tasks.len() - 1] == task);
                assert(after[j].tasks[0] == task);
            }
        }
    }
}

/// Whether a call may come before another: its first attempt was created earlier
/// or, created at the same time, may precede the other's.
pub open spec fn call_may_precede(a: CallGroup, b: CallGroup) -> bool {
    ||| a.tasks[0].created_at != b.tasks[0].created_at && no_later(
        a.tasks[0].created_at,
        b.tasks[0].created_at,
    )
    ||| a.tasks[0].created_at == b.tasks[0].created_at && may_precede(a.tasks[0], b.tasks[0])
}

/// Ordering calls whose first attempts are in order puts each after those that
/// may precede it.
proof fn lemma_calls_in_order(groups: Seq<CallGroup>)
    requires
        firsts_in_order(groups),
    ensures
        forall|i: int, j: int|
            0 <= i < j < ordered_groups(groups).len() ==> call_may_precede(
                #[trigger] ordered_groups(groups)[i],
                #[trigger] ordered_groups(groups)[j],
            ),
        forall|i: int|
            0 <= i < ordered_groups(groups).len() ==> groups.contains(
                #[trigger] ordered_groups(groups)[i],
            ),
    decreases groups.len(),
{
    if groups.len() > 0 {
        let before = groups.drop_last();
        let rest = ordered_groups(before);
        let group = groups.last();
        let at = group_slot(rest, group);
        let after = ordered_groups(groups);
        assert forall|i: int, j: int| 0 <= i < j < before.len() implies !task_before(
            (#[trigger] before[j]).tasks[0],
            (#[trigger] before[i]).tasks[0],
        ) by {
            assert(before[i] == groups[i] && before[j] == groups[j]);
        }
        lemma_calls_in_order(before);
        lemma_group_slot(rest, group);
        assert forall|i: int| 0 <= i < after.len() implies groups.contains(
            #[trigger] after[i],
        ) by {
            if i == at {
                assert(groups[groups.len() - 1] == group);
            } else {
                let k = if i < at { i } else { i - 1 };
                assert(after[i] == rest[k]);
                assert(before.contains(rest[k]));
                let m = choose|m: int| 0 <= m < before.len() && before[m] == rest[k];
                assert(groups[m] == rest[k]);
            }
        }
        assert forall|i: int, j: int| 0 <= i < j < after.len() implies call_may_precede(
            #[trigger] after[i],
            #[trigger] after[j],
        ) by {
            if i == at {
                assert(after[j] == rest[j - 1]);
            } else if j == at {
                assert(after[i] == rest[i]);
                // The one just before the slot was not created later, and the
                // others may precede it.
                if i < at - 1 {
                    assert(call_may_precede(rest[i], rest[at - 1]));
                }
                assert(!group.tasks[0].created_at.before(rest[at - 1].tasks[0].created_at));
                assert(before.contains(rest[i]));
                let m = choose|m: int| 0 <= m < before.len() && before[m] == rest[i];
                assert(groups[m] == rest[i]);
                assert(groups[groups.len() - 1] == group);
                lemma_may_precede(rest[i].tasks[0], group.tasks[0]);
                if rest[i].tasks[0].created_at != group.tasks[0].created_at {
                    assert(no_later(rest[i].tasks[0].created_at, group.tasks[0].created_at));
                }
            } else {
                let k = if i < at { i } else { i - 1 };
                let m = if j < at { j } else { j - 1 };
                assert(after[i] == rest[k] && after[j] == rest[m]);
            }
        }
    }
}

/// Calls are listed in the order in which their first attempts were created, and
/// those whose first attempts were created at the same time in the order of these
/// attempts.
pub proof fn law_calls_are_listed_in_order(tasks: Seq<Task>, i: int, j: int)
    requires
        0 <= i < j < report_groups(tasks).len(),
    ensures
        call_may_precede(report_groups(tasks)[i], report_groups(tasks)[j]),
{
    law_attempts_are_put_in_order(tasks);
    lemma_firsts_in_order(sorted_tasks(tasks));
    lemma_calls_in_order(grouped(sorted_tasks(tasks)));
}

/// What a group holds is listed at the same place, and is one of the tasks.
proof fn lemma_listed_at(
    response: RunMetricsResponse,
    run: RunMetricsRun,
    tasks: Seq<Task>,
    k: int,
    m: int,
)
    requires
        summarizes(response, run, sorted_tasks(tasks)),
        0 <= k < response.calls@.len(),
        0 <= m < response.calls@[k].attempts@.len(),
    ensures
        response.calls@.len() == report_groups(tasks).len(),
        response.calls@[k].attempts@.len() == report_groups(tasks)[k].tasks.len(),
        attempt_matches(response.calls@[k].attempts@[m], report_groups(tasks)[k].tasks[m]),
        tasks.contains(report_groups(tasks)[k].tasks[m]),
{
    let groups = report_groups(tasks);
    law_every_attempt_is_reported(tasks);
    tasks.to_multiset_ensures();
    assert(call_matches(response.calls@[k], groups[k]));
    assert(attempt_matches(response.calls@[k].attempts@[m], groups[k].tasks[m]));
    assert(groups[k].tasks.contains(groups[k].tasks[m]));
    lemma_attempts_of(groups, groups[k].tasks[m]);
}

/// A response lists calls in the order in which their first attempts were
/// created, and those created at the same time in the order of these attempts.
pub proof fn law_responses_list_calls_in_order(
    response: RunMetricsResponse,
    run: RunMetricsRun,
    tasks: Seq<Task>,
    i: int,
    j: int,
)
    requires
        summarizes(response, run, sorted_tasks(tasks)),
        0 <= i < j < response.calls@.len(),
    ensures
        exists|a: Task, b: Task|
            {
                &&& tasks.contains(a) && tasks.contains(b)
                &&& #[trigger] attempt_matches(response.calls@[i].attempts@[0], a)
                &&& #[trigger] attempt_matches(response.calls@[j].attempts@[0], b)
                &&& no_later(a.created_at, b.created_at)
                &&& a.created_at == b.created_at ==> may_precede(a, b)
            },
{
    let groups = report_groups(tasks);
    law_calls_are_listed_once(response, run, tasks, i, j);
    law_calls_are_listed_once(response, run, tasks, j, i);
    lemma_listed_at(response, run, tasks, i, 0);
    lemma_listed_at(response, run, tasks, j, 0);
    law_calls_are_listed_in_order(tasks, i, j);
    let a = groups[i].tasks[0];
    let b = groups[j].tasks[0];
    assert(no_later(a.created_at, b.created_at));
}

/// A response lists the attempts of a call by number, then by creation, then by
/// name.
pub proof fn law_responses_list_attempts_in_order(
    response: RunMetricsResponse,
    run: RunMetricsRun,
    tasks: Seq<Task>,
    k: int,
    i: int,
    j: int,
)
    requires
        summarizes(response, run, sorted_tasks(tasks)),
        0 <= k < response.calls@.len(),
        0 <= i < j < response.calls@[k].attempts@.len(),
    ensures
        exists|a: Task, b: Task|
            {
                &&& tasks.contains(a) && tasks.contains(b)
                &&& #[trigger] attempt_matches(response.calls@[k].attempts@[i], a)
                &&& #[trigger] attempt_matches(response.calls@[k].attempts@[j], b)
                &&& may_precede(a, b)
            },
{
    lemma_listed_at(response, run, tasks, k, i);
    lemma_listed_at(response, run, tasks, k, j);
    law_attempts_are_listed_in_order(tasks, k, i, j);
}

/// Every attempt refers to the logs that are given for its name.
pub proof fn law_attempts_refer_to_their_logs<F: Fn(&str) -> String>(
    response: RunMetricsResponse,
    run: RunMetricsRun,
    sorted: Seq<Task>,
    logs_for: F,
    i: int,
    j: int,
)
    requires
        reports(response, run, sorted, logs_for),
        0 <= i < response.calls@.len(),
        0 <= j < response.calls@[i].attempts@.len(),
    ensures
        summarizes(response, run, sorted),
        exists|name: &str|
            name@ == response.calls@[i].attempts@[j].name@ && #[trigger] call_ensures(
                logs_for,
                (name,),
                response.calls@[i].attempts@[j].logs,
            ),
{
    assert(call_refers_to_logs(logs_for, response.calls@[i]));
    assert(refers_to_logs(
        logs_for,
        response.calls@[i].attempts@[j].name@,
        response.calls@[i].attempts@[j].logs,
    ));
}

/// Whether two dashes stand next to each other at a position.
pub open spec fn dashes_at(text: Seq<char>, at: int) -> bool {
    0 <= at < text.len() - 1 && text[at] == '-' && text[at + 1] == '-'
}

/// The short name of a call is the last level of its path: what follows the last
/// two dashes that stand next to each other, or the whole path where there are
/// none.
pub proof fn law_short_names_are_last_levels(call_id: Seq<char>)
    ensures
        ({
            let name = short_name(call_id);
            let cut = call_id.len() - name.len();
            &&& name.len() <= call_id.len()
            &&& name == call_id.skip(cut)
            &&& forall|at: int| !(#[trigger] dashes_at(name, at))
            &&& cut == 0 || (cut >= 2 && dashes_at(call_id, cut - 2))
            &&& cut > 0 && name.len() > 0 ==> name[0] != '-'
            &&& cut == 0 ==> forall|at: int| !(#[trigger] dashes_at(call_id, at))
        }),
{
    let dashes = seq!['-', '-'];
    assert forall|at: int| #[trigger] dashes_at(call_id, at) <==> occurs_at(call_id, dashes, at) by {
        if dashes_at(call_id, at) {
            assert(call_id.subrange(at, at + 2) =~= dashes);
        }
        if occurs_at(call_id, dashes, at) {
            assert(call_id.subrange(at, at + 2)[0] == '-');
            assert(call_id.subrange(at, at + 2)[1] == '-');
        }
    }
    let name = short_name(call_id);
    if occurs_in(call_id, dashes) {
        lemma_last_dashes(call_id, call_id.len() as int);
        let at = choose|at: int|
            occurs_at(call_id, dashes, at) && forall|j: int|
                j > at ==> !occurs_at(call_id, dashes, j);
        assert(dashes_at(call_id, at));
        assert(name == call_id.skip(at + 2));
        assert(call_id.len() - name.len() == at + 2);
        if name.len() > 0 && name[0] == '-' {
            assert(dashes_at(call_id, at + 1));
            assert(occurs_at(call_id, dashes, at + 1));
        }
        assert forall|k: int| !(#[trigger] dashes_at(name, k)) by {
            if dashes_at(name, k) {
                assert(dashes_at(call_id, at + 2 + k));
                assert(occurs_at(call_id, dashes, at + 2 + k));
            }
        }
    } else {
        assert(call_id.skip(0) =~= call_id);
        assert forall|k: int| !(#[trigger] dashes_at(call_id, k)) by {
            assert(!occurs_at(call_id, dashes, k));
        }
    }
}

/// Where there are two dashes below a position, there are last ones.
proof fn lemma_last_dashes(text: Seq<char>, limit: int)
    requires
        exists|at: int| at < limit && occurs_at(text, seq!['-', '-'], at),
        0 <= limit <= text.len(),
        forall|j: int| j >= limit ==> !occurs_at(text, seq!['-', '-'], j),
    ensures
        exists|at: int|
            occurs_at(text, seq!['-', '-'], at) && forall|j: int|
                j > at ==> !occurs_at(text, seq!['-', '-'], j),
    decreases limit,
{
    if occurs_at(text, seq!['-', '-'], limit - 1) {
        assert(forall|j: int| j > limit - 1 ==> !occurs_at(text, seq!['-', '-'], j));
    } else {
        lemma_last_dashes(text, limit - 1);
    }
}

/// The time between two points is known when both are.
pub proof fn law_spans_need_both_ends(
    start: Option<Timestamp>,
    end: Option<Timestamp>,
    task: Task,
)
    ensures
        opt_millis(start, end) == span(start, end),
        wall_time(task) == span(task.started_at, task.completed_at),
        allocated_cpu_time(task) == allocation(task),
{
}

/// The summary of a run says what is recorded of it, and lasts from its start to
/// its completion where both are known.
pub proof fn law_runs_are_summarized(
    run: RunMetricsRun,
    uuid: Uuid,
    name: Seq<char>,
    status: RunStatus,
    started_at: Option<Timestamp>,
    completed_at: Option<Timestamp>,
    backend: Option<Seq<char>>,
    version: Seq<char>,
    transfer: Option<TransferTotals>,
)
    requires
        is_run_summary(
            run,
            uuid,
            name,
            status,
            started_at,
            completed_at,
            backend,
            version,
            transfer,
        ),
    ensures
        run.uuid == uuid && run.name@ == name && run.status == status,
        opt_value(run.wall_time_ms) == span(started_at, completed_at),
        run.backend is Some <==> backend is Some,
        run.backend is Some ==> backend == Some(run.backend->0@),
        run.sprocket_version@ == version,
        run.transfer == transfer,
{
}

/// Pages of 500 tasks are asked for, each from where the last ended, until as many
/// tasks have been collected as there are: a page more is asked for exactly while
/// tasks are missing, and it begins with the first of them.
pub proof fn law_pages_cover_all_tasks(collected: nat, total: i64)
    ensures
        METRICS_PAGE_SIZE == 500,
        was_last_page(collected, total) <==> collected >= total,
        !was_last_page(collected, total) ==> page_offset(collected) == collected,
{
}

} // verus!
