//! What holds of every metrics report.

use vstd::multiset::Multiset;
use vstd::prelude::*;
use vstd::seq_lib::*;

use crate::metrics::{
    count_retries, count_status, group_position, group_slot, grouped, ordered_groups,
    report_groups, reports, sorted_tasks, sum_allocated, sum_wasted, task_before, task_call_id,
    task_position, totals_fit, with_task, CallGroup, RunMetricsResponse, RunMetricsRun, Task,
};
use crate::status::TaskStatus;
use crate::text::{
    lemma_text_before_irreflexive, lemma_text_before_total, lemma_text_before_transitive,
};
use crate::time::Timestamp;

verus! {

/// An attempt that comes before another does not come after it.
proof fn lemma_task_before_asymmetric(a: Task, b: Task)
    requires
        task_before(a, b),
    ensures
        !task_before(b, a),
{
    if a.attempt == b.attempt && a.created_at == b.created_at && task_before(b, a) {
        lemma_text_before_transitive(a.name@, b.name@, a.name@);
        lemma_text_before_irreflexive(a.name@);
    }
}

/// What comes before an attempt also comes before all that do not come before
/// that attempt.
proof fn lemma_task_before_chain(a: Task, b: Task, c: Task)
    requires
        task_before(a, b),
        !task_before(c, b),
    ensures
        task_before(a, c),
{
    if b.attempt == c.attempt && b.created_at != c.created_at && !b.created_at.before(
        c.created_at,
    ) {
        Timestamp::lemma_parts(b.created_at, c.created_at);
    }
    if a.attempt == b.attempt && b.attempt == c.attempt && a.created_at == b.created_at
        && b.created_at == c.created_at {
        lemma_text_before_total(b.name@, c.name@);
        if b.name@ != c.name@ {
            lemma_text_before_transitive(a.name@, b.name@, c.name@);
        }
    }
}

/// An attempt goes behind one that it does not come before, and ahead of all
/// that it comes before from there on.
proof fn lemma_task_position(sorted: Seq<Task>, task: Task)
    ensures
        0 <= task_position(sorted, task) <= sorted.len(),
        task_position(sorted, task) > 0 ==> !task_before(
            task,
            sorted[task_position(sorted, task) - 1],
        ),
        forall|i: int|
            task_position(sorted, task) <= i < sorted.len() ==> task_before(
                task,
                #[trigger] sorted[i],
            ),
    decreases sorted.len(),
{
    if sorted.len() > 0 && task_before(task, sorted.last()) {
        lemma_task_position(sorted.drop_last(), task);
        assert forall|i: int| task_position(sorted, task) <= i < sorted.len() implies task_before(
            task,
            #[trigger] sorted[i],
        ) by {
            if i < sorted.len() - 1 {
                assert(sorted[i] == sorted.drop_last()[i]);
            }
        }
    }
}

/// Attempts are in order: none comes before an earlier one.
pub open spec fn in_order(tasks: Seq<Task>) -> bool {
    forall|i: int, j: int|
        0 <= i < j < tasks.len() ==> !task_before(#[trigger] tasks[j], #[trigger] tasks[i])
}

/// Attempts are put in order by attempt number, creation time and name.
pub proof fn law_attempts_are_put_in_order(tasks: Seq<Task>)
    ensures
        in_order(sorted_tasks(tasks)),
    decreases tasks.len(),
{
    if tasks.len() > 0 {
        let rest = sorted_tasks(tasks.drop_last());
        let task = tasks.last();
        let at = task_position(rest, task);
        let sorted = sorted_tasks(tasks);
        law_attempts_are_put_in_order(tasks.drop_last());
        lemma_task_position(rest, task);
        assert forall|i: int, j: int| 0 <= i < j < sorted.len() implies !task_before(
            #[trigger] sorted[j],
            #[trigger] sorted[i],
        ) by {
            if i == at {
                assert(sorted[j] == rest[j - 1]);
                lemma_task_before_asymmetric(task, rest[j - 1]);
            } else if j == at {
                assert(sorted[i] == rest[i]);
                if task_before(task, rest[i]) && i < at - 1 {
                    lemma_task_before_chain(task, rest[i], rest[at - 1]);
                }
            } else {
                let k = if i < at { i } else { i - 1 };
                let l = if j < at { j } else { j - 1 };
                assert(sorted[i] == rest[k]);
                assert(sorted[j] == rest[l]);
            }
        }
    }
}

/// Inserting an item adds it to the items.
proof fn lemma_insert_multiset<A>(items: Seq<A>, at: int, item: A)
    requires
        0 <= at <= items.len(),
    ensures
        items.insert(at, item).to_multiset() == items.to_multiset().insert(item),
{
    broadcast use group_to_multiset_ensures;

    let after = items.insert(at, item);
    assert(after.remove(at) =~= items);
    assert(after[at] == item);
    assert(after.contains(item));
    assert(after.to_multiset() =~= after.to_multiset().remove(item).insert(item));
}

/// Putting attempts in order neither adds, drops nor changes any.
pub proof fn law_ordering_keeps_the_attempts(tasks: Seq<Task>)
    ensures
        sorted_tasks(tasks).to_multiset() == tasks.to_multiset(),
    decreases tasks.len(),
{
    broadcast use group_to_multiset_ensures;

    if tasks.len() > 0 {
        let rest = sorted_tasks(tasks.drop_last());
        law_ordering_keeps_the_attempts(tasks.drop_last());
        lemma_task_position(rest, tasks.last());
        lemma_insert_multiset(rest, task_position(rest, tasks.last()), tasks.last());
        assert(tasks.drop_last().push(tasks.last()) =~= tasks);
    } else {
        assert(sorted_tasks(tasks) =~= tasks);
    }
}

/// Attempts that are in order already stay as they are.
pub proof fn law_ordered_attempts_stay(tasks: Seq<Task>)
    requires
        in_order(tasks),
    ensures
        sorted_tasks(tasks) == tasks,
    decreases tasks.len(),
{
    if tasks.len() > 0 {
        let rest = tasks.drop_last();
        assert forall|i: int, j: int| 0 <= i < j < rest.len() implies !task_before(
            #[trigger] rest[j],
            #[trigger] rest[i],
        ) by {
            assert(rest[i] == tasks[i] && rest[j] == tasks[j]);
        }
        law_ordered_attempts_stay(rest);
        if rest.len() > 0 {
            assert(rest.last() == tasks[tasks.len() - 2]);
            assert(tasks.last() == tasks[tasks.len() - 1]);
        }
        assert(task_position(rest, tasks.last()) == rest.len());
        assert(rest.insert(rest.len() as int, tasks.last()) =~= tasks);
    } else {
        assert(sorted_tasks(tasks) =~= tasks);
    }
}

/// The position of a call is the first with its identifier.
pub(crate) proof fn lemma_group_position(groups: Seq<CallGroup>, call_id: Seq<char>)
    ensures
        0 <= group_position(groups, call_id) <= groups.len(),
        group_position(groups, call_id) < groups.len() ==> groups[group_position(
            groups,
            call_id,
        )].call_id == call_id,
        forall|i: int|
            0 <= i < group_position(groups, call_id) ==> (#[trigger] groups[i]).call_id != call_id,
    decreases groups.len(),
{
    if groups.len() > 0 && groups[0].call_id != call_id {
        let rest = groups.drop_first();
        lemma_group_position(rest, call_id);
        assert forall|i: int| 0 <= i < group_position(groups, call_id) implies (
        #[trigger] groups[i]).call_id != call_id by {
            if i > 0 {
                assert(groups[i] == rest[i - 1]);
            }
        }
    }
}

/// Whether a call has attempts, all under its identifier.
pub open spec fn is_call(group: CallGroup) -> bool {
    &&& group.tasks.len() > 0
    &&& forall|j: int|
        0 <= j < group.tasks.len() ==> task_call_id(#[trigger] group.tasks[j]) == group.call_id
}

/// Whether no two calls share an identifier.
pub open spec fn calls_are_distinct(groups: Seq<CallGroup>) -> bool {
    forall|i: int, j: int|
        0 <= i < groups.len() && 0 <= j < groups.len() && i != j ==> (
        #[trigger] groups[i]).call_id != (#[trigger] groups[j]).call_id
}

/// Whether each of `groups` is a call, and no two are the same call.
pub open spec fn are_calls(groups: Seq<CallGroup>) -> bool {
    &&& calls_are_distinct(groups)
    &&& forall|i: int| 0 <= i < groups.len() ==> is_call(#[trigger] groups[i])
}

/// One more attempt leaves distinct calls.
proof fn lemma_with_task_are_calls(groups: Seq<CallGroup>, task: Task)
    requires
        are_calls(groups),
    ensures
        are_calls(with_task(groups, task)),
{
    let at = group_position(groups, task_call_id(task));
    let after = with_task(groups, task);
    lemma_group_position(groups, task_call_id(task));
    assert forall|i: int| 0 <= i < after.len() implies is_call(#[trigger] after[i]) by {
        if i < groups.len() {
            assert(is_call(groups[i]));
            if i == at {
                assert forall|j: int| 0 <= j < after[i].tasks.len() implies task_call_id(
                    #[trigger] after[i].tasks[j],
                ) == after[i].call_id by {
                    if j < groups[i].tasks.len() {
                        assert(after[i].tasks[j] == groups[i].tasks[j]);
                    }
                }
            }
        }
    }
    assert forall|i: int, j: int|
        0 <= i < after.len() && 0 <= j < after.len() && i != j implies (
    #[trigger] after[i]).call_id != (#[trigger] after[j]).call_id by {
        if i < groups.len() && j < groups.len() {
            assert(groups[i].call_id != groups[j].call_id);
        }
    }
}

pub(crate) proof fn lemma_grouped_are_calls(tasks: Seq<Task>)
    ensures
        are_calls(grouped(tasks)),
    decreases tasks.len(),
{
    if tasks.len() > 0 {
        lemma_grouped_are_calls(tasks.drop_last());
        lemma_with_task_are_calls(grouped(tasks.drop_last()), tasks.last());
    }
}

/// Where a call goes among ordered ones.
pub(crate) proof fn lemma_group_slot(sorted: Seq<CallGroup>, group: CallGroup)
    ensures
        0 <= group_slot(sorted, group) <= sorted.len(),
        group_slot(sorted, group) > 0 ==> !group.tasks[0].created_at.before(
            sorted[group_slot(sorted, group) - 1].tasks[0].created_at,
        ),
        forall|i: int|
            group_slot(sorted, group) <= i < sorted.len() ==> group.tasks[0].created_at.before(
                (#[trigger] sorted[i]).tasks[0].created_at,
            ),
    decreases sorted.len(),
{
    if sorted.len() > 0 && group.tasks[0].created_at.before(sorted.last().tasks[0].created_at) {
        lemma_group_slot(sorted.drop_last(), group);
        assert forall|i: int| group_slot(sorted, group) <= i < sorted.len() implies
            group.tasks[0].created_at.before((#[trigger] sorted[i]).tasks[0].created_at) by {
            if i < sorted.len() - 1 {
                assert(sorted[i] == sorted.drop_last()[i]);
            }
        }
    }
}

/// Putting calls in order leaves them distinct, and makes none up.
pub(crate) proof fn lemma_ordered_are_calls(groups: Seq<CallGroup>)
    requires
        are_calls(groups),
    ensures
        are_calls(ordered_groups(groups)),
        forall|i: int|
            0 <= i < ordered_groups(groups).len() ==> groups.contains(
                #[trigger] ordered_groups(groups)[i],
            ),
    decreases groups.len(),
{
    if groups.len() > 0 {
        let before = groups.drop_last();
        let rest = ordered_groups(before);
        let group = groups.last();
        let at = group_slot(rest, group);
        let after = ordered_groups(groups);
        assert forall|i: int| 0 <= i < before.len() implies is_call(#[trigger] before[i]) by {
            assert(before[i] == groups[i]);
        }
        assert forall|i: int, j: int|
            0 <= i < before.len() && 0 <= j < before.len() && i != j implies (
        #[trigger] before[i]).call_id != (#[trigger] before[j]).call_id by {
            assert(before[i] == groups[i] && before[j] == groups[j]);
        }
        lemma_ordered_are_calls(before);
        lemma_group_slot(rest, group);
        assert forall|k: int| 0 <= k < rest.len() implies groups.contains(#[trigger] rest[k])
            && rest[k].call_id != group.call_id by {
            assert(before.contains(rest[k]));
            let l = choose|l: int| 0 <= l < before.len() && before[l] == rest[k];
            assert(groups[l] == rest[k]);
            assert(groups[groups.len() - 1] == group);
        }
        assert forall|i: int| 0 <= i < after.len() implies groups.contains(#[trigger] after[i])
            && is_call(after[i]) by {
            if i < at {
                assert(after[i] == rest[i]);
            } else if i > at {
                assert(after[i] == rest[i - 1]);
            } else {
                assert(after[i] == groups[groups.len() - 1]);
            }
        }
        assert forall|i: int, j: int|
            0 <= i < after.len() && 0 <= j < after.len() && i != j implies (
        #[trigger] after[i]).call_id != (#[trigger] after[j]).call_id by {
            let k = if i < at { i } else { i - 1 };
            let l = if j < at { j } else { j - 1 };
            if i != at {
                assert(after[i] == rest[k]);
            }
            if j != at {
                assert(after[j] == rest[l]);
            }
        }
    }
}

/// A report lists each call once, with at least one attempt, and each attempt
/// under its call.
pub proof fn law_attempts_are_grouped_by_call(tasks: Seq<Task>)
    ensures
        are_calls(report_groups(tasks)),
{
    lemma_grouped_are_calls(sorted_tasks(tasks));
    lemma_ordered_are_calls(grouped(sorted_tasks(tasks)));
}

/// Whether calls are in the order of the creation of their first attempt.
pub open spec fn in_creation_order(groups: Seq<CallGroup>) -> bool {
    forall|i: int, j: int|
        0 <= i < j < groups.len() ==> !(#[trigger] groups[j]).tasks[0].created_at.before(
            (#[trigger] groups[i]).tasks[0].created_at,
        )
}

proof fn lemma_in_creation_order(groups: Seq<CallGroup>)
    ensures
        in_creation_order(ordered_groups(groups)),
    decreases groups.len(),
{
    if groups.len() > 0 {
        let rest = ordered_groups(groups.drop_last());
        let group = groups.last();
        let at = group_slot(rest, group);
        let after = ordered_groups(groups);
        lemma_in_creation_order(groups.drop_last());
        lemma_group_slot(rest, group);
        assert forall|i: int, j: int| 0 <= i < j < after.len() implies !(
        #[trigger] after[j]).tasks[0].created_at.before((#[trigger] after[i]).tasks[0].created_at)
            by {
            let k = if i < at { i } else { i - 1 };
            let l = if j < at { j } else { j - 1 };
            if i != at {
                assert(after[i] == rest[k]);
            }
            if j != at {
                assert(after[j] == rest[l]);
            }
            if j == at && i < at - 1 {
                assert(!rest[at - 1].tasks[0].created_at.before(rest[i].tasks[0].created_at));
            }
        }
    }
}

/// A report lists the calls by the creation time of their first attempt.
pub proof fn law_calls_are_ordered_by_creation(tasks: Seq<Task>)
    ensures
        in_creation_order(report_groups(tasks)),
{
    lemma_in_creation_order(grouped(sorted_tasks(tasks)));
}

/// Whether the attempts of every call are in order.
pub open spec fn attempts_in_order(groups: Seq<CallGroup>) -> bool {
    forall|i: int| 0 <= i < groups.len() ==> in_order((#[trigger] groups[i]).tasks)
}

/// Grouping ordered attempts keeps their order, and makes none up.
pub(crate) proof fn lemma_grouped_in_order(tasks: Seq<Task>)
    requires
        in_order(tasks),
    ensures
        attempts_in_order(grouped(tasks)),
        forall|i: int, j: int|
            0 <= i < grouped(tasks).len() && 0 <= j < grouped(tasks)[i].tasks.len()
                ==> tasks.contains(#[trigger] grouped(tasks)[i].tasks[j]),
    decreases tasks.len(),
{
    if tasks.len() > 0 {
        let before = tasks.drop_last();
        let task = tasks.last();
        let groups = grouped(before);
        let after = grouped(tasks);
        assert forall|i: int, j: int| 0 <= i < j < before.len() implies !task_before(
            #[trigger] before[j],
            #[trigger] before[i],
        ) by {
            assert(before[i] == tasks[i] && before[j] == tasks[j]);
        }
        lemma_grouped_in_order(before);
        lemma_group_position(groups, task_call_id(task));
        assert forall|i: int, j: int|
            0 <= i < groups.len() && 0 <= j < groups[i].tasks.len() implies tasks.contains(
            #[trigger] groups[i].tasks[j],
        ) && !task_before(task, groups[i].tasks[j]) by {
            assert(before.contains(groups[i].tasks[j]));
            let k = choose|k: int| 0 <= k < before.len() && before[k] == groups[i].tasks[j];
            assert(tasks[k] == groups[i].tasks[j]);
            assert(tasks[tasks.len() - 1] == task);
        }
        assert forall|i: int, j: int|
            0 <= i < after.len() && 0 <= j < after[i].tasks.len() implies tasks.contains(
            #[trigger] after[i].tasks[j],
        ) by {
            if i < groups.len() && j < groups[i].tasks.len() {
                assert(after[i].tasks[j] == groups[i].tasks[j]);
            } else {
                assert(after[i].tasks[j] == tasks[tasks.len() - 1]);
            }
        }
        assert forall|i: int| 0 <= i < after.len() implies in_order((#[trigger] after[i]).tasks) by {
            if i < groups.len() {
                assert(in_order(groups[i].tasks));
                assert forall|k: int, l: int| 0 <= k < l < after[i].tasks.len() implies !task_before(
                    #[trigger] after[i].tasks[l],
                    #[trigger] after[i].tasks[k],
                ) by {
                    assert(after[i].tasks[k] == groups[i].tasks[k]);
                    if l < groups[i].tasks.len() {
                        assert(after[i].tasks[l] == groups[i].tasks[l]);
                    }
                }
            }
        }
    }
}

/// A report lists the attempts of each call by attempt number and creation
/// time.
pub proof fn law_attempts_of_a_call_are_ordered(tasks: Seq<Task>)
    ensures
        attempts_in_order(report_groups(tasks)),
{
    let groups = grouped(sorted_tasks(tasks));
    law_attempts_are_put_in_order(tasks);
    lemma_grouped_in_order(sorted_tasks(tasks));
    lemma_grouped_are_calls(sorted_tasks(tasks));
    lemma_ordered_are_calls(groups);
    assert forall|i: int| 0 <= i < report_groups(tasks).len() implies in_order(
        (#[trigger] report_groups(tasks)[i]).tasks,
    ) by {
        assert(groups.contains(report_groups(tasks)[i]));
        let k = choose|k: int| 0 <= k < groups.len() && groups[k] == report_groups(tasks)[i];
        assert(in_order(groups[k].tasks));
    }
}

/// All attempts of the calls.
pub open spec fn attempts_of(groups: Seq<CallGroup>) -> Multiset<Task>
    decreases groups.len(),
{
    if groups.len() == 0 {
        Multiset::empty()
    } else {
        attempts_of(groups.drop_last()).add(groups.last().tasks.to_multiset())
    }
}

/// One more attempt for a call is one more attempt of all.
proof fn lemma_attempts_of_update(groups: Seq<CallGroup>, at: int, task: Task)
    requires
        0 <= at < groups.len(),
    ensures
        attempts_of(
            groups.update(
                at,
                CallGroup { call_id: groups[at].call_id, tasks: groups[at].tasks.push(task) },
            ),
        ) == attempts_of(groups).insert(task),
    decreases groups.len(),
{
    broadcast use group_to_multiset_ensures;

    let grown = CallGroup { call_id: groups[at].call_id, tasks: groups[at].tasks.push(task) };
    let after = groups.update(at, grown);
    if at == groups.len() - 1 {
        assert(after.drop_last() =~= groups.drop_last());
    } else {
        lemma_attempts_of_update(groups.drop_last(), at, task);
        assert(after.drop_last() =~= groups.drop_last().update(at, grown));
    }
    assert(attempts_of(after) =~= attempts_of(groups).insert(task));
}

/// One more call adds its attempts.
proof fn lemma_attempts_of_insert(groups: Seq<CallGroup>, at: int, group: CallGroup)
    requires
        0 <= at <= groups.len(),
    ensures
        attempts_of(groups.insert(at, group)) == attempts_of(groups).add(group.tasks.to_multiset()),
    decreases groups.len(),
{
    let after = groups.insert(at, group);
    if at == groups.len() {
        assert(after.drop_last() =~= groups);
    } else {
        lemma_attempts_of_insert(groups.drop_last(), at, group);
        assert(after.drop_last() =~= groups.drop_last().insert(at, group));
        assert(after.last() == groups.last());
        assert(attempts_of(after) =~= attempts_of(groups).add(group.tasks.to_multiset()));
    }
}

proof fn lemma_attempts_of_grouped(tasks: Seq<Task>)
    ensures
        attempts_of(grouped(tasks)) == tasks.to_multiset(),
    decreases tasks.len(),
{
    broadcast use group_to_multiset_ensures;

    if tasks.len() > 0 {
        let groups = grouped(tasks.drop_last());
        let task = tasks.last();
        lemma_attempts_of_grouped(tasks.drop_last());
        lemma_group_position(groups, task_call_id(task));
        assert(tasks.drop_last().push(task) =~= tasks);
        if group_position(groups, task_call_id(task)) < groups.len() {
            lemma_attempts_of_update(groups, group_position(groups, task_call_id(task)), task);
        } else {
            let group = CallGroup { call_id: task_call_id(task), tasks: seq![task] };
            assert(groups.push(group).drop_last() =~= groups);
            assert(Seq::<Task>::empty().push(task) =~= seq![task]);
            assert(Seq::<Task>::empty().to_multiset() =~= Multiset::<Task>::empty());
            assert(attempts_of(grouped(tasks)) =~= tasks.to_multiset());
        }
    } else {
        assert(tasks.to_multiset() =~= Multiset::<Task>::empty());
    }
}

proof fn lemma_attempts_of_ordered(groups: Seq<CallGroup>)
    ensures
        attempts_of(ordered_groups(groups)) == attempts_of(groups),
    decreases groups.len(),
{
    if groups.len() > 0 {
        let rest = ordered_groups(groups.drop_last());
        lemma_attempts_of_ordered(groups.drop_last());
        lemma_group_slot(rest, groups.last());
        lemma_attempts_of_insert(rest, group_slot(rest, groups.last()), groups.last());
    }
}

/// A report lists every attempt exactly once.
pub proof fn law_every_attempt_is_reported(tasks: Seq<Task>)
    ensures
        attempts_of(report_groups(tasks)) == tasks.to_multiset(),
{
    lemma_attempts_of_ordered(grouped(sorted_tasks(tasks)));
    lemma_attempts_of_grouped(sorted_tasks(tasks));
    law_ordering_keeps_the_attempts(tasks);
}

/// The totals grow by what an inserted attempt counts for.
proof fn lemma_totals_insert(tasks: Seq<Task>, at: int, task: Task)
    requires
        0 <= at <= tasks.len(),
    ensures
        count_retries(tasks.insert(at, task)) == count_retries(tasks.push(task)),
        sum_allocated(tasks.insert(at, task)) == sum_allocated(tasks.push(task)),
        sum_wasted(tasks.insert(at, task)) == sum_wasted(tasks.push(task)),
        forall|status: TaskStatus| #[trigger]
            count_status(tasks.insert(at, task), status) == count_status(tasks.push(task), status),
    decreases tasks.len(),
{
    let after = tasks.insert(at, task);
    if at == tasks.len() {
        assert(after =~= tasks.push(task));
    } else {
        let rest = tasks.drop_last();
        reveal_with_fuel(count_retries, 2);
        reveal_with_fuel(sum_allocated, 2);
        reveal_with_fuel(sum_wasted, 2);
        reveal_with_fuel(count_status, 2);
        lemma_totals_insert(rest, at, task);
        assert(after.drop_last() =~= rest.insert(at, task));
        assert(after.last() == tasks.last());
        assert(tasks.push(task).drop_last() =~= tasks);
        assert(rest.push(task).drop_last() =~= rest);
        assert forall|status: TaskStatus| #[trigger]
            count_status(after, status) == count_status(tasks.push(task), status) by {
            assert(count_status(rest.insert(at, task), status) == count_status(
                rest.push(task),
                status,
            ));
        }
    }
}

/// The totals of a report do not depend on the order in which the attempts were
/// given.
pub proof fn law_totals_count_every_attempt(tasks: Seq<Task>)
    ensures
        sorted_tasks(tasks).len() == tasks.len(),
        count_retries(sorted_tasks(tasks)) == count_retries(tasks),
        sum_allocated(sorted_tasks(tasks)) == sum_allocated(tasks),
        sum_wasted(sorted_tasks(tasks)) == sum_wasted(tasks),
        forall|status: TaskStatus| #[trigger]
            count_status(sorted_tasks(tasks), status) == count_status(tasks, status),
    decreases tasks.len(),
{
    if tasks.len() > 0 {
        let rest = sorted_tasks(tasks.drop_last());
        let task = tasks.last();
        law_totals_count_every_attempt(tasks.drop_last());
        lemma_task_position(rest, task);
        lemma_totals_insert(rest, task_position(rest, task), task);
        assert(rest.push(task).drop_last() =~= rest);
        assert forall|status: TaskStatus| #[trigger]
            count_status(sorted_tasks(tasks), status) == count_status(tasks, status) by {
            assert(count_status(rest, status) == count_status(tasks.drop_last(), status));
            assert(count_status(rest.push(task), status) == count_status(
                sorted_tasks(tasks),
                status,
            ));
        }
    }
}

/// No total exceeds the number of attempts, and no attempt is both cached and
/// preempted.
pub proof fn law_counts_are_bounded_by_attempts(tasks: Seq<Task>)
    ensures
        count_retries(tasks) <= tasks.len(),
        count_status(tasks, TaskStatus::Cached) + count_status(tasks, TaskStatus::Preempted)
            <= tasks.len(),
    decreases tasks.len(),
{
    if tasks.len() > 0 {
        law_counts_are_bounded_by_attempts(tasks.drop_last());
    }
}

/// Whether no two attempts share a name.
pub open spec fn names_are_distinct(tasks: Seq<Task>) -> bool {
    forall|i: int, j: int|
        0 <= i < tasks.len() && 0 <= j < tasks.len() && i != j ==> (#[trigger] tasks[i]).name@ != (
        #[trigger] tasks[j]).name@
}

/// Of two attempts under different names, one comes before the other.
proof fn lemma_task_before_total(a: Task, b: Task)
    requires
        a.name@ != b.name@,
    ensures
        task_before(a, b) || task_before(b, a),
{
    lemma_text_before_total(a.name@, b.name@);
    if a.attempt == b.attempt && a.created_at != b.created_at && !a.created_at.before(b.created_at)
        && !b.created_at.before(a.created_at) {
        Timestamp::lemma_parts(a.created_at, b.created_at);
    }
}

/// Attempts with distinct names can be put in order in one way only.
proof fn lemma_one_order(a: Seq<Task>, b: Seq<Task>)
    requires
        in_order(a),
        in_order(b),
        names_are_distinct(a),
        a.to_multiset() == b.to_multiset(),
    ensures
        a == b,
    decreases a.len(),
{
    broadcast use group_to_multiset_ensures;

    a.to_multiset_ensures();
    b.to_multiset_ensures();
    assert(a.len() == b.len());
    if a.len() > 0 {
        let x = a.last();
        let y = b.last();
        let n = a.len() - 1;
        assert(a.contains(x) && b.contains(y));
        assert(b.to_multiset().count(x) > 0 && a.to_multiset().count(y) > 0);
        assert(b.contains(x) && a.contains(y));
        let i = choose|i: int| 0 <= i < a.len() && a[i] == y;
        let j = choose|j: int| 0 <= j < b.len() && b[j] == x;
        if x != y {
            assert(i < n && j < n);
            assert(a[i].name@ != a[n].name@);
            lemma_task_before_total(x, y);
            assert(!task_before(a[n], a[i]));
            assert(!task_before(b[n], b[j]));
        }
        let c = a.drop_last();
        let d = b.drop_last();
        assert(c.push(x) =~= a);
        assert(d.push(x) =~= b);
        assert(c.to_multiset() =~= a.to_multiset().remove(x));
        assert(d.to_multiset() =~= b.to_multiset().remove(x));
        assert forall|k: int, l: int| 0 <= k < l < c.len() implies !task_before(
            #[trigger] c[l],
            #[trigger] c[k],
        ) by {
            assert(c[k] == a[k] && c[l] == a[l]);
        }
        assert forall|k: int, l: int| 0 <= k < l < d.len() implies !task_before(
            #[trigger] d[l],
            #[trigger] d[k],
        ) by {
            assert(d[k] == b[k] && d[l] == b[l]);
        }
        assert forall|k: int, l: int|
            0 <= k < c.len() && 0 <= l < c.len() && k != l implies (#[trigger] c[k]).name@ != (
        #[trigger] c[l]).name@ by {
            assert(c[k] == a[k] && c[l] == a[l]);
        }
        lemma_one_order(c, d);
    } else {
        assert(a =~= b);
    }
}

/// Distinct names stay distinct when the attempts are put in order.
proof fn lemma_sorted_names_are_distinct(tasks: Seq<Task>)
    requires
        names_are_distinct(tasks),
    ensures
        names_are_distinct(sorted_tasks(tasks)),
        forall|i: int|
            0 <= i < sorted_tasks(tasks).len() ==> tasks.contains(
                #[trigger] sorted_tasks(tasks)[i],
            ),
    decreases tasks.len(),
{
    if tasks.len() > 0 {
        let before = tasks.drop_last();
        let rest = sorted_tasks(before);
        let task = tasks.last();
        let at = task_position(rest, task);
        let sorted = sorted_tasks(tasks);
        assert forall|i: int, j: int|
            0 <= i < before.len() && 0 <= j < before.len() && i != j implies (
        #[trigger] before[i]).name@ != (#[trigger] before[j]).name@ by {
            assert(before[i] == tasks[i] && before[j] == tasks[j]);
        }
        lemma_sorted_names_are_distinct(before);
        lemma_task_position(rest, task);
        assert forall|k: int| 0 <= k < rest.len() implies tasks.contains(#[trigger] rest[k])
            && rest[k].name@ != task.name@ by {
            assert(before.contains(rest[k]));
            let l = choose|l: int| 0 <= l < before.len() && before[l] == rest[k];
            assert(tasks[l] == rest[k]);
            assert(tasks[tasks.len() - 1] == task);
        }
        assert forall|i: int| 0 <= i < sorted.len() implies tasks.contains(#[trigger] sorted[i]) by {
            if i < at {
                assert(sorted[i] == rest[i]);
            } else if i > at {
                assert(sorted[i] == rest[i - 1]);
            } else {
                assert(sorted[i] == tasks[tasks.len() - 1]);
            }
        }
        assert forall|i: int, j: int|
            0 <= i < sorted.len() && 0 <= j < sorted.len() && i != j implies (
        #[trigger] sorted[i]).name@ != (#[trigger] sorted[j]).name@ by {
            let k = if i < at { i } else { i - 1 };
            let l = if j < at { j } else { j - 1 };
            if i != at {
                assert(sorted[i] == rest[k]);
            }
            if j != at {
                assert(sorted[j] == rest[l]);
            }
        }
    }
}

/// The order in which the rows are given never matters: the same attempts, under
/// distinct names, give the same report, or in any order overflow its totals.
pub proof fn law_the_order_of_rows_does_not_matter<F: Fn(&str) -> String>(
    first: Seq<Task>,
    second: Seq<Task>,
    run: RunMetricsRun,
    logs_for: F,
)
    requires
        first.to_multiset() == second.to_multiset(),
        names_are_distinct(first),
    ensures
        sorted_tasks(first) == sorted_tasks(second),
        report_groups(first) == report_groups(second),
        totals_fit(sorted_tasks(first)) == totals_fit(sorted_tasks(second)),
        forall|response: RunMetricsResponse| #[trigger]
            reports(response, run, sorted_tasks(first), logs_for) <==> reports(
                response,
                run,
                sorted_tasks(second),
                logs_for,
            ),
{
    law_attempts_are_put_in_order(first);
    law_attempts_are_put_in_order(second);
    law_ordering_keeps_the_attempts(first);
    law_ordering_keeps_the_attempts(second);
    lemma_sorted_names_are_distinct(first);
    lemma_one_order(sorted_tasks(first), sorted_tasks(second));
}

} // verus!
