//! Execution metrics of a run: its attempts, grouped by call, and their totals.

use vstd::prelude::*;
use vstd::string::*;

use crate::double::{truncate_product, truncated_product};
use crate::json::{Json, JsonNumber};
use crate::status::{RunStatus, TaskStatus};
use crate::text::{
    comes_before, last_occurrence, occurs_at, occurs_in, opt_view, suffix_from, text_before,
};
use crate::time::{millis_between, Timestamp};
use crate::uuid::Uuid;

verus! {

/// Summary of the run a metrics report describes.
#[derive(Debug)]
pub struct RunMetricsRun {
    /// Unique identifier of the run.
    pub uuid: Uuid,
    /// Name of the run.
    pub name: String,
    /// Current status of the run.
    pub status: RunStatus,
    /// Wall time of the run in milliseconds, from start to completion.
    ///
    /// `None` until the run has both started and reached a terminal status.
    pub wall_time_ms: Option<i64>,
    /// The name of the execution backend the run executed on.
    ///
    /// `None` for runs recorded before backends were tracked or that never
    /// began execution.
    pub backend: Option<String>,
    /// The version of the program that produced this report.
    pub sprocket_version: String,
    /// The bytes transferred while localizing inputs and delocalizing
    /// outputs.
    ///
    /// `None` when no transfers were recorded.
    pub transfer: Option<TransferTotals>,
}

/// Metrics for a single execution attempt of a call.
#[derive(Debug)]
pub struct TaskAttemptMetrics {
    /// The unique name of the attempt.
    pub name: String,
    /// The 0-based attempt number within the call.
    ///
    /// Backend-local resubmissions (names carrying a `~{n}` suffix) share the
    /// attempt number of the execution they resubmit.
    pub attempt: i64,
    /// The status of the attempt.
    pub status: TaskStatus,
    /// The exit status of the attempt, if it completed execution.
    pub exit_status: Option<i32>,
    /// Wall time of the attempt in milliseconds, from execution start to
    /// completion.
    ///
    /// `None` until the attempt has both started and reached a terminal
    /// status.
    pub wall_time_ms: Option<i64>,
    /// Time spent between the attempt's creation and the start of its
    /// execution, in milliseconds.
    ///
    /// This covers evaluation, input localization, and backend queueing.
    /// `None` until the attempt starts executing.
    pub queued_ms: Option<i64>,
    /// Time spent waiting in the backend's scheduler queue, in milliseconds:
    /// from submission to the backend until execution starts.
    ///
    /// `None` until the attempt starts executing, or for attempts recorded
    /// before submission times were tracked.
    pub pending_ms: Option<i64>,
    /// The allocated CPU time for the attempt, in core-milliseconds.
    ///
    /// This is the allocated CPU count multiplied by the attempt's execution
    /// wall time, reflecting what was reserved rather than what was consumed.
    /// `None` until the attempt completes or when its constraints were not
    /// recorded.
    pub allocated_cpu_time_ms: Option<i64>,
    /// The resolved execution constraints for the attempt (container, cpu,
    /// memory, gpu, fpga, disks).
    ///
    /// `None` when the attempt never reached a backend (e.g. served from the
    /// call cache).
    pub constraints: Option<Json>,
    /// Why the attempt was retried.
    ///
    /// `None` when the attempt was not retried.
    pub retry_cause: Option<Json>,
    /// The resource utilization observed for the attempt (resident memory,
    /// CPU time).
    pub utilization: Option<Json>,
    /// A reference to the attempt's logs.
    pub logs: String,
}

/// Metrics for every execution attempt of a single call.
#[derive(Debug)]
pub struct CallMetrics {
    /// The stable call path shared by every attempt of this call.
    ///
    /// This is unique within the run: calls made inside subworkflows are
    /// qualified by their call path, with levels joined by `--`. Falls back
    /// to the attempt name for tasks recorded without attempt attribution.
    pub call_id: String,
    /// The short display form of the call's identifier: the final level of
    /// the call path.
    ///
    /// Unlike the call id, this is not necessarily unique within the run.
    pub name: String,
    /// The execution attempts of this call, ordered by attempt number and
    /// creation time.
    pub attempts: Vec<TaskAttemptMetrics>,
}

/// Totals across every execution attempt of a run.
#[derive(Clone, Copy, Debug, PartialEq, Eq, Structural)]
pub struct RunMetricsTotals {
    /// The total number of execution attempts.
    pub attempts: i64,
    /// The number of attempts that were retried.
    pub retries: i64,
    /// The number of attempts served from the call cache.
    pub cached: i64,
    /// The number of attempts that were preempted.
    pub preempted: i64,
    /// The total allocated CPU time across all attempts, in
    /// core-milliseconds.
    ///
    /// This is the sum over attempts of the allocated CPU count multiplied by
    /// the attempt's execution wall time, including retried and failed
    /// attempts, reflecting what was reserved rather than what was consumed.
    pub allocated_cpu_time_ms: i64,
    /// The total execution wall time of preempted attempts, in milliseconds.
    ///
    /// This is the time wasted to preemption: work that was performed and
    /// then lost.
    pub preemption_wasted_ms: i64,
}

impl Default for RunMetricsTotals {
    fn default() -> (r: Self)
        ensures
            r == (RunMetricsTotals {
                attempts: 0,
                retries: 0,
                cached: 0,
                preempted: 0,
                allocated_cpu_time_ms: 0,
                preemption_wasted_ms: 0,
            }),
    {
        RunMetricsTotals {
            attempts: 0,
            retries: 0,
            cached: 0,
            preempted: 0,
            allocated_cpu_time_ms: 0,
            preemption_wasted_ms: 0,
        }
    }
}

/// The bytes transferred while localizing inputs and delocalizing outputs.
///
/// This is a proxy for data movement (e.g. reviewing that egress stays at
/// zero), not a billing figure: it counts successful transfers whose size was
/// known when the transfer started.
#[derive(Clone, Copy, Debug, PartialEq, Eq, Structural)]
pub struct TransferTotals {
    /// The total bytes downloaded, in bytes.
    pub downloaded_bytes: u64,
    /// The total bytes uploaded, in bytes.
    pub uploaded_bytes: u64,
}

impl Default for TransferTotals {
    fn default() -> (r: Self)
        ensures
            r == (TransferTotals { downloaded_bytes: 0, uploaded_bytes: 0 }),
    {
        TransferTotals { downloaded_bytes: 0, uploaded_bytes: 0 }
    }
}

/// The response for a run's execution metrics.
#[derive(Debug)]
pub struct RunMetricsResponse {
    /// Summary of the run.
    pub run: RunMetricsRun,
    /// Per-call execution metrics.
    pub calls: Vec<CallMetrics>,
    /// Totals across all attempts.
    pub totals: RunMetricsTotals,
}

/// A recorded execution attempt of a task.
#[derive(Debug)]
pub struct Task {
    /// The unique name of the attempt.
    pub name: String,
    /// The run that the attempt belongs to.
    pub run_uuid: Uuid,
    /// The status of the attempt.
    pub status: TaskStatus,
    /// The exit status, if the attempt completed execution.
    pub exit_status: Option<i32>,
    /// The error, if the attempt failed.
    pub error: Option<String>,
    /// The stable call path shared by every attempt of the same call.
    pub call_id: Option<String>,
    /// The 0-based attempt number within the call.
    pub attempt: i64,
    /// The resolved execution constraints, if the attempt reached a backend.
    pub constraints: Option<Json>,
    /// Why the attempt was retried, if it was.
    pub retry_cause: Option<Json>,
    /// The observed resource utilization, if it was reported.
    pub utilization: Option<Json>,
    /// When the attempt was created.
    pub created_at: Timestamp,
    /// When the attempt was submitted to a backend.
    pub submitted_at: Option<Timestamp>,
    /// When the attempt started executing.
    pub started_at: Option<Timestamp>,
    /// When the attempt reached a terminal status.
    pub completed_at: Option<Timestamp>,
}

/// The final level of a `--`-joined call path.
pub open spec fn short_name(call_id: Seq<char>) -> Seq<char> {
    if occurs_in(call_id, seq!['-', '-']) {
        let at = choose|at: int|
            occurs_at(call_id, seq!['-', '-'], at) && forall|j: int|
                j > at ==> !occurs_at(call_id, seq!['-', '-'], j);
        call_id.skip(at + 2)
    } else {
        call_id
    }
}

/// Derives the short display form of a call identifier: the final level of
/// the `--`-joined call path.
///
/// Identifiers without a level separator (top-level calls and rows recorded
/// before call paths were qualified) are their own short form.
pub fn call_short_name(call_id: &str) -> (r: String)
    ensures
        r@ == short_name(call_id@),
{
    proof {
        reveal_strlit("--");
        assert("--"@ =~= seq!['-', '-']);
    }
    match last_occurrence(call_id, "--") {
        Some(at) => {
            proof {
                assert(occurs_at(call_id@, seq!['-', '-'], at as int));
            }
            suffix_from(call_id, at + 2)
        },
        None => call_id.to_owned(),
    }
}

/// The milliseconds between two optional points in time.
pub open spec fn opt_millis(start: Option<Timestamp>, end: Option<Timestamp>) -> Option<int> {
    match (start, end) {
        (Some(start), Some(end)) => Some(millis_between(start, end)),
        _ => None,
    }
}

/// The mathematical value of an optional integer.
pub open spec fn opt_int(n: Option<i64>) -> Option<int> {
    match n {
        Some(n) => Some(n as int),
        None => None,
    }
}

/// Computes the number of milliseconds between two optional timestamps.
pub fn duration_ms(start: Option<Timestamp>, end: Option<Timestamp>) -> (r: Option<i64>)
    ensures
        opt_int(r) == opt_millis(start, end),
{
    match (start, end) {
        (Some(start), Some(end)) => Some(start.millis_until(&end)),
        _ => None,
    }
}

/// The execution wall time of an attempt.
pub open spec fn wall_time(task: Task) -> Option<int> {
    opt_millis(task.started_at, task.completed_at)
}

/// The CPU count among an attempt's constraints.
pub open spec fn cpu_count(task: Task) -> Option<JsonNumber> {
    match task.constraints {
        Some(constraints) => constraints.number_field("cpu"@),
        None => None,
    }
}

/// The allocated CPU time of an attempt: the allocated CPU count times the
/// execution wall time.
pub open spec fn allocated_cpu_time(task: Task) -> Option<int> {
    match (cpu_count(task), wall_time(task)) {
        (Some(cpu), Some(wall)) => Some(truncated_product(cpu.double_bits, wall)),
        _ => None,
    }
}

/// An optional number, or zero.
pub open spec fn or_zero(n: Option<int>) -> int {
    match n {
        Some(n) => n,
        None => 0,
    }
}

/// The identifier under which an attempt is grouped.
pub open spec fn task_call_id(task: Task) -> Seq<char> {
    match task.call_id {
        Some(call_id) => call_id@,
        None => task.name@,
    }
}

/// The order of attempts: by attempt number, then creation time, then name.
pub open spec fn task_before(a: Task, b: Task) -> bool {
    if a.attempt != b.attempt {
        a.attempt < b.attempt
    } else if a.created_at != b.created_at {
        a.created_at.before(b.created_at)
    } else {
        text_before(a.name@, b.name@)
    }
}

/// Where an attempt goes among ordered ones: after every one that it does not
/// come before.
pub open spec fn task_position(sorted: Seq<Task>, task: Task) -> int
    decreases sorted.len(),
{
    if sorted.len() > 0 && task_before(task, sorted.last()) {
        task_position(sorted.drop_last(), task)
    } else {
        sorted.len() as int
    }
}

/// The attempts in order; equals stay in the order in which they were given.
pub open spec fn sorted_tasks(tasks: Seq<Task>) -> Seq<Task>
    decreases tasks.len(),
{
    if tasks.len() == 0 {
        Seq::empty()
    } else {
        let rest = sorted_tasks(tasks.drop_last());
        rest.insert(task_position(rest, tasks.last()), tasks.last())
    }
}

/// The attempts of one call.
pub struct CallGroup {
    /// The identifier of the call.
    pub call_id: Seq<char>,
    /// The attempts of the call, in order.
    pub tasks: Seq<Task>,
}

/// The position of the call `call_id` among `groups`, or their number.
pub open spec fn group_position(groups: Seq<CallGroup>, call_id: Seq<char>) -> int
    decreases groups.len(),
{
    if groups.len() == 0 {
        0
    } else if groups[0].call_id == call_id {
        0
    } else {
        1 + group_position(groups.drop_first(), call_id)
    }
}

/// `groups` with one more attempt.
pub open spec fn with_task(groups: Seq<CallGroup>, task: Task) -> Seq<CallGroup> {
    let at = group_position(groups, task_call_id(task));
    if at < groups.len() {
        groups.update(
            at,
            CallGroup { call_id: groups[at].call_id, tasks: groups[at].tasks.push(task) },
        )
    } else {
        groups.push(CallGroup { call_id: task_call_id(task), tasks: seq![task] })
    }
}

/// The attempts grouped by call, in the order in which the calls first occur.
pub open spec fn grouped(tasks: Seq<Task>) -> Seq<CallGroup>
    decreases tasks.len(),
{
    if tasks.len() == 0 {
        Seq::empty()
    } else {
        with_task(grouped(tasks.drop_last()), tasks.last())
    }
}

/// Where a call goes among ordered ones: after every one whose first attempt
/// was not created later.
pub open spec fn group_slot(sorted: Seq<CallGroup>, group: CallGroup) -> int
    decreases sorted.len(),
{
    if sorted.len() > 0 && group.tasks[0].created_at.before(sorted.last().tasks[0].created_at) {
        group_slot(sorted.drop_last(), group)
    } else {
        sorted.len() as int
    }
}

/// The calls in the order of the creation of their first attempt.
pub open spec fn ordered_groups(groups: Seq<CallGroup>) -> Seq<CallGroup>
    decreases groups.len(),
{
    if groups.len() == 0 {
        Seq::empty()
    } else {
        let rest = ordered_groups(groups.drop_last());
        rest.insert(group_slot(rest, groups.last()), groups.last())
    }
}

/// The calls of a report on the given attempts.
pub open spec fn report_groups(tasks: Seq<Task>) -> Seq<CallGroup> {
    ordered_groups(grouped(sorted_tasks(tasks)))
}

/// How many of the attempts were retried.
pub open spec fn count_retries(tasks: Seq<Task>) -> nat
    decreases tasks.len(),
{
    if tasks.len() == 0 {
        0
    } else {
        count_retries(tasks.drop_last()) + if tasks.last().retry_cause is Some {
            1nat
        } else {
            0nat
        }
    }
}

/// How many of the attempts have the given status.
pub open spec fn count_status(tasks: Seq<Task>, status: TaskStatus) -> nat
    decreases tasks.len(),
{
    if tasks.len() == 0 {
        0
    } else {
        count_status(tasks.drop_last(), status) + if tasks.last().status == status {
            1nat
        } else {
            0nat
        }
    }
}

/// The allocated CPU time of all attempts.
pub open spec fn sum_allocated(tasks: Seq<Task>) -> int
    decreases tasks.len(),
{
    if tasks.len() == 0 {
        0
    } else {
        sum_allocated(tasks.drop_last()) + or_zero(allocated_cpu_time(tasks.last()))
    }
}

/// The wall time of the preempted attempts.
pub open spec fn sum_wasted(tasks: Seq<Task>) -> int
    decreases tasks.len(),
{
    if tasks.len() == 0 {
        0
    } else {
        sum_wasted(tasks.drop_last()) + if tasks.last().status == TaskStatus::Preempted {
            or_zero(wall_time(tasks.last()))
        } else {
            0
        }
    }
}

/// Whether a sum fits the type of a total.
pub open spec fn fits(n: int) -> bool {
    i64::MIN <= n <= i64::MAX
}

/// Whether the sums over the first `k` attempts fit the type of a total.
pub open spec fn prefix_fits(tasks: Seq<Task>, k: int) -> bool {
    fits(sum_allocated(tasks.take(k))) && fits(sum_wasted(tasks.take(k)))
}

/// Whether the totals can be summed up over the attempts, in this order.
pub open spec fn totals_fit(tasks: Seq<Task>) -> bool {
    &&& tasks.len() <= i64::MAX
    &&& forall|k: int| 0 <= k <= tasks.len() ==> #[trigger] prefix_fits(tasks, k)
}

/// The totals over the attempts.
pub open spec fn totals_match(totals: RunMetricsTotals, tasks: Seq<Task>) -> bool {
    &&& totals.attempts == tasks.len()
    &&& totals.retries == count_retries(tasks)
    &&& totals.cached == count_status(tasks, TaskStatus::Cached)
    &&& totals.preempted == count_status(tasks, TaskStatus::Preempted)
    &&& totals.allocated_cpu_time_ms == sum_allocated(tasks)
    &&& totals.preemption_wasted_ms == sum_wasted(tasks)
}

/// Whether `attempt` reports `task`, except for its log reference.
pub open spec fn attempt_matches(attempt: TaskAttemptMetrics, task: Task) -> bool {
    &&& attempt.name@ == task.name@
    &&& attempt.attempt == task.attempt
    &&& attempt.status == task.status
    &&& attempt.exit_status == task.exit_status
    &&& opt_int(attempt.wall_time_ms) == wall_time(task)
    &&& opt_int(attempt.queued_ms) == opt_millis(Some(task.created_at), task.started_at)
    &&& opt_int(attempt.pending_ms) == opt_millis(task.submitted_at, task.started_at)
    &&& opt_int(attempt.allocated_cpu_time_ms) == allocated_cpu_time(task)
    &&& attempt.constraints == task.constraints
    &&& attempt.retry_cause == task.retry_cause
    &&& attempt.utilization == task.utilization
}

/// Whether `call` reports `group`, except for the log references.
pub open spec fn call_matches(call: CallMetrics, group: CallGroup) -> bool {
    &&& call.call_id@ == group.call_id
    &&& call.name@ == short_name(group.call_id)
    &&& call.attempts@.len() == group.tasks.len()
    &&& forall|j: int|
        0 <= j < group.tasks.len() ==> attempt_matches(
            #[trigger] call.attempts@[j],
            group.tasks[j],
        )
}

/// Whether `calls` report `groups`, except for the log references.
pub open spec fn calls_match(calls: Seq<CallMetrics>, groups: Seq<CallGroup>) -> bool {
    &&& calls.len() == groups.len()
    &&& forall|i: int| 0 <= i < groups.len() ==> call_matches(#[trigger] calls[i], groups[i])
}

/// Whether `created` holds the creation time of each call's first attempt.
spec fn created_match(created: Seq<Timestamp>, groups: Seq<CallGroup>) -> bool {
    &&& created.len() == groups.len()
    &&& forall|i: int|
        #![trigger created[i]]
        #![trigger groups[i]]
        0 <= i < groups.len() ==> groups[i].tasks.len() > 0 && created[i]
            == groups[i].tasks[0].created_at
}

/// Whether one attempt comes before another.
fn precedes(a: &Task, b: &Task) -> (r: bool)
    ensures
        r == task_before(*a, *b),
{
    if a.attempt != b.attempt {
        a.attempt < b.attempt
    } else if a.created_at != b.created_at {
        a.created_at.is_before(&b.created_at)
    } else {
        comes_before(a.name.as_str(), b.name.as_str())
    }
}

/// Puts attempts in order: by attempt number, then creation time, then name.
pub fn sort_tasks(tasks: Vec<Task>) -> (r: Vec<Task>)
    ensures
        r@ == sorted_tasks(tasks@),
{
    let mut sorted: Vec<Task> = Vec::new();
    let ghost all = tasks@;
    for task in it: tasks
        invariant
            it.seq() == all,
            sorted@ == sorted_tasks(all.take(it.index())),
    {
        let mut at: usize = sorted.len();
        proof {
            assert(sorted@.take(at as int) =~= sorted@);
        }
        while at > 0 && precedes(&task, &sorted[at - 1])
            invariant
                at <= sorted.len(),
                task_position(sorted@, task) == task_position(sorted@.take(at as int), task),
            decreases at,
        {
            proof {
                assert(sorted@.take(at as int).drop_last() =~= sorted@.take(at - 1));
                assert(sorted@.take(at as int).last() == sorted@[at - 1]);
            }
            at = at - 1;
        }
        proof {
            if at > 0 {
                assert(sorted@.take(at as int).last() == sorted@[at - 1]);
            }
            assert(task_position(sorted@, task) == at);
            let next = all.take(it.index() + 1);
            assert(next.drop_last() =~= all.take(it.index()));
            assert(next.last() == task);
        }
        sorted.insert(at, task);
    }
    proof {
        assert(all.take(all.len() as int) =~= all);
    }
    sorted
}

/// Whether `logs` is what `logs_for` gives for the attempt `name`.
pub open spec fn refers_to_logs<F: Fn(&str) -> String>(
    logs_for: F,
    name: Seq<char>,
    logs: String,
) -> bool {
    exists|arg: &str| arg@ == name && #[trigger] call_ensures(logs_for, (arg,), logs)
}

/// Whether the log references of a call come from `logs_for`.
pub open spec fn call_refers_to_logs<F: Fn(&str) -> String>(logs_for: F, call: CallMetrics) -> bool {
    forall|j: int|
        0 <= j < call.attempts@.len() ==> refers_to_logs(
            logs_for,
            (#[trigger] call.attempts@[j]).name@,
            call.attempts@[j].logs,
        )
}

/// The allocated CPU time of an attempt.
///
/// This reflects what was reserved rather than what was consumed: the
/// allocated CPU count times the execution wall time.
fn allocated_cpu_time_ms(task: &Task, wall_time_ms: Option<i64>) -> (r: Option<i64>)
    requires
        opt_int(wall_time_ms) == wall_time(*task),
    ensures
        opt_int(r) == allocated_cpu_time(*task),
{
    match (&task.constraints, wall_time_ms) {
        (Some(constraints), Some(wall)) => match constraints.get_number("cpu") {
            Some(cpu) => Some(truncate_product(cpu.double_bits, wall)),
            None => None,
        },
        _ => None,
    }
}

/// The identifier under which an attempt is grouped.
fn group_id(task: &Task) -> (r: String)
    ensures
        r@ == task_call_id(*task),
{
    match &task.call_id {
        Some(call_id) => call_id.clone(),
        None => task.name.clone(),
    }
}

/// Reports a single attempt.
fn attempt_metrics(task: Task, logs: String) -> (r: TaskAttemptMetrics)
    ensures
        attempt_matches(r, task),
        r.logs == logs,
{
    let wall_time_ms = duration_ms(task.started_at, task.completed_at);
    let allocated_cpu_time_ms = allocated_cpu_time_ms(&task, wall_time_ms);
    TaskAttemptMetrics {
        logs,
        name: task.name,
        attempt: task.attempt,
        status: task.status,
        exit_status: task.exit_status,
        wall_time_ms,
        queued_ms: duration_ms(Some(task.created_at), task.started_at),
        pending_ms: duration_ms(task.submitted_at, task.started_at),
        allocated_cpu_time_ms,
        constraints: task.constraints,
        retry_cause: task.retry_cause,
        utilization: task.utilization,
    }
}

/// Finds the position of a call; the number of calls if there is none.
fn find_call(calls: &Vec<CallMetrics>, call_id: &String, groups: Ghost<Seq<CallGroup>>) -> (r:
    usize)
    requires
        calls_match(calls@, groups@),
    ensures
        r == group_position(groups@, call_id@),
        r <= calls@.len(),
{
    let mut i: usize = 0;
    proof {
        assert(groups@.skip(0) =~= groups@);
    }
    while i < calls.len()
        invariant
            calls_match(calls@, groups@),
            i <= calls.len(),
            group_position(groups@, call_id@) == i + group_position(
                groups@.skip(i as int),
                call_id@,
            ),
        decreases calls.len() - i,
    {
        proof {
            assert(call_matches(calls@[i as int], groups@[i as int]));
            assert(groups@.skip(i as int).drop_first() =~= groups@.skip(i + 1));
        }
        if calls[i].call_id == *call_id {
            return i;
        }
        i = i + 1;
    }
    i
}

/// Puts calls in the order of the creation of their first attempt.
fn order_calls(
    calls: Vec<CallMetrics>,
    created: Vec<Timestamp>,
    groups: Ghost<Seq<CallGroup>>,
) -> (r: Vec<CallMetrics>)
    requires
        calls_match(calls@, groups@),
        created_match(created@, groups@),
    ensures
        calls_match(r@, ordered_groups(groups@)),
        forall|i: int| 0 <= i < r@.len() ==> calls@.contains(#[trigger] r@[i]),
{
    let ghost all = calls@;
    let mut ordered: Vec<CallMetrics> = Vec::new();
    let mut times: Vec<Timestamp> = Vec::new();
    let mut k: usize = 0;
    for call in it: calls
        invariant
            it.seq() == all,
            k == it.index(),
            calls_match(all, groups@),
            created.len() == groups@.len(),
            created_match(created@, groups@),
            calls_match(ordered@, ordered_groups(groups@.take(k as int))),
            created_match(times@, ordered_groups(groups@.take(k as int))),
            forall|i: int| 0 <= i < ordered@.len() ==> all.contains(#[trigger] ordered@[i]),
    {
        let first: Timestamp = created[k];
        let ghost sorted = ordered_groups(groups@.take(k as int));
        let ghost group = groups@[k as int];
        let mut at: usize = ordered.len();
        proof {
            assert(sorted.take(at as int) =~= sorted);
            assert(call_matches(all[k as int], group));
        }
        while at > 0 && first.is_before(&times[at - 1])
            invariant
                at <= ordered.len(),
                ordered@.len() == sorted.len(),
                created_match(times@, sorted),
                first == group.tasks[0].created_at,
                group_slot(sorted, group) == group_slot(sorted.take(at as int), group),
            decreases at,
        {
            proof {
                assert(sorted.take(at as int).drop_last() =~= sorted.take(at - 1));
                assert(sorted.take(at as int).last() == sorted[at - 1]);
            }
            at = at - 1;
        }
        proof {
            if at > 0 {
                assert(sorted.take(at as int).last() == sorted[at - 1]);
            }
            assert(group_slot(sorted, group) == at);
            let next = groups@.take(k + 1);
            assert(next.drop_last() =~= groups@.take(k as int));
            assert(next.last() == group);
        }
        let ghost before = ordered@;
        let ghost times_before = times@;
        ordered.insert(at, call);
        times.insert(at, first);
        proof {
            let after = ordered_groups(groups@.take(k + 1));
            assert(after == sorted.insert(at as int, group));
            assert(call == all[k as int]);
            assert forall|i: int| 0 <= i < after.len() implies call_matches(
                #[trigger] ordered@[i],
                after[i],
            ) by {
                if i < at {
                    assert(call_matches(before[i], sorted[i]));
                } else if i > at {
                    assert(call_matches(before[i - 1], sorted[i - 1]));
                }
            }
            assert(created@[k as int] == first);
            assert forall|i: int| 0 <= i < after.len() implies (#[trigger] after[i]).tasks.len() > 0
                && times@[i] == after[i].tasks[0].created_at by {
                if i < at {
                    assert(times_before[i] == sorted[i].tasks[0].created_at);
                } else if i > at {
                    assert(times_before[i - 1] == sorted[i - 1].tasks[0].created_at);
                }
            }
            assert forall|i: int| 0 <= i < ordered@.len() implies all.contains(
                #[trigger] ordered@[i],
            ) by {
                if i < at {
                    assert(all.contains(before[i]));
                } else if i > at {
                    assert(all.contains(before[i - 1]));
                }
            }
        }
        k = k + 1;
    }
    proof {
        assert(groups@.take(groups@.len() as int) =~= groups@);
    }
    ordered
}

/// Whether a response reports the attempts of a run, which are given in order,
/// except for the log references.
pub open spec fn summarizes(
    response: RunMetricsResponse,
    run: RunMetricsRun,
    sorted: Seq<Task>,
) -> bool {
    &&& response.run == run
    &&& calls_match(response.calls@, ordered_groups(grouped(sorted)))
    &&& totals_match(response.totals, sorted)
}

/// Whether a response reports the attempts of a run, which are given in order.
pub open spec fn reports<F: Fn(&str) -> String>(
    response: RunMetricsResponse,
    run: RunMetricsRun,
    sorted: Seq<Task>,
    logs_for: F,
) -> bool {
    &&& summarizes(response, run, sorted)
    &&& forall|i: int|
        0 <= i < response.calls@.len() ==> call_refers_to_logs(
            logs_for,
            #[trigger] response.calls@[i],
        )
}

/// Reports attempts that are in order.
fn report_sorted<F: Fn(&str) -> String>(run: RunMetricsRun, tasks: Vec<Task>, logs_for: F) -> (r:
    RunMetricsResponse)
    requires
        totals_fit(tasks@),
        forall|arg: &str| call_requires(logs_for, (arg,)),
    ensures
        reports(r, run, tasks@, logs_for),
{
    let ghost all = tasks@;
    proof {
        assert(all.take(0) =~= Seq::<Task>::empty());
    }
    let mut totals: RunMetricsTotals = RunMetricsTotals::default();
    totals.attempts = tasks.len() as i64;
    // Attempts grouped by call id, and the creation time of each call's first
    // attempt.
    let mut calls: Vec<CallMetrics> = Vec::new();
    let mut created: Vec<Timestamp> = Vec::new();
    for task in it: tasks
        invariant
            it.seq() == all,
            totals_fit(all),
            forall|arg: &str| call_requires(logs_for, (arg,)),
            calls_match(calls@, grouped(all.take(it.index()))),
            created_match(created@, grouped(all.take(it.index()))),
            forall|i: int|
                0 <= i < calls@.len() ==> call_refers_to_logs(logs_for, #[trigger] calls@[i]),
            totals.attempts == all.len(),
            totals.retries == count_retries(all.take(it.index())),
            totals.cached == count_status(all.take(it.index()), TaskStatus::Cached),
            totals.preempted == count_status(all.take(it.index()), TaskStatus::Preempted),
            totals.allocated_cpu_time_ms == sum_allocated(all.take(it.index())),
            totals.preemption_wasted_ms == sum_wasted(all.take(it.index())),
            totals.retries <= it.index(),
            totals.cached <= it.index(),
            totals.preempted <= it.index(),
    {
        let ghost done = all.take(it.index());
        let ghost next = all.take(it.index() + 1);
        let ghost groups = grouped(done);
        let ghost row = task;
        proof {
            assert(next.drop_last() =~= done);
            assert(next.last() == task);
            assert(prefix_fits(all, it.index() + 1));
        }
        let wall_time_ms = duration_ms(task.started_at, task.completed_at);
        match task.status {
            TaskStatus::Cached => {
                totals.cached = totals.cached + 1;
            },
            TaskStatus::Preempted => {
                totals.preempted = totals.preempted + 1;
                // Time wasted to preemption: work performed and then lost.
                totals.preemption_wasted_ms = totals.preemption_wasted_ms + wall_time_ms.unwrap_or(
                    0,
                );
            },
            _ => {},
        }
        if task.retry_cause.is_some() {
            totals.retries = totals.retries + 1;
        }
        let allocated = allocated_cpu_time_ms(&task, wall_time_ms);
        totals.allocated_cpu_time_ms = totals.allocated_cpu_time_ms + allocated.unwrap_or(0);
        let call_id = group_id(&task);
        let created_at: Timestamp = task.created_at;
        let logs = logs_for(task.name.as_str());
        let attempt = attempt_metrics(task, logs);
        assert(refers_to_logs(logs_for, attempt.name@, attempt.logs));
        let at: usize = find_call(&calls, &call_id, Ghost(groups));
        let ghost before = calls@;
        let ghost created_before = created@;
        if at < calls.len() {
            calls[at].attempts.push(attempt);
        } else {
            let name = call_short_name(call_id.as_str());
            let mut attempts: Vec<TaskAttemptMetrics> = Vec::new();
            attempts.push(attempt);
            calls.push(CallMetrics { call_id, name, attempts });
            created.push(created_at);
        }
        proof {
            let after = grouped(next);
            assert(after == with_task(groups, row));
            assert forall|i: int| 0 <= i < after.len() implies call_matches(
                #[trigger] calls@[i],
                after[i],
            ) by {
                if i < before.len() {
                    assert(call_matches(before[i], groups[i]));
                }
            }
            assert forall|i: int| 0 <= i < after.len() implies (#[trigger] after[i]).tasks.len() > 0
                && created@[i] == after[i].tasks[0].created_at by {
                if i < before.len() {
                    assert(created_before[i] == groups[i].tasks[0].created_at);
                }
            }
            assert forall|i: int| 0 <= i < calls@.len() implies call_refers_to_logs(
                logs_for,
                #[trigger] calls@[i],
            ) by {
                if i < before.len() {
                    assert(call_refers_to_logs(logs_for, before[i]));
                }
            }
        }
    }
    proof {
        assert(all.take(all.len() as int) =~= all);
    }
    let ghost unordered = calls@;
    let calls = order_calls(calls, created, Ghost(grouped(all)));
    proof {
        assert forall|i: int| 0 <= i < calls@.len() implies call_refers_to_logs(
            logs_for,
            #[trigger] calls@[i],
        ) by {
            assert(unordered.contains(calls@[i]));
        }
    }
    RunMetricsResponse { run, calls, totals }
}

/// Builds a metrics response from a run summary and its task rows.
///
/// Tasks are grouped by call id (falling back to the task name for rows
/// recorded without one), calls are ordered by the creation time of their
/// first attempt, and attempts within a call are ordered by attempt number and
/// creation time.
pub fn build_run_metrics<F: Fn(&str) -> String>(
    run: RunMetricsRun,
    tasks: Vec<Task>,
    logs_for: F,
) -> (r: RunMetricsResponse)
    requires
        totals_fit(sorted_tasks(tasks@)),
        forall|arg: &str| call_requires(logs_for, (arg,)),
    ensures
        reports(r, run, sorted_tasks(tasks@), logs_for),
{
    report_sorted(run, sort_tasks(tasks), logs_for)
}

/// Builds a metrics response, unless a total over the tasks overflows.
pub fn checked_build_run_metrics<F: Fn(&str) -> String>(
    run: RunMetricsRun,
    tasks: Vec<Task>,
    logs_for: F,
) -> (r: Option<RunMetricsResponse>)
    requires
        forall|arg: &str| call_requires(logs_for, (arg,)),
    ensures
        match r {
            Some(response) => totals_fit(sorted_tasks(tasks@)) && reports(
                response,
                run,
                sorted_tasks(tasks@),
                logs_for,
            ),
            None => !totals_fit(sorted_tasks(tasks@)),
        },
{
    let sorted = sort_tasks(tasks);
    if sums_fit(&sorted) {
        Some(report_sorted(run, sorted, logs_for))
    } else {
        None
    }
}

/// Tests whether the totals can be summed up over the attempts, in this order.
fn sums_fit(tasks: &Vec<Task>) -> (r: bool)
    ensures
        r == totals_fit(tasks@),
{
    if tasks.len() as u64 > i64::MAX as u64 {
        return false;
    }
    let mut allocated: i64 = 0;
    let mut wasted: i64 = 0;
    let mut i: usize = 0;
    proof {
        assert(tasks@.take(0) =~= Seq::<Task>::empty());
    }
    while i < tasks.len()
        invariant
            i <= tasks.len(),
            tasks@.len() <= i64::MAX,
            allocated == sum_allocated(tasks@.take(i as int)),
            wasted == sum_wasted(tasks@.take(i as int)),
            forall|k: int| 0 <= k <= i ==> #[trigger] prefix_fits(tasks@, k),
        decreases tasks.len() - i,
    {
        let task = &tasks[i];
        let wall_time_ms = duration_ms(task.started_at, task.completed_at);
        let more_allocated: i64 = allocated_cpu_time_ms(task, wall_time_ms).unwrap_or(0);
        let more_wasted: i64 = if task.status == TaskStatus::Preempted {
            wall_time_ms.unwrap_or(0)
        } else {
            0
        };
        proof {
            let next = tasks@.take(i + 1);
            assert(next.drop_last() =~= tasks@.take(i as int));
            assert(next.last() == *task);
            assert(sum_allocated(next) == allocated + more_allocated);
            assert(sum_wasted(next) == wasted + more_wasted);
        }
        match (allocated.checked_add(more_allocated), wasted.checked_add(more_wasted)) {
            (Some(next_allocated), Some(next_wasted)) => {
                allocated = next_allocated;
                wasted = next_wasted;
            },
            _ => {
                proof {
                    assert(!prefix_fits(tasks@, i + 1));
                }
                return false;
            },
        }
        i = i + 1;
    }
    true
}

/// Whether `run` summarizes the record of a run.
pub open spec fn is_run_summary(
    run: RunMetricsRun,
    uuid: Uuid,
    name: Seq<char>,
    status: RunStatus,
    started_at: Option<Timestamp>,
    completed_at: Option<Timestamp>,
    backend: Option<Seq<char>>,
    version: Seq<char>,
    transfer: Option<TransferTotals>,
) -> bool {
    &&& run.uuid == uuid
    &&& run.name@ == name
    &&& run.status == status
    &&& opt_int(run.wall_time_ms) == opt_millis(started_at, completed_at)
    &&& opt_view(run.backend) == backend
    &&& run.sprocket_version@ == version
    &&& run.transfer == transfer
}

/// Summarizes a run from its record.
///
/// `version` is the version of the program that produces the report.
pub fn run_summary(
    uuid: Uuid,
    name: String,
    status: RunStatus,
    started_at: Option<Timestamp>,
    completed_at: Option<Timestamp>,
    backend: Option<String>,
    version: String,
    transfer: Option<TransferTotals>,
) -> (r: RunMetricsRun)
    ensures
        r.uuid == uuid,
        r.name@ == name@,
        r.status == status,
        opt_int(r.wall_time_ms) == opt_millis(started_at, completed_at),
        opt_view(r.backend) == opt_view(backend),
        r.sprocket_version@ == version@,
        r.transfer == transfer,
        is_run_summary(
            r,
            uuid,
            name@,
            status,
            started_at,
            completed_at,
            opt_view(backend),
            version@,
            transfer,
        ),
{
    RunMetricsRun {
        uuid,
        name,
        status,
        wall_time_ms: duration_ms(started_at, completed_at),
        backend,
        sprocket_version: version,
        transfer,
    }
}

/// The page size used when collecting every task of a run.
pub const METRICS_PAGE_SIZE: i64 = 500;

/// How many tasks to skip when `collected` have been collected.
pub open spec fn page_offset(collected: nat) -> int {
    if collected <= i64::MAX {
        collected as int
    } else {
        i64::MAX as int
    }
}

/// Whether no page is left when `collected` of `total` tasks have been collected.
pub open spec fn was_last_page(collected: nat, total: i64) -> bool {
    collected >= total || total == 0
}

/// The tasks of a run, collected page by page.
pub struct TaskPager {
    /// The tasks collected so far.
    pub tasks: Vec<Task>,
}

impl TaskPager {
    /// No task has been collected yet.
    pub fn new() -> (r: Self)
        ensures
            r.tasks@ == Seq::<Task>::empty(),
    {
        TaskPager { tasks: Vec::new() }
    }

    /// The next page to ask for: how many tasks at most, and how many to skip.
    pub fn next_page(&self) -> (r: (i64, i64))
        ensures
            r.0 == METRICS_PAGE_SIZE,
            r.1 == if self.tasks@.len() <= i64::MAX {
                self.tasks@.len() as int
            } else {
                i64::MAX as int
            },
            r.1 == page_offset(self.tasks@.len()),
    {
        let collected: u64 = self.tasks.len() as u64;
        let offset: i64 = if collected <= i64::MAX as u64 {
            collected as i64
        } else {
            i64::MAX
        };
        (METRICS_PAGE_SIZE, offset)
    }

    /// Takes in a page, of a run that has `total` tasks. Returns whether this was
    /// the last page.
    pub fn accept(&mut self, page: Vec<Task>, total: i64) -> (r: bool)
        ensures
            final(self).tasks@ == old(self).tasks@ + page@,
            r == (final(self).tasks@.len() >= total || total == 0),
            r == was_last_page(final(self).tasks@.len(), total),
    {
        let mut page = page;
        self.tasks.append(&mut page);
        total <= 0 || self.tasks.len() as u64 >= total as u64
    }
}

} // verus!
