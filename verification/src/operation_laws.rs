//! What the operations of the library give back and leave behind.

use vstd::prelude::*;

use crate::collector::{
    after_advance, after_crankshaft, after_engine, after_received, all_logs_are_names,
    are_tasks_of, local_run_summary_at, nothing_observed, AttemptRecord, MetricsCollection,
    MetricsCollector, Received,
};
use crate::collector_event_laws::{
    known, law_lookups_find_what_is_known, law_reports_on_attempts_are_collected,
};
use crate::db::{error_text, write_views, Change, DatabaseError, TaskWrite, Write};
use crate::double::{
    gib_tenths, quotient_tenths, tenths_of_gib, tenths_of_quotient, truncate_product,
    truncated_product,
};
use crate::events::{record_attempt, CrankshaftEvent, EngineEvent, ExitCodes};
use crate::json::{Json, JsonNumber, JsonValue};
use crate::lifecycle_laws::{has_ended, law_ranks_follow_the_lifecycle, precedes_status};
use crate::metrics::{
    build_run_metrics, call_short_name, checked_build_run_metrics, duration_ms, reports,
    run_summary, sort_tasks, sorted_tasks, summarizes, totals_fit, CallMetrics,
    RunMetricsResponse, RunMetricsRun, RunMetricsTotals, Task, TaskAttemptMetrics, TaskPager,
    TransferTotals,
};
use crate::metrics_laws::law_totals_count_every_attempt;
use crate::monitor_event_laws::{
    appended, law_created_tasks_are_submitted, law_null_entries_are_left_out, now_watched,
    patch_of, same_setting,
};
use crate::paint::{
    color_name, is_painted, run_color, show, task_color, Color, Palette, Style,
};
use crate::report::{
    attempt_line, call_section, constraints_text, duration_text, format_constraints, format_ms,
    format_retry_cause, format_utilization, is_attempt_line, is_call_section, is_report,
    is_selection, law_plain_reports, metrics, plain_report, render_metrics, retry_cause_text, select_calls,
    utilization_text, Args, Output,
};
use crate::report_laws::{
    law_plain_reports_end_with_the_totals, law_selected_calls_are_filtered,
    law_selections_keep_what_is_asked_for, totals_line,
};
use crate::response_laws::{
    allocation, dashes_at, law_each_attempt_adds_to_the_totals, law_short_names_are_last_levels,
    law_totals_add_up_what_is_listed, listed, one_if, opt_value, or_nothing, span,
};
use crate::retry::{is_lock_error, is_transient_lock_error, parse_i32, parsed_i32, LockRetry};
use crate::status::{run_status_name, status_rank, task_status_name, RunStatus, TaskStatus};
use crate::task_monitor::{
    after_crankshaft_event, after_engine_event, after_step, cancellations, crankshaft_failure,
    done_after, engine_failure, flushed, initially, monitor_error_text, received_failure,
    reconciled, step_flush,
    utilization_patch, Incoming, MonitorError, Reaction, TaskMonitorSvc,
};
use crate::text::{
    align_left, align_right, comes_before, contains, i64_to_text, int_text, join, joined,
    last_occurrence, left_aligned, nat_text, occurs_at, occurs_in, right_aligned, starts_with,
    suffix_from, text_before, two_digit_text, two_digits, u64_to_text,
};
use crate::text_laws::law_texts_begin_with_their_prefixes;
use crate::time::{millis_between, valid_instant, Timestamp};
use crate::uuid::{uuid_text, Uuid};
use crate::value_laws::law_operations_are_attempted_five_times;

verus! {

/// A monitor that is told that a backend created a task, which it does not leave
/// out, appends exactly two writes about that task: its creation as pending, and
/// its submission as of that time. It does so whether or not it knew the task, and
/// reports no failure.
pub proof fn law_monitors_write_submissions(
    monitor: &mut TaskMonitorSvc,
    event: CrankshaftEvent,
    now: Timestamp,
    result: Result<(), MonitorError>,
)
    requires
        call_ensures(TaskMonitorSvc::handle_crankshaft_event_at, (monitor, event, now), result),
        event matches CrankshaftEvent::TaskCreated { name, .. }
            && !old(monitor)@.cleanup_prefix.is_prefix_of(name@),
    ensures
        event matches CrankshaftEvent::TaskCreated { id, name } && {
            &&& appended(
                old(monitor)@,
                final(monitor)@,
                seq![
                    Write {
                        name: name@,
                        change: Change::Create {
                            run_id: old(monitor)@.run_id,
                            status: TaskStatus::Pending,
                            call_id: None,
                            attempt: 0,
                        },
                    },
                    Write { name: name@, change: Change::Pending(now) },
                ],
            )
            &&& final(monitor)@.names == old(monitor)@.names.insert(id, name@)
            &&& final(monitor)@.meta == old(monitor)@.meta
            &&& now_watched(old(monitor)@, final(monitor)@, name@)
            &&& same_setting(old(monitor)@, final(monitor)@)
        },
        result is Ok,
{
    law_created_tasks_are_submitted(old(monitor)@, event, now);
}

/// A monitor takes in each event as such, and reports what could not be
/// serialized.
pub proof fn law_monitors_take_in_events(
    monitor: &mut TaskMonitorSvc,
    backend: CrankshaftEvent,
    engine: EngineEvent,
    now: Timestamp,
    result: Result<(), MonitorError>,
)
    ensures
        call_ensures(TaskMonitorSvc::handle_crankshaft_event_at, (monitor, backend, now), result)
            ==> {
            &&& final(monitor)@ == after_crankshaft_event(old(monitor)@, backend, now)
            &&& result is Err <==> crankshaft_failure(old(monitor)@, backend) is Some
            &&& result matches Err(error) ==> crankshaft_failure(old(monitor)@, backend) == Some(
                error,
            )
        },
        call_ensures(TaskMonitorSvc::handle_engine_event_at, (monitor, engine, now), result) ==> {
            &&& final(monitor)@ == after_engine_event(old(monitor)@, engine, now)
            &&& result is Err <==> engine_failure(engine) is Some
            &&& result matches Err(error) ==> engine_failure(engine) == Some(error)
        },
        call_ensures(TaskMonitorSvc::handle_crankshaft_event_inner, (monitor, backend), result)
            ==> exists|at: Timestamp| final(monitor)@ == #[trigger] after_crankshaft_event(
            old(monitor)@,
            backend,
            at,
        ),
        call_ensures(TaskMonitorSvc::handle_engine_event_inner, (monitor, engine), result)
            ==> exists|at: Timestamp| final(monitor)@ == #[trigger] after_engine_event(
            old(monitor)@,
            engine,
            at,
        ),
        call_ensures(TaskMonitorSvc::handle_crankshaft_event_inner, (monitor, backend), result) ==> {
            &&& result is Err <==> crankshaft_failure(old(monitor)@, backend) is Some
            &&& result matches Err(error) ==> crankshaft_failure(old(monitor)@, backend) == Some(
                error,
            )
        },
        call_ensures(TaskMonitorSvc::handle_engine_event_inner, (monitor, engine), result) ==> {
            &&& result is Err <==> engine_failure(engine) is Some
            &&& result matches Err(error) ==> engine_failure(engine) == Some(error)
        },
{
}

/// A step of a monitor takes in what was received, hands out the writes that are
/// due, and tells of failures and of the end.
pub proof fn law_monitors_step(
    monitor: &mut TaskMonitorSvc,
    incoming: Incoming,
    now: Timestamp,
    reaction: Reaction,
)
    ensures
        call_ensures(TaskMonitorSvc::step_at, (monitor, incoming, now), reaction) ==> {
            &&& final(monitor)@ == after_step(old(monitor)@, incoming, now)
            &&& reaction.flush@.map_values(|write: TaskWrite| write@) == step_flush(
                old(monitor)@,
                incoming,
                now,
            )
            &&& reaction.failure == received_failure(old(monitor)@, incoming)
            &&& reaction.done == done_after(final(monitor)@, incoming)
        },
        call_ensures(TaskMonitorSvc::step, (monitor, incoming), reaction) ==> {
            &&& exists|at: Timestamp|
                final(monitor)@ == #[trigger] after_step(old(monitor)@, incoming, at)
                    && reaction.flush@.map_values(|write: TaskWrite| write@) == step_flush(
                    old(monitor)@,
                    incoming,
                    at,
                )
            &&& reaction.failure == received_failure(old(monitor)@, incoming)
            &&& reaction.done == done_after(final(monitor)@, incoming)
        },
{
    assert(write_views(reaction.flush@) =~= reaction.flush@.map_values(
        |write: TaskWrite| write@,
    ));
}

/// A flush hands out every write that awaits it, in order, and leaves none; the end
/// of a monitor hands out these and then the cancellations of all that it still
/// watches.
pub proof fn law_monitors_hand_out_all_writes(
    monitor: &mut TaskMonitorSvc,
    now: Timestamp,
    writes: Vec<TaskWrite>,
    nothing: (),
)
    ensures
        call_ensures(TaskMonitorSvc::flush, (monitor,), writes) ==> {
            &&& writes@.map_values(|write: TaskWrite| write@) == old(monitor)@.pending
            &&& final(monitor)@ == flushed(old(monitor)@)
        },
        call_ensures(TaskMonitorSvc::reconcile_at, (monitor, now), nothing) ==> final(monitor)@
            == reconciled(old(monitor)@, now),
        call_ensures(TaskMonitorSvc::reconcile, (monitor,), nothing) ==> exists|at: Timestamp|
            final(monitor)@ == #[trigger] reconciled(old(monitor)@, at),
        call_ensures(TaskMonitorSvc::finish_at, (monitor, now), writes) ==> {
            &&& writes@.map_values(|write: TaskWrite| write@) == old(monitor)@.pending
                + cancellations(old(monitor)@.unfinished, now)
            &&& final(monitor)@ == flushed(reconciled(old(monitor)@, now))
        },
        call_ensures(TaskMonitorSvc::finish, (monitor,), writes) ==> exists|at: Timestamp|
            writes@.map_values(|write: TaskWrite| write@) == old(monitor)@.pending
                + #[trigger] cancellations(old(monitor)@.unfinished, at) && final(monitor)@
                == flushed(reconciled(old(monitor)@, at)),
{
    assert(write_views(writes@) =~= writes@.map_values(|write: TaskWrite| write@));
}

/// A new monitor knows nothing, and the patch for a sample leaves out what is null.
pub proof fn law_monitors_are_made(
    run_id: Uuid,
    prefix: String,
    monitor: TaskMonitorSvc,
    usage: &Json,
    patch: String,
)
    ensures
        call_ensures(TaskMonitorSvc::new, (run_id, prefix), monitor) ==> monitor@ == initially(
            run_id,
            prefix@,
        ),
        call_ensures(utilization_patch, (usage,), patch) ==> patch@ == patch_of(*usage),
{
    match usage.value {
        JsonValue::Object(entries) => {
            law_null_entries_are_left_out(entries@);
        },
        _ => {},
    }
}

/// A collector that is told of the utilization of an attempt knows it from then on,
/// whatever it knew of the attempt, and knows nothing else of any attempt that it
/// did not know before.
pub proof fn law_collectors_keep_utilization(
    collector: &mut MetricsCollector,
    event: EngineEvent,
    first: Timestamp,
    second: Timestamp,
    nothing: (),
)
    requires
        call_ensures(
            MetricsCollector::handle_engine_event_at,
            (collector, event, first, second),
            nothing,
        ),
        event is TaskUtilization,
    ensures
        event matches EngineEvent::TaskUtilization { name, utilization } && {
            let before = known(old(collector)@.attempts, name@);
            let after = known(final(collector)@.attempts, name@);
            &&& after is Some && after->0.utilization == utilization
            &&& before is Some ==> {
                &&& after->0.status == before->0.status
                &&& after->0.exit_status == before->0.exit_status
                &&& after->0.call_id == before->0.call_id
                &&& after->0.constraints == before->0.constraints
                &&& after->0.retry_cause == before->0.retry_cause
                &&& after->0.created_at == before->0.created_at
                &&& after->0.started_at == before->0.started_at
                &&& after->0.completed_at == before->0.completed_at
            }
            &&& forall|other: Seq<char>|
                other != name@ ==> #[trigger] known(final(collector)@.attempts, other) == known(
                    old(collector)@.attempts,
                    other,
                )
        },
{
    law_reports_on_attempts_are_collected(old(collector)@, event, first, second);
}

/// A collector takes in each event as such, and hands out what it knows.
pub proof fn law_collectors_take_in_events(
    collector: &mut MetricsCollector,
    backend: CrankshaftEvent,
    engine: EngineEvent,
    name: &str,
    status: TaskStatus,
    first: Timestamp,
    second: Timestamp,
    nothing: (),
)
    ensures
        call_ensures(
            MetricsCollector::handle_engine_event_at,
            (collector, engine, first, second),
            nothing,
        ) ==> final(collector)@ == after_engine(old(collector)@, engine, first, second),
        call_ensures(
            MetricsCollector::handle_crankshaft_event_at,
            (collector, backend, first, second),
            nothing,
        ) ==> final(collector)@ == after_crankshaft(old(collector)@, backend, first, second),
        call_ensures(MetricsCollector::advance_at, (collector, name, status, first), nothing)
            ==> final(collector)@ == after_advance(old(collector)@, name@, status, first),
        call_ensures(MetricsCollector::handle_engine_event, (collector, engine), nothing)
            ==> exists|a: Timestamp, b: Timestamp| final(collector)@ == #[trigger] after_engine(
            old(collector)@,
            engine,
            a,
            b,
        ),
        call_ensures(MetricsCollector::handle_crankshaft_event, (collector, backend), nothing)
            ==> exists|a: Timestamp, b: Timestamp| final(collector)@ == #[trigger] after_crankshaft(
            old(collector)@,
            backend,
            a,
            b,
        ),
        call_ensures(MetricsCollector::advance, (collector, name, status), nothing) ==> exists|
            a: Timestamp,
        | final(collector)@ == #[trigger] after_advance(old(collector)@, name@, status, a),
{
}

/// A collector hands out the record of each attempt that it knows, and makes them
/// the tasks of a run and a response on them.
pub proof fn law_collectors_hand_out_what_they_know(
    collector: MetricsCollector,
    prefix: String,
    new: MetricsCollector,
    name: &str,
    record: Option<&AttemptRecord>,
    uuid: Uuid,
    tasks: Vec<Task>,
    run: RunMetricsRun,
    response: RunMetricsResponse,
    checked: Option<RunMetricsResponse>,
)
    ensures
        call_ensures(MetricsCollector::new, (prefix,), new) ==> new@ == nothing_observed(prefix@),
        call_ensures(MetricsCollector::record, (&collector, name), record) ==> match record {
            Some(record) => known(collector@.attempts, name@) == Some(record@),
            None => known(collector@.attempts, name@) is None,
        },
        call_ensures(MetricsCollector::into_tasks, (collector, uuid), tasks) ==> are_tasks_of(
            tasks@,
            collector@,
            uuid,
        ) && tasks@ == collector.tasks(uuid),
        are_tasks_of(collector.tasks(uuid), collector@, uuid),
        call_ensures(MetricsCollector::into_response, (collector, run), response) ==> summarizes(
            response,
            run,
            sorted_tasks(collector.tasks(run.uuid)),
        ) && all_logs_are_names(response),
        call_ensures(MetricsCollector::checked_into_response, (collector, run), checked) ==> {
            &&& checked is Some <==> totals_fit(sorted_tasks(collector.tasks(run.uuid)))
            &&& checked matches Some(response) ==> summarizes(
                response,
                run,
                sorted_tasks(collector.tasks(run.uuid)),
            ) && all_logs_are_names(response)
        },
{
    law_lookups_find_what_is_known(collector@, name@);
    collector.lemma_tasks(uuid);
}

/// A collection goes on until both channels have closed, and takes in each event
/// that it receives until then.
pub proof fn law_collections_go_on_until_both_channels_close(
    collection: &mut MetricsCollection,
    collector: MetricsCollector,
    new: MetricsCollection,
    received: Received,
    first: Timestamp,
    second: Timestamp,
    goes_on: bool,
)
    ensures
        call_ensures(MetricsCollection::new, (collector,), new) ==> new.collector == collector
            && new.crankshaft_open && new.engine_open,
        call_ensures(
            MetricsCollection::receive_at,
            (collection, received, first, second),
            goes_on,
        ) ==> {
            &&& final(collection).collector@ == after_received(
                old(collection).collector@,
                received,
                first,
                second,
            )
            &&& final(collection).crankshaft_open <==> old(collection).crankshaft_open && !(
            received is CrankshaftClosed)
            &&& final(collection).engine_open <==> old(collection).engine_open && !(
            received is EngineClosed)
            &&& goes_on <==> final(collection).crankshaft_open || final(collection).engine_open
        },
        call_ensures(MetricsCollection::receive, (collection, received), goes_on) ==> {
            &&& exists|a: Timestamp, b: Timestamp|
                final(collection).collector@ == #[trigger] after_received(
                    old(collection).collector@,
                    received,
                    a,
                    b,
                )
            &&& final(collection).crankshaft_open <==> old(collection).crankshaft_open && !(
            received is CrankshaftClosed)
            &&& final(collection).engine_open <==> old(collection).engine_open && !(
            received is EngineClosed)
            &&& goes_on <==> final(collection).crankshaft_open || final(collection).engine_open
        },
{
}

/// The summary of a local run says what it is given, and lasts until it is made.
pub proof fn law_local_summaries_last_until_now(
    run_id: Uuid,
    name: &str,
    status: RunStatus,
    started_at: Timestamp,
    version: &str,
    now: Timestamp,
    run: RunMetricsRun,
)
    requires
        call_ensures(
            local_run_summary_at,
            (run_id, name, status, started_at, version, now),
            run,
        ),
    ensures
        run.uuid == run_id && run.name@ == name@ && run.status == status,
        run.wall_time_ms is Some && run.wall_time_ms->0 == millis_between(started_at, now),
        run.sprocket_version@ == version@,
        run.backend is None && run.transfer is None,
{
}

/// Building a response adds up all attempts that it lists, whatever their status.
pub proof fn law_built_responses_add_up<F: Fn(&str) -> String>(
    run: RunMetricsRun,
    tasks: Vec<Task>,
    logs_for: F,
    response: RunMetricsResponse,
)
    requires
        call_ensures(build_run_metrics::<F>, (run, tasks, logs_for), response),
    ensures
        reports(response, run, sorted_tasks(tasks@), logs_for),
        response.run == run,
        response.totals.attempts == listed(response.calls@).attempts,
        response.totals.attempts == tasks@.len(),
        response.totals.retries == listed(response.calls@).retries,
        response.totals.cached == listed(response.calls@).cached,
        response.totals.preempted == listed(response.calls@).preempted,
        response.totals.allocated_cpu_time_ms == listed(response.calls@).allocated,
        response.totals.preemption_wasted_ms == listed(response.calls@).wasted,
{
    law_totals_add_up_what_is_listed(response, run, sorted_tasks(tasks@));
    law_totals_count_every_attempt(tasks@);
}

/// A response that is built from one attempt more has totals that differ by what
/// that attempt adds, whatever its status.
pub proof fn law_built_responses_grow<F: Fn(&str) -> String>(
    run: RunMetricsRun,
    tasks: Vec<Task>,
    more_tasks: Vec<Task>,
    task: Task,
    logs_for: F,
    response: RunMetricsResponse,
    more: RunMetricsResponse,
)
    requires
        more_tasks@ == tasks@.push(task),
        call_ensures(build_run_metrics::<F>, (run, tasks, logs_for), response),
        call_ensures(build_run_metrics::<F>, (run, more_tasks, logs_for), more),
    ensures
        more.totals.attempts == response.totals.attempts + 1,
        more.totals.retries == response.totals.retries + one_if(task.retry_cause is Some),
        more.totals.cached == response.totals.cached + one_if(task.status is Cached),
        more.totals.preempted == response.totals.preempted + one_if(task.status is Preempted),
        more.totals.allocated_cpu_time_ms == response.totals.allocated_cpu_time_ms + or_nothing(
            allocation(task),
        ),
        task.status is Preempted ==> more.totals.preemption_wasted_ms
            == response.totals.preemption_wasted_ms + or_nothing(
            span(task.started_at, task.completed_at),
        ),
        !(task.status is Preempted) ==> more.totals.preemption_wasted_ms
            == response.totals.preemption_wasted_ms,
{
    law_each_attempt_adds_to_the_totals(response, more, run, tasks@, task);
}

/// A response is built with a test for overflow exactly when no total overflows.
pub proof fn law_checked_responses_are_built<F: Fn(&str) -> String>(
    run: RunMetricsRun,
    tasks: Vec<Task>,
    logs_for: F,
    response: Option<RunMetricsResponse>,
    sorted: Vec<Task>,
)
    ensures
        call_ensures(checked_build_run_metrics::<F>, (run, tasks, logs_for), response) ==> {
            &&& response is Some <==> totals_fit(sorted_tasks(tasks@))
            &&& response matches Some(built) ==> reports(
                built,
                run,
                sorted_tasks(tasks@),
                logs_for,
            )
        },
        call_ensures(sort_tasks, (tasks,), sorted) ==> sorted@ == sorted_tasks(tasks@),
{
}

/// The short name of a call is the last level of its path.
pub proof fn law_short_names_are_cut(call_id: &str, name: String)
    requires
        call_ensures(call_short_name, (call_id,), name),
    ensures
        ({
            let cut = call_id@.len() - name@.len();
            &&& name@.len() <= call_id@.len()
            &&& name@ == call_id@.skip(cut)
            &&& forall|at: int| !(#[trigger] dashes_at(name@, at))
            &&& cut == 0 || (cut >= 2 && dashes_at(call_id@, cut - 2))
            &&& cut > 0 && name@.len() > 0 ==> name@[0] != '-'
        }),
{
    law_short_names_are_last_levels(call_id@);
}

/// The time between two points is given where both are known.
pub proof fn law_durations_need_both_ends(
    start: Option<Timestamp>,
    end: Option<Timestamp>,
    ms: Option<i64>,
)
    requires
        call_ensures(duration_ms, (start, end), ms),
    ensures
        opt_value(ms) == span(start, end),
{
}

/// Summarizing a run gives back what is recorded of it, and how long it lasted
/// where both its start and its completion are known.
pub proof fn law_summaries_give_back_the_record(
    uuid: Uuid,
    name: String,
    status: RunStatus,
    started_at: Option<Timestamp>,
    completed_at: Option<Timestamp>,
    backend: Option<String>,
    version: String,
    transfer: Option<TransferTotals>,
    run: RunMetricsRun,
)
    requires
        call_ensures(
            run_summary,
            (uuid, name, status, started_at, completed_at, backend, version, transfer),
            run,
        ),
    ensures
        run.uuid == uuid && run.name@ == name@ && run.status == status,
        opt_value(run.wall_time_ms) == span(started_at, completed_at),
        run.backend is Some <==> backend is Some,
        backend is Some ==> run.backend->0@ == backend->0@,
        run.sprocket_version@ == version@,
        run.transfer == transfer,
{
}

/// Pages are collected one after another: the next holds up to 500 tasks and follows
/// those that have been collected, and the last is the one with which as many have
/// been collected as there are.
pub proof fn law_pages_are_collected(
    pager: &mut TaskPager,
    reader: &TaskPager,
    new: TaskPager,
    next: (i64, i64),
    page: Vec<Task>,
    total: i64,
    last: bool,
)
    ensures
        call_ensures(TaskPager::new, (), new) ==> new.tasks@.len() == 0,
        call_ensures(TaskPager::next_page, (reader,), next) ==> next.0 == 500 && (
        reader.tasks@.len() <= i64::MAX ==> next.1 == reader.tasks@.len()),
        call_ensures(TaskPager::accept, (pager, page, total), last) ==> {
            &&& final(pager).tasks@ == old(pager).tasks@ + page@
            &&& last <==> old(pager).tasks@.len() + page@.len() >= total
        },
{
}

/// Values by default are zero.
pub proof fn law_totals_begin_at_zero(totals: RunMetricsTotals, transfer: TransferTotals)
    ensures
        call_ensures(RunMetricsTotals::default, (), totals) ==> {
            &&& totals.attempts == 0 && totals.retries == 0
            &&& totals.cached == 0 && totals.preempted == 0
            &&& totals.allocated_cpu_time_ms == 0 && totals.preemption_wasted_ms == 0
        },
        call_ensures(TransferTotals::default, (), transfer) ==> transfer.downloaded_bytes == 0
            && transfer.uploaded_bytes == 0,
{
}

/// A report that is rendered without colours ends with the totals: how many attempts
/// there were, and how many of them were retried, cached and preempted.
pub proof fn law_rendered_reports_end_with_the_totals(
    body: &RunMetricsResponse,
    palette: &Palette,
    text: String,
)
    requires
        call_ensures(render_metrics, (body, palette, false), text),
    ensures
        text@ == plain_report(*body),
        exists|head: Seq<char>|
            text@ == #[trigger] (head + totals_line(
                body.totals,
                int_text(body.totals.retries as int) + " retried"@,
            )),
{
    law_plain_reports(*body, *palette, text@);
    law_plain_reports_end_with_the_totals(*body, *body);
}

/// Reports that are rendered without colours on responses that differ in their
/// totals alone are alike up to the last line.
pub proof fn law_rendered_reports_differ_in_the_last_line(
    a: &RunMetricsResponse,
    b: &RunMetricsResponse,
    palette: &Palette,
    first: String,
    second: String,
)
    requires
        call_ensures(render_metrics, (a, palette, false), first),
        call_ensures(render_metrics, (b, palette, false), second),
        a.run == b.run,
        a.calls == b.calls,
    ensures
        exists|head: Seq<char>|
            {
                &&& first@ == #[trigger] (head + totals_line(
                    a.totals,
                    int_text(a.totals.retries as int) + " retried"@,
                ))
                &&& second@ == head + totals_line(
                    b.totals,
                    int_text(b.totals.retries as int) + " retried"@,
                )
            },
{
    law_plain_reports(*a, *palette, first@);
    law_plain_reports(*b, *palette, second@);
    law_plain_reports_end_with_the_totals(*a, *b);
}

/// Each part of a report is rendered as it should be shown.
pub proof fn law_parts_of_reports_are_rendered(
    body: &RunMetricsResponse,
    call: &CallMetrics,
    attempt: &TaskAttemptMetrics,
    palette: &Palette,
    colorize: bool,
    text: String,
)
    ensures
        call_ensures(render_metrics, (body, palette, colorize), text) ==> is_report(
            *body,
            *palette,
            colorize,
            text@,
        ),
        call_ensures(call_section, (call, palette, colorize), text) ==> is_call_section(
            *call,
            *palette,
            colorize,
            text@,
        ),
        call_ensures(attempt_line, (attempt, palette, colorize), text) ==> is_attempt_line(
            *attempt,
            *palette,
            colorize,
            text@,
        ),
{
}

/// Durations, constraints, causes and utilization are formatted as they are shown.
pub proof fn law_values_are_formatted(
    ms: Option<i64>,
    json: &Json,
    text: String,
    optional: Option<String>,
)
    ensures
        call_ensures(format_ms, (ms,), text) ==> text@ == duration_text(ms),
        call_ensures(format_constraints, (Some(json),), text) ==> text@ == constraints_text(
            Some(*json),
        ),
        call_ensures(format_constraints, (None,), text) ==> text@ == "-"@,
        call_ensures(format_retry_cause, (json,), text) ==> text@ == retry_cause_text(*json),
        call_ensures(format_utilization, (None,), optional) ==> optional is None,
        call_ensures(format_utilization, (Some(json),), optional) ==> {
            &&& optional is Some <==> utilization_text(Some(*json)) is Some
            &&& optional matches Some(shown) ==> utilization_text(Some(*json)) == Some(shown@)
        },
{
}

/// The command puts out the response itself if it is asked for JSON and a report on
/// it otherwise, in either case on the calls that are asked for.
pub proof fn law_the_command_puts_out_what_is_asked_for(
    args: &Args,
    body: RunMetricsResponse,
    palette: &Palette,
    colorize: bool,
    output: Output,
    calls: Vec<CallMetrics>,
    part: &Option<String>,
    kept: Vec<CallMetrics>,
)
    ensures
        call_ensures(metrics, (args, body, palette, colorize), output) ==> {
            let asked = body.calls@.filter(
                |call: CallMetrics|
                    args.call is None || occurs_in(call.call_id@, args.call->0@),
            );
            match output {
                Output::Json(response) => args.json && response.run == body.run && response.totals
                    == body.totals && response.calls@ == asked,
                Output::Text(text) => !args.json && exists|response: RunMetricsResponse|
                    #[trigger] is_report(response, *palette, colorize, text@) && response.run
                        == body.run && response.totals == body.totals && response.calls@ == asked,
            }
        },
        call_ensures(select_calls, (calls, part), kept) ==> kept@ == calls@.filter(
            |call: CallMetrics|
                *part is None || occurs_in(call.call_id@, (*part)->0@),
        ),
{
    law_selected_calls_are_filtered(calls@, *part);
    if call_ensures(metrics, (args, body, palette, colorize), output) {
        match output {
            Output::Json(response) => {
                law_selections_keep_what_is_asked_for(response, body, args.call);
            },
            Output::Text(text) => {
                let response = choose|response: RunMetricsResponse|
                    #[trigger] is_selection(response, body, args.call) && is_report(
                        response,
                        *palette,
                        colorize,
                        text@,
                    );
                law_selections_keep_what_is_asked_for(response, body, args.call);
                assert(is_report(response, *palette, colorize, text@));
            },
        }
    }
}

/// An operation that hits contention is retried four times, after half a second and
/// then after five seconds each; any other error is given up at once.
pub proof fn law_contention_is_retried(
    retry: &mut LockRetry,
    new: LockRetry,
    error: &DatabaseError,
    delay: Option<u64>,
)
    ensures
        call_ensures(LockRetry::new, (), new) ==> new.failures() == 0,
        call_ensures(LockRetry::after_failure, (retry, error), delay) ==> {
            let failures = old(retry).failures();
            &&& !is_lock_error(*error) ==> delay is None
            &&& is_lock_error(*error) && failures == 0 ==> delay == Some(500u64)
            &&& is_lock_error(*error) && 1 <= failures <= 3 ==> delay == Some(5_000u64)
            &&& failures >= 4 ==> delay is None
            &&& failures < 5 ==> final(retry).failures() == failures + 1
            &&& failures >= 5 ==> final(retry).failures() == failures
        },
{
    law_operations_are_attempted_five_times(old(retry).failures(), *error);
}

/// Error codes are read, and errors told apart, as they should be.
pub proof fn law_errors_are_told_apart(
    error: &DatabaseError,
    transient: bool,
    text: &str,
    code: Option<i32>,
)
    ensures
        call_ensures(is_transient_lock_error, (error,), transient) ==> transient == is_lock_error(
            *error,
        ),
        call_ensures(parse_i32, (text,), code) ==> match code {
            Some(n) => parsed_i32(text@) == Some(n as int),
            None => parsed_i32(text@) is None,
        },
{
}

/// Ranks, names, exit codes and attempt numbers are given as they should be.
pub proof fn law_statuses_and_codes_are_given(
    a: TaskStatus,
    b: TaskStatus,
    run: RunStatus,
    first: u8,
    second: u8,
    name: String,
    codes: &ExitCodes,
    code: Option<i32>,
    attempt: u64,
    recorded: i64,
)
    ensures
        call_ensures(status_rank, (a,), first) && call_ensures(status_rank, (b,), second) ==> (first
            < second <==> precedes_status(a, b)),
        call_ensures(status_rank, (a,), first) ==> (first == 4 <==> has_ended(a)),
        call_ensures(TaskStatus::name, (a,), name) ==> name@ == task_status_name(a),
        call_ensures(RunStatus::name, (run,), name) ==> name@ == run_status_name(run),
        call_ensures(ExitCodes::last, (codes,), code) ==> code == (seq![codes.first]
            + codes.rest@)[codes.rest@.len() as int],
        call_ensures(record_attempt, (attempt,), recorded) ==> recorded == if attempt
            <= 0x7fff_ffff_ffff_ffff {
            attempt as int
        } else {
            0x7fff_ffff_ffff_ffff
        },
{
    law_ranks_follow_the_lifecycle(a, b);
}

/// A field of a JSON value is given where it is there and holds what is asked for.
pub proof fn law_fields_are_given(
    json: &Json,
    key: &str,
    found: Option<&Json>,
    number: Option<&JsonNumber>,
    integer: Option<i64>,
    text: Option<&String>,
    length: Option<usize>,
)
    ensures
        call_ensures(Json::get, (json, key), found) ==> match found {
            Some(value) => json.field(key@) == Some(*value),
            None => json.field(key@) is None,
        },
        call_ensures(Json::get_number, (json, key), number) ==> match number {
            Some(value) => json.number_field(key@) == Some(*value),
            None => json.number_field(key@) is None,
        },
        call_ensures(Json::get_integer, (json, key), integer) ==> integer == json.integer_field(
            key@,
        ),
        call_ensures(Json::get_text, (json, key), text) ==> match text {
            Some(value) => json.text_field(key@) == Some(value@),
            None => json.text_field(key@) is None,
        },
        call_ensures(Json::get_list_len, (json, key), length) ==> match length {
            Some(value) => json.list_field(key@) == Some(value as nat),
            None => json.list_field(key@) is None,
        },
{
}

/// A text is shown as it is without colours, and in its style with them.
pub proof fn law_texts_are_shown(text: String, style: Style, colorize: bool, shown: String)
    requires
        call_ensures(show, (text, style, colorize), shown),
    ensures
        !colorize ==> shown@ == text@,
        colorize ==> is_painted(text@, style, shown@),
{
}

/// Points in time are made of their parts, ordered by them, and as far apart as
/// they should be.
pub proof fn law_points_in_time_are_given(
    secs: i64,
    nanos: u32,
    made: Option<Timestamp>,
    a: &Timestamp,
    b: &Timestamp,
    earlier: bool,
    ms: i64,
    seconds: i64,
    rest: u32,
)
    ensures
        call_ensures(Timestamp::new, (secs, nanos), made) ==> {
            &&& made is Some <==> valid_instant(secs as int, nanos as int)
            &&& made matches Some(at) ==> at.secs() == secs && at.nanos() == nanos
        },
        call_ensures(Timestamp::is_before, (a, b), earlier) ==> (earlier <==> a.secs() < b.secs()
            || (a.secs() == b.secs() && a.nanos() < b.nanos())),
        call_ensures(Timestamp::millis_until, (a, b), ms) ==> ms == millis_between(*a, *b),
        call_ensures(Timestamp::timestamp, (a,), seconds) ==> seconds == a.secs(),
        call_ensures(Timestamp::timestamp_subsec_nanos, (a,), rest) ==> rest == a.nanos(),
{
}

/// Numbers and texts are written, aligned, joined and searched as they should be.
pub proof fn law_texts_are_given(
    n: u64,
    m: i64,
    text: &str,
    other: &str,
    width: usize,
    parts: &Vec<String>,
    written: String,
    answer: bool,
    at: Option<usize>,
    id: &Uuid,
)
    ensures
        call_ensures(u64_to_text, (n,), written) ==> written@ == nat_text(n as nat),
        call_ensures(i64_to_text, (m,), written) ==> written@ == int_text(m as int),
        call_ensures(two_digits, (n,), written) ==> written@ == two_digit_text(n as nat),
        call_ensures(align_left, (text, width), written) ==> written@ == left_aligned(
            text@,
            width as nat,
        ),
        call_ensures(align_right, (text, width), written) ==> written@ == right_aligned(
            text@,
            width as nat,
        ),
        call_ensures(join, (parts, text), written) ==> written@ == joined(
            parts@.map_values(|part: String| part@),
            text@,
        ),
        call_ensures(contains, (text, other), answer) ==> answer == occurs_in(text@, other@),
        call_ensures(starts_with, (text, other), answer) ==> (answer <==> other@.is_prefix_of(
            text@,
        )),
        call_ensures(comes_before, (text, other), answer) ==> answer == text_before(text@, other@),
        call_ensures(last_occurrence, (text, other), at) ==> {
            &&& at is Some <==> occurs_in(text@, other@)
            &&& at matches Some(k) ==> occurs_at(text@, other@, k as int) && forall|j: int|
                j > k ==> !occurs_at(text@, other@, j)
        },
        call_ensures(suffix_from, (text, width), written) ==> written@ == text@.skip(width as int),
        call_ensures(Uuid::to_text, (id,), written) ==> written@ == uuid_text(*id),
{
    law_texts_begin_with_their_prefixes(text@, other@);
}

/// Rounded results are given as they should be.
pub proof fn law_rounded_results_are_given(
    bits: u64,
    factor: i64,
    product: i64,
    n: u64,
    d: u64,
    tenths: u64,
)
    ensures
        call_ensures(truncate_product, (bits, factor), product) ==> product == truncated_product(
            bits,
            factor as int,
        ),
        call_ensures(tenths_of_quotient, (n, d), tenths) ==> tenths == quotient_tenths(
            n as nat,
            d as nat,
        ),
        call_ensures(tenths_of_gib, (n,), tenths) ==> tenths == gib_tenths(n as nat),
{
}

/// Colours and messages are given as they should be.
pub proof fn law_colors_and_messages_are_given(
    palette: &Palette,
    status: TaskStatus,
    run: RunStatus,
    color: Color,
    name: &'static str,
    failure: MonitorError,
    error: &DatabaseError,
    message: String,
)
    ensures
        call_ensures(Palette::task_status_color, (palette, status), color) ==> color == task_color(
            *palette,
            status,
        ),
        call_ensures(Palette::status_color, (palette, run), color) ==> color == run_color(
            *palette,
            run,
        ),
        call_ensures(Color::name, (color,), name) ==> name@ == color_name(color),
        call_ensures(MonitorError::message, (failure,), message) ==> message@
            == monitor_error_text(failure),
        call_ensures(DatabaseError::message, (error,), message) ==> message@ == error_text(*error),
{
}

} // verus!
