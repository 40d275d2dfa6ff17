//! What every report says.

use vstd::prelude::*;

use crate::double::{gib_tenths, quotient_tenths, significant};
use crate::double_laws::{distance, law_bytes_round_to_tenths, law_thousandths_round_to_tenths};
use crate::json::Json;
use crate::metrics::{CallMetrics, RunMetricsResponse, RunMetricsTotals, TaskAttemptMetrics};
use crate::paint::{is_painted, is_shown, run_color, task_color, Color, Palette, Style};
use crate::report::{
    attempt_shown, attempt_text, call_shown, call_text, concatenated, constraint_parts,
    constraints_text, duration_text, gib_text, is_attempt_line, is_call_section, is_report,
    is_selection, lines_text, plain_line, plain_report, plain_section, plural, report_shown, report_text,
    retry_cause_text, selected_calls, utilization_parts, utilization_text,
};
use crate::status::{run_status_name, task_status_name, RunStatus, TaskStatus};
use crate::text::{
    int_text, joined, left_aligned, nat_text, occurs_in, right_aligned, two_digit_text,
};
use crate::text_laws::law_parts_are_joined;
use crate::uuid::uuid_text;

verus! {

/// A number of tenths, as a decimal with one place.
pub open spec fn one_place(tenths: nat) -> Seq<char> {
    nat_text(tenths / 10) + "."@ + nat_text(tenths % 10)
}

/// A duration is shown in milliseconds below a second, to the nearest tenth of a
/// second below a minute, and in whole minutes and seconds otherwise, less what is
/// left of the last second; a duration that is not known is a dash.
pub proof fn law_durations_are_shown(ms: Option<i64>)
    ensures
        ms is None ==> duration_text(ms) == "-"@,
        ms matches Some(n) ==> {
            &&& n < 1_000 ==> duration_text(ms) == int_text(n as int) + "ms"@
            &&& 1_000 <= n < 60_000 ==> exists|tenths: nat|
                duration_text(ms) == #[trigger] one_place(tenths) + "s"@ && distance(
                    100 * tenths,
                    n as nat,
                ) <= 50 && (n % 500 == 250 ==> tenths % 2 == 0) && tenths == quotient_tenths(
                    n as nat,
                    1_000,
                )
            &&& n >= 60_000 ==> exists|minutes: nat, seconds: nat|
                duration_text(ms) == #[trigger] nat_text(minutes) + "m"@
                    + #[trigger] two_digit_text(seconds) + "s"@ && seconds < 60 && 1_000 * (60
                    * minutes + seconds) <= n < 1_000 * (60 * minutes + seconds) + 1_000
        },
{
    reveal_strlit(".");
    assert("."@ =~= seq!['.']);
    match ms {
        Some(n) => {
            if 1_000 <= n < 60_000 {
                let tenths = quotient_tenths(n as nat, 1_000);
                law_thousandths_round_to_tenths(n as nat);
                assert(duration_text(ms) == one_place(tenths) + "s"@);
            } else if n >= 60_000 {
                let minutes = (n as nat / 1_000) / 60;
                let seconds = (n as nat / 1_000) % 60;
                assert(duration_text(ms) == nat_text(minutes) + "m"@ + two_digit_text(seconds)
                    + "s"@);
            }
        },
        None => {},
    }
}

/// A number of bytes is shown in GiB to the nearest tenth, the even one where two
/// are equally near, behind a minus sign if it is negative.
pub proof fn law_bytes_are_shown_in_gib(bytes: int)
    ensures
        bytes >= 0 ==> exists|tenths: nat|
            gib_text(bytes) == #[trigger] one_place(tenths) && 2 * distance(
                0x4000_0000 * tenths,
                10 * significant(bytes as nat),
            ) <= 0x4000_0000 && (2 * distance(
                0x4000_0000 * tenths,
                10 * significant(bytes as nat),
            ) == 0x4000_0000 ==> tenths % 2 == 0),
        0 <= bytes < 0x20_0000_0000_0000 ==> significant(bytes as nat) == bytes,
        bytes < 0 ==> gib_text(bytes) == "-"@ + gib_text(-bytes),
{
    reveal_strlit(".");
    reveal_strlit("-");
    assert("."@ =~= seq!['.']);
    assert("-"@ =~= seq!['-']);
    if bytes >= 0 {
        law_bytes_round_to_tenths(bytes as nat);
        assert(gib_text(bytes) == one_place(gib_tenths(bytes as nat)));
    }
}

/// A number of GPUs, with the noun in the singular for one.
pub open spec fn gpu_text(count: nat) -> Seq<char> {
    if count == 1 {
        "1 gpu"@
    } else {
        nat_text(count) + " gpus"@
    }
}

/// Constraints are shown as the CPUs, the memory and the GPUs, in this order and as
/// far as they are there; a list of GPUs that is empty shows none, and constraints
/// with nothing to show are a dash.
pub proof fn law_constraints_are_shown(constraints: Json)
    ensures
        constraints_text(None) == "-"@,
        ({
            let cpu = constraints.number_field("cpu"@);
            let memory = constraints.integer_field("memory"@);
            let gpus: nat = match constraints.list_field("gpu"@) {
                Some(count) => count,
                None => 0,
            };
            let text = constraints_text(Some(constraints));
            let cpus = cpu->0.double_text@ + " cpu"@;
            let gib = gib_text(memory->0 as int) + " GiB"@;
            &&& cpu is None && memory is None && gpus == 0 ==> text == "-"@
            &&& cpu is Some && memory is None && gpus == 0 ==> text == cpus
            &&& cpu is None && memory is Some && gpus == 0 ==> text == gib
            &&& cpu is None && memory is None && gpus > 0 ==> text == gpu_text(gpus)
            &&& cpu is Some && memory is Some && gpus == 0 ==> text == cpus + ", "@ + gib
            &&& cpu is Some && memory is None && gpus > 0 ==> text == cpus + ", "@ + gpu_text(gpus)
            &&& cpu is None && memory is Some && gpus > 0 ==> text == gib + ", "@ + gpu_text(gpus)
            &&& cpu is Some && memory is Some && gpus > 0 ==> text == cpus + ", "@ + gib + ", "@
                + gpu_text(gpus)
        }),
{
    let cpu = constraints.number_field("cpu"@);
    let memory = constraints.integer_field("memory"@);
    let gpus: nat = match constraints.list_field("gpu"@) {
        Some(count) => count,
        None => 0,
    };
    let cpus = cpu->0.double_text@ + " cpu"@;
    let gib = gib_text(memory->0 as int) + " GiB"@;
    let gpu = gpu_text(gpus);
    if gpus == 1 {
        reveal_strlit("1 gpu");
        reveal_strlit(" gpu");
        assert(nat_text(1) =~= seq!['1']);
        assert(nat_text(1) + " gpu"@ =~= "1 gpu"@);
    }
    let first = if cpu is Some { seq![cpus] } else { Seq::empty() };
    let second = if memory is Some { seq![gib] } else { Seq::empty() };
    let third = if gpus > 0 { seq![gpu] } else { Seq::empty() };
    assert(constraint_parts(constraints) =~= first + second + third);
    lemma_up_to_three(cpus, gib, gpu, ", "@);
    assert(first + second + third =~= if cpu is Some && memory is Some && gpus > 0 {
        seq![cpus, gib, gpu]
    } else if cpu is Some && memory is Some {
        seq![cpus, gib]
    } else if cpu is Some && gpus > 0 {
        seq![cpus, gpu]
    } else if memory is Some && gpus > 0 {
        seq![gib, gpu]
    } else if cpu is Some {
        seq![cpus]
    } else if memory is Some {
        seq![gib]
    } else if gpus > 0 {
        seq![gpu]
    } else {
        Seq::empty()
    });
}

/// Up to three parts, joined.
proof fn lemma_up_to_three(a: Seq<char>, b: Seq<char>, c: Seq<char>, separator: Seq<char>)
    ensures
        joined(seq![a], separator) == a,
        joined(seq![b], separator) == b,
        joined(seq![c], separator) == c,
        joined(seq![a, b], separator) == a + separator + b,
        joined(seq![a, c], separator) == a + separator + c,
        joined(seq![b, c], separator) == b + separator + c,
        joined(seq![a, b, c], separator) == a + separator + b + separator + c,
{
    law_parts_are_joined(seq![a], separator, b);
    law_parts_are_joined(seq![a], separator, c);
    law_parts_are_joined(seq![b], separator, c);
    law_parts_are_joined(seq![a, b], separator, c);
    law_parts_are_joined(seq![a], separator, a);
    assert(seq![a] + seq![b] =~= seq![a, b]);
    assert(seq![a] + seq![c] =~= seq![a, c]);
    assert(seq![b] + seq![c] =~= seq![b, c]);
    assert(seq![a, b] + seq![c] =~= seq![a, b, c]);
}

/// Utilization is shown as the peak memory and the CPU time, in this order and as
/// far as they are there, and not at all where neither is.
pub proof fn law_utilization_is_shown(utilization: Json)
    ensures
        utilization_text(None) is None,
        ({
            let memory = utilization.integer_field("max_memory"@);
            let cpu = utilization.integer_field("cpu_time_ms"@);
            let peak = "peak "@ + gib_text(memory->0 as int) + " GiB"@;
            let time = "cpu "@ + duration_text(Some(cpu->0));
            let text = utilization_text(Some(utilization));
            &&& memory is None && cpu is None ==> text is None
            &&& memory is Some && cpu is None ==> text == Some(peak)
            &&& memory is None && cpu is Some ==> text == Some(time)
            &&& memory is Some && cpu is Some ==> text == Some(peak + ", "@ + time)
        }),
{
    let memory = utilization.integer_field("max_memory"@);
    let cpu = utilization.integer_field("cpu_time_ms"@);
    let peak = "peak "@ + gib_text(memory->0 as int) + " GiB"@;
    let time = "cpu "@ + duration_text(Some(cpu->0));
    lemma_up_to_three(peak, time, time, ", "@);
    assert(utilization_parts(utilization) =~= if memory is Some && cpu is Some {
        seq![peak, time]
    } else if memory is Some {
        seq![peak]
    } else if cpu is Some {
        seq![time]
    } else {
        Seq::empty()
    });
}

/// A retry cause is shown by its kind, with the exit code where that was the cause
/// and is known; a cause without a kind is shown as it is written.
pub proof fn law_retry_causes_are_shown(cause: Json)
    ensures
        ({
            let kind = cause.text_field("kind"@);
            let code = cause.integer_field("code"@);
            let text = retry_cause_text(cause);
            &&& kind is None ==> text == "retried: "@ + cause.text@
            &&& kind == Some("unacceptable_exit_code"@) && code is Some ==> text
                == "retried: unacceptable exit code "@ + int_text(code->0 as int)
            &&& kind == Some("unacceptable_exit_code"@) && code is None ==> text
                == "retried: unacceptable exit code"@
            &&& kind is Some && kind != Some("unacceptable_exit_code"@) ==> text == "retried: "@
                + kind->0
        }),
{
    reveal_strlit("retried: ");
    reveal_strlit("retried: preempted");
    reveal_strlit("preempted");
    assert("retried: "@ + "preempted"@ =~= "retried: preempted"@);
    reveal_strlit("unacceptable_exit_code");
    assert("preempted"@.len() != "unacceptable_exit_code"@.len());
}

/// What stands behind the constraints in the line on an attempt: the exit status
/// unless it is zero, the utilization and the retry cause, as far as they are
/// there.
pub open spec fn line_end(attempt: TaskAttemptMetrics, cause: Seq<char>) -> Seq<char> {
    (if attempt.exit_status is Some && attempt.exit_status->0 != 0 {
        "  exit "@ + int_text(attempt.exit_status->0 as int)
    } else {
        Seq::empty()
    }) + (if utilization_text(attempt.utilization) is Some {
        "  "@ + utilization_text(attempt.utilization)->0
    } else {
        Seq::empty()
    }) + (if attempt.retry_cause is Some {
        "  "@ + cause
    } else {
        Seq::empty()
    })
}

/// The line on an attempt shows its number, its status, its wall time, the time it
/// was queued and its constraints in columns, and what else there is behind them.
/// The status is shown in its colour and the retry cause in yellow if the report is
/// in colour.
pub proof fn law_attempts_are_shown_in_columns(
    attempt: TaskAttemptMetrics,
    palette: Palette,
    colorize: bool,
    line: Seq<char>,
)
    requires
        is_attempt_line(attempt, palette, colorize, line),
    ensures
        exists|status: Seq<char>, cause: Seq<char>|
            {
                &&& line == "    #"@ + left_aligned(int_text(attempt.attempt as int), 3) + " "@
                    + left_aligned(status, 12) + " wall "@ + right_aligned(
                    duration_text(attempt.wall_time_ms),
                    8,
                ) + "  queued "@ + right_aligned(duration_text(attempt.queued_ms), 8) + "  "@
                    + constraints_text(attempt.constraints) + #[trigger] line_end(attempt, cause)
                &&& !colorize ==> status == task_status_name(attempt.status)
                &&& colorize ==> #[trigger] is_painted(
                    task_status_name(attempt.status),
                    Style::Colored(task_color(palette, attempt.status)),
                    status,
                )
                &&& attempt.retry_cause matches Some(retry) ==> {
                    &&& !colorize ==> cause == retry_cause_text(retry)
                    &&& colorize ==> is_painted(
                        retry_cause_text(retry),
                        Style::Colored(Color::Yellow),
                        cause,
                    )
                }
            },
{
    let (status, cause) = choose|status: Seq<char>, cause: Seq<char>|
        line == #[trigger] attempt_text(attempt, status, cause) && attempt_shown(
            attempt,
            palette,
            colorize,
            status,
            cause,
        );
    let start = "    #"@ + left_aligned(int_text(attempt.attempt as int), 3) + " "@ + left_aligned(
        status,
        12,
    ) + " wall "@ + right_aligned(duration_text(attempt.wall_time_ms), 8) + "  queued "@
        + right_aligned(duration_text(attempt.queued_ms), 8) + "  "@ + constraints_text(
        attempt.constraints,
    );
    assert(line =~= start + line_end(attempt, cause));
    if !colorize {
        // Without colours the status is one way of painting its name.
        assert(is_painted(
            task_status_name(attempt.status),
            Style::Colored(task_color(palette, attempt.status)),
            status,
        ));
    }
}

/// Without colours, the line on an attempt is made of what is shown of it and of
/// nothing else.
pub proof fn law_plain_lines_are_columns(attempt: TaskAttemptMetrics)
    ensures
        plain_line(attempt) == "    #"@ + left_aligned(int_text(attempt.attempt as int), 3) + " "@
            + left_aligned(task_status_name(attempt.status), 12) + " wall "@ + right_aligned(
            duration_text(attempt.wall_time_ms),
            8,
        ) + "  queued "@ + right_aligned(duration_text(attempt.queued_ms), 8) + "  "@
            + constraints_text(attempt.constraints) + line_end(
            attempt,
            retry_cause_text(attempt.retry_cause->0),
        ),
{
    let start = "    #"@ + left_aligned(int_text(attempt.attempt as int), 3) + " "@ + left_aligned(
        task_status_name(attempt.status),
        12,
    ) + " wall "@ + right_aligned(duration_text(attempt.wall_time_ms), 8) + "  queued "@
        + right_aligned(duration_text(attempt.queued_ms), 8) + "  "@ + constraints_text(
        attempt.constraints,
    );
    assert(plain_line(attempt) =~= start + line_end(
        attempt,
        retry_cause_text(attempt.retry_cause->0),
    ));
}

/// Lines and texts are put one after another, each line with its end; none is left
/// out and none comes before an earlier one.
pub proof fn law_lines_follow_one_another(lines: Seq<Seq<char>>, line: Seq<char>)
    ensures
        lines_text(Seq::empty()).len() == 0,
        lines_text(lines + seq![line]) == lines_text(lines) + line + "\n"@,
        concatenated(Seq::empty()).len() == 0,
        concatenated(lines + seq![line]) == concatenated(lines) + line,
{
    reveal_strlit("\n");
    assert("\n"@ =~= seq!['\n']);
    assert((lines + seq![line]).drop_last() =~= lines);
}

/// A number of attempts, with the noun in the singular for one.
pub open spec fn attempts_text(count: int) -> Seq<char> {
    if count == 1 {
        "1 attempt"@
    } else {
        int_text(count) + " attempts"@
    }
}

/// A number of attempts is written with its noun.
proof fn lemma_attempts_text(count: int)
    ensures
        int_text(count) + " attempt"@ + plural(count) == attempts_text(count),
{
    reveal_strlit("1 attempt");
    reveal_strlit(" attempt");
    reveal_strlit(" attempts");
    reveal_strlit("");
    reveal_strlit("s");
    if count == 1 {
        assert(int_text(1) =~= seq!['1']);
        assert(seq!['1'] + " attempt"@ + ""@ =~= "1 attempt"@);
    } else {
        assert(" attempt"@ + "s"@ =~= " attempts"@);
        assert(int_text(count) + " attempt"@ + "s"@ =~= int_text(count) + (" attempt"@ + "s"@));
    }
}

/// Whether a section is made of a header, a qualifier and lines, and these are
/// shown as they should be: the name of the call in bold, its full identifier
/// dimmed where that is another, and a line on each attempt.
pub open spec fn section_is_made_of(
    call: CallMetrics,
    palette: Palette,
    colorize: bool,
    text: Seq<char>,
    header: Seq<char>,
    qualifier: Seq<char>,
    lines: Seq<Seq<char>>,
) -> bool {
    &&& text == "  "@ + header + " "@ + qualifier + "("@ + attempts_text(
        call.attempts@.len() as int,
    ) + ")\n"@ + lines_text(lines)
    &&& if colorize {
        is_painted(call.name@, Style::Bold, header)
    } else {
        header == call.name@
    }
    &&& call.name@ == call.call_id@ ==> qualifier.len() == 0
    &&& call.name@ != call.call_id@ ==> if colorize {
        is_painted("("@ + call.call_id@ + ") "@, Style::Dimmed, qualifier)
    } else {
        qualifier == "("@ + call.call_id@ + ") "@
    }
    &&& lines.len() == call.attempts@.len()
    &&& forall|j: int|
        0 <= j < lines.len() ==> is_attempt_line(
            call.attempts@[j],
            palette,
            colorize,
            #[trigger] lines[j],
        )
}

/// The section on a call shows its name in bold, its full identifier dimmed where
/// that is another, the number of its attempts, and a line on each of them.
pub proof fn law_calls_are_shown_in_sections(
    call: CallMetrics,
    palette: Palette,
    colorize: bool,
    text: Seq<char>,
)
    requires
        is_call_section(call, palette, colorize, text),
    ensures
        exists|header: Seq<char>, qualifier: Seq<char>, lines: Seq<Seq<char>>| #[trigger]
            section_is_made_of(call, palette, colorize, text, header, qualifier, lines),
{
    let (header, qualifier, lines) = choose|
        header: Seq<char>,
        qualifier: Seq<char>,
        lines: Seq<Seq<char>>,
    |
        text == #[trigger] call_text(call, header, qualifier, lines) && call_shown(
            call,
            palette,
            colorize,
            header,
            qualifier,
            lines,
        );
    let count = call.attempts@.len();
    lemma_attempts_text(count as int);
    assert(int_text(count as int) == nat_text(count));
    let start = "  "@ + header + " "@ + qualifier + "("@;
    assert(start + nat_text(count) + " attempt"@ + plural(count as int) =~= start + (nat_text(count)
        + " attempt"@ + plural(count as int)));
    assert(section_is_made_of(call, palette, colorize, text, header, qualifier, lines));
}

/// The last line of a report: how many attempts there were, and how many of them
/// were retried, cached and preempted, in this order.
pub open spec fn totals_line(totals: RunMetricsTotals, retries: Seq<char>) -> Seq<char> {
    attempts_text(totals.attempts as int) + " total: "@ + retries + ", "@ + int_text(
        totals.cached as int,
    ) + " cached, "@ + int_text(totals.preempted as int) + " preempted\n"@
}

/// The first line of a report and the empty line behind it: the run's name,
/// identifier, status and wall time.
pub open spec fn run_lines(body: RunMetricsResponse, status: Seq<char>) -> Seq<char> {
    "Run `"@ + body.run.name@ + "` ("@ + uuid_text(body.run.uuid) + "): "@ + status + ", wall "@
        + duration_text(body.run.wall_time_ms) + "\n\n"@
}

/// A report shows the run, a section on each call in order, and the totals. The
/// status of the run is shown in bold and in its colour if the report is in colour,
/// and the number of retries in yellow if moreover there are any.
pub proof fn law_reports_show_all_calls(
    body: RunMetricsResponse,
    palette: Palette,
    colorize: bool,
    text: Seq<char>,
)
    requires
        is_report(body, palette, colorize, text),
    ensures
        exists|status: Seq<char>, sections: Seq<Seq<char>>, retries: Seq<char>|
            {
                &&& text == #[trigger] run_lines(body, status) + #[trigger] concatenated(sections)
                    + "\n"@ + #[trigger] totals_line(body.totals, retries)
                &&& !colorize ==> status == run_status_name(body.run.status)
                &&& is_painted(
                    run_status_name(body.run.status),
                    Style::BoldColored(run_color(palette, body.run.status)),
                    status,
                )
                &&& sections.len() == body.calls@.len()
                &&& forall|i: int|
                    0 <= i < sections.len() ==> is_call_section(
                        body.calls@[i],
                        palette,
                        colorize,
                        #[trigger] sections[i],
                    )
                &&& !(colorize && body.totals.retries > 0) ==> retries == int_text(
                    body.totals.retries as int,
                ) + " retried"@
                &&& is_painted(
                    int_text(body.totals.retries as int) + " retried"@,
                    Style::Colored(Color::Yellow),
                    retries,
                )
            },
{
    let (status, sections, retries) = choose|
        status: Seq<char>,
        sections: Seq<Seq<char>>,
        retries: Seq<char>,
    |
        text == #[trigger] report_text(body, status, sections, retries) && report_shown(
            body,
            palette,
            colorize,
            status,
            sections,
            retries,
        );
    lemma_report_text(body, status, sections, retries);
}

/// A report is made of its first lines, the sections and the last line.
proof fn lemma_report_text(
    body: RunMetricsResponse,
    status: Seq<char>,
    sections: Seq<Seq<char>>,
    retries: Seq<char>,
)
    ensures
        report_text(body, status, sections, retries) == run_lines(body, status) + concatenated(
            sections,
        ) + "\n"@ + totals_line(body.totals, retries),
{
    let totals = body.totals;
    let count = totals.attempts as int;
    lemma_attempts_text(count);
    let start = run_lines(body, status) + concatenated(sections) + "\n"@;
    let end = " total: "@ + retries + ", "@ + int_text(totals.cached as int) + " cached, "@
        + int_text(totals.preempted as int) + " preempted\n"@;
    assert(totals_line(totals, retries) =~= attempts_text(count) + end);
    assert(report_text(body, status, sections, retries) =~= start + (int_text(count) + " attempt"@
        + plural(count)) + end);
    assert(start + attempts_text(count) + end =~= start + (attempts_text(count) + end));
}

/// Without colours, two reports on the same run and calls are alike but for the
/// last line, and that shows the totals: how many attempts there were, and how
/// many of them were retried, cached and preempted.
pub proof fn law_plain_reports_end_with_the_totals(a: RunMetricsResponse, b: RunMetricsResponse)
    requires
        a.run == b.run,
        a.calls == b.calls,
    ensures
        exists|head: Seq<char>|
            {
                &&& plain_report(a) == #[trigger] (head + totals_line(
                    a.totals,
                    int_text(a.totals.retries as int) + " retried"@,
                ))
                &&& plain_report(b) == head + totals_line(
                    b.totals,
                    int_text(b.totals.retries as int) + " retried"@,
                )
            },
{
    let sections = Seq::new(a.calls@.len(), |i: int| plain_section(a.calls@[i]));
    let others = Seq::new(b.calls@.len(), |i: int| plain_section(b.calls@[i]));
    assert(sections =~= others);
    let status = run_status_name(a.run.status);
    let head = run_lines(a, status) + concatenated(sections) + "\n"@;
    lemma_report_text(a, status, sections, int_text(a.totals.retries as int) + " retried"@);
    lemma_report_text(b, status, sections, int_text(b.totals.retries as int) + " retried"@);
    assert(plain_report(a) == head + totals_line(
        a.totals,
        int_text(a.totals.retries as int) + " retried"@,
    ));
}

/// Without colours, reports that differ in the number of cached attempts alone, or
/// in the number of preempted ones alone, differ in that number alone, which stands
/// before the word for it.
pub proof fn law_plain_reports_differ_where_the_totals_do(
    a: RunMetricsResponse,
    b: RunMetricsResponse,
)
    requires
        a.run == b.run,
        a.calls == b.calls,
        a.totals.attempts == b.totals.attempts,
        a.totals.retries == b.totals.retries,
    ensures
        a.totals.preempted == b.totals.preempted ==> exists|head: Seq<char>|
            {
                let tail = " cached, "@ + int_text(a.totals.preempted as int) + " preempted\n"@;
                &&& plain_report(a) == #[trigger] (head + int_text(a.totals.cached as int)) + tail
                &&& plain_report(b) == head + int_text(b.totals.cached as int) + tail
            },
        a.totals.cached == b.totals.cached ==> exists|head: Seq<char>|
            {
                let tail = " preempted\n"@;
                &&& plain_report(a) == #[trigger] (head + int_text(a.totals.preempted as int))
                    + tail
                &&& plain_report(b) == head + int_text(b.totals.preempted as int) + tail
            },
{
    law_plain_reports_end_with_the_totals(a, b);
    let retries = int_text(a.totals.retries as int) + " retried"@;
    let head = choose|head: Seq<char>|
        {
            &&& plain_report(a) == #[trigger] (head + totals_line(a.totals, retries))
            &&& plain_report(b) == head + totals_line(b.totals, retries)
        };
    let count = attempts_text(a.totals.attempts as int);
    let start = head + count + " total: "@ + retries + ", "@;
    lemma_regrouped(
        head,
        count,
        retries,
        int_text(a.totals.cached as int),
        int_text(a.totals.preempted as int),
    );
    lemma_regrouped(
        head,
        count,
        retries,
        int_text(b.totals.cached as int),
        int_text(b.totals.preempted as int),
    );
    if a.totals.preempted == b.totals.preempted {
        let tail = " cached, "@ + int_text(a.totals.preempted as int) + " preempted\n"@;
        assert(plain_report(a) == (start + int_text(a.totals.cached as int)) + tail);
        assert(plain_report(b) == (start + int_text(b.totals.cached as int)) + tail);
    }
    if a.totals.cached == b.totals.cached {
        let longer = start + int_text(a.totals.cached as int) + " cached, "@;
        let tail = " preempted\n"@;
        assert(plain_report(a) == (longer + int_text(a.totals.preempted as int)) + tail);
        assert(plain_report(b) == (longer + int_text(b.totals.preempted as int)) + tail);
    }
}

/// The last line of a report can be cut at either number.
proof fn lemma_regrouped(
    head: Seq<char>,
    count: Seq<char>,
    retries: Seq<char>,
    cached: Seq<char>,
    preempted: Seq<char>,
)
    ensures
        ({
            let line = count + " total: "@ + retries + ", "@ + cached + " cached, "@ + preempted
                + " preempted\n"@;
            let start = head + count + " total: "@ + retries + ", "@;
            &&& head + line == start + cached + (" cached, "@ + preempted + " preempted\n"@)
            &&& head + line == start + cached + " cached, "@ + preempted + " preempted\n"@
        }),
{
    let line = count + " total: "@ + retries + ", "@ + cached + " cached, "@ + preempted
        + " preempted\n"@;
    let start = head + count + " total: "@ + retries + ", "@;
    assert(head + line =~= start + cached + " cached, "@ + preempted + " preempted\n"@);
    assert(start + cached + " cached, "@ + preempted + " preempted\n"@ =~= start + cached + (
    " cached, "@ + preempted + " preempted\n"@));
}

/// Without colours, a section is the name of the call, its full identifier where
/// that is another, the number of attempts and their lines.
pub proof fn law_plain_sections_are_headed(call: CallMetrics)
    ensures
        plain_section(call) == "  "@ + call.name@ + " "@ + (if call.name@ == call.call_id@ {
            Seq::empty()
        } else {
            "("@ + call.call_id@ + ") "@
        }) + "("@ + attempts_text(call.attempts@.len() as int) + ")\n"@ + lines_text(
            Seq::new(call.attempts@.len(), |j: int| plain_line(call.attempts@[j])),
        ),
{
    let count = call.attempts@.len();
    let lines = Seq::new(call.attempts@.len(), |j: int| plain_line(call.attempts@[j]));
    let qualifier = if call.name@ == call.call_id@ {
        Seq::empty()
    } else {
        "("@ + call.call_id@ + ") "@
    };
    lemma_attempts_text(count as int);
    assert(int_text(count as int) == nat_text(count));
    let start = "  "@ + call.name@ + " "@ + qualifier + "("@;
    assert(start + nat_text(count) + " attempt"@ + plural(count as int) =~= start + (
    nat_text(count) + " attempt"@ + plural(count as int)));
}

/// Of the calls of a response, those are reported on whose identifier holds the
/// part that is asked for, all of them where none is asked for, in the same order;
/// the run and the totals are reported on as they are.
pub proof fn law_selections_keep_what_is_asked_for(
    response: RunMetricsResponse,
    body: RunMetricsResponse,
    part: Option<String>,
)
    requires
        is_selection(response, body, part),
    ensures
        response.run == body.run,
        response.totals == body.totals,
        response.calls@ == body.calls@.filter(
            |call: CallMetrics| part is None || occurs_in(call.call_id@, part->0@),
        ),
{
    law_selected_calls_are_filtered(body.calls@, part);
}

/// The calls that are selected are those whose identifier holds the part that is
/// asked for, in the same order.
pub proof fn law_selected_calls_are_filtered(calls: Seq<CallMetrics>, part: Option<String>)
    ensures
        selected_calls(calls, part) == calls.filter(
            |call: CallMetrics| part is None || occurs_in(call.call_id@, part->0@),
        ),
    decreases calls.len(),
{
    reveal(Seq::filter);
    if calls.len() > 0 {
        law_selected_calls_are_filtered(calls.drop_last(), part);
    }
}

/// A status is shown in the colour that the palette has for it.
pub proof fn law_statuses_have_their_colors(palette: Palette, status: TaskStatus, run: RunStatus)
    ensures
        status is Initializing ==> task_color(palette, status) == palette.task.initializing,
        status is Localizing ==> task_color(palette, status) == palette.task.localizing,
        status is Pending ==> task_color(palette, status) == palette.task.pending,
        status is Running ==> task_color(palette, status) == palette.task.running,
        status is Completed ==> task_color(palette, status) == palette.task.completed,
        status is Cached ==> task_color(palette, status) == palette.task.cached,
        status is Failed ==> task_color(palette, status) == palette.task.failed,
        status is Canceled ==> task_color(palette, status) == palette.task.canceled,
        status is Preempted ==> task_color(palette, status) == palette.task.preempted,
        status is Orphaned ==> task_color(palette, status) == palette.task.orphaned,
        run is Running ==> run_color(palette, run) == palette.run.running,
        run is Completed ==> run_color(palette, run) == palette.run.completed,
        run is Failed ==> run_color(palette, run) == palette.run.failed,
        run is Canceling ==> run_color(palette, run) == palette.run.canceling,
        run is Canceled ==> run_color(palette, run) == palette.run.canceled,
        run is Orphaned ==> run_color(palette, run) == palette.run.orphaned,
{
}

/// A text is shown as it is unless the report is in colour, and then may be shown
/// in its style and in no other.
pub proof fn law_texts_are_shown_in_style(
    text: Seq<char>,
    style: Style,
    colorize: bool,
    shown: Seq<char>,
)
    ensures
        !colorize ==> (is_shown(text, style, colorize, shown) <==> shown == text),
        colorize ==> (is_shown(text, style, colorize, shown) <==> is_painted(text, style, shown)),
        is_painted(text, style, text),
{
}

} // verus!
