//! The text report on a run's execution metrics.

use vstd::prelude::*;
use vstd::string::*;

use crate::double::{gib_tenths, quotient_tenths, tenths_of_gib, tenths_of_quotient};
use crate::json::{is_text_of, is_written, Json};
use crate::metrics::{CallMetrics, RunMetricsResponse, TaskAttemptMetrics};
use crate::paint::{is_shown, run_color, show, task_color, Color, Palette, Style};
use crate::status::{run_status_name, task_status_name};
use crate::text::{
    align_left, align_right, contains, i64_to_text, int_text, join, joined, left_aligned, nat_text,
    occurs_in, opt_view, right_aligned, two_digit_text, two_digits, u64_to_text, views,
};
use crate::uuid::uuid_text;

verus! {

/// Arguments of the `metrics` command.
#[derive(Debug)]
pub struct Args {
    /// The run to report metrics for.
    ///
    /// May be a UUID or the human-readable generated name of the run (e.g.
    /// `happy-dolphin-42`).
    pub run_id: String,
    /// Only report metrics for calls whose call id contains this string.
    pub call: Option<String>,
    /// Output the raw JSON response instead of the formatted summary.
    pub json: bool,
}

/// A number of tenths, with one decimal place.
pub open spec fn tenths_text(tenths: nat) -> Seq<char> {
    nat_text(tenths / 10) + seq!['.'] + nat_text(tenths % 10)
}

/// A millisecond duration as it is displayed.
pub open spec fn duration_text(ms: Option<i64>) -> Seq<char> {
    match ms {
        None => "-"@,
        Some(ms) => if ms < 1_000 {
            int_text(ms as int) + "ms"@
        } else if ms < 60_000 {
            tenths_text(quotient_tenths(ms as nat, 1_000)) + "s"@
        } else {
            nat_text((ms as nat / 1_000) / 60) + "m"@ + two_digit_text(
                (ms as nat / 1_000) % 60,
            ) + "s"@
        },
    }
}

/// Writes a number of tenths.
fn write_tenths(tenths: u64) -> (r: String)
    ensures
        r@ == tenths_text(tenths as nat),
{
    proof {
        reveal_strlit(".");
    }
    let mut out = u64_to_text(tenths / 10);
    out.append(".");
    out.append(u64_to_text(tenths % 10).as_str());
    assert(out@ =~= tenths_text(tenths as nat));
    out
}

/// Formats a millisecond duration for display.
pub fn format_ms(ms: Option<i64>) -> (r: String)
    ensures
        r@ == duration_text(ms),
{
    match ms {
        None => "-".to_owned(),
        Some(ms) => if ms < 1_000 {
            let mut out = i64_to_text(ms);
            out.append("ms");
            out
        } else if ms < 60_000 {
            let mut out = write_tenths(tenths_of_quotient(ms as u64, 1_000));
            out.append("s");
            out
        } else {
            let seconds: u64 = ms as u64 / 1_000;
            let mut out = u64_to_text(seconds / 60);
            out.append("m");
            out.append(two_digits(seconds % 60).as_str());
            out.append("s");
            out
        },
    }
}

/// A number of bytes in GiB, with one decimal place.
pub open spec fn gib_text(bytes: int) -> Seq<char> {
    if bytes < 0 {
        seq!['-'] + tenths_text(gib_tenths((-bytes) as nat))
    } else {
        tenths_text(gib_tenths(bytes as nat))
    }
}

/// Writes a number of bytes in GiB.
fn write_gib(bytes: i64) -> (r: String)
    ensures
        r@ == gib_text(bytes as int),
{
    if bytes < 0 {
        proof {
            reveal_strlit("-");
        }
        let magnitude: u64 = (-(bytes + 1)) as u64 + 1;
        let mut out = "-".to_owned();
        out.append(write_tenths(tenths_of_gib(magnitude)).as_str());
        proof {
            assert("-"@ =~= seq!['-']);
        }
        out
    } else {
        write_tenths(tenths_of_gib(bytes as u64))
    }
}

/// The parts of a display of constraints: CPUs, memory and GPUs, as far as they
/// are there.
pub open spec fn constraint_parts(constraints: Json) -> Seq<Seq<char>> {
    let cpu = match constraints.number_field("cpu"@) {
        Some(cpu) => seq![cpu.double_text@ + " cpu"@],
        None => Seq::empty(),
    };
    let memory = match constraints.integer_field("memory"@) {
        Some(memory) => seq![gib_text(memory as int) + " GiB"@],
        None => Seq::empty(),
    };
    let gpu = match constraints.list_field("gpu"@) {
        Some(count) => if count == 0 {
            Seq::empty()
        } else if count == 1 {
            seq![nat_text(count) + " gpu"@]
        } else {
            seq![nat_text(count) + " gpus"@]
        },
        None => Seq::empty(),
    };
    cpu + memory + gpu
}

/// An attempt's constraints as they are displayed.
pub open spec fn constraints_text(constraints: Option<Json>) -> Seq<char> {
    match constraints {
        Some(constraints) => if constraint_parts(constraints).len() == 0 {
            "-"@
        } else {
            joined(constraint_parts(constraints), ", "@)
        },
        None => "-"@,
    }
}

/// Formats an attempt's constraints for display.
///
/// Reports cpu, memory, and any GPUs; the full detail is available in JSON
/// mode.
pub fn format_constraints(constraints: Option<&Json>) -> (r: String)
    ensures
        r@ == constraints_text(
            match constraints {
                Some(constraints) => Some(*constraints),
                None => None,
            },
        ),
{
    let constraints = match constraints {
        Some(constraints) => constraints,
        None => {
            return "-".to_owned();
        },
    };
    let mut parts: Vec<String> = Vec::new();
    match constraints.get_number("cpu") {
        Some(cpu) => {
            let mut part = cpu.double_text.clone();
            part.append(" cpu");
            parts.push(part);
        },
        None => {},
    }
    match constraints.get_integer("memory") {
        Some(memory) => {
            let mut part = write_gib(memory);
            part.append(" GiB");
            parts.push(part);
        },
        None => {},
    }
    match constraints.get_list_len("gpu") {
        Some(count) => {
            if count > 0 {
                let mut part = u64_to_text(count as u64);
                if count == 1 {
                    part.append(" gpu");
                } else {
                    part.append(" gpus");
                }
                parts.push(part);
            }
        },
        None => {},
    }
    proof {
        assert(views(parts@) =~= constraint_parts(*constraints));
    }
    if parts.len() == 0 {
        "-".to_owned()
    } else {
        join(&parts, ", ")
    }
}

/// A retry cause as it is displayed.
pub open spec fn retry_cause_text(cause: Json) -> Seq<char> {
    match cause.text_field("kind"@) {
        Some(kind) => if kind == "unacceptable_exit_code"@ {
            match cause.integer_field("code"@) {
                Some(code) => "retried: unacceptable exit code "@ + int_text(code as int),
                None => "retried: unacceptable exit code"@,
            }
        } else if kind == "preempted"@ {
            "retried: preempted"@
        } else {
            "retried: "@ + kind
        },
        None => "retried: "@ + cause.text@,
    }
}

/// Formats a retry cause for display.
pub fn format_retry_cause(cause: &Json) -> (r: String)
    ensures
        r@ == retry_cause_text(*cause),
        is_written(*cause) && cause.text_field("kind"@) is None ==> exists|text: Seq<char>|
            #[trigger] is_text_of(text, cause.value) && r@ == "retried: "@ + text,
{
    proof {
        if is_written(*cause) && cause.text_field("kind"@) is None {
            assert(is_text_of(cause.text@, cause.value));
        }
    }
    match cause.get_text("kind") {
        Some(kind) => if *kind == "unacceptable_exit_code".to_owned() {
            match cause.get_integer("code") {
                Some(code) => {
                    let mut out = "retried: unacceptable exit code ".to_owned();
                    out.append(i64_to_text(code).as_str());
                    out
                },
                None => "retried: unacceptable exit code".to_owned(),
            }
        } else if *kind == "preempted".to_owned() {
            "retried: preempted".to_owned()
        } else {
            let mut out = "retried: ".to_owned();
            out.append(kind.as_str());
            out
        },
        None => {
            let mut out = "retried: ".to_owned();
            out.append(cause.text.as_str());
            out
        },
    }
}

/// The parts of a display of resource utilization: peak memory and CPU time, as
/// far as they are there.
pub open spec fn utilization_parts(utilization: Json) -> Seq<Seq<char>> {
    let memory = match utilization.integer_field("max_memory"@) {
        Some(memory) => seq!["peak "@ + gib_text(memory as int) + " GiB"@],
        None => Seq::empty(),
    };
    let cpu = match utilization.integer_field("cpu_time_ms"@) {
        Some(ms) => seq!["cpu "@ + duration_text(Some(ms))],
        None => Seq::empty(),
    };
    memory + cpu
}

/// An attempt's resource utilization as it is displayed, if there is anything to
/// display.
pub open spec fn utilization_text(utilization: Option<Json>) -> Option<Seq<char>> {
    match utilization {
        Some(utilization) => if utilization_parts(utilization).len() == 0 {
            None
        } else {
            Some(joined(utilization_parts(utilization), ", "@))
        },
        None => None,
    }
}

/// Formats an attempt's observed resource utilization for display.
///
/// Reports peak resident memory and total CPU time; the full detail is
/// available in JSON mode.
pub fn format_utilization(utilization: Option<&Json>) -> (r: Option<String>)
    ensures
        opt_view(r) == utilization_text(
            match utilization {
                Some(utilization) => Some(*utilization),
                None => None,
            },
        ),
{
    let utilization = match utilization {
        Some(utilization) => utilization,
        None => {
            return None;
        },
    };
    let mut parts: Vec<String> = Vec::new();
    match utilization.get_integer("max_memory") {
        Some(memory) => {
            let mut part = "peak ".to_owned();
            part.append(write_gib(memory).as_str());
            part.append(" GiB");
            parts.push(part);
        },
        None => {},
    }
    match utilization.get_integer("cpu_time_ms") {
        Some(ms) => {
            let mut part = "cpu ".to_owned();
            part.append(format_ms(Some(ms)).as_str());
            parts.push(part);
        },
        None => {},
    }
    proof {
        assert(views(parts@) =~= utilization_parts(*utilization));
    }
    if parts.len() == 0 {
        None
    } else {
        Some(join(&parts, ", "))
    }
}

/// The line on one attempt, given its status and retry cause as they are shown.
pub open spec fn attempt_text(
    attempt: TaskAttemptMetrics,
    status: Seq<char>,
    cause: Seq<char>,
) -> Seq<char> {
    let line = "    #"@ + left_aligned(int_text(attempt.attempt as int), 3) + " "@ + left_aligned(
        status,
        12,
    ) + " wall "@ + right_aligned(duration_text(attempt.wall_time_ms), 8) + "  queued "@
        + right_aligned(duration_text(attempt.queued_ms), 8) + "  "@ + constraints_text(
        attempt.constraints,
    );
    let line = match attempt.exit_status {
        Some(exit_status) => if exit_status != 0 {
            line + "  exit "@ + int_text(exit_status as int)
        } else {
            line
        },
        None => line,
    };
    let line = match utilization_text(attempt.utilization) {
        Some(utilization) => line + "  "@ + utilization,
        None => line,
    };
    match attempt.retry_cause {
        Some(_) => line + "  "@ + cause,
        None => line,
    }
}

/// Whether the status and the retry cause of an attempt are shown as they should
/// be.
pub open spec fn attempt_shown(
    attempt: TaskAttemptMetrics,
    palette: Palette,
    colorize: bool,
    status: Seq<char>,
    cause: Seq<char>,
) -> bool {
    &&& is_shown(
        task_status_name(attempt.status),
        Style::Colored(task_color(palette, attempt.status)),
        colorize,
        status,
    )
    &&& match attempt.retry_cause {
        Some(retry_cause) => is_shown(
            retry_cause_text(retry_cause),
            Style::Colored(Color::Yellow),
            colorize,
            cause,
        ),
        None => cause.len() == 0,
    }
}

/// Whether `line` is the line on one attempt.
pub open spec fn is_attempt_line(
    attempt: TaskAttemptMetrics,
    palette: Palette,
    colorize: bool,
    line: Seq<char>,
) -> bool {
    exists|status: Seq<char>, cause: Seq<char>|
        line == #[trigger] attempt_text(attempt, status, cause) && attempt_shown(
            attempt,
            palette,
            colorize,
            status,
            cause,
        )
}

/// Renders one attempt line.
pub fn attempt_line(attempt: &TaskAttemptMetrics, palette: &Palette, colorize: bool) -> (r: String)
    ensures
        is_attempt_line(*attempt, *palette, colorize, r@),
{
    let color: Color = palette.task_status_color(attempt.status);
    let status = show(attempt.status.name(), Style::Colored(color), colorize);
    let ghost mut shown_cause: Seq<char> = Seq::empty();
    let mut line = "    #".to_owned();
    line.append(align_left(i64_to_text(attempt.attempt).as_str(), 3).as_str());
    line.append(" ");
    line.append(align_left(status.as_str(), 12).as_str());
    line.append(" wall ");
    line.append(align_right(format_ms(attempt.wall_time_ms).as_str(), 8).as_str());
    line.append("  queued ");
    line.append(align_right(format_ms(attempt.queued_ms).as_str(), 8).as_str());
    line.append("  ");
    line.append(format_constraints(attempt.constraints.as_ref()).as_str());
    match attempt.exit_status {
        Some(exit_status) => {
            if exit_status != 0 {
                line.append("  exit ");
                line.append(i64_to_text(exit_status as i64).as_str());
            }
        },
        None => {},
    }
    match format_utilization(attempt.utilization.as_ref()) {
        Some(utilization) => {
            line.append("  ");
            line.append(utilization.as_str());
        },
        None => {},
    }
    match &attempt.retry_cause {
        Some(cause) => {
            let cause = show(format_retry_cause(cause), Style::Colored(Color::Yellow), colorize);
            line.append("  ");
            line.append(cause.as_str());
            proof {
                shown_cause = cause@;
            }
        },
        None => {},
    }
    proof {
        assert(line@ == attempt_text(*attempt, status@, shown_cause));
    }
    line
}

/// Lines, each with its end.
pub open spec fn lines_text(lines: Seq<Seq<char>>) -> Seq<char>
    decreases lines.len(),
{
    if lines.len() == 0 {
        Seq::empty()
    } else {
        lines_text(lines.drop_last()) + lines.last() + seq!['\n']
    }
}

/// The ending of a counted noun.
pub open spec fn plural(count: int) -> Seq<char> {
    if count == 1 {
        ""@
    } else {
        "s"@
    }
}

/// The section on one call, given its header and qualifier as they are shown,
/// and the lines on its attempts.
pub open spec fn call_text(
    call: CallMetrics,
    header: Seq<char>,
    qualifier: Seq<char>,
    lines: Seq<Seq<char>>,
) -> Seq<char> {
    "  "@ + header + " "@ + qualifier + "("@ + nat_text(call.attempts@.len()) + " attempt"@ + plural(
        call.attempts@.len() as int,
    ) + ")\n"@ + lines_text(lines)
}

/// Whether the header, the qualifier and the lines of a call are shown as they
/// should be.
///
/// When the call is qualified by a call path, the full identifier is shown so
/// that same-named calls at different nesting levels remain distinguishable.
pub open spec fn call_shown(
    call: CallMetrics,
    palette: Palette,
    colorize: bool,
    header: Seq<char>,
    qualifier: Seq<char>,
    lines: Seq<Seq<char>>,
) -> bool {
    &&& is_shown(call.name@, Style::Bold, colorize, header)
    &&& if call.name@ != call.call_id@ {
        is_shown("("@ + call.call_id@ + ") "@, Style::Dimmed, colorize, qualifier)
    } else {
        qualifier.len() == 0
    }
    &&& lines.len() == call.attempts@.len()
    &&& forall|j: int|
        0 <= j < lines.len() ==> is_attempt_line(
            call.attempts@[j],
            palette,
            colorize,
            #[trigger] lines[j],
        )
}

/// Whether `text` is the section on one call.
pub open spec fn is_call_section(
    call: CallMetrics,
    palette: Palette,
    colorize: bool,
    text: Seq<char>,
) -> bool {
    exists|header: Seq<char>, qualifier: Seq<char>, lines: Seq<Seq<char>>|
        text == #[trigger] call_text(call, header, qualifier, lines) && call_shown(
            call,
            palette,
            colorize,
            header,
            qualifier,
            lines,
        )
}

/// Renders one call section.
pub fn call_section(call: &CallMetrics, palette: &Palette, colorize: bool) -> (r: String)
    ensures
        is_call_section(*call, *palette, colorize, r@),
{
    let header = show(call.name.clone(), Style::Bold, colorize);
    let qualifier = if call.name != call.call_id {
        let mut full = "(".to_owned();
        full.append(call.call_id.as_str());
        full.append(") ");
        show(full, Style::Dimmed, colorize)
    } else {
        String::new()
    };
    let mut out = "  ".to_owned();
    out.append(header.as_str());
    out.append(" ");
    out.append(qualifier.as_str());
    out.append("(");
    out.append(u64_to_text(call.attempts.len() as u64).as_str());
    out.append(" attempt");
    if call.attempts.len() == 1 {
        out.append("");
    } else {
        out.append("s");
    }
    out.append(")\n");
    let ghost head = out@;
    let ghost mut lines: Seq<Seq<char>> = Seq::empty();
    let mut i: usize = 0;
    proof {
        reveal_strlit("\n");
        assert("\n"@ =~= seq!['\n']);
        assert(head + lines_text(lines) =~= head);
    }
    while i < call.attempts.len()
        invariant
            "\n"@ == seq!['\n'],
            i <= call.attempts@.len(),
            lines.len() == i,
            out@ == head + lines_text(lines),
            forall|j: int|
                0 <= j < lines.len() ==> is_attempt_line(
                    call.attempts@[j],
                    *palette,
                    colorize,
                    #[trigger] lines[j],
                ),
        decreases call.attempts.len() - i,
    {
        let line = attempt_line(&call.attempts[i], palette, colorize);
        out.append(line.as_str());
        out.append("\n");
        proof {
            let before = lines;
            lines = lines.push(line@);
            assert(lines.drop_last() =~= before);
            assert(out@ =~= head + lines_text(lines));
            assert forall|j: int| 0 <= j < lines.len() implies is_attempt_line(
                call.attempts@[j],
                *palette,
                colorize,
                #[trigger] lines[j],
            ) by {
                if j < before.len() {
                    assert(lines[j] == before[j]);
                }
            }
        }
        i = i + 1;
    }
    proof {
        assert(out@ == call_text(*call, header@, qualifier@, lines));
    }
    out
}

/// Texts one after another.
pub open spec fn concatenated(texts: Seq<Seq<char>>) -> Seq<char>
    decreases texts.len(),
{
    if texts.len() == 0 {
        Seq::empty()
    } else {
        concatenated(texts.drop_last()) + texts.last()
    }
}

/// The report, given the run's status and the number of retries as they are
/// shown, and the sections on the calls.
pub open spec fn report_text(
    body: RunMetricsResponse,
    status: Seq<char>,
    sections: Seq<Seq<char>>,
    retries: Seq<char>,
) -> Seq<char> {
    "Run `"@ + body.run.name@ + "` ("@ + uuid_text(body.run.uuid) + "): "@ + status + ", wall "@
        + duration_text(body.run.wall_time_ms) + "\n\n"@ + concatenated(sections) + "\n"@ + int_text(
        body.totals.attempts as int,
    ) + " attempt"@ + plural(body.totals.attempts as int) + " total: "@ + retries + ", "@ + int_text(
        body.totals.cached as int,
    ) + " cached, "@ + int_text(body.totals.preempted as int) + " preempted\n"@
}

/// Whether the run's status, the sections and the number of retries are shown as
/// they should be.
pub open spec fn report_shown(
    body: RunMetricsResponse,
    palette: Palette,
    colorize: bool,
    status: Seq<char>,
    sections: Seq<Seq<char>>,
    retries: Seq<char>,
) -> bool {
    &&& is_shown(
        run_status_name(body.run.status),
        Style::BoldColored(run_color(palette, body.run.status)),
        colorize,
        status,
    )
    &&& sections.len() == body.calls@.len()
    &&& forall|i: int|
        0 <= i < sections.len() ==> is_call_section(
            body.calls@[i],
            palette,
            colorize,
            #[trigger] sections[i],
        )
    &&& is_shown(
        int_text(body.totals.retries as int) + " retried"@,
        Style::Colored(Color::Yellow),
        colorize && body.totals.retries > 0,
        retries,
    )
}

/// Whether `text` is the report.
pub open spec fn is_report(
    body: RunMetricsResponse,
    palette: Palette,
    colorize: bool,
    text: Seq<char>,
) -> bool {
    exists|status: Seq<char>, sections: Seq<Seq<char>>, retries: Seq<char>|
        text == #[trigger] report_text(body, status, sections, retries) && report_shown(
            body,
            palette,
            colorize,
            status,
            sections,
            retries,
        )
}

/// Renders the full metrics report.
pub fn render_metrics(body: &RunMetricsResponse, palette: &Palette, colorize: bool) -> (r: String)
    ensures
        is_report(*body, *palette, colorize, r@),
{
    let color: Color = palette.status_color(body.run.status);
    let status = show(body.run.status.name(), Style::BoldColored(color), colorize);
    let mut out = "Run `".to_owned();
    out.append(body.run.name.as_str());
    out.append("` (");
    out.append(body.run.uuid.to_text().as_str());
    out.append("): ");
    out.append(status.as_str());
    out.append(", wall ");
    out.append(format_ms(body.run.wall_time_ms).as_str());
    out.append("\n\n");
    let ghost head = out@;
    let ghost mut sections: Seq<Seq<char>> = Seq::empty();
    let mut i: usize = 0;
    proof {
        assert(head + concatenated(sections) =~= head);
    }
    while i < body.calls.len()
        invariant
            i <= body.calls@.len(),
            sections.len() == i,
            out@ == head + concatenated(sections),
            forall|j: int|
                0 <= j < sections.len() ==> is_call_section(
                    body.calls@[j],
                    *palette,
                    colorize,
                    #[trigger] sections[j],
                ),
        decreases body.calls.len() - i,
    {
        let section = call_section(&body.calls[i], palette, colorize);
        out.append(section.as_str());
        proof {
            let before = sections;
            sections = sections.push(section@);
            assert(sections.drop_last() =~= before);
            assert(out@ =~= head + concatenated(sections));
            assert forall|j: int| 0 <= j < sections.len() implies is_call_section(
                body.calls@[j],
                *palette,
                colorize,
                #[trigger] sections[j],
            ) by {
                if j < before.len() {
                    assert(sections[j] == before[j]);
                }
            }
        }
        i = i + 1;
    }
    let mut retries = i64_to_text(body.totals.retries);
    retries.append(" retried");
    let retries = show(
        retries,
        Style::Colored(Color::Yellow),
        colorize && body.totals.retries > 0,
    );
    out.append("\n");
    out.append(i64_to_text(body.totals.attempts).as_str());
    out.append(" attempt");
    if body.totals.attempts == 1 {
        out.append("");
    } else {
        out.append("s");
    }
    out.append(" total: ");
    out.append(retries.as_str());
    out.append(", ");
    out.append(i64_to_text(body.totals.cached).as_str());
    out.append(" cached, ");
    out.append(i64_to_text(body.totals.preempted).as_str());
    out.append(" preempted\n");
    proof {
        assert(out@ == report_text(*body, status@, sections, retries@));
    }
    out
}

/// Whether a call is reported on when only the calls whose identifier contains
/// `part` are asked for.
pub open spec fn is_selected(call: CallMetrics, part: Option<String>) -> bool {
    match part {
        Some(part) => occurs_in(call.call_id@, part@),
        None => true,
    }
}

/// The calls that are reported on, in order.
pub open spec fn selected_calls(calls: Seq<CallMetrics>, part: Option<String>) -> Seq<CallMetrics>
    decreases calls.len(),
{
    if calls.len() == 0 {
        Seq::empty()
    } else if is_selected(calls.last(), part) {
        selected_calls(calls.drop_last(), part).push(calls.last())
    } else {
        selected_calls(calls.drop_last(), part)
    }
}

/// Keeps the calls whose identifier contains the given part, if any is given.
pub fn select_calls(calls: Vec<CallMetrics>, part: &Option<String>) -> (r: Vec<CallMetrics>)
    ensures
        r@ == selected_calls(calls@, *part),
{
    let ghost all = calls@;
    let mut kept: Vec<CallMetrics> = Vec::new();
    for call in it: calls
        invariant
            it.seq() == all,
            kept@ == selected_calls(all.take(it.index()), *part),
    {
        proof {
            let next = all.take(it.index() + 1);
            assert(next.drop_last() =~= all.take(it.index()));
            assert(next.last() == call);
        }
        let keep = match part {
            Some(part) => contains(call.call_id.as_str(), part.as_str()),
            None => true,
        };
        if keep {
            kept.push(call);
        }
    }
    proof {
        assert(all.take(all.len() as int) =~= all);
    }
    kept
}

/// What the `metrics` command puts out.
pub enum Output {
    /// The response itself, to be written as JSON.
    Json(RunMetricsResponse),
    /// A formatted summary.
    Text(String),
}

/// Whether `response` is `body` with only the calls that are reported on.
pub open spec fn is_selection(
    response: RunMetricsResponse,
    body: RunMetricsResponse,
    part: Option<String>,
) -> bool {
    &&& response.run == body.run
    &&& response.calls@ == selected_calls(body.calls@, part)
    &&& response.totals == body.totals
}

/// Whether `text` is the report on `body` with only the calls that are reported on.
pub open spec fn is_report_on_selection(
    body: RunMetricsResponse,
    part: Option<String>,
    palette: Palette,
    colorize: bool,
    text: Seq<char>,
) -> bool {
    exists|response: RunMetricsResponse| #[trigger]
        is_selection(response, body, part) && is_report(response, palette, colorize, text)
}

/// Handles the `metrics` command, given the run's execution metrics.
///
/// Reports them either as a formatted summary or as raw JSON.
pub fn metrics(args: &Args, body: RunMetricsResponse, palette: &Palette, colorize: bool) -> (r:
    Output)
    ensures
        r is Json <==> args.json,
        r matches Output::Json(response) ==> is_selection(response, body, args.call),
        r matches Output::Text(text) ==> is_report_on_selection(
            body,
            args.call,
            *palette,
            colorize,
            text@,
        ),
{
    let ghost whole = body;
    let body = RunMetricsResponse {
        run: body.run,
        calls: select_calls(body.calls, &args.call),
        totals: body.totals,
    };
    assert(is_selection(body, whole, args.call));
    if args.json {
        Output::Json(body)
    } else {
        let text = render_metrics(&body, palette, colorize);
        assert(is_report(body, *palette, colorize, text@));
        Output::Text(text)
    }
}

/// The line on one attempt, without colours.
pub open spec fn plain_line(attempt: TaskAttemptMetrics) -> Seq<char> {
    attempt_text(
        attempt,
        task_status_name(attempt.status),
        match attempt.retry_cause {
            Some(cause) => retry_cause_text(cause),
            None => Seq::empty(),
        },
    )
}

/// The section on one call, without colours.
pub open spec fn plain_section(call: CallMetrics) -> Seq<char> {
    call_text(
        call,
        call.name@,
        if call.name@ != call.call_id@ {
            "("@ + call.call_id@ + ") "@
        } else {
            Seq::empty()
        },
        Seq::new(call.attempts@.len(), |j: int| plain_line(call.attempts@[j])),
    )
}

/// The report, without colours.
pub open spec fn plain_report(body: RunMetricsResponse) -> Seq<char> {
    report_text(
        body,
        run_status_name(body.run.status),
        Seq::new(body.calls@.len(), |i: int| plain_section(body.calls@[i])),
        int_text(body.totals.retries as int) + " retried"@,
    )
}

/// Without colours, the line on an attempt is determined.
pub proof fn law_plain_lines(attempt: TaskAttemptMetrics, palette: Palette, line: Seq<char>)
    ensures
        is_attempt_line(attempt, palette, false, line) <==> line == plain_line(attempt),
{
    let cause = match attempt.retry_cause {
        Some(cause) => retry_cause_text(cause),
        None => Seq::empty(),
    };
    assert(attempt_shown(attempt, palette, false, task_status_name(attempt.status), cause));
    if is_attempt_line(attempt, palette, false, line) {
        let (status, shown) = choose|status: Seq<char>, shown: Seq<char>|
            line == #[trigger] attempt_text(attempt, status, shown) && attempt_shown(
                attempt,
                palette,
                false,
                status,
                shown,
            );
        assert(shown =~= cause);
    }
}

/// Without colours, the section on a call is determined.
pub proof fn law_plain_sections(call: CallMetrics, palette: Palette, text: Seq<char>)
    ensures
        is_call_section(call, palette, false, text) <==> text == plain_section(call),
{
    let plain = Seq::new(call.attempts@.len(), |j: int| plain_line(call.attempts@[j]));
    let full = if call.name@ != call.call_id@ {
        "("@ + call.call_id@ + ") "@
    } else {
        Seq::empty()
    };
    assert forall|j: int| 0 <= j < plain.len() implies is_attempt_line(
        call.attempts@[j],
        palette,
        false,
        #[trigger] plain[j],
    ) by {
        law_plain_lines(call.attempts@[j], palette, plain[j]);
    }
    assert(call_shown(call, palette, false, call.name@, full, plain));
    if is_call_section(call, palette, false, text) {
        let (header, qualifier, lines) = choose|
            header: Seq<char>,
            qualifier: Seq<char>,
            lines: Seq<Seq<char>>,
        |
            text == #[trigger] call_text(call, header, qualifier, lines) && call_shown(
                call,
                palette,
                false,
                header,
                qualifier,
                lines,
            );
        assert(qualifier =~= full);
        assert forall|j: int| 0 <= j < lines.len() implies #[trigger] lines[j] == plain[j] by {
            law_plain_lines(call.attempts@[j], palette, lines[j]);
        }
        assert(lines =~= plain);
    }
}

/// Without colours, the report is determined.
pub proof fn law_plain_reports(body: RunMetricsResponse, palette: Palette, text: Seq<char>)
    ensures
        is_report(body, palette, false, text) <==> text == plain_report(body),
{
    let plain = Seq::new(body.calls@.len(), |i: int| plain_section(body.calls@[i]));
    let retried = int_text(body.totals.retries as int) + " retried"@;
    assert forall|i: int| 0 <= i < plain.len() implies is_call_section(
        body.calls@[i],
        palette,
        false,
        #[trigger] plain[i],
    ) by {
        law_plain_sections(body.calls@[i], palette, plain[i]);
    }
    assert(report_shown(body, palette, false, run_status_name(body.run.status), plain, retried));
    if is_report(body, palette, false, text) {
        let (status, sections, retries) = choose|
            status: Seq<char>,
            sections: Seq<Seq<char>>,
            retries: Seq<char>,
        |
            text == #[trigger] report_text(body, status, sections, retries) && report_shown(
                body,
                palette,
                false,
                status,
                sections,
                retries,
            );
        assert forall|i: int| 0 <= i < sections.len() implies #[trigger] sections[i]
            == plain[i] by {
            law_plain_sections(body.calls@[i], palette, sections[i]);
        }
        assert(sections =~= plain);
    }
}

/// Without a part to look for, every call is reported on.
pub proof fn law_all_calls_are_reported(calls: Seq<CallMetrics>)
    ensures
        selected_calls(calls, None) == calls,
    decreases calls.len(),
{
    if calls.len() > 0 {
        law_all_calls_are_reported(calls.drop_last());
        assert(calls.drop_last().push(calls.last()) =~= calls);
    } else {
        assert(selected_calls(calls, None) =~= calls);
    }
}

/// With a part to look for, exactly the calls whose identifier contains it are
/// reported on.
pub proof fn law_calls_are_selected_by_part(calls: Seq<CallMetrics>, part: String)
    ensures
        forall|i: int|
            0 <= i < selected_calls(calls, Some(part)).len() ==> occurs_in(
                (#[trigger] selected_calls(calls, Some(part))[i]).call_id@,
                part@,
            ) && calls.contains(selected_calls(calls, Some(part))[i]),
        forall|i: int|
            0 <= i < calls.len() && occurs_in((#[trigger] calls[i]).call_id@, part@)
                ==> selected_calls(calls, Some(part)).contains(calls[i]),
    decreases calls.len(),
{
    if calls.len() > 0 {
        let rest = calls.drop_last();
        let kept_of_rest = selected_calls(rest, Some(part));
        let kept = selected_calls(calls, Some(part));
        law_calls_are_selected_by_part(rest, part);
        assert forall|i: int| 0 <= i < kept.len() implies occurs_in(
            (#[trigger] kept[i]).call_id@,
            part@,
        ) && calls.contains(kept[i]) by {
            if i < kept_of_rest.len() {
                assert(kept[i] == kept_of_rest[i]);
                let k = choose|k: int| 0 <= k < rest.len() && rest[k] == kept[i];
                assert(calls[k] == kept[i]);
            } else {
                assert(calls[calls.len() - 1] == kept[i]);
            }
        }
        assert forall|i: int|
            0 <= i < calls.len() && occurs_in((#[trigger] calls[i]).call_id@, part@) implies
            kept.contains(calls[i]) by {
            if i < rest.len() {
                assert(rest[i] == calls[i]);
                let k = choose|k: int|
                    0 <= k < kept_of_rest.len() && kept_of_rest[k] == calls[i];
                assert(kept[k] == calls[i]);
            } else {
                assert(kept[kept.len() - 1] == calls[i]);
            }
        }
    }
}

} // verus!
