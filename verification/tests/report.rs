use sprocket_metrics::json::{Json, JsonNumber, JsonValue};
use sprocket_metrics::metrics::{
    CallMetrics, RunMetricsResponse, RunMetricsRun, RunMetricsTotals, TaskAttemptMetrics,
};
use sprocket_metrics::paint::{show, Color, Palette, RunPalette, Style, TaskPalette};
use sprocket_metrics::report::{
    attempt_line, call_section, format_constraints, format_ms, format_retry_cause,
    format_utilization, metrics, render_metrics, Args, Output,
};
use sprocket_metrics::status::{RunStatus, TaskStatus};
use sprocket_metrics::uuid::Uuid;

fn from_value(value: &serde_json::Value) -> Json {
    let held = match value {
        serde_json::Value::Null => JsonValue::Null,
        serde_json::Value::Bool(b) => JsonValue::Bool(*b),
        serde_json::Value::Number(n) => {
            let double = n.as_f64().unwrap();
            JsonValue::Number(JsonNumber {
                integer: n.as_i64(),
                double_bits: double.to_bits(),
                double_text: format!("{double}"),
            })
        }
        serde_json::Value::String(s) => JsonValue::Text(s.clone()),
        serde_json::Value::Array(items) => {
            JsonValue::Array(items.iter().map(from_value).collect())
        }
        serde_json::Value::Object(entries) => JsonValue::Object(
            entries
                .iter()
                .map(|(k, v)| (k.clone(), from_value(v)))
                .collect(),
        ),
    };
    Json {
        text: value.to_string(),
        value: held,
    }
}

fn json(text: &str) -> Json {
    from_value(&serde_json::from_str(text).unwrap())
}

fn palette() -> Palette {
    Palette {
        task: TaskPalette {
            initializing: Color::White,
            localizing: Color::BrightWhite,
            pending: Color::Yellow,
            running: Color::Blue,
            completed: Color::Green,
            cached: Color::Cyan,
            failed: Color::Red,
            canceled: Color::Magenta,
            preempted: Color::BrightYellow,
            orphaned: Color::BrightBlack,
        },
        run: RunPalette {
            running: Color::Blue,
            completed: Color::Green,
            failed: Color::Red,
            canceling: Color::BrightMagenta,
            canceled: Color::Magenta,
            orphaned: Color::BrightBlack,
        },
    }
}

fn attempt(name: &str, number: i64) -> TaskAttemptMetrics {
    TaskAttemptMetrics {
        name: name.to_string(),
        attempt: number,
        status: TaskStatus::Completed,
        exit_status: Some(0),
        wall_time_ms: None,
        queued_ms: None,
        pending_ms: None,
        allocated_cpu_time_ms: None,
        constraints: None,
        retry_cause: None,
        utilization: None,
        logs: format!("/api/v1/tasks/{name}/logs"),
    }
}

fn body() -> RunMetricsResponse {
    let mut first = attempt("wf-align-x1", 0);
    first.exit_status = Some(137);
    first.wall_time_ms = Some(45_500);
    first.queued_ms = Some(300);
    first.constraints = Some(json(
        r#"{"cpu": 4.0, "memory": 8589934592, "gpu": ["nvidia-tesla-t4"]}"#,
    ));
    first.retry_cause = Some(json(r#"{"kind": "unacceptable_exit_code", "code": 137}"#));
    let mut second = attempt("wf-align-x2", 1);
    second.wall_time_ms = Some(37_000);
    second.queued_ms = Some(150);
    second.utilization = Some(json(
        r#"{"max_memory": 12025908428, "avg_memory": 8589934592, "cpu_time_ms": 324000}"#,
    ));
    let mut nested = attempt("sub--wf-align-x1", 0);
    nested.wall_time_ms = Some(10_000);
    nested.queued_ms = Some(100);
    RunMetricsResponse {
        run: RunMetricsRun {
            uuid: Uuid::nil(),
            name: "happy-dolphin-42".to_string(),
            status: RunStatus::Completed,
            wall_time_ms: Some(83_000),
            backend: None,
            sprocket_version: "1.0.0".to_string(),
            transfer: None,
        },
        calls: vec![
            CallMetrics {
                call_id: "wf-align".to_string(),
                name: "wf-align".to_string(),
                attempts: vec![first, second],
            },
            // A call made inside a subworkflow: its identifier carries a
            // call path and displays under its short name.
            CallMetrics {
                call_id: "sub--wf-align".to_string(),
                name: "wf-align".to_string(),
                attempts: vec![nested],
            },
        ],
        totals: RunMetricsTotals {
            attempts: 3,
            retries: 1,
            cached: 0,
            preempted: 0,
            allocated_cpu_time_ms: 0,
            preemption_wasted_ms: 0,
        },
    }
}

#[test]
fn durations_format_across_magnitudes() {
    assert_eq!(format_ms(None), "-");
    assert_eq!(format_ms(Some(250)), "250ms");
    assert_eq!(format_ms(Some(45_500)), "45.5s");
    assert_eq!(format_ms(Some(83_000)), "1m23s");
}

#[test]
fn durations_at_the_edges() {
    assert_eq!(format_ms(Some(0)), "0ms");
    assert_eq!(format_ms(Some(-5)), "-5ms");
    assert_eq!(format_ms(Some(i64::MIN)), "-9223372036854775808ms");
    assert_eq!(format_ms(Some(999)), "999ms");
    assert_eq!(format_ms(Some(1_000)), "1.0s");
    assert_eq!(format_ms(Some(59_999)), "60.0s");
    assert_eq!(format_ms(Some(60_000)), "1m00s");
    assert_eq!(format_ms(Some(3_600_000)), "60m00s");
    assert_eq!(format_ms(Some(i64::MAX)), "153722867280912m55s");
}

#[test]
fn seconds_round_as_doubles_do() {
    for ms in 1_000..60_000i64 {
        assert_eq!(format_ms(Some(ms)), format!("{:.1}s", ms as f64 / 1_000.0));
    }
}

#[test]
fn constraints_summarize_cpu_memory_and_gpus() {
    assert_eq!(format_constraints(None), "-");
    assert_eq!(
        format_constraints(Some(&json(
            r#"{"cpu": 4.0, "memory": 8589934592, "gpu": ["nvidia-tesla-t4"]}"#
        ))),
        "4 cpu, 8.0 GiB, 1 gpu"
    );
    assert_eq!(
        format_constraints(Some(&json(r#"{ "cpu": 2.0, "gpu": [] }"#))),
        "2 cpu"
    );
}

#[test]
fn odd_constraints_are_displayed_as_far_as_they_go() {
    assert_eq!(format_constraints(Some(&json("{}"))), "-");
    assert_eq!(format_constraints(Some(&json("[1]"))), "-");
    assert_eq!(
        format_constraints(Some(&json(r#"{"cpu": "4", "memory": 1.5, "gpu": 1}"#))),
        "-"
    );
    assert_eq!(
        format_constraints(Some(&json(r#"{"gpu": ["a", "b"], "cpu": 0.5, "memory": -1}"#))),
        "0.5 cpu, -0.0 GiB, 2 gpus"
    );
    assert_eq!(
        format_constraints(Some(&json(r#"{"memory": 18446744073709551615}"#))),
        "-"
    );
}

#[test]
fn memory_rounds_as_doubles_do() {
    let gib = 1024.0 * 1024.0 * 1024.0;
    let mut bytes: i64 = 1;
    for step in 0..600i64 {
        for near in [bytes, -bytes, bytes.wrapping_mul(step + 1)] {
            let expected = format!("{:.1} GiB", near as f64 / gib);
            let text = format!("{{\"memory\": {near}}}");
            assert_eq!(format_constraints(Some(&json(&text))), expected);
        }
        bytes = bytes.wrapping_mul(6364136223846793005).wrapping_add(step);
    }
    for bytes in [
        i64::MIN,
        i64::MAX,
        161_061_273,
        53_687_091,
        268_435_456,
        (1 << 53) + 1,
    ] {
        let expected = format!("{:.1} GiB", bytes as f64 / gib);
        let text = format!("{{\"memory\": {bytes}}}");
        assert_eq!(format_constraints(Some(&json(&text))), expected);
    }
}

#[test]
fn utilization_summarizes_peak_memory_and_cpu_time() {
    assert_eq!(format_utilization(None), None);
    assert_eq!(
        format_utilization(Some(&json(
            r#"{"max_memory": 12025908428, "avg_memory": 8589934592, "cpu_time_ms": 324000}"#
        ))),
        Some("peak 11.2 GiB, cpu 5m24s".to_string())
    );
    // A snapshot with only CPU time reports just that.
    assert_eq!(
        format_utilization(Some(&json(r#"{ "cpu_time_ms": 500 }"#))),
        Some("cpu 500ms".to_string())
    );
    // An empty object yields nothing.
    assert_eq!(format_utilization(Some(&json("{}"))), None);
}

#[test]
fn retry_causes_are_told_apart() {
    assert_eq!(
        format_retry_cause(&json(r#"{"kind": "unacceptable_exit_code", "code": 137}"#)),
        "retried: unacceptable exit code 137"
    );
    assert_eq!(
        format_retry_cause(&json(r#"{"kind": "unacceptable_exit_code"}"#)),
        "retried: unacceptable exit code"
    );
    assert_eq!(
        format_retry_cause(&json(r#"{"kind": "preempted", "code": 1}"#)),
        "retried: preempted"
    );
    assert_eq!(
        format_retry_cause(&json(r#"{"kind": "solar flare"}"#)),
        "retried: solar flare"
    );
    assert_eq!(
        format_retry_cause(&json(r#"{"kind": 7, "note": "a\n\"b\""}"#)),
        r#"retried: {"kind":7,"note":"a\n\"b\""}"#
    );
    assert_eq!(format_retry_cause(&json("null")), "retried: null");
}

#[test]
fn report_includes_run_calls_attempts_and_totals() {
    let report = render_metrics(&body(), &palette(), false);
    assert!(report.contains("Run `happy-dolphin-42`"));
    assert!(report.contains("completed, wall 1m23s"));
    // A top-level call displays its identifier without a qualifier.
    assert!(report.contains("wf-align (2 attempts)"));
    assert!(report.contains("#0"));
    assert!(report.contains("exit 137"));
    assert!(report.contains("retried: unacceptable exit code 137"));
    assert!(report.contains("#1"));
    assert!(report.contains("peak 11.2 GiB, cpu 5m24s"));
    // A call inside a subworkflow displays its short name with the full
    // identifier as a qualifier.
    assert!(report.contains("wf-align (sub--wf-align) (1 attempt)"));
    assert!(report.contains("3 attempts total: 1 retried, 0 cached, 0 preempted"));
}

#[test]
fn plain_reports_are_laid_out_exactly() {
    assert_eq!(
        render_metrics(&body(), &palette(), false),
        "Run `happy-dolphin-42` (00000000-0000-0000-0000-000000000000): completed, wall 1m23s\n\
         \n\
         \x20 wf-align (2 attempts)\n\
         \x20   #0   completed    wall    45.5s  queued    300ms  4 cpu, 8.0 GiB, 1 gpu  exit 137  \
         retried: unacceptable exit code 137\n\
         \x20   #1   completed    wall    37.0s  queued    150ms  -  peak 11.2 GiB, cpu 5m24s\n\
         \x20 wf-align (sub--wf-align) (1 attempt)\n\
         \x20   #0   completed    wall    10.0s  queued    100ms  -\n\
         \n\
         3 attempts total: 1 retried, 0 cached, 0 preempted\n"
    );
}

#[test]
fn lines_grow_past_their_columns() {
    let mut line = attempt("long", 12_345);
    line.status = TaskStatus::Initializing;
    line.exit_status = Some(-9);
    line.wall_time_ms = Some(i64::MAX);
    assert_eq!(
        attempt_line(&line, &palette(), false),
        "    #12345 initializing wall 153722867280912m55s  queued        -  -  exit -9"
    );
}

#[test]
fn single_attempts_are_counted_in_the_singular() {
    let mut body = body();
    body.calls.remove(0);
    body.totals.attempts = 1;
    let report = render_metrics(&body, &palette(), false);
    assert!(report.contains("\n1 attempt total: "));
    assert_eq!(
        call_section(&body.calls[0], &palette(), false),
        "  wf-align (sub--wf-align) (1 attempt)\n    #0   completed    wall    10.0s  queued    \
         100ms  -\n"
    );
}

#[test]
fn colors_surround_what_they_color() {
    colored::control::set_override(true);
    let shown = |style| show("text".to_string(), style, true);
    assert_eq!(shown(Style::Bold), "\u{1b}[1mtext\u{1b}[0m");
    assert_eq!(shown(Style::Dimmed), "\u{1b}[2mtext\u{1b}[0m");
    let codes = [
        (Color::Black, "30"),
        (Color::Red, "31"),
        (Color::Green, "32"),
        (Color::Yellow, "33"),
        (Color::Blue, "34"),
        (Color::Magenta, "35"),
        (Color::Cyan, "36"),
        (Color::White, "37"),
        (Color::BrightBlack, "90"),
        (Color::BrightRed, "91"),
        (Color::BrightGreen, "92"),
        (Color::BrightYellow, "93"),
        (Color::BrightBlue, "94"),
        (Color::BrightMagenta, "95"),
        (Color::BrightCyan, "96"),
        (Color::BrightWhite, "97"),
    ];
    for (color, code) in codes {
        assert_eq!(
            shown(Style::Colored(color)),
            format!("\u{1b}[{code}mtext\u{1b}[0m")
        );
        assert_eq!(
            shown(Style::BoldColored(color)),
            format!("\u{1b}[1;{code}mtext\u{1b}[0m")
        );
    }
    // A style that is turned off inside is turned on again.
    assert_eq!(
        show("a\u{1b}[0mb".to_string(), Style::Bold, true),
        "\u{1b}[1ma\u{1b}[0m\u{1b}[1mb\u{1b}[0m"
    );
    assert_eq!(show("text".to_string(), Style::Bold, false), "text");
    let report = render_metrics(&body(), &palette(), true);
    assert!(report.contains("): \u{1b}[1;32mcompleted\u{1b}[0m, wall 1m23s"));
    assert!(report.contains("  \u{1b}[1mwf-align\u{1b}[0m (2 attempts)"));
    assert!(report.contains("\u{1b}[2m(sub--wf-align) \u{1b}[0m(1 attempt)"));
    assert!(report.contains("#0   \u{1b}[32mcompleted\u{1b}[0m wall"));
    assert!(report.contains("\u{1b}[33mretried: unacceptable exit code 137\u{1b}[0m"));
    assert!(report.contains("total: \u{1b}[33m1 retried\u{1b}[0m, 0 cached"));
    let mut calm = body();
    calm.totals.retries = 0;
    assert!(render_metrics(&calm, &palette(), true).contains("total: 0 retried, 0 cached"));
    colored::control::set_override(false);
    assert_eq!(
        render_metrics(&body(), &palette(), true),
        render_metrics(&body(), &palette(), false)
    );
}

fn args(call: Option<&str>, json: bool) -> Args {
    Args {
        run_id: "happy-dolphin-42".to_string(),
        call: call.map(str::to_string),
        json,
    }
}

#[test]
fn calls_are_selected_by_part_of_their_identifier() {
    for (call, expected) in [
        (None, vec!["wf-align", "sub--wf-align"]),
        (Some(""), vec!["wf-align", "sub--wf-align"]),
        (Some("sub"), vec!["sub--wf-align"]),
        (Some("nothing"), vec![]),
    ] {
        match metrics(&args(call, true), body(), &palette(), false) {
            Output::Json(response) => {
                let ids: Vec<&str> = response.calls.iter().map(|c| c.call_id.as_str()).collect();
                assert_eq!(ids, expected);
                // The totals still speak of the whole run.
                assert_eq!(response.totals.attempts, 3);
            }
            Output::Text(_) => panic!("expected JSON output"),
        }
    }
}

#[test]
fn summaries_are_put_out_as_text() {
    match metrics(&args(Some("sub"), false), body(), &palette(), false) {
        Output::Text(text) => {
            assert!(text.contains("(sub--wf-align)"));
            assert!(!text.contains("(2 attempts)"));
            assert!(text.contains("3 attempts total"));
        }
        Output::Json(_) => panic!("expected text output"),
    }
}
