use sprocket_metrics::json::{Json, JsonNumber, JsonValue};
use sprocket_metrics::metrics::{
    build_run_metrics, call_short_name, checked_build_run_metrics, duration_ms, run_summary,
    sort_tasks, RunMetricsRun, RunMetricsTotals, Task, TaskPager, TransferTotals,
};
use sprocket_metrics::status::{status_rank, RunStatus, TaskStatus};
use sprocket_metrics::time::Timestamp;
use sprocket_metrics::uuid::Uuid;

fn at(secs: i64) -> Timestamp {
    Timestamp::new(secs, 0).unwrap()
}

fn task(name: &str, call_id: Option<&str>, attempt: i64, created: i64) -> Task {
    Task {
        name: name.to_string(),
        run_uuid: Uuid::nil(),
        status: TaskStatus::Completed,
        exit_status: Some(0),
        error: None,
        call_id: call_id.map(str::to_string),
        attempt,
        constraints: None,
        retry_cause: None,
        utilization: None,
        created_at: at(created),
        submitted_at: None,
        started_at: None,
        completed_at: None,
    }
}

fn cpu(count: f64) -> Json {
    Json {
        text: format!("{{\"cpu\":{count:?}}}"),
        value: JsonValue::Object(vec![(
            "cpu".to_string(),
            Json {
                text: format!("{count:?}"),
                value: JsonValue::Number(JsonNumber {
                    integer: None,
                    double_bits: count.to_bits(),
                    double_text: format!("{count}"),
                }),
            },
        )]),
    }
}

fn run() -> RunMetricsRun {
    run_summary(
        Uuid::nil(),
        "run".to_string(),
        RunStatus::Completed,
        Some(at(0)),
        Some(at(9)),
        Some("local".to_string()),
        "1.0.0".to_string(),
        None,
    )
}

#[test]
fn short_names_are_the_final_call_path_level() {
    // Top-level calls (and rows recorded before call paths were
    // qualified) are their own short form.
    assert_eq!(call_short_name("t"), "t");
    assert_eq!(call_short_name("ns-t-alias-3"), "ns-t-alias-3");

    // Qualified calls display the final level, which may itself contain
    // single `-` separators.
    assert_eq!(call_short_name("other-sub--t"), "t");
    assert_eq!(call_short_name("a--b--ns-t-alias-3"), "ns-t-alias-3");
}

#[test]
fn short_names_split_at_the_last_separator() {
    for id in ["", "-", "--", "---", "a--", "a---b", "--a", "é--ü"] {
        let expected = id.rsplit_once("--").map(|(_, name)| name).unwrap_or(id);
        assert_eq!(call_short_name(id), expected);
    }
}

#[test]
fn ranks_follow_the_lifecycle() {
    assert_eq!(status_rank(TaskStatus::Initializing), 0);
    assert_eq!(status_rank(TaskStatus::Localizing), 1);
    assert_eq!(status_rank(TaskStatus::Pending), 2);
    assert_eq!(status_rank(TaskStatus::Running), 3);
    for status in [
        TaskStatus::Completed,
        TaskStatus::Cached,
        TaskStatus::Failed,
        TaskStatus::Canceled,
        TaskStatus::Preempted,
        TaskStatus::Orphaned,
    ] {
        assert_eq!(status_rank(status), 4);
    }
}

#[test]
fn durations_need_both_ends() {
    assert_eq!(duration_ms(Some(at(1)), Some(at(3))), Some(2_000));
    assert_eq!(duration_ms(Some(at(3)), Some(at(1))), Some(-2_000));
    assert_eq!(duration_ms(None, Some(at(1))), None);
    assert_eq!(duration_ms(Some(at(1)), None), None);
}

#[test]
fn tasks_are_ordered_by_attempt_creation_and_name() {
    let sorted = sort_tasks(vec![
        task("d", None, 1, 1),
        task("c", None, 0, 5),
        task("b", None, 0, 5),
        task("a", None, 0, 9),
    ]);
    let names: Vec<&str> = sorted.iter().map(|t| t.name.as_str()).collect();
    assert_eq!(names, ["b", "c", "a", "d"]);
}

#[test]
fn calls_are_ordered_by_the_creation_of_their_first_attempt() {
    // The retried call has its second attempt last of all, but its first
    // attempt first.
    let response = build_run_metrics(
        run(),
        vec![
            task("b-x1", Some("b"), 0, 20),
            task("a-x2", Some("a"), 1, 30),
            task("a-x1", Some("a"), 0, 10),
            // Only the second attempt of this call was recorded.
            task("c-x2", Some("c"), 1, 5),
            task("lone", None, 0, 40),
        ],
        |name| format!("/logs/{name}"),
    );
    let ids: Vec<&str> = response.calls.iter().map(|c| c.call_id.as_str()).collect();
    assert_eq!(ids, ["c", "a", "b", "lone"]);
    let names: Vec<&str> = response.calls[1]
        .attempts
        .iter()
        .map(|a| a.name.as_str())
        .collect();
    assert_eq!(names, ["a-x1", "a-x2"]);
    assert_eq!(response.calls[1].attempts[0].logs, "/logs/a-x1");
    assert_eq!(response.totals.attempts, 5);
    assert_eq!(response.run.wall_time_ms, Some(9_000));
    assert_eq!(response.run.backend.as_deref(), Some("local"));
}

#[test]
fn totals_sum_up_the_attempts() {
    let mut preempted = task("a-x1", Some("a"), 0, 1);
    preempted.status = TaskStatus::Preempted;
    preempted.submitted_at = Some(at(2));
    preempted.started_at = Some(at(4));
    preempted.completed_at = Some(at(10));
    preempted.constraints = Some(cpu(1.5));
    preempted.retry_cause = Some(Json {
        text: "null".to_string(),
        value: JsonValue::Null,
    });
    let mut done = task("a-x2", Some("a"), 1, 11);
    done.started_at = Some(at(12));
    done.completed_at = Some(at(15));
    done.constraints = Some(cpu(2.0));
    let mut cached = task("b-x1", Some("b"), 0, 12);
    cached.status = TaskStatus::Cached;
    let response = build_run_metrics(run(), vec![done, cached, preempted], |name| {
        name.to_string()
    });
    assert_eq!(
        response.totals,
        RunMetricsTotals {
            attempts: 3,
            retries: 1,
            cached: 1,
            preempted: 1,
            allocated_cpu_time_ms: 9_000 + 6_000,
            preemption_wasted_ms: 6_000,
        }
    );
    let first = &response.calls[0].attempts[0];
    assert_eq!(first.wall_time_ms, Some(6_000));
    assert_eq!(first.queued_ms, Some(3_000));
    assert_eq!(first.pending_ms, Some(2_000));
    assert_eq!(first.allocated_cpu_time_ms, Some(9_000));
    let last = &response.calls[1].attempts[0];
    assert_eq!(last.wall_time_ms, None);
    assert_eq!(last.queued_ms, None);
    assert_eq!(last.pending_ms, None);
    assert_eq!(last.allocated_cpu_time_ms, None);
}

fn huge(name: &str) -> Task {
    let mut task = task(name, None, 0, 0);
    task.started_at = Some(at(0));
    task.completed_at = Some(at(1));
    task.constraints = Some(cpu(1e300));
    task
}

#[test]
fn overflowing_totals_are_refused() {
    let alone = checked_build_run_metrics(run(), vec![huge("a")], |name| name.to_string());
    assert_eq!(alone.unwrap().totals.allocated_cpu_time_ms, i64::MAX);
    let both = vec![huge("a"), huge("b")];
    assert!(checked_build_run_metrics(run(), both, |name| name.to_string()).is_none());
}

#[test]
fn empty_runs_have_empty_reports() {
    let response = build_run_metrics(run(), Vec::new(), |name| name.to_string());
    assert!(response.calls.is_empty());
    assert_eq!(response.totals, RunMetricsTotals::default());
    assert_eq!(TransferTotals::default().downloaded_bytes, 0);
}

#[test]
fn pages_are_collected_until_the_total_is_reached() {
    let mut pager = TaskPager::new();
    assert_eq!(pager.next_page(), (500, 0));
    assert!(!pager.accept(vec![task("a", None, 0, 0), task("b", None, 0, 0)], 3));
    assert_eq!(pager.next_page(), (500, 2));
    assert!(pager.accept(vec![task("c", None, 0, 0)], 3));
    let names: Vec<&str> = pager.tasks.iter().map(|t| t.name.as_str()).collect();
    assert_eq!(names, ["a", "b", "c"]);
    assert!(TaskPager::new().accept(Vec::new(), 0));
    assert!(!TaskPager::new().accept(Vec::new(), 1));
}

#[test]
fn ordered_tasks_stay_in_order() {
    let names = |tasks: &Vec<Task>| -> Vec<String> {
        tasks.iter().map(|task| task.name.clone()).collect()
    };
    let once = sort_tasks(vec![
        task("b", None, 2, 1),
        task("a", None, 2, 1),
        task("c", None, 1, 7),
    ]);
    let expected = names(&once);
    assert_eq!(expected, ["c", "a", "b"]);
    assert_eq!(names(&sort_tasks(once)), expected);
}

#[test]
fn every_attempt_is_reported_once() {
    let tasks = || {
        vec![
            task("a-x2", Some("a"), 1, 4),
            task("b-x1", Some("b"), 0, 3),
            task("a-x1", Some("a"), 0, 2),
            task("c", None, 0, 1),
        ]
    };
    let mut reversed = tasks();
    reversed.reverse();
    for tasks in [tasks(), reversed] {
        let response = build_run_metrics(run(), tasks, |name| name.to_string());
        let mut names: Vec<String> = response
            .calls
            .iter()
            .flat_map(|call| call.attempts.iter().map(|attempt| attempt.name.clone()))
            .collect();
        names.sort();
        assert_eq!(names, ["a-x1", "a-x2", "b-x1", "c"]);
        assert_eq!(response.totals.attempts, 4);
        assert_eq!(response.calls.len(), 3);
    }
}

#[test]
fn the_order_of_rows_does_not_matter() {
    let rows = || {
        vec![
            task("a-x2", Some("a"), 1, 4),
            task("b-x1", Some("b"), 0, 2),
            task("a-x1", Some("a"), 0, 2),
        ]
    };
    let report = |order: [usize; 3]| {
        let mut tasks: Vec<Option<Task>> = rows().into_iter().map(Some).collect();
        let tasks = order.iter().map(|i| tasks[*i].take().unwrap()).collect();
        let response = build_run_metrics(run(), tasks, |name| name.to_string());
        format!("{response:?}")
    };
    let expected = report([0, 1, 2]);
    for order in [[0, 2, 1], [1, 0, 2], [1, 2, 0], [2, 0, 1], [2, 1, 0]] {
        assert_eq!(report(order), expected);
    }
}
