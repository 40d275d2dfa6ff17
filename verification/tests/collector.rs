use sprocket_metrics::collector::{
    local_run_summary, local_run_summary_at, MetricsCollection, MetricsCollector, Received,
};
use sprocket_metrics::events::{CrankshaftEvent, EngineEvent, ExitCodes};
use sprocket_metrics::json::{Json, JsonNumber, JsonValue};
use sprocket_metrics::metrics::RunMetricsRun;
use sprocket_metrics::status::{RunStatus, TaskStatus};
use sprocket_metrics::time::Timestamp;
use sprocket_metrics::uuid::Uuid;

fn from_value(value: &serde_json::Value) -> Json {
    let held = match value {
        serde_json::Value::Null => JsonValue::Null,
        serde_json::Value::Bool(b) => JsonValue::Bool(*b),
        serde_json::Value::Number(n) => {
            let double = n.as_f64().unwrap();
            JsonValue::Number(JsonNumber {
                integer: n.as_i64(),
                double_bits: double.to_bits(),
                double_text: format!("{double}"),
            })
        }
        serde_json::Value::String(s) => JsonValue::Text(s.clone()),
        serde_json::Value::Array(items) => {
            JsonValue::Array(items.iter().map(from_value).collect())
        }
        serde_json::Value::Object(entries) => JsonValue::Object(
            entries
                .iter()
                .map(|(k, v)| (k.clone(), from_value(v)))
                .collect(),
        ),
    };
    Json {
        text: value.to_string(),
        value: held,
    }
}

fn json(text: &str) -> Json {
    from_value(&serde_json::from_str(text).unwrap())
}

fn collector() -> MetricsCollector {
    MetricsCollector::new("cleanup-".to_string())
}

fn at(secs: i64) -> Timestamp {
    Timestamp::new(secs, 0).unwrap()
}

fn initializing(id: &str, name: &str, attempt: u64) -> EngineEvent {
    EngineEvent::TaskInitializing {
        id: id.to_string(),
        name: name.to_string(),
        attempt,
    }
}

fn created(id: u64, name: &str) -> CrankshaftEvent {
    CrankshaftEvent::TaskCreated {
        id,
        name: name.to_string(),
    }
}

fn run() -> RunMetricsRun {
    RunMetricsRun {
        uuid: Uuid::nil(),
        name: "test".to_string(),
        status: RunStatus::Completed,
        wall_time_ms: None,
        backend: None,
        sprocket_version: "1.0.0".to_string(),
        transfer: None,
    }
}

#[test]
fn engine_events_accumulate_attempts_constraints_and_retries() {
    let mut collector = collector();

    collector.handle_engine_event(initializing("wf-t", "wf-t-x1", 0));
    collector.handle_engine_event(EngineEvent::TaskExecuting {
        name: "wf-t-x1".to_string(),
        constraints: Some(json(
            r#"{"container":"ubuntu:latest","cpu":2.0,"memory":1024,"gpu":[],"fpga":[],"disks":{}}"#,
        )),
    });
    collector.handle_engine_event(EngineEvent::TaskRetrying {
        prior_name: "wf-t-x1".to_string(),
        next_name: "wf-t-x2".to_string(),
        attempt: 1,
        cause: Some(json(r#"{"kind":"unacceptable_exit_code","code":137}"#)),
    });
    collector.handle_engine_event(initializing("wf-t", "wf-t-x2", 1));

    let response = collector.into_response(run());

    assert_eq!(response.totals.attempts, 2);
    assert_eq!(response.totals.retries, 1);
    assert_eq!(response.calls.len(), 1);

    let call = &response.calls[0];
    assert_eq!(call.call_id, "wf-t");
    assert_eq!(call.attempts.len(), 2);
    assert_eq!(call.attempts[0].name, "wf-t-x1");
    assert_eq!(call.attempts[0].attempt, 0);
    assert_eq!(
        f64::from_bits(
            call.attempts[0]
                .constraints
                .as_ref()
                .unwrap()
                .get_number("cpu")
                .unwrap()
                .double_bits
        ),
        2.0
    );
    assert_eq!(
        call.attempts[0]
            .retry_cause
            .as_ref()
            .unwrap()
            .get_text("kind")
            .unwrap(),
        "unacceptable_exit_code"
    );
    // The successor inherits the call id; its attempt number comes from
    // its own `TaskInitializing` announcement.
    assert_eq!(call.attempts[1].name, "wf-t-x2");
    assert_eq!(call.attempts[1].attempt, 1);
    assert!(call.attempts[1].retry_cause.is_none());
}

#[test]
fn statuses_only_advance() {
    let mut collector = collector();

    collector.handle_engine_event(initializing("wf-t", "wf-t-x1", 0));
    collector.advance("wf-t-x1", TaskStatus::Pending);
    // A late localizing event must not drag the attempt backwards.
    collector.handle_engine_event(EngineEvent::TaskLocalizing {
        name: "wf-t-x1".to_string(),
    });

    assert_eq!(
        collector.record("wf-t-x1").unwrap().status,
        TaskStatus::Pending
    );
}

#[test]
fn cached_results_are_terminal() {
    let mut collector = collector();

    collector.handle_engine_event(EngineEvent::ReusedCachedExecutionResult {
        id: "wf-t".to_string(),
        name: "wf-t-x1".to_string(),
    });

    let record = collector.record("wf-t-x1").unwrap();
    assert_eq!(record.status, TaskStatus::Cached);
    assert!(record.completed_at.is_some());
}

#[test]
fn utilization_is_recorded_on_the_attempt() {
    let mut collector = collector();

    collector.handle_engine_event(initializing("wf-t", "wf-t-x1", 0));
    collector.handle_engine_event(EngineEvent::TaskUtilization {
        name: "wf-t-x1".to_string(),
        utilization: Some(json(
            r#"{"max_memory":241172480,"avg_memory":null,"cpu_time_ms":324000}"#,
        )),
    });

    let utilization = collector
        .record("wf-t-x1")
        .unwrap()
        .utilization
        .as_ref()
        .expect("utilization should be recorded");
    assert_eq!(utilization.get_integer("max_memory"), Some(241_172_480));
    assert_eq!(utilization.get_integer("cpu_time_ms"), Some(324_000));
}

#[test]
fn backend_events_follow_a_task_through_its_life() {
    let mut collector = collector();
    collector.handle_crankshaft_event_at(created(7, "t-x1"), at(10), at(11));
    let record = collector.record("t-x1").unwrap();
    assert_eq!(record.status, TaskStatus::Pending);
    assert_eq!(record.created_at, at(10));
    assert_eq!(record.call_id, None);

    collector.handle_crankshaft_event_at(CrankshaftEvent::TaskStarted { id: 7 }, at(20), at(21));
    // A repeated start keeps the first time.
    collector.handle_crankshaft_event_at(CrankshaftEvent::TaskStarted { id: 7 }, at(30), at(31));
    let record = collector.record("t-x1").unwrap();
    assert_eq!(record.status, TaskStatus::Running);
    assert_eq!(record.started_at, Some(at(21)));

    collector.handle_crankshaft_event_at(
        CrankshaftEvent::TaskCompleted {
            id: 7,
            exit_codes: ExitCodes {
                first: Some(1),
                rest: vec![None, Some(3)],
            },
        },
        at(40),
        at(41),
    );
    // A late failure does not overwrite the completion.
    collector.handle_crankshaft_event_at(
        CrankshaftEvent::TaskFailed {
            id: 7,
            message: "late".to_string(),
        },
        at(50),
        at(51),
    );
    let record = collector.record("t-x1").unwrap();
    assert_eq!(record.status, TaskStatus::Completed);
    assert_eq!(record.exit_status, Some(3));
    assert_eq!(record.completed_at, Some(at(41)));
    assert_eq!(record.created_at, at(10));
}

#[test]
fn terminal_backend_events_are_told_apart() {
    let mut collector = collector();
    let mut id = 0;
    let mut seen = Vec::new();
    for name in ["a", "b", "c"] {
        collector.handle_crankshaft_event_at(created(id, name), at(1), at(1));
        id += 1;
    }
    collector.handle_crankshaft_event_at(
        CrankshaftEvent::TaskFailed {
            id: 0,
            message: "no".to_string(),
        },
        at(2),
        at(2),
    );
    collector.handle_crankshaft_event_at(CrankshaftEvent::TaskCanceled { id: 1 }, at(2), at(2));
    collector.handle_crankshaft_event_at(CrankshaftEvent::TaskPreempted { id: 2 }, at(2), at(2));
    for name in ["a", "b", "c"] {
        seen.push(collector.record(name).unwrap().status);
    }
    assert_eq!(
        seen,
        vec![
            TaskStatus::Failed,
            TaskStatus::Canceled,
            TaskStatus::Preempted
        ]
    );
}

#[test]
fn cleanup_tasks_and_unknown_ids_are_ignored() {
    let mut collector = collector();
    collector.handle_crankshaft_event_at(created(1, "cleanup-chown"), at(1), at(1));
    collector.handle_crankshaft_event_at(CrankshaftEvent::TaskStarted { id: 1 }, at(1), at(1));
    collector.handle_crankshaft_event_at(CrankshaftEvent::TaskCanceled { id: 9 }, at(1), at(1));
    assert!(collector.record("cleanup-chown").is_none());
    assert!(collector.into_tasks(Uuid::nil()).is_empty());
}

#[test]
fn either_channel_may_announce_first() {
    let mut engine_first = collector();
    engine_first.handle_engine_event_at(initializing("wf-t", "wf-t-x1", 3), at(1), at(2));
    engine_first.handle_crankshaft_event_at(created(5, "wf-t-x1"), at(3), at(4));
    let mut backend_first = collector();
    backend_first.handle_crankshaft_event_at(created(5, "wf-t-x1"), at(1), at(2));
    backend_first.handle_engine_event_at(initializing("wf-t", "wf-t-x1", 3), at(3), at(4));
    for collector in [&engine_first, &backend_first] {
        let record = collector.record("wf-t-x1").unwrap();
        assert_eq!(record.status, TaskStatus::Pending);
        assert_eq!(record.call_id.as_deref(), Some("wf-t"));
        assert_eq!(record.attempt, 3);
        assert_eq!(record.created_at, at(1));
    }
}

#[test]
fn backend_resubmissions_stay_in_the_attempt() {
    let mut collector = collector();
    collector.handle_engine_event_at(initializing("wf-t", "wf-t-x1", 2), at(1), at(1));
    collector.handle_engine_event_at(
        EngineEvent::TaskRetrying {
            prior_name: "wf-t-x1".to_string(),
            next_name: "wf-t-x1~1".to_string(),
            attempt: 3,
            cause: None,
        },
        at(2),
        at(3),
    );
    let record = collector.record("wf-t-x1~1").unwrap();
    assert_eq!(record.call_id.as_deref(), Some("wf-t"));
    assert_eq!(record.attempt, 2);
    assert_eq!(record.created_at, at(3));
    assert!(collector.record("wf-t-x1").unwrap().retry_cause.is_none());
}

#[test]
fn huge_attempt_numbers_are_capped() {
    let mut collector = collector();
    collector.handle_engine_event_at(initializing("a", "a-x1", u64::MAX), at(1), at(1));
    collector.handle_engine_event_at(initializing("a", "a-x2", 5), at(1), at(1));
    assert_eq!(collector.record("a-x1").unwrap().attempt, i64::MAX);
    assert_eq!(collector.record("a-x2").unwrap().attempt, 5);
}

#[test]
fn attempts_come_out_in_the_order_of_observation() {
    let mut collector = collector();
    for name in ["z", "a", "m", "a", "z"] {
        collector.handle_engine_event_at(initializing("c", name, 0), at(1), at(1));
    }
    let tasks = collector.into_tasks(Uuid { value: 9 });
    let names: Vec<&str> = tasks.iter().map(|t| t.name.as_str()).collect();
    assert_eq!(names, ["z", "a", "m"]);
    assert_eq!(tasks[0].run_uuid, Uuid { value: 9 });
    assert!(tasks.iter().all(|t| t.submitted_at.is_none()));
}

#[test]
fn responses_refer_to_logs_by_attempt_name() {
    let mut collector = collector();
    collector.handle_engine_event_at(initializing("wf-t", "wf-t-x1", 0), at(1), at(1));
    let response = collector.checked_into_response(run()).unwrap();
    assert_eq!(response.calls[0].attempts[0].logs, "wf-t-x1");
}

#[test]
fn collection_goes_on_until_both_channels_close() {
    let mut collection = MetricsCollection::new(collector());
    assert!(collection.receive(Received::Lagged));
    assert!(collection.receive(Received::Engine(initializing("c", "c-x1", 0))));
    assert!(collection.receive(Received::CrankshaftClosed));
    assert!(collection.receive(Received::Engine(EngineEvent::TaskParked)));
    assert!(!collection.receive(Received::EngineClosed));
    assert!(collection.collector.record("c-x1").is_some());
}

#[test]
fn local_summaries_measure_the_wall_time() {
    let run = local_run_summary_at(
        Uuid { value: 1 },
        "happy-dolphin-42",
        RunStatus::Failed,
        at(100),
        "2.1.0",
        Timestamp::new(103, 999_999_999).unwrap(),
    );
    assert_eq!(run.wall_time_ms, Some(3_999));
    assert_eq!(run.name, "happy-dolphin-42");
    assert_eq!(run.status, RunStatus::Failed);
    assert_eq!(run.sprocket_version, "2.1.0");
    assert_eq!(run.backend, None);

    let run = local_run_summary(
        Uuid::nil(),
        "now",
        RunStatus::Completed,
        Timestamp::now(),
        "2.1.0",
    );
    assert!(run.wall_time_ms.unwrap() >= 0);
}

#[test]
fn the_first_outcome_wins() {
    let mut collector = collector();
    collector.handle_crankshaft_event_at(created(1, "a"), at(1), at(1));
    collector.handle_crankshaft_event_at(
        CrankshaftEvent::TaskCompleted {
            id: 1,
            exit_codes: ExitCodes {
                first: Some(4),
                rest: vec![],
            },
        },
        at(2),
        at(3),
    );
    let later = [
        CrankshaftEvent::TaskPreempted { id: 1 },
        CrankshaftEvent::TaskCanceled { id: 1 },
        CrankshaftEvent::TaskStarted { id: 1 },
        created(2, "a"),
    ];
    for event in later {
        collector.handle_crankshaft_event_at(event, at(8), at(9));
        let record = collector.record("a").unwrap();
        assert_eq!(record.status, TaskStatus::Completed);
        assert_eq!(record.exit_status, Some(4));
        assert_eq!(record.completed_at, Some(at(3)));
        assert_eq!(record.attempt, 0);
        assert_eq!(record.created_at, at(1));
    }
}
