use sprocket_metrics::db::{Database, TaskWrite};
use sprocket_metrics::events::{CrankshaftEvent, EngineEvent, ExitCodes};
use sprocket_metrics::json::{Json, JsonNumber, JsonValue};
use sprocket_metrics::memory::MemoryDatabase;
use sprocket_metrics::status::{LogSource, TaskStatus};
use sprocket_metrics::task_monitor::{
    utilization_patch, Incoming, MonitorError, TaskMonitorSvc, FLUSH_INTERVAL_MS,
    MAX_BUFFERED_WRITES,
};
use sprocket_metrics::time::Timestamp;
use sprocket_metrics::uuid::Uuid;

fn at(secs: i64) -> Timestamp {
    Timestamp::new(secs, 0).unwrap()
}

fn monitor() -> TaskMonitorSvc {
    TaskMonitorSvc::new(Uuid { value: 7 }, "cleanup-".to_string())
}

fn from_value(value: &serde_json::Value) -> Json {
    let held = match value {
        serde_json::Value::Null => JsonValue::Null,
        serde_json::Value::Bool(b) => JsonValue::Bool(*b),
        serde_json::Value::Number(n) => {
            let double = n.as_f64().unwrap();
            JsonValue::Number(JsonNumber {
                integer: n.as_i64(),
                double_bits: double.to_bits(),
                double_text: format!("{double}"),
            })
        }
        serde_json::Value::String(s) => JsonValue::Text(s.clone()),
        serde_json::Value::Array(items) => {
            JsonValue::Array(items.iter().map(from_value).collect())
        }
        serde_json::Value::Object(entries) => JsonValue::Object(
            entries
                .iter()
                .map(|(k, v)| (k.clone(), from_value(v)))
                .collect(),
        ),
    };
    Json {
        text: value.to_string(),
        value: held,
    }
}

fn json(text: &str) -> Json {
    from_value(&serde_json::from_str(text).unwrap())
}

fn initializing(id: &str, name: &str, attempt: u64) -> EngineEvent {
    EngineEvent::TaskInitializing {
        id: id.to_string(),
        name: name.to_string(),
        attempt,
    }
}

fn created(id: u64, name: &str) -> CrankshaftEvent {
    CrankshaftEvent::TaskCreated {
        id,
        name: name.to_string(),
    }
}

fn shown(writes: &[TaskWrite]) -> Vec<String> {
    writes
        .iter()
        .map(|write| match write {
            TaskWrite::Create {
                name,
                run_id,
                status,
                call_id,
                attempt,
            } => format!(
                "create {name} {} {status:?} {call_id:?} {attempt}",
                run_id.value
            ),
            TaskWrite::Localizing { name } => format!("localizing {name}"),
            TaskWrite::Constraints { name, constraints } => {
                format!("constraints {name} {constraints}")
            }
            TaskWrite::RetryCause { name, cause } => format!("cause {name} {cause}"),
            TaskWrite::Utilization { name, patch } => format!("utilization {name} {patch}"),
            TaskWrite::Pending { name, submitted_at } => {
                format!("pending {name} {}", submitted_at.timestamp())
            }
            TaskWrite::Cached { name, completed_at } => {
                format!("cached {name} {}", completed_at.timestamp())
            }
            TaskWrite::Started { name, started_at } => {
                format!("started {name} {}", started_at.timestamp())
            }
            TaskWrite::Completed {
                name,
                exit_status,
                completed_at,
            } => format!(
                "completed {name} {exit_status:?} {}",
                completed_at.timestamp()
            ),
            TaskWrite::Failed {
                name,
                error,
                completed_at,
            } => format!("failed {name} {error} {}", completed_at.timestamp()),
            TaskWrite::Canceled { name, completed_at } => {
                format!("canceled {name} {}", completed_at.timestamp())
            }
            TaskWrite::Preempted { name, completed_at } => {
                format!("preempted {name} {}", completed_at.timestamp())
            }
            TaskWrite::Log {
                name,
                source,
                chunk,
            } => format!("log {name} {source:?} {chunk:?}"),
        })
        .collect()
}

#[test]
fn engine_events_imply_writes() {
    let mut monitor = monitor();
    let events = vec![
        initializing("wf-t", "wf-t-x1", 4),
        EngineEvent::TaskLocalizing {
            name: "wf-t-x1".to_string(),
        },
        EngineEvent::TaskExecuting {
            name: "wf-t-x1".to_string(),
            constraints: Some(json(r#"{"cpu":2,"gpu":null}"#)),
        },
        EngineEvent::TaskRetrying {
            prior_name: "wf-t-x1".to_string(),
            next_name: "wf-t-x2".to_string(),
            attempt: 9,
            cause: Some(json(r#"{"kind":"preempted"}"#)),
        },
        EngineEvent::TaskRetrying {
            prior_name: "stranger".to_string(),
            next_name: "stranger-x2".to_string(),
            attempt: 9,
            cause: Some(json("null")),
        },
        EngineEvent::ReusedCachedExecutionResult {
            id: "wf-c".to_string(),
            name: "wf-c-x1".to_string(),
        },
        EngineEvent::TaskUsageMeasured {
            name: "wf-t-x2".to_string(),
            usage: Some(json(r#"{"max_memory":null,"cpu_time_ms":5}"#)),
        },
        EngineEvent::TaskUtilization {
            name: "wf-t-x2".to_string(),
            utilization: Some(json("null")),
        },
        EngineEvent::TaskParked,
        EngineEvent::TaskUnparked,
    ];
    for event in events {
        assert!(monitor.handle_engine_event_at(event, at(3)).is_ok());
    }
    assert_eq!(
        shown(&monitor.flush()),
        [
            "create wf-t-x1 7 Initializing Some(\"wf-t\") 4",
            "localizing wf-t-x1",
            "constraints wf-t-x1 {\"cpu\":2,\"gpu\":null}",
            "cause wf-t-x1 {\"kind\":\"preempted\"}",
            "create wf-t-x2 7 Initializing Some(\"wf-t\") 4",
            "cause stranger null",
            "create stranger-x2 7 Initializing None 0",
            "create wf-c-x1 7 Initializing Some(\"wf-c\") 0",
            "cached wf-c-x1 3",
            "utilization wf-t-x2 {\"cpu_time_ms\":5}",
        ]
    );
    assert!(monitor.flush().is_empty());
    // Only the cached task is known to have finished.
    assert_eq!(
        shown(&monitor.finish_at(at(8))),
        [
            "canceled wf-t-x1 8",
            "canceled wf-t-x2 8",
            "canceled stranger-x2 8",
        ]
    );
}

#[test]
fn backend_events_imply_writes() {
    let mut monitor = monitor();
    for (id, name) in [(1, "a"), (2, "b"), (3, "c"), (4, "d"), (5, "e")] {
        assert!(monitor
            .handle_crankshaft_event_at(created(id, name), at(1))
            .is_ok());
    }
    monitor.flush();
    let events = vec![
        CrankshaftEvent::TaskStarted { id: 1 },
        CrankshaftEvent::TaskStdout {
            id: 1,
            message: vec![104, 105],
        },
        CrankshaftEvent::TaskStderr {
            id: 1,
            message: vec![33],
        },
        CrankshaftEvent::TaskResourceUsage {
            id: 1,
            usage: Some(json(r#"{"max_memory":9,"disk_used":null}"#)),
        },
        CrankshaftEvent::TaskContainerCreated { id: 1 },
        CrankshaftEvent::TaskContainerExited { id: 1 },
        CrankshaftEvent::ImagePullStarted { id: 1 },
        CrankshaftEvent::ImagePullFailed { id: 1 },
        CrankshaftEvent::ImagePullFinished { id: 1 },
        CrankshaftEvent::TaskCompleted {
            id: 1,
            exit_codes: ExitCodes {
                first: Some(2),
                rest: vec![],
            },
        },
        CrankshaftEvent::TaskFailed {
            id: 2,
            message: "boom".to_string(),
        },
        CrankshaftEvent::TaskCanceled { id: 3 },
        CrankshaftEvent::TaskPreempted { id: 4 },
        // Nothing is known of this one.
        CrankshaftEvent::TaskCanceled { id: 99 },
        CrankshaftEvent::TaskResourceUsage { id: 99, usage: None },
    ];
    for event in events {
        assert!(monitor.handle_crankshaft_event_at(event, at(2)).is_ok());
    }
    assert_eq!(
        shown(&monitor.finish_at(at(9))),
        [
            "started a 2",
            "log a Stdout [104, 105]",
            "log a Stderr [33]",
            "utilization a {\"max_memory\":9}",
            "completed a Some(2) 2",
            "failed b boom 2",
            "canceled c 2",
            "preempted d 2",
            "canceled e 9",
        ]
    );
}

#[test]
fn creation_by_a_backend_submits_the_task() {
    let mut monitor = monitor();
    assert!(monitor
        .handle_crankshaft_event_at(created(1, "a"), at(5))
        .is_ok());
    assert_eq!(
        shown(&monitor.flush()),
        ["create a 7 Pending None 0", "pending a 5"]
    );
}

#[test]
fn cleanup_tasks_leave_no_trace() {
    let mut monitor = monitor();
    assert!(monitor
        .handle_crankshaft_event_at(created(1, "cleanup-chown"), at(1))
        .is_ok());
    assert!(monitor
        .handle_crankshaft_event_at(CrankshaftEvent::TaskStarted { id: 1 }, at(1))
        .is_ok());
    assert!(monitor.finish_at(at(2)).is_empty());
}

#[test]
fn unserializable_values_are_reported() {
    let mut monitor = monitor();
    assert!(monitor
        .handle_crankshaft_event_at(created(1, "a"), at(1))
        .is_ok());
    monitor.flush();
    assert_eq!(
        monitor.handle_engine_event_at(
            EngineEvent::TaskExecuting {
                name: "a".to_string(),
                constraints: None,
            },
            at(1),
        ),
        Err(MonitorError::Constraints)
    );
    assert_eq!(
        monitor.handle_engine_event_at(
            EngineEvent::TaskRetrying {
                prior_name: "a".to_string(),
                next_name: "b".to_string(),
                attempt: 1,
                cause: None,
            },
            at(1),
        ),
        Err(MonitorError::RetryCause)
    );
    assert_eq!(
        monitor.handle_engine_event_at(
            EngineEvent::TaskUsageMeasured {
                name: "a".to_string(),
                usage: None,
            },
            at(1),
        ),
        Err(MonitorError::ResourceUsage)
    );
    assert_eq!(
        monitor.handle_crankshaft_event_at(
            CrankshaftEvent::TaskResourceUsage { id: 1, usage: None },
            at(1),
        ),
        Err(MonitorError::ResourceUsage)
    );
    assert!(monitor.flush().is_empty());
    assert_eq!(
        MonitorError::Constraints.message(),
        "failed to serialize task constraints"
    );
    assert_eq!(
        MonitorError::RetryCause.message(),
        "failed to serialize retry cause"
    );
    assert_eq!(
        MonitorError::ResourceUsage.message(),
        "failed to serialize task resource usage"
    );
}

#[test]
fn patches_leave_out_what_is_null() {
    assert_eq!(
        utilization_patch(&json(r#"{"a":null,"b":1,"c":null,"d":{"inner":null}}"#)),
        r#"{"b":1,"d":{"inner":null}}"#
    );
    assert_eq!(utilization_patch(&json(r#"{"a":null}"#)), "{}");
    assert_eq!(utilization_patch(&json("{}")), "{}");
    assert_eq!(utilization_patch(&json("null")), "null");
    assert_eq!(utilization_patch(&json("[null,true]")), "[null,true]");
}

#[test]
fn patches_are_written_as_serde_json_writes_them() {
    let mut awkward = String::from("é\"\\/\u{7f}\u{2028}");
    for c in 0..0x20u8 {
        awkward.push(c as char);
    }
    let mut entries = serde_json::Map::new();
    entries.insert(awkward.clone(), serde_json::Value::from(1.5));
    entries.insert("gone".to_string(), serde_json::Value::Null);
    entries.insert("kept".to_string(), serde_json::Value::from(awkward));
    entries.insert("list".to_string(), serde_json::Value::from(vec![1, 2]));
    let usage = from_value(&serde_json::Value::Object(entries.clone()));
    entries.retain(|_, value| !value.is_null());
    assert_eq!(
        utilization_patch(&usage),
        serde_json::to_string(&entries).unwrap()
    );
}

#[test]
fn complete_samples_are_their_patch() {
    for text in [r#"{"cpu":[1,{"a":null}],"gib":2.5,"ok":true}"#, "{}", "[null,-3]", "null"] {
        let value: serde_json::Value = serde_json::from_str(text).unwrap();
        assert_eq!(utilization_patch(&from_value(&value)), text);
    }
}

#[test]
fn ticks_and_full_buffers_flush() {
    let mut monitor = monitor();
    assert_eq!(FLUSH_INTERVAL_MS, 250);
    let reaction = monitor.step(Incoming::Tick);
    assert!(reaction.flush.is_empty() && !reaction.done);
    let reaction = monitor.step(Incoming::Engine(initializing("t", "t-x1", 0)));
    assert!(reaction.flush.is_empty() && reaction.failure.is_none());
    assert_eq!(monitor.step(Incoming::Tick).flush.len(), 1);
    for n in 1..MAX_BUFFERED_WRITES {
        let reaction = monitor.step(Incoming::Engine(EngineEvent::TaskLocalizing {
            name: format!("t-{n}"),
        }));
        assert!(reaction.flush.is_empty());
    }
    let reaction = monitor.step(Incoming::Engine(EngineEvent::TaskLocalizing {
        name: "last".to_string(),
    }));
    assert_eq!(reaction.flush.len(), MAX_BUFFERED_WRITES);
    assert!(monitor.flush().is_empty());
}

#[test]
fn the_monitor_ends_on_shutdown_or_when_both_channels_close() {
    let mut shut_down = monitor();
    assert!(!shut_down.step(Incoming::Engine(initializing("t", "t-x1", 0))).done);
    let reaction = shut_down.step(Incoming::Shutdown);
    // A shutdown leaves the flush to the end of the monitor.
    assert!(reaction.done && reaction.flush.is_empty());
    assert_eq!(shut_down.finish().len(), 2);

    let mut closed = monitor();
    assert!(!closed.step(Incoming::Lagged).done);
    assert!(!closed.step(Incoming::Transfer).done);
    assert!(!closed.step(Incoming::TransferClosed).done);
    assert!(!closed.step(Incoming::EngineClosed).done);
    assert!(closed.step(Incoming::CrankshaftClosed).done);

    let reaction = monitor().step(Incoming::Engine(EngineEvent::TaskExecuting {
        name: "a".to_string(),
        constraints: None,
    }));
    assert_eq!(reaction.failure, Some(MonitorError::Constraints));
}

#[test]
fn every_task_ends_up_in_a_terminal_status() {
    let mut monitor = monitor();
    let mut db = MemoryDatabase::new();
    let incoming = vec![
        Incoming::Crankshaft(created(1, "a-x1")),
        Incoming::Engine(initializing("a", "a-x1", 2)),
        Incoming::Engine(EngineEvent::TaskLocalizing {
            name: "a-x1".to_string(),
        }),
        Incoming::Tick,
        Incoming::Crankshaft(CrankshaftEvent::TaskStarted { id: 1 }),
        Incoming::Crankshaft(CrankshaftEvent::TaskStdout {
            id: 1,
            message: vec![1, 2, 3],
        }),
        Incoming::Engine(initializing("b", "b-x1", 0)),
        Incoming::Crankshaft(CrankshaftEvent::TaskCompleted {
            id: 1,
            exit_codes: ExitCodes {
                first: Some(0),
                rest: vec![],
            },
        }),
        Incoming::Shutdown,
    ];
    for (second, incoming) in incoming.into_iter().enumerate() {
        let reaction = monitor.step_at(incoming, at(second as i64));
        assert!(db.apply_task_writes(reaction.flush).is_ok());
    }
    assert!(db.apply_task_writes(monitor.finish_at(at(100))).is_ok());

    let done = match db.get_task("a-x1") {
        Ok(record) => record,
        Err(error) => panic!("{}", error.message()),
    };
    assert_eq!(done.status, TaskStatus::Completed);
    assert_eq!(done.call_id.as_deref(), Some("a"));
    assert_eq!(done.attempt, 2);
    assert_eq!(done.run_id, Uuid { value: 7 });
    assert_eq!(done.started_at, Some(at(4)));
    assert_eq!(done.completed_at, Some(at(7)));
    assert_eq!(done.exit_status, Some(0));
    let written_off = match db.get_task("b-x1") {
        Ok(record) => record,
        Err(error) => panic!("{}", error.message()),
    };
    assert_eq!(written_off.status, TaskStatus::Canceled);
    assert_eq!(written_off.completed_at, Some(at(100)));
    assert_eq!(db.log_count(), 1);
    assert_eq!(db.log(0).unwrap().chunk, vec![1, 2, 3]);
    assert_eq!(db.log(0).unwrap().source, LogSource::Stdout);
}

#[test]
fn tasks_are_watched_once() {
    let mut monitor = monitor();
    for attempt in 0..3 {
        assert!(monitor
            .handle_engine_event_at(initializing("t", "t-x1", attempt), at(1))
            .is_ok());
    }
    monitor.flush();
    assert_eq!(shown(&monitor.finish_at(at(2))), ["canceled t-x1 2"]);
}

#[test]
fn late_announcements_do_not_undo_an_outcome() {
    let mut monitor = monitor();
    let mut db = MemoryDatabase::new();
    assert!(monitor
        .handle_crankshaft_event_at(created(1, "t-x1"), at(1))
        .is_ok());
    assert!(monitor
        .handle_crankshaft_event_at(
            CrankshaftEvent::TaskFailed {
                id: 1,
                message: "boom".to_string(),
            },
            at(2),
        )
        .is_ok());
    assert!(monitor
        .handle_engine_event_at(initializing("t", "t-x1", 1), at(3))
        .is_ok());
    assert!(db.apply_task_writes(monitor.finish_at(at(4))).is_ok());
    let record = db.get_task("t-x1").unwrap();
    assert_eq!(record.status, TaskStatus::Failed);
    assert_eq!(record.completed_at, Some(at(2)));
    assert_eq!(record.call_id.as_deref(), Some("t"));
    assert_eq!(record.attempt, 1);
}

#[test]
fn no_write_is_dropped_whenever_the_monitor_flushes() {
    let events = || {
        vec![
            Incoming::Crankshaft(created(1, "a")),
            Incoming::Engine(initializing("c", "a", 0)),
            Incoming::Crankshaft(CrankshaftEvent::TaskStarted { id: 1 }),
            Incoming::Crankshaft(CrankshaftEvent::TaskCanceled { id: 1 }),
        ]
    };
    let mut unflushed = monitor();
    for incoming in events() {
        assert!(unflushed.step_at(incoming, at(1)).flush.is_empty());
    }
    let expected = shown(&unflushed.finish_at(at(2)));
    assert_eq!(expected.len(), 5);
    for tick_after in 0..events().len() {
        let mut monitor = monitor();
        let mut seen = Vec::new();
        for (n, incoming) in events().into_iter().enumerate() {
            seen.extend(shown(&monitor.step_at(incoming, at(1)).flush));
            if n == tick_after {
                seen.extend(shown(&monitor.step_at(Incoming::Tick, at(1)).flush));
            }
        }
        seen.extend(shown(&monitor.finish_at(at(2))));
        assert_eq!(seen, expected);
    }
}

#[test]
fn finished_tasks_are_not_written_off() {
    let completed = || CrankshaftEvent::TaskCompleted {
        id: 7,
        exit_codes: ExitCodes {
            first: Some(0),
            rest: vec![],
        },
    };
    let late = || {
        vec![
            Incoming::Engine(initializing("wf-a", "a", 0)),
            Incoming::Engine(EngineEvent::TaskRetrying {
                prior_name: "z".to_string(),
                next_name: "a".to_string(),
                attempt: 1,
                cause: Some(json("null")),
            }),
            Incoming::Crankshaft(created(8, "a")),
        ]
    };
    for announcement in 0..late().len() {
        let mut monitor = monitor();
        monitor.step_at(Incoming::Crankshaft(created(7, "a")), at(1));
        monitor.step_at(Incoming::Crankshaft(completed()), at(2));
        monitor.step_at(late().swap_remove(announcement), at(3));
        monitor.reconcile();
        let pending = shown(&monitor.flush());
        assert!(pending.contains(&"completed a Some(0) 2".to_string()));
        assert!(!pending.iter().any(|write| write.starts_with("canceled")));
    }
    // A cached result is terminal too.
    let mut monitor = monitor();
    monitor.step_at(
        Incoming::Engine(EngineEvent::ReusedCachedExecutionResult {
            id: "wf-a".to_string(),
            name: "a".to_string(),
        }),
        at(1),
    );
    monitor.step_at(Incoming::Engine(initializing("wf-a", "a", 0)), at(2));
    monitor.flush();
    assert!(monitor.finish_at(at(3)).is_empty());
}
