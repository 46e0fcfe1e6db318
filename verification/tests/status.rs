use yunying_server::json::Json;
use yunying_server::schedule::{HeartbeatConfig, LongCycleTask, ProjectState, RunnerConfig, ScheduledTask};
use yunying_server::status::{
    heartbeat_json, long_cycle_json, project_state_json, runner_status, runtime_state_of_row,
    scheduled_json, task_json_with_runtime, RuntimeState, StatusInputs,
};

fn conv(v: &serde_json::Value) -> Json {
    match v {
        serde_json::Value::Null => Json::Null,
        serde_json::Value::Bool(b) => Json::Bool(*b),
        serde_json::Value::Number(n) => match n.as_i64() {
            Some(i) => Json::Int(i),
            None => Json::Number(n.to_string()),
        },
        serde_json::Value::String(s) => Json::Str(
            s.clone(),
            serde_json::from_str::<serde_json::Value>(s).ok().map(|d| Box::new(conv(&d))),
        ),
        serde_json::Value::Array(a) => Json::Array(a.iter().map(conv).collect()),
        serde_json::Value::Object(m) => {
            Json::Object(m.iter().map(|(k, v)| (k.clone(), conv(v))).collect())
        }
    }
}

fn back(j: &Json) -> serde_json::Value {
    match j {
        Json::Null => serde_json::Value::Null,
        Json::Bool(b) => serde_json::Value::Bool(*b),
        Json::Int(i) => serde_json::Value::from(*i),
        Json::Number(t) => serde_json::from_str(t).unwrap(),
        Json::Str(s, _) => serde_json::Value::String(s.clone()),
        Json::Array(a) => serde_json::Value::Array(a.iter().map(back).collect()),
        Json::Object(e) => {
            let mut m = serde_json::Map::new();
            for (k, v) in e {
                m.insert(k.clone(), back(v));
            }
            serde_json::Value::Object(m)
        }
    }
}

fn parse(text: &str) -> Json {
    conv(&serde_json::from_str::<serde_json::Value>(text).unwrap())
}

fn value(text: &str) -> serde_json::Value {
    serde_json::from_str(text).unwrap()
}

fn definition(id: &str, next: Option<i64>) -> ScheduledTask {
    ScheduledTask {
        id: id.into(),
        name: "日报".into(),
        enabled: true,
        mode: "daily".into(),
        prompt: "写日报".into(),
        project_id: None,
        work_item_id: None,
        subagent_roles: Vec::new(),
        required_tools: Vec::new(),
        allowed_tools: Vec::new(),
        authorized_tools: Vec::new(),
        interval_minutes: None,
        time: Some("09:00".into()),
        weekdays: vec![1, 3],
        run_at: None,
        created_at: 1,
        updated_at: 2,
        last_run_at: None,
        last_result: None,
        last_output: None,
        last_error: None,
        next_run_at: next,
        last_receipt_path: None,
    }
}

fn long_definition(id: &str, next: Option<i64>) -> LongCycleTask {
    LongCycleTask {
        id: id.into(),
        name: "长周期".into(),
        enabled: true,
        status: "running".into(),
        objective: "o".into(),
        step_prompt: "p".into(),
        project_id: Some("proj".into()),
        work_item_id: None,
        subagent_roles: Vec::new(),
        required_tools: Vec::new(),
        allowed_tools: Vec::new(),
        authorized_tools: Vec::new(),
        interval_minutes: 30,
        total_rounds: 4,
        completed_rounds: 1,
        created_at: 1,
        updated_at: 2,
        last_run_at: Some(5),
        last_result: None,
        last_output: None,
        last_error: None,
        next_run_at: next,
        last_receipt_path: None,
    }
}

fn heartbeat() -> HeartbeatConfig {
    HeartbeatConfig {
        enabled: false,
        interval_minutes: 30,
        suppress_empty_report: true,
        report_to_main_session: true,
        prompt: None,
        last_run_at: None,
        next_run_at: None,
        last_digest: None,
    }
}

fn config() -> RunnerConfig {
    RunnerConfig {
        enabled: true,
        interval_minutes: 20,
        keep_alive_when_no_window: true,
        max_projects_per_tick: 1,
        max_automation_per_tick: 2,
        project_states: vec![ProjectState {
            project_id: "proj".into(),
            enabled: true,
            prompt: None,
            last_run_at: None,
            last_result: None,
            last_error: None,
        }],
        heartbeat: heartbeat(),
    }
}

fn state(status: &str, started: Option<i64>) -> RuntimeState {
    RuntimeState { status: status.into(), started_at: started }
}

#[test]
fn status_reports_lease_definitions_and_next_fire() {
    let inputs = StatusInputs {
        config: config(),
        lease: Some(("me".into(), 10_000)),
        instance: "me".into(),
        now: 5_000,
        scheduled: vec![definition("s1", Some(9_000)), definition("s2", Some(7_000))],
        long_cycle: vec![long_definition("l1", Some(8_000))],
        scheduled_states: vec![("s1".into(), state("scheduled", None)), ("s2".into(), state("running", Some(4_000)))],
        long_cycle_states: vec![("l1".into(), state("scheduled", None))],
        active: vec!["s2".into()],
    };
    let s = back(&runner_status(&inputs));
    assert_eq!(s["enabled"], value("true"));
    assert_eq!(s["lockState"], value(r#""owner""#));
    assert_eq!(s["blockedBy"], value("null"));
    assert_eq!(s["leaseExpiresAt"], value(r#""10000""#));
    assert_eq!(s["isTicking"], value("true"));
    assert_eq!(s["currentAutomationTaskId"], value(r#""s2""#));
    // s2 is running, so the earliest waiting definition is l1 at 8000.
    assert_eq!(s["nextAutomationFireAt"], value(r#""8000""#));
    assert_eq!(s["nextTickAt"], value(r#""8000""#));
    assert_eq!(s["inFlightTaskIds"], value(r#"["s2"]"#));
    assert_eq!(s["inFlightLongCycleTaskIds"], value("[]"));
    assert_eq!(s["scheduledTasks"]["s2"]["executionStatus"], value(r#""running""#));
    assert_eq!(s["scheduledTasks"]["s2"]["nextRunAt"], value("null"));
    assert_eq!(s["scheduledTasks"]["s2"]["startedAt"], value(r#""4000""#));
    assert_eq!(s["scheduledTasks"]["s1"]["nextRunAt"], value(r#""9000""#));
    assert_eq!(s["longCycleTasks"]["l1"]["totalRounds"], value("4"));
    assert_eq!(s["projectStates"]["proj"]["enabled"], value("true"));
    assert_eq!(s["heartbeat"]["intervalMinutes"], value("30"));
    assert_eq!(s["capabilities"]["survivesAppExit"], value("false"));

    let other = StatusInputs {
        config: config(),
        lease: Some(("other".into(), 10_000)),
        instance: "me".into(),
        now: 5_000,
        scheduled: Vec::new(),
        long_cycle: Vec::new(),
        scheduled_states: Vec::new(),
        long_cycle_states: Vec::new(),
        active: Vec::new(),
    };
    let p = back(&runner_status(&other));
    assert_eq!(p["lockState"], value(r#""passive""#));
    assert_eq!(p["blockedBy"], value(r#""other""#));
    assert_eq!(p["isTicking"], value("false"));
    assert_eq!(p["currentAutomationTaskId"], value("null"));
    assert_eq!(p["nextAutomationFireAt"], value("null"));
}

#[test]
fn runtime_rows_and_reports() {
    let (id, st) = runtime_state_of_row(&parse(r#"{ "id": "t", "status": "running", "started_at": 12 }"#)).unwrap();
    assert_eq!(id, "t");
    assert_eq!(st.status, "running");
    assert_eq!(st.started_at, Some(12));
    assert!(runtime_state_of_row(&parse(r#"{ "id": "t" }"#)).is_none());

    let report = back(&scheduled_json(&definition("s", Some(3))));
    assert_eq!(report["weekdays"], value("[1, 3]"));
    assert_eq!(report["nextRunAt"], value(r#""3""#));
    assert_eq!(report["projectId"], value("null"));
    let waiting = back(&task_json_with_runtime(scheduled_json(&definition("s", Some(3))), Some(&state("scheduled", None))));
    assert_eq!(waiting["nextRunAt"], value(r#""3""#));
    assert_eq!(waiting["executionStatus"], value(r#""scheduled""#));
    let bare = back(&task_json_with_runtime(scheduled_json(&definition("s", Some(3))), None));
    assert_eq!(bare["executionStatus"], value("null"));
    assert_eq!(bare["startedAt"], value("null"));

    let long = back(&long_cycle_json(&long_definition("l", None)));
    assert_eq!(long["completedRounds"], value("1"));
    assert_eq!(long["lastRunAt"], value(r#""5""#));
    assert_eq!(long["projectId"], value(r#""proj""#));
    let ps = back(&project_state_json(&config().project_states[0]));
    assert_eq!(ps["projectId"], value(r#""proj""#));
    let hb = back(&heartbeat_json(&heartbeat()));
    assert_eq!(hb["suppressEmptyReport"], value("true"));
}
