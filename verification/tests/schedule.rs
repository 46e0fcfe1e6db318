use yunying_server::execution::{ExecutionFailure, ExecutionOutput};
use yunying_server::json::Json;
use yunying_server::redclaw_runner::TaskKind;
use yunying_server::schedule::{
    apply_project_settings, apply_runner_settings, check_long_cycle_runnable, check_runner_settings,
    check_trigger, claim_allowed, claim_long_cycle, claim_scheduled, complete_long_cycle,
    complete_scheduled, compute_next_scheduled, due_capacity, first_local_instant, next_local_time, execution_record, lease_action,
    lease_available, lease_fresh, lease_view, long_cycle_definition, long_cycle_enable_decision,
    new_long_cycle_task, new_scheduled_task, normalize_loaded_config, parse_hhmm, parse_time_ms,
    receipt_failed, recover_long_cycle, recover_scheduled, resume_long_cycle, resume_scheduled,
    safe_component, sanitize_hhmm, sanitize_weekdays, scheduled_definition,
    scheduled_enable_decision, select_due, settings_effect, timestamp_value, truncate_chars,
    validate_task_instruction, EnableDecision, LeaseAction, LongCycleTask, RowStatus,
    RunnerConfig, ScheduledTask,
};

fn conv(v: &serde_json::Value) -> Json {
    match v {
        serde_json::Value::Null => Json::Null,
        serde_json::Value::Bool(b) => Json::Bool(*b),
        serde_json::Value::Number(n) => match n.as_i64() {
            Some(i) => Json::Int(i),
            None => Json::Number(n.to_string()),
        },
        serde_json::Value::String(s) => Json::Str(
            s.clone(),
            serde_json::from_str::<serde_json::Value>(s).ok().map(|d| Box::new(conv(&d))),
        ),
        serde_json::Value::Array(a) => Json::Array(a.iter().map(conv).collect()),
        serde_json::Value::Object(m) => {
            Json::Object(m.iter().map(|(k, v)| (k.clone(), conv(v))).collect())
        }
    }
}

fn parse(text: &str) -> Json {
    conv(&serde_json::from_str::<serde_json::Value>(text).unwrap())
}

fn system_now_ms() -> i64 {
    std::time::SystemTime::now()
        .duration_since(std::time::UNIX_EPOCH)
        .map(|d| d.as_millis() as i64)
        .unwrap_or(0)
}

const NOW: i64 = 1_800_000_000_000;

fn scheduled(mode: &str, now: i64) -> ScheduledTask {
    ScheduledTask {
        id: "t".into(),
        name: "daily".into(),
        enabled: true,
        mode: mode.into(),
        prompt: "x".into(),
        project_id: None,
        work_item_id: None,
        subagent_roles: Vec::new(),
        required_tools: Vec::new(),
        allowed_tools: Vec::new(),
        authorized_tools: Vec::new(),
        interval_minutes: None,
        time: Some("09:00".into()),
        weekdays: Vec::new(),
        run_at: None,
        created_at: now,
        updated_at: now,
        last_run_at: None,
        last_result: None,
        last_output: None,
        last_error: None,
        next_run_at: None,
        last_receipt_path: None,
    }
}

fn long_task(total: i64, done: i64) -> LongCycleTask {
    LongCycleTask {
        id: "long_1".into(),
        name: "长周期任务".into(),
        enabled: true,
        status: "running".into(),
        objective: "verify long cycle".into(),
        step_prompt: "write".into(),
        project_id: None,
        work_item_id: None,
        subagent_roles: Vec::new(),
        required_tools: vec!["create_note".into()],
        allowed_tools: vec!["create_note".into()],
        authorized_tools: Vec::new(),
        interval_minutes: 5,
        total_rounds: total,
        completed_rounds: done,
        created_at: NOW,
        updated_at: NOW,
        last_run_at: None,
        last_result: None,
        last_output: None,
        last_error: None,
        next_run_at: Some(NOW + 300_000),
        last_receipt_path: None,
    }
}

#[test]
fn local_daily_and_weekly_next_run_are_strictly_future() {
    let now = system_now_ms();
    let task = scheduled("daily", now);
    assert!(compute_next_scheduled(&task, now).unwrap() > now);
    let mut weekly = task;
    weekly.mode = "weekly".into();
    weekly.weekdays = vec![0, 6];
    assert!(compute_next_scheduled(&weekly, now).unwrap() > now);
}

#[test]
fn interval_and_once_next_runs() {
    let mut t = scheduled("interval", NOW);
    t.interval_minutes = Some(1);
    assert_eq!(compute_next_scheduled(&t, NOW), Some(NOW + 60_000));
    t.interval_minutes = None;
    assert_eq!(compute_next_scheduled(&t, NOW), Some(NOW + 3_600_000));
    let mut o = scheduled("once", NOW);
    o.run_at = Some(NOW + 60_000);
    assert_eq!(compute_next_scheduled(&o, NOW), Some(NOW + 60_000));
    assert_eq!(compute_next_scheduled(&o, NOW + 60_000), None);
    assert_eq!(compute_next_scheduled(&scheduled("hourly", NOW), NOW), None);
    let mut bad = scheduled("daily", NOW);
    bad.time = Some("25:00".into());
    assert_eq!(compute_next_scheduled(&bad, NOW), None);
}

#[test]
fn hhmm_parsing_and_normalizing() {
    assert_eq!(parse_hhmm("09:00"), Some((9, 0)));
    assert_eq!(parse_hhmm("+9:5"), Some((9, 5)));
    assert_eq!(parse_hhmm("23:59"), Some((23, 59)));
    assert_eq!(parse_hhmm("24:00"), None);
    assert_eq!(parse_hhmm("9:00:00"), None);
    assert_eq!(parse_hhmm("9"), None);
    assert_eq!(parse_hhmm(" 9:00"), None);
    assert_eq!(sanitize_hhmm(Some(" 9:5 ")).unwrap(), "09:05");
    assert_eq!(sanitize_hhmm(Some("12:30")).unwrap(), "12:30");
    assert_eq!(sanitize_hhmm(None).unwrap_err(), "time is required for daily/weekly task");
    assert_eq!(sanitize_hhmm(Some("noon")).unwrap_err(), "time must use 24-hour HH:mm format");
}

#[test]
fn weekdays_are_sorted_distinct_and_default_to_monday() {
    assert_eq!(sanitize_weekdays(Some(&parse("[6, 0, 6, 9, -1, \"2\"]"))), vec![0, 6]);
    assert_eq!(sanitize_weekdays(Some(&parse("[]"))), vec![1]);
    assert_eq!(sanitize_weekdays(None), vec![1]);
}

#[test]
fn instructions_and_components() {
    assert_eq!(
        validate_task_instruction("〔请填写主题〕", "prompt").unwrap_err(),
        "prompt contains unfilled placeholders"
    );
    assert!(validate_task_instruction("〔已完成〕", "prompt").is_ok());
    assert_eq!(
        validate_task_instruction(&"x".repeat(64_001), "stepPrompt").unwrap_err(),
        "stepPrompt exceeds 64000 character limit"
    );
    assert_eq!(safe_component("exec_1/../a b"), "exec_1____a_b");
    assert_eq!(truncate_chars("学习桌广告", 2), "学习");
    assert!(matches!(timestamp_value(Some(-5)), Json::Str(s, _) if s == "-5"));
    assert!(matches!(timestamp_value(None), Json::Null));
}

#[test]
fn time_values_parse_as_rfc3339_or_millis() {
    assert_eq!(parse_time_ms("2027-01-15T08:00:00Z"), Some(1_800_000_000_000));
    assert_eq!(parse_time_ms(" 1800000000000 "), Some(1_800_000_000_000));
    assert_eq!(parse_time_ms("1970-01-01T00:00:01+00:00"), Some(1000));
    assert_eq!(parse_time_ms("tomorrow"), None);
}

#[test]
fn failed_or_cancelled_runs_never_stay_scheduled() {
    let mut t = scheduled("interval", NOW);
    t.interval_minutes = Some(1);
    let (ok, row) = complete_scheduled(t.clone(), "succeeded", "done".into(), None, Some("r.json".into()), NOW);
    assert_eq!(row, RowStatus::Scheduled);
    assert_eq!(ok.next_run_at, Some(NOW + 60_000));
    assert_eq!(ok.last_result.as_deref(), Some("success"));
    assert_eq!(ok.last_output.as_deref(), Some("done"));
    let (failed, row) = complete_scheduled(t.clone(), "failed", String::new(), Some("boom".into()), None, NOW);
    assert_eq!(row, RowStatus::Failed);
    assert!(!failed.enabled && failed.next_run_at.is_none());
    assert_eq!(failed.last_result.as_deref(), Some("error"));
    assert!(failed.last_output.is_none());
    let (cancelled, row) = complete_scheduled(t, "cancelled", String::new(), None, None, NOW);
    assert_eq!(row, RowStatus::Paused);
    assert!(cancelled.enabled && cancelled.next_run_at.is_none());
    assert_eq!(cancelled.last_result.as_deref(), Some("skipped"));
    let mut once = scheduled("once", NOW);
    once.run_at = Some(NOW);
    let (done, row) = complete_scheduled(once.clone(), "succeeded", "x".into(), None, None, NOW);
    assert_eq!(row, RowStatus::Completed);
    assert!(!done.enabled);
    let (c, row) = complete_scheduled(once, "cancelled", String::new(), None, None, NOW);
    assert_eq!(row, RowStatus::Failed);
    assert!(!c.enabled);
}

#[test]
fn long_cycle_counts_only_successful_rounds() {
    let (t, row) = complete_long_cycle(long_task(2, 0), "succeeded", "r1".into(), None, None, NOW);
    assert_eq!((t.completed_rounds, row), (1, RowStatus::Scheduled));
    assert_eq!(t.next_run_at, Some(NOW + 300_000));
    assert_eq!(t.status, "running");
    let (t2, row) = complete_long_cycle(t, "succeeded", "r2".into(), None, None, NOW);
    assert_eq!((t2.completed_rounds, row), (2, RowStatus::Completed));
    assert!(!t2.enabled && t2.status == "completed" && t2.next_run_at.is_none());
    let (c, row) = complete_long_cycle(long_task(2, 0), "cancelled", String::new(), Some("已取消".into()), None, NOW);
    assert_eq!((c.completed_rounds, row), (0, RowStatus::Paused));
    assert_eq!(c.status, "paused");
    let (f, row) = complete_long_cycle(long_task(2, 0), "failed", String::new(), None, None, NOW);
    assert_eq!((f.completed_rounds, row, f.enabled), (0, RowStatus::Failed, false));
}

#[test]
fn interrupted_runs_are_not_replayed() {
    let r = recover_scheduled(scheduled("once", NOW), NOW + 1);
    assert!(!r.enabled && r.next_run_at.is_none());
    assert!(r.last_error.unwrap().contains("未自动重放"));
    let l = recover_long_cycle(long_task(3, 1), NOW + 1);
    assert_eq!((l.status.as_str(), l.completed_rounds, l.enabled), ("paused", 1, false));
}

#[test]
fn resuming_schedules_only_idle_enabled_definitions() {
    let mut t = scheduled("interval", NOW);
    t.interval_minutes = Some(2);
    let r = resume_scheduled(t.clone(), Some("paused"), NOW).unwrap();
    assert_eq!(r.next_run_at, Some(NOW + 120_000));
    assert!(resume_scheduled(t.clone(), Some("running"), NOW).is_none());
    t.next_run_at = Some(NOW + 5);
    assert!(resume_scheduled(t.clone(), Some("scheduled"), NOW).is_none());
    t.enabled = false;
    assert!(resume_scheduled(t, None, NOW).is_none());
    assert!(resume_scheduled(scheduled("once", NOW), None, NOW).is_none());
    let mut l = long_task(3, 1);
    l.next_run_at = None;
    let r = resume_long_cycle(l.clone(), None, NOW).unwrap();
    assert_eq!(r.next_run_at, Some(NOW + 300_000));
    assert!(resume_long_cycle(long_task(3, 3), None, NOW).is_none());
}

#[test]
fn due_tasks_come_earliest_first_and_respect_capacity() {
    let mut a = scheduled("interval", NOW);
    a.id = "a".into();
    a.next_run_at = Some(NOW - 10);
    let mut b = scheduled("interval", NOW);
    b.id = "b".into();
    b.next_run_at = Some(NOW - 30);
    let mut c = scheduled("interval", NOW);
    c.id = "c".into();
    c.next_run_at = Some(NOW + 10);
    let mut d = scheduled("interval", NOW);
    d.id = "d".into();
    d.enabled = false;
    d.next_run_at = Some(NOW - 50);
    let mut l = long_task(3, 0);
    l.next_run_at = Some(NOW - 10);
    let done = long_task(3, 3);
    let due = select_due(&vec![a, b, c, d], &vec![l, done], NOW, 10);
    let ids: Vec<(&str, TaskKind)> = due.iter().map(|t| (t.id.as_str(), t.kind)).collect();
    assert_eq!(ids, vec![("b", TaskKind::Scheduled), ("a", TaskKind::Scheduled), ("long_1", TaskKind::LongCycle)]);
    assert_eq!(select_due(&vec![], &vec![long_task(3, 0)], NOW + 300_000, 0).len(), 0);
    assert_eq!(due_capacity(2, 1), 1);
    assert_eq!(due_capacity(0, 0), 1);
    assert_eq!(due_capacity(2, 5), 0);
}

#[test]
fn trigger_and_claim_checks() {
    assert_eq!(check_trigger(false, false, 0, 2).unwrap_err(), "自动调度器已暂停；请先启动调度器再执行任务");
    assert_eq!(check_trigger(true, true, 0, 2).unwrap_err(), "Task is already running");
    assert_eq!(check_trigger(true, false, 2, 2).unwrap_err(), "已达到自动任务并发上限，请等待在途任务完成");
    assert!(check_trigger(true, false, 1, 2).is_ok());
    assert_eq!(check_long_cycle_runnable(&long_task(2, 2)).unwrap_err(), "Long cycle task is already completed");
    assert!(claim_allowed("scheduled", false));
    assert!(!claim_allowed("paused", false));
    assert!(claim_allowed("paused", true));
    assert!(!claim_allowed("running", true));
}

#[test]
fn lease_rules() {
    assert!(lease_fresh(true, NOW + 60_000, NOW));
    assert!(!lease_fresh(true, NOW + 20_000, NOW));
    assert!(lease_available(None, None, "me", NOW));
    assert!(lease_available(Some("me"), Some(NOW + 10), "me", NOW));
    assert!(!lease_available(Some("other"), Some(NOW + 10), "me", NOW));
    assert!(lease_available(Some("other"), Some(NOW), "me", NOW));
    assert_eq!(lease_action(true, false, false), LeaseAction::RecoverInterrupted);
    assert_eq!(lease_action(false, true, true), LeaseAction::CancelActive);
    assert_eq!(lease_action(true, true, true), LeaseAction::Nothing);
    let (owns, blocked) = lease_view(&Some(("other".to_string(), NOW + 5)), "me", NOW);
    assert!(!owns);
    assert_eq!(blocked.as_deref(), Some("other"));
}

#[test]
fn settings_are_clamped_and_refusals_explained() {
    assert!(check_runner_settings(&parse(r#"{"keepAliveWhenNoWindow": true}"#)).is_err());
    assert!(check_runner_settings(&parse(r#"{"heartbeatEnabled": true}"#)).is_err());
    let c = apply_runner_settings(
        RunnerConfig::default(),
        &parse(r#"{"intervalMinutes": 999, "maxAutomationPerTick": 0, "heartbeatIntervalMinutes": 1, "heartbeatPrompt": "  "}"#),
        false,
    )
    .unwrap();
    assert_eq!((c.interval_minutes, c.max_automation_per_tick, c.heartbeat.interval_minutes), (180, 1, 5));
    assert!(c.heartbeat.prompt.is_none());
    let mut paused = RunnerConfig::default();
    paused.enabled = false;
    assert_eq!(
        apply_runner_settings(paused, &parse(r#"{"enabled": true}"#), true).unwrap_err(),
        "仍有任务正在停止，请等待执行状态结束后再启动调度器"
    );
    assert_eq!(settings_effect(false, Some(true)), (true, false));
    assert_eq!(settings_effect(true, Some(false)), (false, true));
    let p = apply_project_settings(RunnerConfig::default(), &parse(r#"{"projectId": "p1", "prompt": "hi"}"#)).unwrap();
    let p = apply_project_settings(p, &parse(r#"{"projectId": "p1"}"#)).unwrap();
    assert_eq!(p.project_states.len(), 1);
    assert_eq!(p.project_states[0].prompt.as_deref(), Some("hi"));
    assert!(apply_project_settings(RunnerConfig::default(), &parse(r#"{"projectId": "p1", "enabled": true}"#)).is_err());
    assert_eq!(apply_project_settings(RunnerConfig::default(), &parse("{}")).unwrap_err(), "projectId is required");
}

#[test]
fn status_never_claims_unimplemented_heartbeat_or_process_exit_execution() {
    let mut stored = RunnerConfig::default();
    stored.keep_alive_when_no_window = true;
    stored.heartbeat.enabled = true;
    let stored = apply_project_settings(stored, &parse(r#"{"projectId": "p"}"#)).unwrap();
    let mut stored = stored;
    stored.project_states[0].enabled = true;
    let loaded = normalize_loaded_config(stored);
    assert!(!loaded.keep_alive_when_no_window);
    assert!(!loaded.heartbeat.enabled);
    assert!(loaded.project_states.iter().all(|p| !p.enabled));
}

fn request(extra: &str) -> Json {
    parse(&format!(
        r#"{{"requiredTools": ["create_note"], "allowedTools": ["create_note"], {extra}}}"#
    ))
}

#[test]
fn scheduled_definitions_from_requests() {
    let t = scheduled_definition(&request(r#""mode": " Interval ", "prompt": "p", "intervalMinutes": 0"#), NOW, "sched_1".into()).unwrap();
    assert_eq!((t.mode.as_str(), t.interval_minutes, t.next_run_at), ("interval", Some(1), Some(NOW + 60_000)));
    assert_eq!(t.name, "定时任务");
    let w = scheduled_definition(&request(r#""mode": "weekly", "prompt": "p", "time": "8:05", "weekdays": [3, 1]"#), NOW, "x".into()).unwrap();
    assert_eq!((w.time.as_deref(), w.weekdays.clone()), (Some("08:05"), vec![1, 3]));
    assert!(w.next_run_at.unwrap() > NOW);
    let o = scheduled_definition(&request(r#""mode": "once", "prompt": "p", "runAt": "1800000060000", "enabled": false"#), NOW, "x".into()).unwrap();
    assert_eq!((o.run_at, o.next_run_at, o.enabled), (Some(NOW + 60_000), None, false));
    let err = |extra: &str| scheduled_definition(&request(extra), NOW, "x".into()).unwrap_err();
    assert_eq!(err(r#""mode": "hourly", "prompt": "p""#), "mode must be one of interval/daily/weekly/once");
    assert_eq!(err(r#""mode": "daily""#), "prompt is required");
    assert_eq!(err(r#""mode": "once", "prompt": "p""#), "runAt is required for once task");
    assert_eq!(err(r#""mode": "once", "prompt": "p", "runAt": "soon""#), "runAt must be an ISO-8601 datetime");
    assert_eq!(err(r#""mode": "once", "prompt": "p", "runAt": "1800000000000""#), "runAt must be in the future");
    let no_tools = scheduled_definition(&parse(r#"{"prompt": "p"}"#), NOW, "x".into()).unwrap_err();
    assert_eq!(no_tools, "requiredTools must contain at least one verifiable tool");
    let consent = scheduled_definition(
        &parse(r#"{"prompt": "p", "requiredTools": ["create_note"], "allowedTools": ["create_note", "generate_image"]}"#),
        NOW,
        "x".into(),
    )
    .unwrap_err();
    assert_eq!(consent, "付费生成或发布工具必须在 authorizedTools 中显式确认：generate_image");
    let fresh = new_scheduled_task(&request(r#""prompt": "p""#), NOW).unwrap();
    assert!(fresh.id.starts_with("sched_"));
}

#[test]
fn long_cycle_definitions_from_requests() {
    let t = long_cycle_definition(&request(r#""objective": "o", "stepPrompt": "s", "totalRounds": 500"#), NOW, "long_1".into()).unwrap();
    assert_eq!((t.total_rounds, t.interval_minutes, t.next_run_at), (200, 60, Some(NOW + 3_600_000)));
    assert_eq!((t.status.as_str(), t.name.as_str()), ("running", "长周期任务"));
    let off = long_cycle_definition(&request(r#""objective": "o", "stepPrompt": "s", "enabled": false"#), NOW, "x".into()).unwrap();
    assert_eq!((off.status.as_str(), off.next_run_at, off.total_rounds), ("paused", None, 8));
    assert_eq!(long_cycle_definition(&request(r#""objective": "o""#), NOW, "x".into()).unwrap_err(), "stepPrompt is required");
    assert!(new_long_cycle_task(&request(r#""objective": "o", "stepPrompt": "s""#), NOW).unwrap().id.starts_with("long_"));
}

#[test]
fn enabling_and_disabling() {
    let mut once = scheduled("once", NOW);
    once.run_at = Some(NOW - 1);
    once.enabled = false;
    assert_eq!(
        scheduled_enable_decision(once, true, false, NOW).err().unwrap(),
        "一次性任务时间已经过去，请新建任务并选择未来时间"
    );
    let mut t = scheduled("interval", NOW);
    t.interval_minutes = Some(1);
    match scheduled_enable_decision(t.clone(), false, true, NOW).ok().unwrap() {
        EnableDecision::CancelRunning(x) => assert!(!x.enabled && x.next_run_at.is_none()),
        _ => panic!("expected cancel"),
    }
    match scheduled_enable_decision(t, true, false, NOW).ok().unwrap() {
        EnableDecision::Save(x, row) => {
            assert_eq!(row, RowStatus::Scheduled);
            assert_eq!(x.next_run_at, Some(NOW + 60_000));
        }
        _ => panic!("expected save"),
    }
    assert_eq!(
        long_cycle_enable_decision(long_task(2, 2), true, false, NOW).err().unwrap(),
        "Long cycle task is already completed"
    );
    let mut stopping = long_task(3, 1);
    stopping.enabled = false;
    assert_eq!(long_cycle_enable_decision(stopping, true, true, NOW).err().unwrap(), "任务仍在停止中，请稍后再启用");
}

#[test]
fn claimed_prompts_carry_the_authorization_snapshot() {
    let mut t = scheduled("interval", NOW);
    t.allowed_tools = vec!["create_note".into(), "search".into()];
    t.required_tools = vec!["create_note".into()];
    t.project_id = Some("rc_1".into());
    let c = claim_scheduled(&t, "exec_1", NOW);
    assert!(c.prompt.starts_with("调度执行 ID（也是工具支持时必须传入的 idempotency key）：exec_1\n项目 ID：rc_1\n工作项 ID：（无）\n本次只允许调用：create_note, search\n其中必须调用：create_note\n已显式授权的付费/发布工具：（无）\n"));
    assert!(c.prompt.ends_with("不可变任务指令：\nx"));
    let mut l = long_task(3, 1);
    l.last_output = Some("上一轮".into());
    let c = claim_long_cycle(&l, "exec_2", NOW);
    assert!(c.prompt.contains("长周期目标：verify long cycle\n当前轮次：2/3\n上一轮结果：上一轮\n本轮执行指令：write"));
    assert_eq!(c.kind, TaskKind::LongCycle);
}

#[test]
fn execution_records_never_turn_failures_into_success() {
    let ok = execution_record(Ok(ExecutionOutput { response: "done".into(), tools: Vec::new() }));
    assert_eq!((ok.status.as_str(), ok.response.as_str()), ("succeeded", "done"));
    let c = execution_record(Err(ExecutionFailure::Cancelled));
    assert_eq!((c.status.as_str(), c.error.as_deref()), ("cancelled", Some("任务已取消；未记录为成功")));
    let f = execution_record(Err(ExecutionFailure::Failed("boom".into())));
    assert_eq!(f.status, "failed");
    let r = receipt_failed(ok, "disk full");
    assert_eq!((r.status.as_str(), r.response.as_str()), ("failed", ""));
    assert_eq!(r.error.as_deref(), Some("执行回执持久化失败，任务未记录为成功：disk full"));
}

#[test]
fn local_times_need_a_valid_time_and_a_named_weekday() {
    let now = system_now_ms();
    assert_eq!(next_local_time(now, "25:00", None), None);
    assert_eq!(next_local_time(now, "09:00", Some(&Vec::new())), None);
    assert_eq!(next_local_time(now, "09:00", Some(&vec![7, -1])), None);
    let t = next_local_time(now, "09:00", Some(&vec![0, 1, 2, 3, 4, 5, 6])).unwrap();
    assert!(t > now && t <= now + 8 * 86_400_000 + 3_600_000);
    assert!(next_local_time(now, "09:00", None).unwrap() > now);
}

#[test]
fn first_local_instant_takes_the_first_later_listed_day() {
    let days = vec![(1u32, Some(90i64)), (2, None), (3, Some(300)), (4, Some(400)), (5, Some(500))];
    assert_eq!(first_local_instant(&days, None, 100), Some(300));
    assert_eq!(first_local_instant(&days, None, 50), Some(90));
    assert_eq!(first_local_instant(&days, Some(&vec![4, 5]), 100), Some(400));
    assert_eq!(first_local_instant(&days, Some(&vec![2]), 0), None);
    assert_eq!(first_local_instant(&days, None, 500), None);
    assert_eq!(first_local_instant(&Vec::new(), None, 0), None);
}
