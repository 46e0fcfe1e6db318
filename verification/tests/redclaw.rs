use yunying_server::evidence::{contains_disallowed_tool_input, contains_explicit_tool_failure};
use yunying_server::execution::{missing_required_tools, unverified_required_tools, ToolEvidence};
use yunying_server::json::Json;
use yunying_server::redclaw::{
    build_task_snapshot, dry_run, finalize_onboarding, merge_task_fields, normalize_doc_markdown,
    normalize_project_id, onboarding_turn, parse_iso_ms, profile_doc_edit, read_choice,
    stub_channels, task_transition, TaskAction, TurnKind,
};
use yunying_server::redclaw_runner::requires_explicit_authorization;

fn conv(v: &serde_json::Value) -> Json {
    match v {
        serde_json::Value::Null => Json::Null,
        serde_json::Value::Bool(b) => Json::Bool(*b),
        serde_json::Value::Number(n) => match n.as_i64() {
            Some(i) => Json::Int(i),
            None => Json::Number(n.to_string()),
        },
        serde_json::Value::String(s) => Json::Str(
            s.clone(),
            serde_json::from_str::<serde_json::Value>(s).ok().map(|d| Box::new(conv(&d))),
        ),
        serde_json::Value::Array(a) => Json::Array(a.iter().map(conv).collect()),
        serde_json::Value::Object(m) => {
            Json::Object(m.iter().map(|(k, v)| (k.clone(), conv(v))).collect())
        }
    }
}

fn back(j: &Json) -> serde_json::Value {
    match j {
        Json::Null => serde_json::Value::Null,
        Json::Bool(b) => serde_json::Value::Bool(*b),
        Json::Int(i) => serde_json::Value::from(*i),
        Json::Number(t) => serde_json::from_str(t).unwrap(),
        Json::Str(s, _) => serde_json::Value::String(s.clone()),
        Json::Array(a) => serde_json::Value::Array(a.iter().map(back).collect()),
        Json::Object(e) => {
            let mut m = serde_json::Map::new();
            for (k, v) in e {
                m.insert(k.clone(), back(v));
            }
            serde_json::Value::Object(m)
        }
    }
}

fn parse(text: &str) -> Json {
    conv(&serde_json::from_str::<serde_json::Value>(text).unwrap())
}

fn value(text: &str) -> serde_json::Value {
    serde_json::from_str(text).unwrap()
}

fn evidence(call_id: &str, name: &str, output: &str) -> ToolEvidence {
    ToolEvidence {
        call_id: call_id.into(),
        name: name.into(),
        input: Json::Null,
        output: Some(parse(output)),
    }
}

#[test]
fn nested_tool_failures_cannot_be_recorded_as_success() {
    assert!(contains_explicit_tool_failure(&parse(
        r#"{"content":[{"type":"text","text":"{\"persisted\":false}"}]}"#
    )));
    assert!(!contains_explicit_tool_failure(&parse(
        r#"{"content":[{"type":"text","text":"{\"persisted\":true}"}]}"#
    )));
    assert!(contains_explicit_tool_failure(&parse(
        r#"{"content":"{\"dry_run\":true,\"plannedAction\":{}}"}"#
    )));
    assert!(contains_explicit_tool_failure(&parse(r#"{"isError":true}"#)));
    assert!(contains_explicit_tool_failure(&parse(r#"{"ok":false}"#)));
    assert!(contains_explicit_tool_failure(&parse(r#"{"status":"failed"}"#)));
    assert!(contains_disallowed_tool_input(&parse(r#"{"dry_run":true}"#)));

    let tools = vec![evidence("1", "yunying-ops__create_note", r#"{"persisted":true}"#)];
    assert!(missing_required_tools(&vec!["create_note".into()], &tools).is_empty());
    assert_eq!(missing_required_tools(&vec!["generate_image".into()], &tools), vec!["generate_image"]);
    assert_eq!(
        missing_required_tools(&vec!["not_create_note".into()], &tools),
        vec!["not_create_note"]
    );
    let impersonating = vec![evidence("2", "not_create_note", r#"{"persisted":true}"#)];
    assert_eq!(
        missing_required_tools(&vec!["create_note".into()], &impersonating),
        vec!["create_note"]
    );
    assert!(unverified_required_tools(&vec!["create_note".into()], &tools).is_empty());
    for name in [
        "openai_image",
        "google_imagen",
        "recraft_image",
        "elevenlabs_tts",
        "suno_music",
        "talking_head",
        "video_selector",
    ] {
        assert!(requires_explicit_authorization(name), "{name} must require explicit authorization");
    }
    assert!(!requires_explicit_authorization("create_note"));
}

#[test]
fn profile_bundle_and_update_doc_db() {
    let edit = profile_doc_edit(&parse(
        r##"{ "docType": "agent", "markdown": "# Agent.md\n\n契约正文", "confirm": true }"##,
    ))
    .unwrap();
    assert_eq!(edit.file_name, "Agent.md");
    assert_eq!(edit.key, "agent");
    assert!(edit.content.contains("契约正文"));
    // A document without a heading gets one.
    let soul = profile_doc_edit(&parse(r#"{ "docType": " soul ", "markdown": "草稿" }"#)).unwrap();
    assert_eq!(soul.content, "# Soul.md\n\n草稿");
    assert_eq!(
        profile_doc_edit(&parse(r#"{ "docType": "x", "markdown": "m" }"#)).err().unwrap(),
        "Unsupported profile doc type: x"
    );
    assert_eq!(
        profile_doc_edit(&parse(r#"{ "markdown": "m" }"#)).err().unwrap(),
        "docType is required"
    );
    assert_eq!(
        profile_doc_edit(&parse(r#"{ "docType": "user", "markdown": "  " }"#)).err().unwrap(),
        "markdown is required"
    );
    assert_eq!(normalize_doc_markdown("T", ""), "# T\n");
    // Writes preview unless confirmed.
    assert!(dry_run(&parse(r##"{ "docType": "soul", "markdown": "# Soul\n草稿" }"##)));
    assert!(!dry_run(&parse(r#"{ "confirm": true }"#)));
    assert!(!dry_run(&parse(r#"{ "dryRun": false }"#)));
}

#[test]
fn profile_onboarding_turn_flow_db() {
    let t1 = onboarding_turn(&parse("{}"), "", 1);
    assert_eq!(t1.kind, TurnKind::Started);
    assert!(t1.response.as_deref().unwrap().contains("1/5"));
    let mut state = Json::Object(t1.state);
    let blank = onboarding_turn(&state, "   ", 2);
    assert_eq!(blank.kind, TurnKind::Reprompt);
    for i in 0..5 {
        let t = onboarding_turn(&state, "测试回答", 10 + i);
        if i < 4 {
            assert_eq!(t.kind, TurnKind::Advanced);
            assert!(!t.completed);
        } else {
            assert_eq!(t.kind, TurnKind::Finished);
            assert!(t.completed);
        }
        state = Json::Object(t.state);
    }
    let meta = finalize_onboarding(parse(r#"{ "version": 1 }"#), match state {
        Json::Object(e) => e,
        _ => unreachable!(),
    }, 99);
    let m = back(&meta);
    assert_eq!(m["version"], value("2"));
    assert_eq!(m["onboardingState"]["completedAt"], value("99"));
    assert!(m["user"].as_str().unwrap().contains("测试回答"));
    let again = onboarding_turn(meta.get("onboardingState").unwrap(), "x", 100);
    assert_eq!(again.kind, TurnKind::AlreadyCompleted);
    assert!(again.response.is_none());
}

#[test]
fn skipping_onboarding_fills_defaults() {
    let started = onboarding_turn(&parse("{}"), "", 1);
    let state = Json::Object(started.state);
    let skipped = onboarding_turn(&state, " 跳过 ", 2);
    assert_eq!(skipped.kind, TurnKind::Skipped);
    assert!(skipped.completed);
    let s = back(&Json::Object(skipped.state));
    assert_eq!(s["stepIndex"], value("5"));
    assert_eq!(s["answers"].as_object().unwrap().len(), 5);
}

#[test]
fn redclaw_task_lifecycle_db() {
    let prev = back(&build_task_snapshot(
        "rct_1",
        &parse(r#"{ "goal": "写小红书", "projectId": "rc_1" }"#),
        true,
        5,
    ));
    assert_eq!(prev["status"], value(r#""draft""#));
    assert_eq!(prev["dryRun"], value("true"));
    assert_eq!(prev["metadata"]["title"], value(r#""写小红书""#));
    assert_eq!(prev["metadata"]["projectId"], value(r#""rc_1""#));

    assert_eq!(task_transition("rct_1", "draft", TaskAction::Confirm).unwrap(), "confirmed");
    let updated = back(&merge_task_fields(parse(r#"{ "title": "t" }"#), &parse(r#"{ "prompt": "提示词二" }"#)));
    assert_eq!(updated["prompt"], value(r#""提示词二""#));
    assert_eq!(updated["title"], value(r#""t""#));
    assert_eq!(task_transition("rct_1", "confirmed", TaskAction::Cancel).unwrap(), "cancelled");
    assert_eq!(
        task_transition("rct_1", "cancelled", TaskAction::Confirm).unwrap_err(),
        "task rct_1 状态 cancelled 不允许转到 confirmed"
    );
}

#[test]
fn project_ids_and_times_are_read_leniently() {
    assert_eq!(normalize_project_id("  see rc_abc/notes "), "rc_abc");
    assert_eq!(normalize_project_id(" plain "), "plain");
    assert_eq!(parse_iso_ms("1700000000"), Some(1_700_000_000_000));
    assert_eq!(parse_iso_ms("1700000000123"), Some(1_700_000_000_123));
    assert_eq!(parse_iso_ms("1970-01-01T00:00:01Z"), Some(1000));
    assert_eq!(parse_iso_ms("  "), None);
    assert_eq!(parse_iso_ms("soon"), None);
    assert_eq!(stub_channels(), vec!["redclaw:open-project"]);
}

#[test]
fn form_choices_fall_back_when_not_allowed() {
    let answers = parse(r#"{ "tone": " warm ", "pace": "crazy" }"#);
    assert_eq!(read_choice(&answers, "tone", &["warm", "cool"], "cool"), "warm");
    assert_eq!(read_choice(&answers, "pace", &["slow"], "slow"), "slow");
    assert_eq!(read_choice(&answers, "none", &["a"], "a"), "a");
}
