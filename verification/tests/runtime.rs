use yunying_server::json::Json;
use yunying_server::runtime::{
    bridge_message, bridge_session_metadata, fork_request, fork_title, is_dry_run,
    map_tool_result_row, map_transcript_row, mcp_tool_name, mcp_unimplemented,
    normalize_servers, opt_limit, parse_metadata, query_message, read_mcp_servers, reply_step,
    runtime_channel, session_bridge_status, session_id_of, session_list_item, session_summary,
    ForkRequest, ReplyEvent, ReplyStep,
};

fn conv(v: &serde_json::Value) -> Json {
    match v {
        serde_json::Value::Null => Json::Null,
        serde_json::Value::Bool(b) => Json::Bool(*b),
        serde_json::Value::Number(n) => match n.as_i64() {
            Some(i) => Json::Int(i),
            None => Json::Number(n.to_string()),
        },
        serde_json::Value::String(s) => Json::Str(
            s.clone(),
            serde_json::from_str::<serde_json::Value>(s).ok().map(|d| Box::new(conv(&d))),
        ),
        serde_json::Value::Array(a) => Json::Array(a.iter().map(conv).collect()),
        serde_json::Value::Object(m) => {
            Json::Object(m.iter().map(|(k, v)| (k.clone(), conv(v))).collect())
        }
    }
}

fn back(j: &Json) -> serde_json::Value {
    match j {
        Json::Null => serde_json::Value::Null,
        Json::Bool(b) => serde_json::Value::Bool(*b),
        Json::Int(i) => serde_json::Value::from(*i),
        Json::Number(t) => serde_json::from_str(t).unwrap(),
        Json::Str(s, _) => serde_json::Value::String(s.clone()),
        Json::Array(a) => serde_json::Value::Array(a.iter().map(back).collect()),
        Json::Object(e) => {
            let mut m = serde_json::Map::new();
            for (k, v) in e {
                m.insert(k.clone(), back(v));
            }
            serde_json::Value::Object(m)
        }
    }
}

fn parse(text: &str) -> Json {
    conv(&serde_json::from_str::<serde_json::Value>(text).unwrap())
}

fn value(text: &str) -> serde_json::Value {
    serde_json::from_str(text).unwrap()
}

#[test]
fn payload_helpers() {
    assert_eq!(session_id_of(&parse(r#"{"sessionId": "  x  "}"#)), Some("x".into()));
    assert_eq!(session_id_of(&parse(r#"{"session_id": "y"}"#)), Some("y".into()));
    assert_eq!(session_id_of(&parse(r#"{"sessionId": "   "}"#)), None);
    assert_eq!(session_id_of(&parse("{}")), None);

    assert_eq!(opt_limit(&parse(r#"{"limit": 5}"#)), Some(5));
    assert_eq!(opt_limit(&parse(r#"{"limit": 0}"#)), None);
    assert_eq!(opt_limit(&parse("{}")), None);

    assert!(is_dry_run(&parse(r#"{"dryRun": true}"#)));
    assert!(is_dry_run(&parse(r#"{"dry_run": true}"#)));
    assert!(!is_dry_run(&parse(r#"{"dryRun": false}"#)));
    assert!(!is_dry_run(&parse("{}")));

    // A fork dry run names its source and writes nothing.
    match fork_request(&parse(r#"{"sessionId": "src", "dryRun": true}"#)) {
        ForkRequest::DryRun(s) => assert_eq!(s, "src"),
        other => panic!("unexpected {other:?}"),
    }
    // No session named: a structured failure, not an error.
    assert!(matches!(fork_request(&parse("{}")), ForkRequest::Missing));
}

#[test]
fn transcript_and_tool_result_mapping() {
    let row = parse(
        r#"{"id": "tr1", "session_id": "s1", "record_type": "text", "role": "assistant",
            "content": "hi", "payload_json": "{\"k\":1}", "created_at": 2000}"#,
    );
    let t = map_transcript_row(&row);
    assert_eq!(back(&t)["recordType"], value(r#""text""#));
    assert_eq!(back(&t)["sessionId"], value(r#""s1""#));
    assert_eq!(back(&t)["payload"]["k"], value("1"));
    assert_eq!(back(&t)["createdAt"], value("2000"));

    let tool = parse(
        r#"{"id": "tool1", "session_id": "s1", "call_id": "call1", "tool_name": "bash",
            "command": "ls", "success": 1, "result_text": "out", "summary_text": "ok",
            "payload_json": "{\"n\":2}", "created_at": 3000, "updated_at": 3000}"#,
    );
    let r = back(&map_tool_result_row(&tool));
    assert_eq!(r["callId"], value(r#""call1""#));
    assert_eq!(r["success"], value("true"));
    assert_eq!(r["payload"]["n"], value("2"));

    // A zero or missing success flag, and a payload that is not JSON.
    let failed = parse(r#"{"success": 0, "payload_json": "not json"}"#);
    let f = back(&map_tool_result_row(&failed));
    assert_eq!(f["success"], value("false"));
    assert_eq!(f["payload"], serde_json::Value::Null);
    assert_eq!(f["id"], serde_json::Value::Null);
}

#[test]
fn mcp_servers_roundtrip() {
    assert!(read_mcp_servers(None).is_empty());

    let servers = parse(
        r#"[{"id": "fs", "name": "FS", "enabled": true, "transport": "stdio", "command": "npx"}]"#,
    );
    let normalized = normalize_servers(&servers);
    let text = serde_json::Value::Array(normalized.iter().map(back).collect()).to_string();
    let stored = conv(&serde_json::Value::String(text));
    let again = read_mcp_servers(Some(&stored));
    assert_eq!(again.len(), 1);
    assert_eq!(back(&again[0])["id"], value(r#""fs""#));
    assert_eq!(back(&again[0])["transport"], value(r#""stdio""#));

    // Text that is not JSON reads as no servers.
    let broken = conv(&serde_json::Value::String("not-json".into()));
    assert!(read_mcp_servers(Some(&broken)).is_empty());

    // Only the objects of an array are kept.
    assert!(normalize_servers(&parse(r#""nope""#)).is_empty());
    assert_eq!(normalize_servers(&parse(r#"[1, "x", {"id": "ok"}]"#)).len(), 1);
}

#[test]
fn fork_session_copies_messages_and_transcript() {
    let source = parse(r#"{"id": "src", "title": "src-title"}"#);
    match fork_request(&parse(r#"{"sessionId": "src", "title": "forked"}"#)) {
        ForkRequest::Fork(s, t) => {
            assert_eq!(s, "src");
            assert_eq!(fork_title(t, &source), Some("forked".to_string()));
        }
        other => panic!("unexpected {other:?}"),
    }
    // Without a title the fork keeps the source's.
    assert_eq!(fork_title(None, &source), Some("src-title".to_string()));
    let item = back(&session_list_item(parse(r#"{"id": "new"}"#), 1));
    assert_eq!(item["transcriptCount"], value("1"));
    assert_eq!(item["checkpointCount"], value("0"));
    assert_eq!(item["id"], value(r#""new""#));
}

#[test]
fn session_summary_derives_metadata() {
    let row = parse(
        r#"{"id": "s2", "title": "t", "created_at": 10, "updated_at": 10,
            "metadata": "{\"contextType\":\"manuscript\",\"runtimeMode\":\"redclaw\",\"isBackgroundSession\":true}"}"#,
    );
    let summary = back(&session_summary(&row, 1));
    assert_eq!(summary["contextType"], value(r#""manuscript""#));
    assert_eq!(summary["runtimeMode"], value(r#""redclaw""#));
    assert_eq!(summary["isBackgroundSession"], value("true"));
    assert_eq!(summary["ownerTaskCount"], value("1"));

    // Without metadata the defaults apply.
    let plain = back(&session_summary(&parse(r#"{"id": "s3"}"#), 0));
    assert_eq!(plain["contextType"], value(r#""chat""#));
    assert_eq!(plain["runtimeMode"], value(r#""redclaw""#));
    assert_eq!(plain["isBackgroundSession"], value("false"));
}

#[test]
fn metadata_reads_objects_and_embedded_text() {
    assert_eq!(back(&parse_metadata(None)), value("{}"));
    let obj = parse(r#"{"a": 1}"#);
    // Only stored text is read; an object value is not metadata text.
    assert_eq!(back(&parse_metadata(Some(&obj))), value("{}"));
    let text = conv(&serde_json::Value::String(r#"{"b": 2}"#.into()));
    assert_eq!(back(&parse_metadata(Some(&text))), value(r#"{"b": 2}"#));
    let junk = conv(&serde_json::Value::String("junk".into()));
    assert_eq!(back(&parse_metadata(Some(&junk))), value("{}"));
}

#[test]
fn messages_and_tool_names_are_trimmed() {
    assert_eq!(query_message(&parse(r#"{"message": " hi "}"#)), "hi");
    assert_eq!(query_message(&parse(r#"{"text": "yo"}"#)), "yo");
    assert_eq!(query_message(&parse("{}")), "");
    assert_eq!(bridge_message(&parse(r#"{"message": " m "}"#)), "m");
    assert_eq!(mcp_tool_name(&parse(r#"{"name": " t "}"#)), "t");
    let u = back(&mcp_unimplemented("mcp:call", "later"));
    assert_eq!(u["implemented"], value("false"));
    assert_eq!(u["channel"], value(r#""mcp:call""#));
}

#[test]
fn bridge_metadata_lets_the_request_override() {
    let m = back(&bridge_session_metadata(&parse(
        r#"{"contextType": "chat", "metadata": {"runtimeMode": "goose", "x": 1}}"#,
    )));
    assert_eq!(m["contextType"], value(r#""chat""#));
    assert_eq!(m["runtimeMode"], value(r#""goose""#));
    assert_eq!(m["createdBy"], value(r#""session-bridge""#));
    assert_eq!(m["x"], value("1"));
    assert_eq!(back(&session_bridge_status())["listening"], value("false"));
}

#[test]
fn reply_stream_collects_text_and_stores_non_blank_replies() {
    let mut content = String::new();
    assert_eq!(reply_step(&mut content, &ReplyEvent::TextDelta("he".into())), ReplyStep::Forward);
    assert_eq!(reply_step(&mut content, &ReplyEvent::Other), ReplyStep::Forward);
    assert_eq!(reply_step(&mut content, &ReplyEvent::TextDelta("llo".into())), ReplyStep::Forward);
    assert_eq!(content, "hello");
    assert_eq!(reply_step(&mut content, &ReplyEvent::Done), ReplyStep::Finish { persist: true });
    let mut blank = String::from("  ");
    assert_eq!(reply_step(&mut blank, &ReplyEvent::Done), ReplyStep::Finish { persist: false });
}

#[test]
fn unknown_runtime_channels_are_refused() {
    assert!(runtime_channel("sessions:list").is_ok());
    assert!(runtime_channel("sessions:nope").is_err());
}
