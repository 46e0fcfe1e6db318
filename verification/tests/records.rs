use yunying_server::json::Json;
use yunying_server::knowledge::file_index_dashboard;
use yunying_server::receipt::{receipt_fits, sanitize_receipt_value, Redacted};
use yunying_server::redclaw::{
    apply_profile_doc, default_onboarding_state, default_profile_meta, hydrate_redclaw_task,
    profile_doc_edit, profile_doc_reply, task_stats,
};
use yunying_server::social::{
    append_room_message, assistant_daemon_status, clear_room, default_feishu_status,
    default_relay_status, default_weixin_status, disable_six_hats, edit_room,
    is_six_hats_disabled, new_room_record, pick_wanders, shuffle_rows, six_hats_room_record,
    user_message_record,
};

fn conv(v: &serde_json::Value) -> Json {
    match v {
        serde_json::Value::Null => Json::Null,
        serde_json::Value::Bool(b) => Json::Bool(*b),
        serde_json::Value::Number(n) => match n.as_i64() {
            Some(i) => Json::Int(i),
            None => Json::Number(n.to_string()),
        },
        serde_json::Value::String(s) => Json::Str(
            s.clone(),
            serde_json::from_str::<serde_json::Value>(s).ok().map(|d| Box::new(conv(&d))),
        ),
        serde_json::Value::Array(a) => Json::Array(a.iter().map(conv).collect()),
        serde_json::Value::Object(m) => {
            Json::Object(m.iter().map(|(k, v)| (k.clone(), conv(v))).collect())
        }
    }
}

fn back(j: &Json) -> serde_json::Value {
    match j {
        Json::Null => serde_json::Value::Null,
        Json::Bool(b) => serde_json::Value::Bool(*b),
        Json::Int(i) => serde_json::Value::from(*i),
        Json::Number(t) => serde_json::from_str(t).unwrap(),
        Json::Str(s, _) => serde_json::Value::String(s.clone()),
        Json::Array(a) => serde_json::Value::Array(a.iter().map(back).collect()),
        Json::Object(e) => {
            let mut m = serde_json::Map::new();
            for (k, v) in e {
                m.insert(k.clone(), back(v));
            }
            serde_json::Value::Object(m)
        }
    }
}

fn parse(text: &str) -> Json {
    conv(&serde_json::from_str::<serde_json::Value>(text).unwrap())
}

fn value(text: &str) -> serde_json::Value {
    serde_json::from_str(text).unwrap()
}

fn cleaned(r: &Redacted) -> serde_json::Value {
    match r {
        Redacted::Kept(j) => back(j),
        Redacted::Text(t) => serde_json::Value::String(t.clone()),
        Redacted::Encoded(inner) => serde_json::Value::String(cleaned(inner).to_string()),
        Redacted::List(items) => serde_json::Value::Array(items.iter().map(cleaned).collect()),
        Redacted::Fields(e) => {
            let mut m = serde_json::Map::new();
            for (k, v) in e {
                m.insert(k.clone(), cleaned(v));
            }
            serde_json::Value::Object(m)
        }
    }
}

#[test]
fn redclaw_task_stats_count_each_status_and_total() {
    let rows = vec![
        parse(r#"{ "status": "running", "n": 2 }"#),
        parse(r#"{ "status": "completed", "n": 5 }"#),
        parse(r#"{ "n": 1 }"#),
    ];
    let got = back(&task_stats(&rows));
    assert_eq!(got, value(r#"{ "running": 2, "completed": 5, "unknown": 1, "total": 8 }"#));
    assert_eq!(back(&task_stats(&Vec::new())), value(r#"{ "total": 0 }"#));
}

#[test]
fn new_profiles_start_unasked_at_version_one() {
    let state = back(&default_onboarding_state(42));
    assert_eq!(
        state,
        value(r#"{ "version": 1, "updatedAt": 42, "askedFirstQuestion": false, "stepIndex": 0, "answers": {} }"#)
    );
    let meta = back(&default_profile_meta(7));
    assert_eq!(meta["version"], value("1"));
    assert_eq!(meta["updatedAt"], value("7"));
    assert_eq!(meta["onboardingState"]["updatedAt"], value("7"));
    assert!(meta["agent"].as_str().unwrap().starts_with("# Agent.md"));
    assert!(meta["bootstrap"].as_str().unwrap().starts_with("# BOOTSTRAP.md"));
}

#[test]
fn stored_redclaw_tasks_read_back_with_metadata() {
    let row = parse(
        r#"{ "id": "rt_1", "status": "queued", "runtime_mode": "redclaw", "owner_session_id": "s",
             "goal": "写一篇", "metadata_json": "{\"a\":1}", "created_at": 3, "updated_at": 4 }"#,
    );
    let got = back(&hydrate_redclaw_task(&row));
    assert_eq!(got["taskType"], value(r#""redclaw-task""#));
    assert_eq!(got["metadata"], value(r#"{ "a": 1 }"#));
    assert_eq!(got["runtimeMode"], value(r#""redclaw""#));
    assert_eq!(got["createdAt"], value("3"));
    let bare = back(&hydrate_redclaw_task(&parse(r#"{ "id": "rt_2", "metadata_json": "" }"#)));
    assert_eq!(bare["metadata"], value("{}"));
    assert_eq!(bare["status"], value("null"));
    assert_eq!(bare["updatedAt"], value("0"));
}

#[test]
fn room_edits_rename_and_clear() {
    let room = parse(r#"{ "id": "r1", "name": "旧", "advisorIds": ["a"], "messages": [{"id": "m"}], "createdAt": "t" }"#);
    let edited = back(&edit_room(room, &parse(r#"{ "name": "  新名  ", "advisorIds": ["b", "c"] }"#), "r1"));
    assert_eq!(edited["name"], value(r#""新名""#));
    assert_eq!(edited["advisorIds"], value(r#"["b", "c"]"#));
    assert_eq!(edited["messages"].as_array().unwrap().len(), 1);
    let blank = back(&edit_room(parse(r#"{ "id": "r1", "name": "x" }"#), &parse(r#"{ "name": "   " }"#), "r1"));
    assert_eq!(blank["name"], value(r#""未命名群聊""#));
    let cleared = back(&clear_room(parse(r#"{ "id": "r1", "messages": [1, 2] }"#), "r1"));
    assert_eq!(cleared["messages"], value("[]"));
    assert_eq!(cleared["isSystem"], value("false"));
}

#[test]
fn user_messages_are_appended_to_rooms() {
    let msg = user_message_record(&parse(r#"{ "clientMessageId": " " }"#), "你好", "fresh".into(), "ts".into());
    let mv = back(&msg);
    assert_eq!(mv, value(r#"{ "id": "fresh", "role": "user", "content": "你好", "timestamp": "ts" }"#));
    let own = back(&user_message_record(&parse(r#"{ "clientMessageId": "c1" }"#), "x", "fresh".into(), "ts".into()));
    assert_eq!(own["id"], value(r#""c1""#));
    let room = append_room_message(parse(r#"{ "id": "r", "messages": [] }"#), msg, "r");
    assert_eq!(back(&room)["messages"], value(r#"[{ "id": "fresh", "role": "user", "content": "你好", "timestamp": "ts" }]"#));
}

#[test]
fn six_hats_room_can_be_disabled_once() {
    assert!(!is_six_hats_disabled(None));
    let state = disable_six_hats(None);
    assert_eq!(back(&state), value(r#"{ "disabledRoomIds": ["system_six_thinking_hats"] }"#));
    assert!(is_six_hats_disabled(Some(&state)));
    let again = disable_six_hats(Some(&state));
    assert_eq!(back(&again), back(&state));
    let room = back(&six_hats_room_record("t0".into()));
    assert_eq!(room["id"], value(r#""system_six_thinking_hats""#));
    assert_eq!(room["isSystem"], value("true"));
    assert_eq!(room["systemType"], value(r#""six_thinking_hats""#));
    assert_eq!(room["advisorIds"].as_array().unwrap().len(), 6);
}

#[test]
fn shuffling_keeps_every_row() {
    let rows: Vec<Json> = (0..10).map(|i| Json::Int(i)).collect();
    let shuffled = shuffle_rows(rows, 12345);
    let mut got: Vec<i64> = shuffled.iter().map(|j| back(j).as_i64().unwrap()).collect();
    let before = got.clone();
    got.sort();
    assert_eq!(got, (0..10).collect::<Vec<i64>>());
    // The same seed gives the same order.
    let again: Vec<i64> = shuffle_rows((0..10).map(Json::Int).collect(), 12345)
        .iter()
        .map(|j| back(j).as_i64().unwrap())
        .collect();
    assert_eq!(again, before);
}

#[test]
fn wanders_pick_at_most_three_decoded_rows() {
    let rows: Vec<Json> = (0..5)
        .map(|i| parse(&format!(r#"{{ "id": "w{i}", "items": "[1,2]", "result": "plain", "created_at": {i} }}"#)))
        .collect();
    let picked = pick_wanders(rows, 99);
    assert_eq!(picked.len(), 3);
    for p in &picked {
        let v = back(p);
        assert_eq!(v["items"], value("[1, 2]"));
        assert_eq!(v["result"], value(r#""plain""#));
        assert_eq!(v["createdAt"], v["created_at"]);
    }
    assert_eq!(pick_wanders(vec![parse(r#"{ "id": "only" }"#)], 1).len(), 1);
}

#[test]
fn daemon_reports_its_bridges_off() {
    let s = back(&assistant_daemon_status());
    assert_eq!(s["port"], value("31937"));
    assert_eq!(s["stub"], value("true"));
    assert_eq!(s["feishu"], back(&default_feishu_status()));
    assert_eq!(s["relay"], back(&default_relay_status()));
    assert_eq!(s["weixin"], back(&default_weixin_status()));
    assert_eq!(s["weixin"]["connected"], value("false"));
}

#[test]
fn index_dashboard_sums_lanes_by_scope() {
    let lanes = vec![
        parse(r#"{ "lane": "text", "scope_id": "b", "status": "running", "done": 2, "total": 5, "failed": 1, "last_updated_at": "t1" }"#),
        parse(r#"{ "lane": "image", "scope_id": "a", "status": "idle", "done": 3, "total": 3, "failed": 0 }"#),
        parse(r#"{ "lane": "video", "scope_id": "b", "status": "idle", "done": 1, "total": 1, "failed": 0, "last_updated_at": null }"#),
    ];
    let d = back(&file_index_dashboard(&lanes));
    assert_eq!(d["overall"]["status"], value(r#""indexing""#));
    assert_eq!(d["overall"]["indexedFiles"], value("6"));
    assert_eq!(d["overall"]["totalFiles"], value("9"));
    assert_eq!(d["overall"]["failedFiles"], value("1"));
    assert_eq!(d["overall"]["lastIndexedAt"], value(r#""t1""#));
    assert_eq!(d["lanes"].as_array().unwrap().len(), 3);
    let scopes = d["scopes"].as_array().unwrap();
    assert_eq!(scopes.len(), 2);
    assert_eq!(scopes[0]["scopeId"], value(r#""a""#));
    assert_eq!(scopes[0]["status"], value(r#""idle""#));
    assert_eq!(scopes[1]["scopeId"], value(r#""b""#));
    assert_eq!(scopes[1]["fileCount"], value("6"));
    assert_eq!(scopes[1]["failedCount"], value("1"));
    assert_eq!(scopes[1]["status"], value(r#""indexing""#));
    assert_eq!(scopes[1]["lanes"].as_array().unwrap().len(), 2);
}

#[test]
fn receipts_redact_secrets_and_cut_long_values() {
    let v = parse(
        r#"{ "apiKey": "k", "Auth-Token": "t", "nested": { "password": 1, "ok": "yes" },
             "payload": "{\"cookie\":\"c\",\"n\":2}", "count": 3 }"#,
    );
    let got = cleaned(&sanitize_receipt_value(&v));
    assert_eq!(got["apiKey"], value(r#""[redacted]""#));
    assert_eq!(got["Auth-Token"], value(r#""[redacted]""#));
    assert_eq!(got["nested"]["password"], value(r#""[redacted]""#));
    assert_eq!(got["nested"]["ok"], value(r#""yes""#));
    assert_eq!(got["count"], value("3"));
    let inner: serde_json::Value = serde_json::from_str(got["payload"].as_str().unwrap()).unwrap();
    assert_eq!(inner, value(r#"{ "cookie": "[redacted]", "n": 2 }"#));

    let long: Vec<serde_json::Value> = (0..600).map(serde_json::Value::from).collect();
    let list = cleaned(&sanitize_receipt_value(&conv(&serde_json::Value::Array(long))));
    assert_eq!(list.as_array().unwrap().len(), 512);
    let text = "x".repeat(40_000);
    let cut = cleaned(&sanitize_receipt_value(&Json::Str(text, None)));
    assert_eq!(cut.as_str().unwrap().chars().count(), 32_000);

    let mut deep = serde_json::Value::from(1);
    for _ in 0..20 {
        deep = serde_json::Value::Array(vec![deep]);
    }
    let mut node = &cleaned(&sanitize_receipt_value(&conv(&deep)));
    let mut depth = 0;
    while let Some(a) = node.as_array() {
        node = &a[0];
        depth += 1;
    }
    assert_eq!(node, &value(r#""[truncated: nesting limit]""#));
    assert_eq!(depth, 17);
}

#[test]
fn receipts_are_limited_to_half_a_megabyte() {
    assert!(receipt_fits(0));
    assert!(receipt_fits(512 * 1024));
    assert!(!receipt_fits(512 * 1024 + 1));
}

#[test]
fn profile_doc_edits_bump_the_version() {
    let edit = profile_doc_edit(&parse(r#"{ "docType": "soul", "markdown": "行动导向", "reason": "更新" }"#)).unwrap();
    let meta = back(&apply_profile_doc(parse(r#"{ "soul": "old", "version": 3 }"#), &edit, 99));
    assert_eq!(meta["version"], value("4"));
    assert_eq!(meta["updatedAt"], value("99"));
    assert_eq!(meta["soul"], value(&serde_json::Value::String(edit.content.clone()).to_string()));
    let fresh = back(&apply_profile_doc(parse("{}"), &edit, 1));
    assert_eq!(fresh["version"], value("2"));

    let reply = back(&profile_doc_reply(&edit, &parse(r#"{ "reason": "更新" }"#), false));
    assert_eq!(reply["path"], value(r#""redclaw/profile/Soul.md""#));
    assert_eq!(reply["reason"], value(r#""更新""#));
    assert_eq!(reply.get("dryRun"), None);
    let preview = back(&profile_doc_reply(&edit, &parse("{}"), true));
    assert_eq!(preview["dryRun"], value("true"));
    assert_eq!(preview["reason"], value("null"));
}

#[test]
fn new_rooms_are_named_and_empty() {
    let room = back(&new_room_record(&parse(r#"{ "name": "  策划  ", "advisorIds": ["a", "", "b"] }"#), "room_1", "t0".into()));
    assert_eq!(
        room,
        value(r#"{ "id": "room_1", "name": "策划", "advisorIds": ["a", "b"], "messages": [], "createdAt": "t0", "isSystem": false }"#)
    );
    let unnamed = back(&new_room_record(&parse("{}"), "room_2", "t1".into()));
    assert_eq!(unnamed["name"], value(r#""未命名群聊""#));
    assert_eq!(unnamed["advisorIds"], value("[]"));
}
