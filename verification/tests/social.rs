use yunying_server::json::Json;
use yunying_server::social::{
    active_space_id, daemon_port, decorate_wander_row, draft_content, dry_preview,
    id_from_payload, is_safe_room_id_char, normalize_room, opt_str_array, room_file_name,
    should_execute, stub_channels, trim_or_default, wechat_binding_fields,
};

fn conv(v: &serde_json::Value) -> Json {
    match v {
        serde_json::Value::Null => Json::Null,
        serde_json::Value::Bool(b) => Json::Bool(*b),
        serde_json::Value::Number(n) => match n.as_i64() {
            Some(i) => Json::Int(i),
            None => Json::Number(n.to_string()),
        },
        serde_json::Value::String(s) => Json::Str(
            s.clone(),
            serde_json::from_str::<serde_json::Value>(s).ok().map(|d| Box::new(conv(&d))),
        ),
        serde_json::Value::Array(a) => Json::Array(a.iter().map(conv).collect()),
        serde_json::Value::Object(m) => {
            Json::Object(m.iter().map(|(k, v)| (k.clone(), conv(v))).collect())
        }
    }
}

fn parse(text: &str) -> Json {
    conv(&serde_json::from_str::<serde_json::Value>(text).unwrap())
}

#[test]
fn invoke_unknown_channel_errors() {
    for ch in stub_channels() {
        assert!(
            ch.starts_with("chatrooms:")
                || ch.starts_with("wander:")
                || ch.starts_with("assistant:")
                || ch.starts_with("wechat-official:")
        );
    }
}

#[test]
fn social_writes_default_to_preview() {
    assert!(!should_execute(&parse("{}")));
    assert!(should_execute(&parse(r#"{"confirm": true}"#)));
    assert!(!should_execute(&parse(r#"{"dryRun": false}"#)));
    assert!(should_execute(&parse(r#"{"dryRun": false, "confirm": true}"#)));
    assert!(should_execute(&parse(r#"{"dryRun": true, "confirm": true}"#)));
    assert!(!should_execute(&parse(r#"{"dryRun": true, "confirm": false}"#)));
    assert!(!should_execute(&parse(r#"{"dryRun": "no"}"#)));
}

#[test]
fn dry_preview_marks_objects_and_wraps_others() {
    let p = dry_preview(parse(r#"{"deletedId": "w1", "success": false}"#));
    assert_eq!(p.get_bool("success"), Some(true));
    assert_eq!(p.get_bool("dryRun"), Some(true));
    assert_eq!(p.get_bool("skipped"), Some(true));
    assert_eq!(p.get_str("deletedId").map(|s| s.as_str()), Some("w1"));
    let w = dry_preview(Json::Int(3));
    assert!(matches!(w.get("data"), Some(Json::Int(3))));
}

#[test]
fn ids_come_from_strings_or_fields() {
    assert_eq!(id_from_payload(&parse(r#""room_1""#)).unwrap(), "room_1");
    assert_eq!(id_from_payload(&parse(r#"{"roomId": "a", "id": "b"}"#)).unwrap(), "a");
    assert_eq!(id_from_payload(&parse(r#"{"id": "b"}"#)).unwrap(), "b");
    assert_eq!(id_from_payload(&parse("{}")).unwrap_err(), "缺少字段 id/roomId");
}

#[test]
fn string_lists_from_arrays_or_json_text() {
    assert_eq!(
        opt_str_array(&parse(r#"{"advisorIds": ["a", "", 3, " b "]}"#), "advisorIds"),
        vec!["a".to_string(), " b ".to_string()]
    );
    assert_eq!(
        opt_str_array(&parse(r#"{"advisorIds": "[\"x\", \"\"]"}"#), "advisorIds"),
        vec!["x".to_string(), "".to_string()]
    );
    assert!(opt_str_array(&parse(r#"{"advisorIds": "[\"x\", 1]"}"#), "advisorIds").is_empty());
    assert!(opt_str_array(&parse(r#"{"advisorIds": "nope"}"#), "advisorIds").is_empty());
    assert_eq!(trim_or_default("  ", "未命名群聊"), "未命名群聊");
    assert_eq!(trim_or_default(" 我的群 ", "x"), "我的群");
}

#[test]
fn rooms_are_normalized() {
    let room = normalize_room(
        &parse(r#"{"name": "  ", "advisorIds": ["a", ""], "messages": 5, "systemType": "six"}"#),
        "room_9",
    );
    assert_eq!(room.get_str("id").map(|s| s.as_str()), Some("room_9"));
    assert_eq!(room.get_str("name").map(|s| s.as_str()), Some("未命名群聊"));
    assert!(matches!(room.get("advisorIds"), Some(Json::Array(a)) if a.len() == 1));
    assert!(matches!(room.get("messages"), Some(Json::Array(a)) if a.is_empty()));
    assert_eq!(room.get_str("createdAt").map(|s| s.as_str()), Some(""));
    assert_eq!(room.get_bool("isSystem"), Some(false));
    assert_eq!(room.get_str("systemType").map(|s| s.as_str()), Some("six"));
}

#[test]
fn room_ids_are_checked_before_use_as_file_names() {
    assert_eq!(room_file_name("room_1").unwrap(), "room_1.json");
    assert!(room_file_name("../escape").is_err());
    assert_eq!(room_file_name("room_1/evil").unwrap_err(), "非法 roomId: room_1/evil");
    assert!(room_file_name("").is_err());
    assert!(room_file_name("a..b").is_err());
    assert!(room_file_name("房间").is_err());
    assert!(is_safe_room_id_char('-') && !is_safe_room_id_char('.'));
}

#[test]
fn active_space_and_daemon_port() {
    assert_eq!(active_space_id(&parse(r#"{"active_space_id": "s1"}"#)), "s1");
    assert_eq!(active_space_id(&parse(r#"{"active_space_id": ""}"#)), "default");
    assert_eq!(daemon_port(&parse(r#"{"port": 40000}"#)), 40000);
    assert_eq!(daemon_port(&parse(r#"{"port": 70000}"#)), 31937);
    assert_eq!(daemon_port(&parse("{}")), 31937);
}

#[test]
fn wechat_requests_are_validated() {
    assert_eq!(
        wechat_binding_fields(&parse(r#"{"appId": "x"}"#)).unwrap_err(),
        "绑定公众号需要填写 AppID 和 Secret。"
    );
    let (app, secret, name, active) =
        wechat_binding_fields(&parse(r#"{"appId": " x ", "secret": "s", "setActive": false}"#)).unwrap();
    assert_eq!((app.as_str(), secret.as_str(), name.as_str(), active), ("x", "s", "", false));
    assert_eq!(draft_content(&parse(r#"{"content": "  "}"#)).unwrap_err(), "content is required");
    assert_eq!(draft_content(&parse(r#"{"content": " hi "}"#)).unwrap(), "hi");
}

#[test]
fn wander_rows_decode_their_json_text() {
    let row = decorate_wander_row(parse(
        r#"{"id": "w1", "items": "[\"item4\"]", "result": "not json", "created_at": 1000}"#,
    ));
    assert!(matches!(row.get("items"), Some(Json::Array(a)) if a.len() == 1));
    assert_eq!(row.get_str("result").map(|s| s.as_str()), Some("not json"));
    assert!(matches!(row.get("createdAt"), Some(Json::Int(1000))));
}
