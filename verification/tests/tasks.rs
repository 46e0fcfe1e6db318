use yunying_server::json::Json;
use yunying_server::tasks::{
    build_subject_record, category_record, default_graph, extract_image_paths, find_record,
    hydrate_task, listing_limit, load_work_record, map_trace_row, materialize_work,
    new_task_snapshot, normalize_attributes, normalize_str_list, pick_resumable,
    record_from_row, reject_internal_redclaw_task, required_text, sorted_insert,
    subject_matches_query, tasks_channel, text_less, update_work_record, work_item_selected,
    work_store_meta, work_update_target, BackgroundTasks,
};

fn conv(v: &serde_json::Value) -> Json {
    match v {
        serde_json::Value::Null => Json::Null,
        serde_json::Value::Bool(b) => Json::Bool(*b),
        serde_json::Value::Number(n) => match n.as_i64() {
            Some(i) => Json::Int(i),
            None => Json::Number(n.to_string()),
        },
        serde_json::Value::String(s) => Json::Str(
            s.clone(),
            serde_json::from_str::<serde_json::Value>(s).ok().map(|d| Box::new(conv(&d))),
        ),
        serde_json::Value::Array(a) => Json::Array(a.iter().map(conv).collect()),
        serde_json::Value::Object(m) => {
            Json::Object(m.iter().map(|(k, v)| (k.clone(), conv(v))).collect())
        }
    }
}

fn back(j: &Json) -> serde_json::Value {
    match j {
        Json::Null => serde_json::Value::Null,
        Json::Bool(b) => serde_json::Value::Bool(*b),
        Json::Int(i) => serde_json::Value::from(*i),
        Json::Number(t) => serde_json::from_str(t).unwrap(),
        Json::Str(s, _) => serde_json::Value::String(s.clone()),
        Json::Array(a) => serde_json::Value::Array(a.iter().map(back).collect()),
        Json::Object(e) => {
            let mut m = serde_json::Map::new();
            for (k, v) in e {
                m.insert(k.clone(), back(v));
            }
            serde_json::Value::Object(m)
        }
    }
}

fn parse(text: &str) -> Json {
    conv(&serde_json::from_str::<serde_json::Value>(text).unwrap())
}

fn value(text: &str) -> serde_json::Value {
    serde_json::from_str(text).unwrap()
}

#[test]
fn tasks_lifecycle_db() {
    let created = back(&new_task_snapshot(
        &parse(r#"{ "runtimeMode": "redclaw", "sessionId": "s1", "userInput": "你好", "confirm": true }"#),
        "task_1",
        "1",
        1000,
        false,
    ));
    assert_eq!(created["status"], value(r#""pending""#));
    assert_eq!(created["taskType"], value(r#""generic""#));
    assert_eq!(created["graph"].as_array().unwrap().len(), 4);
    assert_eq!(created["goal"], value(r#""你好""#));
    assert_eq!(created["currentNode"], value(r#""route_1""#));
    assert_eq!(created["metadata"]["userInput"], value(r#""你好""#));
    assert_eq!(created["dryRun"], value("false"));

    // A stored row reads back with its JSON columns parsed.
    let row = parse(
        r#"{ "id": "task_1", "task_type": "generic", "status": "pending",
             "graph_json": "[{\"id\":\"route_1\"}]", "route_json": "not json" }"#,
    );
    let got = back(&hydrate_task(&row));
    assert_eq!(got["id"], value(r#""task_1""#));
    assert!(got["graph"].is_array());
    assert_eq!(got["route"], serde_json::Value::Null);
    assert_eq!(got["artifacts"], value("[]"));
    assert_eq!(got["createdAt"], value("0"));

    let trace = back(&map_trace_row(&parse(
        r#"{ "id": "t", "task_id": "task_1", "event_type": "task.created", "payload_json": "{\"a\":1}" }"#,
    )));
    assert_eq!(trace["eventType"], value(r#""task.created""#));
    assert_eq!(trace["payload"]["a"], value("1"));
}

#[test]
fn tasks_resume_from_session_picks_running() {
    let tasks = vec![
        parse(r#"{ "id": "b", "status": "running" }"#),
        parse(r#"{ "id": "a", "status": "pending" }"#),
    ];
    let pick = back(&pick_resumable(&tasks));
    assert_eq!(pick["id"], value(r#""b""#));
    assert_eq!(pick["status"], value(r#""running""#));
    // Without a running or paused task the newest is picked.
    let idle = vec![parse(r#"{ "id": "n" }"#), parse(r#"{ "id": "o" }"#)];
    assert_eq!(back(&pick_resumable(&idle))["id"], value(r#""n""#));
    assert_eq!(back(&pick_resumable(&Vec::new())), serde_json::Value::Null);
}

#[test]
fn work_update_and_ready() {
    let seed = parse(
        r#"{ "id": "wk_seed_1", "status": "pending", "title": "写周报", "type": "generic",
             "priority": 1, "tags": ["写作"], "dependsOn": [] }"#,
    );
    let records = vec![seed];
    let ready = back(&materialize_work(&records[0], &records));
    assert_eq!(ready["effectiveStatus"], value(r#""ready""#));
    assert_eq!(ready["ready"], value("true"));

    let (status, updated) = update_work_record(
        &records[0],
        &parse(r#"{ "id": "wk_seed_1", "status": "done", "summary": "完成", "priority": 9 }"#),
    );
    assert_eq!(status, "done");
    assert_eq!(back(&updated)["status"], value(r#""done""#));
    assert_eq!(back(&updated)["summary"], value(r#""完成""#));
    assert_eq!(back(&updated)["priority"], value("3"));
    assert_eq!(back(&updated)["title"], value(r#""写周报""#));
    let after = vec![updated];
    assert_eq!(back(&materialize_work(&after[0], &after))["ready"], value("false"));
}

#[test]
fn work_dependencies_block_until_done() {
    let records = vec![
        parse(r#"{ "id": "a", "status": "pending", "dependsOn": ["b", "missing"] }"#),
        parse(r#"{ "id": "b", "status": "in_progress" }"#),
    ];
    let a = back(&materialize_work(&records[0], &records));
    assert_eq!(a["effectiveStatus"], value(r#""blocked""#));
    assert_eq!(a["blockedBy"], value(r#"["b", "missing"]"#));
    let done = vec![
        parse(r#"{ "id": "a", "status": "pending", "dependsOn": ["b"] }"#),
        parse(r#"{ "id": "b", "status": "done" }"#),
    ];
    assert_eq!(back(&materialize_work(&done[0], &done))["effectiveStatus"], value(r#""ready""#));
    assert!(find_record(&done, "b").is_some());
    assert!(find_record(&done, "c").is_none());
}

#[test]
fn work_records_store_and_load() {
    let meta = back(&work_store_meta(&parse(
        r#"{ "id": "w", "status": "pending", "title": "t", "ready": true, "effectiveStatus": "ready" }"#,
    )));
    assert_eq!(meta, value(r#"{ "title": "t", "kind": "work" }"#));
    let loaded = back(&load_work_record(&parse(
        r#"{ "id": "w", "status": "done", "metadata_json": "{\"title\":\"t\"}", "created_at": 5, "updated_at": 6 }"#,
    )));
    assert_eq!(loaded["kind"], value(r#""work""#));
    assert_eq!(loaded["title"], value(r#""t""#));
    assert_eq!(loaded["status"], value(r#""done""#));
    assert_eq!(loaded["updatedAt"], value("6"));
    assert!(work_item_selected(&parse(r#"{ "status": "done" }"#), &parse("{}")));
}

#[test]
fn subjects_and_categories_crud() {
    let cat = back(&category_record("cat_1", "人物", 1, 1));
    assert_eq!(cat["name"], value(r#""人物""#));
    assert_eq!(cat["id"], value(r#""cat_1""#));

    let subject = build_subject_record(
        "sub_1",
        &parse(
            r#"{ "name": "小明", "categoryId": "cat_1", "description": "测试角色",
                 "tags": ["主角", "测试", "主角"], "attributes": [{ "key": "年龄", "value": "25" }] }"#,
        ),
        None,
        1,
        1,
    );
    let s = back(&subject);
    assert_eq!(s["tags"].as_array().unwrap().len(), 2);
    assert_eq!(s["attributes"], value(r#"[{ "key": "年龄", "value": "25" }]"#));
    assert!(subject_matches_query(&subject, "主角"));
    assert!(subject_matches_query(&subject, "小明"));
    assert!(!subject_matches_query(&subject, "不存在"));

    let renamed = build_subject_record(
        "sub_1",
        &parse(r#"{ "name": "小明改" }"#),
        Some(&subject),
        1,
        2,
    );
    let r = back(&renamed);
    assert_eq!(r["name"], value(r#""小明改""#));
    assert_eq!(r["description"], value(r#""测试角色""#));
    assert_eq!(r["tags"].as_array().unwrap().len(), 2);

    let row = back(&record_from_row(
        &parse(r#"{ "id": "cat_1", "metadata_json": "{\"name\":\"人物改\"}", "created_at": 1, "updated_at": 3 }"#),
        "subject-category",
    ));
    assert_eq!(row["name"], value(r#""人物改""#));
    assert_eq!(row["kind"], value(r#""subject-category""#));
    assert_eq!(required_text(&parse(r#"{ "name": "" }"#), "name"), None);
    assert_eq!(required_text(&parse(r#"{ "name": " x " }"#), "name").as_deref(), Some(" x "));
    assert_eq!(required_text(&parse(r#"{ "name": 3 }"#), "name"), None);
}

#[test]
fn string_lists_are_sorted_sets() {
    let tags = parse(r#"["b", " a ", "b", "", "c"]"#);
    assert_eq!(normalize_str_list(Some(&tags), None), vec!["a", "b", "c"]);
    let text = parse(r#""z, y , z""#);
    assert_eq!(normalize_str_list(None, Some(&text)), vec!["y", "z"]);
    assert!(normalize_str_list(None, None).is_empty());
    let mut v = vec!["a".to_string(), "c".to_string()];
    sorted_insert(&mut v, "b".to_string());
    sorted_insert(&mut v, "b".to_string());
    assert_eq!(v, vec!["a", "b", "c"]);
    assert!(text_less(&"ab".chars().collect(), &"b".chars().collect()));
    assert!(!text_less(&"b".chars().collect(), &"b".chars().collect()));
}

#[test]
fn attributes_and_images_are_cleaned() {
    let attrs = parse(
        r#"[{ "key": " 年龄 ", "value": "25" }, { "key": "年龄", "value": "25" }, { "key": "", "value": "" }]"#,
    );
    assert_eq!(back(&normalize_attributes(Some(&attrs))), value(r#"[{ "key": "年龄", "value": "25" }]"#));
    assert_eq!(back(&normalize_attributes(None)), value("[]"));
    let images = parse(r#"[{ "relativePath": " a.png " }, { "name": "b.png" }, { "name": " " }, 3]"#);
    assert_eq!(extract_image_paths(Some(&images)), vec!["a.png", "b.png"]);
}

#[test]
fn scheduler_tasks_are_refused_and_limits_clamped() {
    assert!(reject_internal_redclaw_task(&parse(r#"{ "task_type": "redclaw-long-cycle" }"#)).is_err());
    assert!(reject_internal_redclaw_task(&parse(r#"{ "task_type": "generic" }"#)).is_ok());
    assert_eq!(listing_limit(&parse(r#"{ "limit": 9999 }"#), 50, 1, 500), 500);
    assert_eq!(listing_limit(&parse("{}"), 50, 1, 500), 50);
    assert_eq!(back(&default_graph("x")).as_array().unwrap().len(), 4);
}

#[test]
fn background_tasks_inmemory_smoke() {
    let mut bg = BackgroundTasks::new();
    bg.push(parse(
        r#"{ "id": "bg_test_1", "kind": "redclaw-project", "status": "running", "phase": "thinking", "attemptCount": 1 }"#,
    ));
    assert_eq!(back(&bg.list()).as_array().unwrap().len(), 1);
    assert_eq!(back(&bg.get("bg_test_1"))["status"], value(r#""running""#));
    let cancelled = back(&bg.cancel("bg_test_1", 10));
    assert_eq!(cancelled["status"], value(r#""cancelled""#));
    assert_eq!(back(&bg.get("bg_test_1"))["cancelReason"], value(r#""user-cancelled""#));
    let retried = back(&bg.retry("bg_test_1", 11));
    assert_eq!(retried["attemptCount"], value("2"));
    assert_eq!(retried["status"], value(r#""running""#));
    let archived = back(&bg.archive("bg_test_1", 12));
    assert_eq!(archived["archived"], value("true"));
    assert_eq!(back(&bg.cancel("nope", 1)), serde_json::Value::Null);
}

#[test]
fn unknown_channel_errors() {
    assert!(tasks_channel("tasks:no-such-channel").is_err());
    assert!(tasks_channel("tasks:list").is_ok());
}

#[test]
fn work_updates_need_an_existing_id() {
    let records = vec![parse(r#"{ "id": "w1", "title": "a" }"#), parse(r#"{ "id": "w2" }"#)];
    assert_eq!(back(work_update_target(&records, &parse(r#"{ "id": "w2" }"#)).unwrap())["id"], value(r#""w2""#));
    assert_eq!(work_update_target(&records, &parse("{}")).unwrap_err(), "work item id is required");
    assert_eq!(work_update_target(&records, &parse(r#"{ "id": "" }"#)).unwrap_err(), "work item id is required");
    assert_eq!(work_update_target(&records, &parse(r#"{ "id": "w9" }"#)).unwrap_err(), "Work item not found: w9");
}
