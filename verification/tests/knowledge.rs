use yunying_server::json::Json;
use yunying_server::knowledge::{
    catalog_item_from_vector_row, delete_source_id, doc_file_entry, doc_file_items,
    document_source_view, folder_relative_path, folder_request, index_status, knowledge_channel,
    lane_view, list_page, note_id_of, page_request, should_execute, space_id_of, youtube_id_of,
};

fn conv(v: &serde_json::Value) -> Json {
    match v {
        serde_json::Value::Null => Json::Null,
        serde_json::Value::Bool(b) => Json::Bool(*b),
        serde_json::Value::Number(n) => match n.as_i64() {
            Some(i) => Json::Int(i),
            None => Json::Number(n.to_string()),
        },
        serde_json::Value::String(s) => Json::Str(
            s.clone(),
            serde_json::from_str::<serde_json::Value>(s).ok().map(|d| Box::new(conv(&d))),
        ),
        serde_json::Value::Array(a) => Json::Array(a.iter().map(conv).collect()),
        serde_json::Value::Object(m) => {
            Json::Object(m.iter().map(|(k, v)| (k.clone(), conv(v))).collect())
        }
    }
}

fn back(j: &Json) -> serde_json::Value {
    match j {
        Json::Null => serde_json::Value::Null,
        Json::Bool(b) => serde_json::Value::Bool(*b),
        Json::Int(i) => serde_json::Value::from(*i),
        Json::Number(t) => serde_json::from_str(t).unwrap(),
        Json::Str(s, _) => serde_json::Value::String(s.clone()),
        Json::Array(a) => serde_json::Value::Array(a.iter().map(back).collect()),
        Json::Object(e) => {
            let mut m = serde_json::Map::new();
            for (k, v) in e {
                m.insert(k.clone(), back(v));
            }
            serde_json::Value::Object(m)
        }
    }
}

fn parse(text: &str) -> Json {
    conv(&serde_json::from_str::<serde_json::Value>(text).unwrap())
}

fn value(text: &str) -> serde_json::Value {
    serde_json::from_str(text).unwrap()
}

fn catalog() -> (Vec<Json>, Vec<String>) {
    let items = vec![
        catalog_item_from_vector_row(&parse(
            r#"{ "source_id": "n1", "source_type": "redbook-note", "metadata": "{\"title\":\"Rust 笔记\"}" }"#,
        )),
        catalog_item_from_vector_row(&parse(
            r#"{ "source_id": "n2", "source_type": "redbook-note", "metadata": "{\"title\":\"Go 语言\"}" }"#,
        )),
        document_source_view(&parse(r#"{ "source_id": "doc-1", "file_count": 1, "updated_at": 1 }"#)),
    ];
    let texts = items.iter().map(|i| back(i).to_string()).collect();
    (items, texts)
}

#[test]
fn index_status_counts_lanes() {
    // Two lanes: one running with 5 of 10 done and 1 failed, one idle with 3 of 3.
    let status = back(&index_status(5 + 3, 10 + 3, 1, 1, Json::Null));
    assert_eq!(status["indexedCount"], value("8"));
    assert_eq!(status["failedCount"], value("1"));
    assert_eq!(status["isBuilding"], value("true"));
    assert_eq!(status["pendingCount"], value("4"));
    // Pending never goes below zero.
    let over = back(&index_status(10, 5, 2, 0, Json::Null));
    assert_eq!(over["pendingCount"], value("0"));
    assert_eq!(over["isBuilding"], value("false"));
    let lane = back(&lane_view(&parse(r#"{ "lane": "vectors", "status": "running", "done": 5 }"#)));
    assert_eq!(lane["label"], value(r#""vectors""#));
    assert_eq!(lane["total"], value("0"));
}

#[test]
fn list_page_filters_by_kind_and_query() {
    let (items, texts) = catalog();
    let docs_req = page_request(&parse(r#"{ "payload": { "kind": "document-source", "limit": 10 } }"#));
    let docs = back(&list_page(&items, &texts, &docs_req));
    assert_eq!(docs["total"], value("1"));
    assert_eq!(docs["kindCounts"]["document-source"], value("1"));

    let rust_req = page_request(&parse(r#"{ "query": "RUST" }"#));
    assert_eq!(rust_req.query, "rust");
    let rust = back(&list_page(&items, &texts, &rust_req));
    let titles: Vec<String> = rust["items"]
        .as_array()
        .unwrap()
        .iter()
        .map(|v| v["title"].as_str().unwrap_or("").to_string())
        .collect();
    assert!(titles.iter().any(|t| t.contains("Rust")));
    assert!(!titles.iter().any(|t| t.contains("Go 语言")));
}

#[test]
fn pages_follow_the_cursor() {
    let (items, texts) = catalog();
    let first = back(&list_page(&items, &texts, &page_request(&parse(r#"{ "limit": 2 }"#))));
    assert_eq!(first["items"].as_array().unwrap().len(), 2);
    assert_eq!(first["nextCursor"], value(r#""2""#));
    assert_eq!(first["total"], value("3"));
    assert_eq!(first["kindCounts"]["redbook-note"], value("2"));
    let second =
        back(&list_page(&items, &texts, &page_request(&parse(r#"{ "limit": 2, "cursor": 2 }"#))));
    assert_eq!(second["items"].as_array().unwrap().len(), 1);
    assert_eq!(second["nextCursor"], serde_json::Value::Null);
    let past = back(&list_page(&items, &texts, &page_request(&parse(r#"{ "cursor": 9 }"#))));
    assert!(past["items"].as_array().unwrap().is_empty());
    let req = page_request(&parse(r#"{ "limit": 0, "cursor": -4 }"#));
    assert_eq!(req.limit, 1);
    assert_eq!(req.cursor, 0);
}

#[test]
fn list_dedupes_by_source_id_and_merges_metadata() {
    let item = back(&catalog_item_from_vector_row(&parse(
        r#"{ "source_id": "note-x", "source_type": "redbook-note",
             "metadata": "{\"title\":\"笔记一\",\"author\":\"张三\",\"id\":\"other\"}" }"#,
    )));
    assert_eq!(item["kind"], value(r#""redbook-note""#));
    assert_eq!(item["title"], value(r#""笔记一""#));
    assert_eq!(item["author"], value(r#""张三""#));
    // The row's own fields are not overridden by its metadata.
    assert_eq!(item["id"], value(r#""note-x""#));
}

#[test]
fn docs_add_files_accepts_picker_paths_and_generates_metadata() {
    let payload = parse(r#"{ "paths": ["/docs/a.md", { "absolutePath": "/docs/b.txt", "title": "B" }, {}] }"#);
    let items = doc_file_items(&payload);
    assert_eq!(items.len(), 3);
    let a = doc_file_entry(&items[0], true, "src_1".into(), Some(12), Some(34)).unwrap();
    assert_eq!(a.source_id, "src_1");
    assert_eq!(a.relative_path, "a.md");
    assert_eq!(a.title, "a.md");
    assert_eq!(a.file_size, 12);
    assert_eq!(a.mtime_ms, 34);
    let b = doc_file_entry(&items[1], false, "src_2".into(), None, None).unwrap();
    assert_eq!(b.title, "B");
    assert_eq!(b.file_size, 0);
    assert!(doc_file_entry(&items[2], true, "src_3".into(), None, None).is_none());
    // A bare path that is not a file is skipped.
    assert!(doc_file_entry(&items[0], false, "src_4".into(), None, None).is_none());
    assert_eq!(space_id_of(&payload), "default");
}

#[test]
fn docs_add_files_dry_run_does_not_write() {
    assert!(!should_execute(&parse(r#"{ "files": [] }"#)));
    assert!(!should_execute(&parse(r#"{ "dryRun": true, "confirm": true }"#)));
    assert!(should_execute(&parse(r#"{ "confirm": true }"#)));
    assert!(should_execute(&parse(r#""note-1""#)));
}

#[test]
fn ids_come_from_keys_or_the_request_itself() {
    assert_eq!(note_id_of(&parse(r#"{ "noteId": " n " }"#)).as_deref(), Some("n"));
    assert_eq!(note_id_of(&parse(r#""raw""#)).as_deref(), Some("raw"));
    assert_eq!(note_id_of(&parse(r#"{ "noteId": " " }"#)), None);
    assert_eq!(youtube_id_of(&parse(r#"{ "videoId": "v", "id": "i" }"#)).as_deref(), Some("v"));
    assert_eq!(delete_source_id(&parse(r#"{ "source_id": "s" }"#)), "s");
    assert_eq!(delete_source_id(&parse("{}")), "");
}

#[test]
fn folder_registrations_name_a_folder() {
    let req = folder_request(&parse(r#"{ "folder": "/f", "sourceId": "  " }"#), "fresh".into()).unwrap();
    assert_eq!(req.folder, "/f");
    assert_eq!(req.source_id, "fresh");
    assert_eq!(req.space_id, "default");
    assert!(folder_request(&parse("{}"), "fresh".into()).is_none());
    assert_eq!(folder_relative_path("a\\b\\c.md"), "a/b/c.md");
    assert!(knowledge_channel("knowledge:no-such").is_err());
}
