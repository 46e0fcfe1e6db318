use yunying_server::generation::arrange_media_assets;
use yunying_server::json::Json;
use yunying_server::media::MediaAsset;
use yunying_server::order::{rank_less, sort_by_rank, take_items, text_desc_rank_exec};
use yunying_server::redclaw::arrange_projects;
use yunying_server::social::arrange_rooms;
use yunying_server::tasks::list_work_items;

fn conv(v: &serde_json::Value) -> Json {
    match v {
        serde_json::Value::Null => Json::Null,
        serde_json::Value::Bool(b) => Json::Bool(*b),
        serde_json::Value::Number(n) => match n.as_i64() {
            Some(i) => Json::Int(i),
            None => Json::Number(n.to_string()),
        },
        serde_json::Value::String(s) => Json::Str(
            s.clone(),
            serde_json::from_str::<serde_json::Value>(s).ok().map(|d| Box::new(conv(&d))),
        ),
        serde_json::Value::Array(a) => Json::Array(a.iter().map(conv).collect()),
        serde_json::Value::Object(m) => {
            Json::Object(m.iter().map(|(k, v)| (k.clone(), conv(v))).collect())
        }
    }
}

fn back(j: &Json) -> serde_json::Value {
    match j {
        Json::Null => serde_json::Value::Null,
        Json::Bool(b) => serde_json::Value::Bool(*b),
        Json::Int(i) => serde_json::Value::from(*i),
        Json::Number(t) => serde_json::from_str(t).unwrap(),
        Json::Str(s, _) => serde_json::Value::String(s.clone()),
        Json::Array(a) => serde_json::Value::Array(a.iter().map(back).collect()),
        Json::Object(e) => {
            let mut m = serde_json::Map::new();
            for (k, v) in e {
                m.insert(k.clone(), back(v));
            }
            serde_json::Value::Object(m)
        }
    }
}

fn parse(text: &str) -> Json {
    conv(&serde_json::from_str::<serde_json::Value>(text).unwrap())
}

fn value(text: &str) -> serde_json::Value {
    serde_json::from_str(text).unwrap()
}

fn ids(items: &[Json]) -> Vec<String> {
    items.iter().map(|j| back(j)["id"].as_str().unwrap().to_string()).collect()
}

fn asset(id: &str, updated: &str) -> MediaAsset {
    MediaAsset {
        id: id.into(),
        source: "generated".into(),
        project_id: None,
        delivery_role: None,
        title: None,
        prompt: None,
        provider: None,
        provider_template: None,
        model: None,
        aspect_ratio: None,
        size: None,
        requested_size: None,
        quality: None,
        mime_type: None,
        relative_path: None,
        bound_manuscript_path: None,
        created_at: updated.into(),
        updated_at: updated.into(),
    }
}

#[test]
fn rank_comparison_is_lexicographic() {
    assert!(rank_less(&vec![0, 5], &vec![1, 0]));
    assert!(rank_less(&vec![1, 2], &vec![1, 3]));
    assert!(!rank_less(&vec![1, 3], &vec![1, 3]));
    assert!(!rank_less(&vec![2], &vec![1, 9]));
}

#[test]
fn descending_text_rank_puts_later_texts_first() {
    let a = text_desc_rank_exec("2024-01-02");
    let b = text_desc_rank_exec("2024-01-01");
    assert!(rank_less(&a, &b));
    assert!(!rank_less(&b, &a));
    assert_eq!(text_desc_rank_exec("ab"), vec![-97, -98, 1]);
}

#[test]
fn sorting_by_rank_is_stable() {
    let v = vec![(vec![2i128], "a"), (vec![1], "b"), (vec![2], "c"), (vec![0], "d")];
    let sorted = sort_by_rank(v);
    let order: Vec<&str> = sorted.iter().map(|p| p.1).collect();
    assert_eq!(order, vec!["d", "b", "a", "c"]);
    assert_eq!(take_items(sorted, 2), vec!["d", "b"]);
}

#[test]
fn work_items_list_active_then_ready_then_priority() {
    let records = vec![
        parse(r#"{ "id": "w1", "status": "pending", "priority": 3, "updatedAt": 10, "dependsOn": ["w9"] }"#),
        parse(r#"{ "id": "w2", "status": "pending", "priority": 1, "updatedAt": 5 }"#),
        parse(r#"{ "id": "w3", "status": "active", "priority": 4, "updatedAt": 1 }"#),
        parse(r#"{ "id": "w4", "status": "pending", "priority": 1, "updatedAt": 9 }"#),
        parse(r#"{ "id": "w5", "status": "done", "updatedAt": 100 }"#),
    ];
    let all = list_work_items(&records, &parse("{}"));
    assert_eq!(ids(&all), vec!["w3", "w4", "w2", "w5", "w1"]);
    let first = back(&all[0]);
    assert_eq!(first["effectiveStatus"], value(r#""active""#));
    let blocked = back(&all[4]);
    assert_eq!(blocked["effectiveStatus"], value(r#""blocked""#));
    assert_eq!(blocked["blockedBy"], value(r#"["w9"]"#));
    assert_eq!(blocked["ready"], value("false"));

    let limited = list_work_items(&records, &parse(r#"{ "limit": 2 }"#));
    assert_eq!(ids(&limited), vec!["w3", "w4"]);
    let at_least_one = list_work_items(&records, &parse(r#"{ "limit": 0 }"#));
    assert_eq!(ids(&at_least_one), vec!["w3"]);
}

#[test]
fn projects_list_most_recent_first() {
    let projects = vec![
        parse(r#"{ "id": "rc_a", "updatedAt": "2024-01-01T00:00:00.000Z" }"#),
        parse(r#"{ "id": "rc_b", "updatedAt": "2024-03-01T00:00:00.000Z" }"#),
        parse(r#"{ "id": "rc_c" }"#),
        parse(r#"{ "id": "rc_d", "updatedAt": "2024-02-01T00:00:00.000Z" }"#),
    ];
    let copy = |v: &Vec<Json>| v.iter().map(|j| parse(&back(j).to_string())).collect::<Vec<_>>();
    assert_eq!(ids(&arrange_projects(copy(&projects), 10)), vec!["rc_b", "rc_d", "rc_a", "rc_c"]);
    assert_eq!(ids(&arrange_projects(copy(&projects), 2)), vec!["rc_b", "rc_d"]);
    assert_eq!(ids(&arrange_projects(copy(&projects), 0)), vec!["rc_b"]);
}

#[test]
fn rooms_list_system_rooms_first_then_newest() {
    let rooms = vec![
        parse(r#"{ "id": "r1", "createdAt": "2024-01-01T00:00:00Z" }"#),
        parse(r#"{ "id": "r2", "createdAt": "2024-05-01T00:00:00Z" }"#),
        parse(r#"{ "id": "sys", "isSystem": true, "createdAt": "2020-01-01T00:00:00Z" }"#),
        parse(r#"{ "id": "r3", "createdAt": "2024-05-01T00:00:00Z" }"#),
    ];
    assert_eq!(ids(&arrange_rooms(rooms)), vec!["sys", "r2", "r3", "r1"]);
}

#[test]
fn media_assets_list_most_recently_updated_first() {
    let assets = vec![
        asset("m1", "2024-01-01T00:00:00.000Z"),
        asset("m2", "2024-06-01T00:00:00.000Z"),
        asset("m3", "2024-03-01T00:00:00.000Z"),
    ];
    let listed = arrange_media_assets(assets, 2);
    let got: Vec<&str> = listed.iter().map(|a| a.id.as_str()).collect();
    assert_eq!(got, vec!["m2", "m3"]);
}
