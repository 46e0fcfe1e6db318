use yunying_server::generation::{imported_asset_record, merge_discovered, new_job_record, JobPool};
use yunying_server::job_requests::{
    image_step, image_urls_exhausted, ImageAttempt, ImageStep,
    asset_position, await_job_step, control_job, deleted_reply, job_artifacts_reply, job_reply,
    jobs_list_reply, manuscript_missing, media_asset_request, media_bind_request, submitted_reply,
};
use yunying_server::json::Json;
use yunying_server::media::MediaAsset;

fn conv(v: &serde_json::Value) -> Json {
    match v {
        serde_json::Value::Null => Json::Null,
        serde_json::Value::Bool(b) => Json::Bool(*b),
        serde_json::Value::Number(n) => match n.as_i64() {
            Some(i) => Json::Int(i),
            None => Json::Number(n.to_string()),
        },
        serde_json::Value::String(s) => Json::Str(
            s.clone(),
            serde_json::from_str::<serde_json::Value>(s).ok().map(|d| Box::new(conv(&d))),
        ),
        serde_json::Value::Array(a) => Json::Array(a.iter().map(conv).collect()),
        serde_json::Value::Object(m) => {
            Json::Object(m.iter().map(|(k, v)| (k.clone(), conv(v))).collect())
        }
    }
}

fn back(j: &Json) -> serde_json::Value {
    match j {
        Json::Null => serde_json::Value::Null,
        Json::Bool(b) => serde_json::Value::Bool(*b),
        Json::Int(i) => serde_json::Value::from(*i),
        Json::Number(t) => serde_json::from_str(t).unwrap(),
        Json::Str(s, _) => serde_json::Value::String(s.clone()),
        Json::Array(a) => serde_json::Value::Array(a.iter().map(back).collect()),
        Json::Object(e) => {
            let mut m = serde_json::Map::new();
            for (k, v) in e {
                m.insert(k.clone(), back(v));
            }
            serde_json::Value::Object(m)
        }
    }
}

fn parse(text: &str) -> Json {
    conv(&serde_json::from_str::<serde_json::Value>(text).unwrap())
}

fn value(text: &str) -> serde_json::Value {
    serde_json::from_str(text).unwrap()
}

fn asset(id: &str, path: Option<&str>) -> MediaAsset {
    MediaAsset {
        id: id.into(),
        source: "generated".into(),
        project_id: None,
        delivery_role: None,
        title: None,
        prompt: None,
        provider: None,
        provider_template: None,
        model: None,
        aspect_ratio: None,
        size: None,
        requested_size: None,
        quality: None,
        mime_type: None,
        relative_path: path.map(String::from),
        bound_manuscript_path: None,
        created_at: "t".into(),
        updated_at: "t".into(),
    }
}

#[test]
fn media_requests_need_their_ids() {
    assert_eq!(media_asset_request(&parse(r#"{ "assetId": "  a1 " }"#)).unwrap(), "a1");
    let refused = media_asset_request(&parse(r#"{ "assetId": "   " }"#)).unwrap_err();
    assert_eq!(back(&refused), value(r#"{ "success": false, "error": "assetId is required" }"#));
    assert!(media_asset_request(&parse("{}")).is_err());

    let (a, m) = media_bind_request(&parse(r#"{ "assetId": "a1", "manuscriptPath": " notes/x.md " }"#)).unwrap();
    assert_eq!((a.as_str(), m.as_str()), ("a1", "notes/x.md"));
    let refused = media_bind_request(&parse(r#"{ "assetId": "a1" }"#)).unwrap_err();
    assert_eq!(back(&refused), value(r#"{ "success": false, "error": "assetId and manuscriptPath are required" }"#));
    assert_eq!(back(&manuscript_missing()), value(r#"{ "success": false, "error": "Manuscript not found" }"#));
}

#[test]
fn assets_are_found_by_id() {
    let assets = vec![asset("a", None), asset("b", Some("generated/b.png")), asset("b", None)];
    assert_eq!(asset_position(&assets, "b").unwrap(), 1);
    let missing = asset_position(&assets, "c").unwrap_err();
    assert_eq!(back(&missing), value(r#"{ "success": false, "error": "Media asset not found" }"#));
    assert_eq!(
        back(&deleted_reply(&assets[1])),
        value(r#"{ "success": true, "deleted": { "id": "b", "relativePath": "generated/b.png" } }"#)
    );
    assert_eq!(back(&deleted_reply(&assets[0]))["deleted"]["relativePath"], value("null"));
}

#[test]
fn job_pool_replies() {
    let mut pool = JobPool::new();
    let job = new_job_record("j1", "image", parse(r#"{ "prompt": "cat" }"#), 5);
    let reply = back(&submitted_reply("j1", parse(&back(&job).to_string())));
    assert_eq!(reply["jobId"], value(r#""j1""#));
    assert_eq!(reply["status"], value(r#""pending""#));
    assert_eq!(reply["job"]["prompt"], value(r#""cat""#));
    pool.insert("j1", job);

    assert_eq!(back(&job_reply(&pool, &parse(r#"{ "jobId": "j1" }"#)))["kind"], value(r#""image""#));
    assert_eq!(back(&job_reply(&pool, &parse(r#"{ "jobId": "zz" }"#))), value("null"));
    assert_eq!(back(&job_artifacts_reply(&pool, &parse(r#"{ "jobId": "j1" }"#))), value(r#"{ "success": true, "artifacts": [] }"#));
    assert_eq!(back(&job_artifacts_reply(&pool, &parse("{}"))), value(r#"{ "success": true, "artifacts": [] }"#));
    assert_eq!(back(&jobs_list_reply(&pool))["items"].as_array().unwrap().len(), 1);

    let ok = control_job(&mut pool, &parse(r#"{ "jobId": "j1" }"#), "cancelled");
    assert_eq!(back(&ok), value(r#"{ "ok": true }"#));
    assert_eq!(back(pool.get("j1").unwrap())["status"], value(r#""cancelled""#));
    let ok = control_job(&mut pool, &parse(r#"{ "jobId": "none" }"#), "pending");
    assert_eq!(back(&ok), value(r#"{ "ok": true }"#));
    assert_eq!(pool.list().len(), 1);
}

#[test]
fn waiting_for_a_job_ends_when_it_finishes_or_times_out() {
    let done = await_job_step(parse(r#"{ "id": "j", "status": "completed" }"#), false).unwrap();
    assert_eq!(back(&done)["success"], value("true"));
    let failed = await_job_step(parse(r#"{ "id": "j", "status": "failed" }"#), false).unwrap();
    assert_eq!(back(&failed)["success"], value("false"));
    assert!(await_job_step(parse(r#"{ "id": "j", "status": "running" }"#), false).is_none());
    let late = await_job_step(parse(r#"{ "id": "j", "status": "running" }"#), true).unwrap();
    assert_eq!(back(&late)["error"], value(r#""等待生成任务超时""#));
    let gone = await_job_step(Json::Null, true).unwrap();
    assert_eq!(back(&gone), value(r#"{ "success": false, "error": "等待生成任务超时", "job": null }"#));
}

fn reply(success: bool, content_type: &str, body: &str, parsed: Result<Json, String>) -> ImageAttempt {
    ImageAttempt::Reply {
        success,
        status: "500 Internal Server Error".into(),
        content_type: content_type.into(),
        body: body.into(),
        parsed,
    }
}

#[test]
fn image_urls_fall_back_only_on_refused_replies() {
    match image_step("https://a/v1/images", ImageAttempt::SendFailed("timeout".into())) {
        ImageStep::Fail(m) => assert_eq!(m, "图片生成请求失败（https://a/v1/images）: timeout"),
        _ => panic!("a send failure stops"),
    }
    match image_step("u", ImageAttempt::ReadFailed("eof".into())) {
        ImageStep::Fail(m) => assert_eq!(m, "读取图片生成响应失败（u）: eof"),
        _ => panic!("a read failure stops"),
    }
    match image_step("u", reply(true, "Application/JSON; charset=utf-8", "{}", Ok(parse(r#"{ "data": [] }"#)))) {
        ImageStep::Accept(j) => assert_eq!(back(&j), value(r#"{ "data": [] }"#)),
        _ => panic!("a JSON reply is used"),
    }
    match image_step("u", reply(true, "application/json", "x", Err("bad".into()))) {
        ImageStep::Next(m) => assert_eq!(m, "u 返回无效 JSON: bad"),
        _ => panic!("invalid JSON moves on"),
    }
    match image_step("u", reply(false, "text/html", "oops", Err("n/a".into()))) {
        ImageStep::Next(m) => assert_eq!(m, "u HTTP 500 Internal Server Error: oops"),
        _ => panic!("a refused reply moves on"),
    }
    assert_eq!(image_urls_exhausted("e"), "图片生成接口不可用: e");
}

#[test]
fn found_files_join_the_catalog_once() {
    let assets = vec![asset("a", Some("generated/a.png"))];
    let found = vec![
        ("generated/a.png".to_string(), "m1".to_string(), "t1".to_string()),
        ("external/clip.mp4".to_string(), "m2".to_string(), "t2".to_string()),
        ("external/clip.mp4".to_string(), "m3".to_string(), "t3".to_string()),
        ("notes/pic.jpg".to_string(), "m4".to_string(), "t4".to_string()),
    ];
    let merged = merge_discovered(assets, &found);
    let ids: Vec<&str> = merged.iter().map(|a| a.id.as_str()).collect();
    assert_eq!(ids, vec!["a", "m2", "m4"]);
    assert_eq!(merged[1].source, "external");
    assert_eq!(merged[1].title.as_deref(), Some("clip"));
    assert_eq!(merged[1].mime_type.as_deref(), Some("video/mp4"));
    assert_eq!(merged[1].created_at, "t2");
    assert_eq!(merged[2].source, "imported");
    assert_eq!(merged[2].relative_path.as_deref(), Some("notes/pic.jpg"));
}

#[test]
fn imported_files_keep_their_source_name_and_type() {
    let a = imported_asset_record("/tmp/拍摄/clip.MOV", "external", "external/2024-01-01/m1_clip.MOV".into(), "m1".into(), "t".into());
    assert_eq!(a.id, "m1");
    assert_eq!(a.source, "external");
    assert_eq!(a.title.as_deref(), Some("clip"));
    assert_eq!(a.mime_type.as_deref(), Some("video/quicktime"));
    assert_eq!(a.relative_path.as_deref(), Some("external/2024-01-01/m1_clip.MOV"));
    assert_eq!((a.created_at.as_str(), a.updated_at.as_str()), ("t", "t"));
}
