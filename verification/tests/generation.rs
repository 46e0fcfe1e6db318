use std::io::Cursor;

use yunying_server::generation::{
    ark_video_tasks_url, aspect_crop, assign_asset_project, catalog_has_path,
    check_local_reference, check_video_references, collect_video_urls, continuation_clip,
    decode_base64_text, decode_data_url, decode_percent_text, dimension_check,
    discovered_asset_record, encode_data_url, generated_asset_record, guess_mime_type,
    image_request_plan, import_file_paths, import_folder, import_source,
    imported_asset_relative_path, is_catalog_file_name, job_status_finished, last_frame_data_url,
    mark_job_completed, mark_job_failed, mark_job_running, new_job_record,
    normalize_generated_image_aspect, normalize_prompt, normalize_relative_path,
    parse_aspect_ratio, project_move_target, reconcile_dimensions, reference_source,
    sanitize_imported_file_name, truncate_response_body, video_poll_step, video_request_plan,
    video_seconds, video_size, video_status_failed, video_status_succeeded, video_task_id,
    video_task_status, GenerationSettings, GooseSettings, ImageSettings, JobPool, MediaSource,
    PollStep, ReferenceKind, VideoSettings,
};
use yunying_server::json::Json;
use yunying_server::media::{MediaAsset, SafetyConfig};

fn conv(v: &serde_json::Value) -> Json {
    match v {
        serde_json::Value::Null => Json::Null,
        serde_json::Value::Bool(b) => Json::Bool(*b),
        serde_json::Value::Number(n) => match n.as_i64() {
            Some(i) => Json::Int(i),
            None => Json::Number(n.to_string()),
        },
        serde_json::Value::String(s) => Json::Str(
            s.clone(),
            serde_json::from_str::<serde_json::Value>(s).ok().map(|d| Box::new(conv(&d))),
        ),
        serde_json::Value::Array(a) => Json::Array(a.iter().map(conv).collect()),
        serde_json::Value::Object(m) => {
            Json::Object(m.iter().map(|(k, v)| (k.clone(), conv(v))).collect())
        }
    }
}

fn back(j: &Json) -> serde_json::Value {
    match j {
        Json::Null => serde_json::Value::Null,
        Json::Bool(b) => serde_json::Value::Bool(*b),
        Json::Int(i) => serde_json::Value::from(*i),
        Json::Number(t) => serde_json::from_str(t).unwrap(),
        Json::Str(s, _) => serde_json::Value::String(s.clone()),
        Json::Array(a) => serde_json::Value::Array(a.iter().map(back).collect()),
        Json::Object(e) => {
            let mut m = serde_json::Map::new();
            for (k, v) in e {
                m.insert(k.clone(), back(v));
            }
            serde_json::Value::Object(m)
        }
    }
}

fn parse(text: &str) -> Json {
    conv(&serde_json::from_str::<serde_json::Value>(text).unwrap())
}

fn value(text: &str) -> serde_json::Value {
    serde_json::from_str(text).unwrap()
}

fn png(width: u32, height: u32) -> Vec<u8> {
    let mut out = Cursor::new(Vec::new());
    image::DynamicImage::new_rgb8(width, height)
        .write_to(&mut out, image::ImageOutputFormat::Png)
        .unwrap();
    out.into_inner()
}

fn settings(run_image: bool, run_video: bool) -> GenerationSettings {
    GenerationSettings {
        image: ImageSettings {
            endpoint: "https://img.example.com".into(),
            api_key: "k".into(),
            model: String::new(),
            provider: String::new(),
            size: String::new(),
            quality: String::new(),
            aspect_ratio: String::new(),
        },
        video: VideoSettings {
            endpoint: "https://ark.cn-beijing.volces.com/api/v3".into(),
            api_key: "v".into(),
            model: String::new(),
            duration_seconds: 8,
        },
        goose: GooseSettings { base_url: String::new(), api_key: String::new() },
        safety: SafetyConfig { run_real_image: run_image, run_real_video: run_video },
    }
}

fn asset(id: &str, relative: Option<&str>, mime: Option<&str>) -> MediaAsset {
    MediaAsset {
        id: id.into(),
        source: "generated".into(),
        project_id: None,
        delivery_role: Some("final_video".into()),
        title: Some("video_stitch: 成片".into()),
        prompt: None,
        provider: Some("openmontage".into()),
        provider_template: None,
        model: None,
        aspect_ratio: None,
        size: None,
        requested_size: None,
        quality: None,
        mime_type: mime.map(String::from),
        relative_path: relative.map(String::from),
        bound_manuscript_path: None,
        created_at: "t0".into(),
        updated_at: "t0".into(),
    }
}

#[test]
fn job_pool_submit_list_cancel() {
    let mut pool = JobPool::new();
    let id = "test-job-1";
    pool.insert(id, parse(r#"{ "id": "test-job-1", "kind": "image", "status": "planned" }"#));
    assert!(pool.get(id).is_some());
    assert_eq!(pool.list().len(), 1);
    pool.set_status(id, "cancelled");
    assert_eq!(pool.get(id).unwrap().get_str("status").unwrap(), "cancelled");
    // Setting the status of an unknown job changes nothing.
    pool.set_status("other", "running");
    assert!(pool.get("other").is_none());
}

#[test]
fn job_records_move_through_their_states() {
    let mut pool = JobPool::new();
    let mut job = new_job_record("j1", "video", parse(r#"{ "prompt": "sea" }"#), 100);
    assert_eq!(back(&job)["status"], value(r#""pending""#));
    assert_eq!(back(&job)["source"], value(r#""desktop""#));
    assert_eq!(back(&job)["prompt"], value(r#""sea""#));
    pool.insert("j1", new_job_record("j1", "video", parse("{}"), 100));
    pool.insert("j2", new_job_record("j2", "image", parse("{}"), 100));
    assert_eq!(pool.active_count(), 2);
    mark_job_running(&mut job, 200);
    assert_eq!(back(&job)["status"], value(r#""running""#));
    assert_eq!(back(&job)["updatedAt"], value("200"));
    mark_job_completed(&mut job, vec![parse(r#"{ "id": "a" }"#)], 300);
    assert_eq!(back(&job)["status"], value(r#""completed""#));
    assert!(job_status_finished("completed"));
    let mut failed = new_job_record("j3", "image", parse("{}"), 1);
    mark_job_failed(&mut failed, "boom", 2);
    assert_eq!(back(&failed)["status"], value(r#""failed""#));
    assert_eq!(back(&failed)["error"], value(r#""boom""#));
    assert!(!job_status_finished("running"));
    pool.set_status("j1", "completed");
    assert_eq!(pool.active_count(), 1);
}

#[test]
fn remote_video_reference_is_preserved() {
    let reference = "https://example.com/reference.png";
    match reference_source(ReferenceKind::Image, reference).unwrap() {
        MediaSource::Remote(r) => assert_eq!(r, reference),
        MediaSource::Local(l) => panic!("unexpected local {l}"),
    }
}

#[test]
fn local_video_reference_is_embedded_as_data_url() {
    match reference_source(ReferenceKind::Image, " file:///tmp/my%20ref.png ").unwrap() {
        MediaSource::Local(p) => {
            assert_eq!(p, "/tmp/my ref.png");
            assert_eq!(check_local_reference(ReferenceKind::Image, &p, true).unwrap(), "image/png");
        }
        MediaSource::Remote(r) => panic!("unexpected remote {r}"),
    }
    let url = encode_data_url("image/png", b"reference-image");
    assert!(url.starts_with("data:image/png;base64,"));
    let encoded = url.split_once(',').unwrap().1;
    assert_eq!(decode_base64_text(encoded).unwrap(), b"reference-image");
}

#[test]
fn local_references_must_be_files_of_the_right_kind() {
    assert!(check_local_reference(ReferenceKind::Image, "/x/a.png", false)
        .unwrap_err()
        .starts_with("参考图不存在或不是文件: "));
    assert_eq!(
        check_local_reference(ReferenceKind::PreviousClip, "/x/a.png", true).unwrap_err(),
        "上一段视频格式不受支持: image/png"
    );
    assert_eq!(
        check_local_reference(ReferenceKind::PreviousClip, "/x/a.mp4", true).unwrap(),
        "video/mp4"
    );
    assert_eq!(
        reference_source(ReferenceKind::PreviousClip, "   ").unwrap_err(),
        "视频续写模式缺少上一段视频"
    );
    assert!(reference_source(ReferenceKind::Image, "/bad/%FF")
        .unwrap_err()
        .starts_with("参考图路径解码失败: "));
}

#[test]
fn last_frames_become_png_data_urls() {
    assert_eq!(last_frame_data_url(b"").unwrap_err(), "上一段视频尾帧为空");
    let url = last_frame_data_url(b"frame").unwrap();
    assert_eq!(url, encode_data_url("image/png", b"frame"));
}

#[test]
fn assigning_project_moves_generated_asset_file() {
    let mut a = asset("media_test", Some("generated/media_test.mp4"), Some("video/mp4"));
    let target = project_move_target(&a, Some("学习桌广告"));
    assert_eq!(target.as_deref(), Some("generated/学习桌广告/output/media_test.mp4"));
    assign_asset_project(&mut a, Some("学习桌广告".into()), target);
    assert_eq!(a.project_id.as_deref(), Some("学习桌广告"));
    assert_eq!(a.relative_path.as_deref(), Some("generated/学习桌广告/output/media_test.mp4"));
    // Moving it back out of the project.
    let out = project_move_target(&a, None);
    assert_eq!(out.as_deref(), Some("generated/media_test.mp4"));
    // Imported assets do not move.
    let mut imported = asset("m2", Some("imported/x.png"), Some("image/png"));
    imported.source = "imported".into();
    assert_eq!(project_move_target(&imported, Some("p")), None);
}

#[test]
fn generated_image_catalog_uses_physical_size_after_aspect_crop() {
    let (normalized, mime_type) =
        normalize_generated_image_aspect(png(300, 200), "image/png".into(), Some("3:4")).unwrap();
    let decoded = image::load_from_memory(&normalized).unwrap();
    assert_eq!((decoded.width(), decoded.height()), (150, 200));
    assert_eq!(mime_type, "image/png");

    let record = generated_asset_record(
        &parse(r#"{ "prompt": "local fixture", "aspectRatio": "3:4" }"#),
        "media_1".into(),
        &normalized,
        &mime_type,
        "fixture-provider",
        "fixture-model",
        Some("3:4".into()),
        Some("1024x1536".into()),
        Some("high".into()),
        "2024-01-01T00:00:00Z".into(),
    )
    .unwrap();
    assert_eq!(record.size.as_deref(), Some("150x200"));
    assert_eq!(record.requested_size.as_deref(), Some("1024x1536"));
    assert_eq!(record.relative_path.as_deref(), Some("generated/media_1.png"));
    assert_eq!(record.title.as_deref(), Some("local fixture"));
}

#[test]
fn empty_or_unreadable_generated_images_are_refused() {
    let empty = generated_asset_record(
        &parse("{}"),
        "m".into(),
        b"",
        "image/png",
        "p",
        "m",
        None,
        None,
        None,
        "t".into(),
    );
    assert_eq!(empty.unwrap_err(), "生成产物内容为空");
    let junk = generated_asset_record(
        &parse("{}"),
        "m".into(),
        b"not an image",
        "image/png",
        "p",
        "m",
        None,
        None,
        None,
        "t".into(),
    );
    assert!(junk.unwrap_err().starts_with("读取生成图片物理尺寸失败: "));
    // A video keeps the requested size as its size.
    let video = generated_asset_record(
        &parse("{}"),
        "v".into(),
        b"mp4",
        "video/mp4; codecs=x",
        "p",
        "m",
        None,
        Some("1280x720".into()),
        None,
        "t".into(),
    )
    .unwrap();
    assert_eq!(video.size.as_deref(), Some("1280x720"));
    assert_eq!(video.requested_size, None);
    assert_eq!(video.mime_type.as_deref(), Some("video/mp4"));
}

#[test]
fn aspect_normalization_leaves_matching_or_unknown_ratios_alone() {
    let square = png(100, 100);
    let (same, mime) =
        normalize_generated_image_aspect(square.clone(), "image/png".into(), Some("1:1")).unwrap();
    assert_eq!(same, square);
    assert_eq!(mime, "image/png");
    let (kept, _) =
        normalize_generated_image_aspect(square.clone(), "image/png".into(), Some("wide")).unwrap();
    assert_eq!(kept, square);
    assert!(normalize_generated_image_aspect(b"junk".to_vec(), "image/png".into(), Some("3:4"))
        .unwrap_err()
        .starts_with("读取生成图片尺寸失败: "));
    assert_eq!(parse_aspect_ratio(" 16 : 9 "), Some((16, 9)));
    assert_eq!(parse_aspect_ratio("0:9"), None);
    assert_eq!(aspect_crop(300, 200, 3, 4), Some((75, 0, 150, 200)));
    assert_eq!(aspect_crop(200, 200, 1, 1), None);
}

#[test]
fn legacy_catalog_migrates_requested_image_size_to_physical_size() {
    let mut a = asset("legacy-image", Some("generated/legacy.png"), Some("image/png"));
    a.size = Some("1024x1536".into());
    assert_eq!(dimension_check(&a).as_deref(), Some("generated/legacy.png"));
    assert!(reconcile_dimensions(&mut a, 150, 200, "t1".into()));
    assert_eq!(a.size.as_deref(), Some("150x200"));
    assert_eq!(a.requested_size.as_deref(), Some("1024x1536"));
    assert_eq!(a.updated_at, "t1");
    // A second pass finds nothing to change.
    assert!(!reconcile_dimensions(&mut a, 150, 200, "t2".into()));
    assert_eq!(a.updated_at, "t1");
    // Vector images and videos are not measured.
    let svg = asset("s", Some("generated/s.svg"), None);
    assert_eq!(dimension_check(&svg), None);
    let mp4 = asset("v", Some("generated/v.mp4"), Some("video/mp4"));
    assert_eq!(dimension_check(&mp4), None);
}

#[test]
fn import_external_media_uses_source_and_date_folders() {
    let payload = parse(
        r#"{ "files": ["/tmp/creator-reference.png", { "path": "/tmp/b.mp4" }, 3],
             "source": "external" }"#,
    );
    assert_eq!(import_file_paths(&payload), vec!["/tmp/creator-reference.png", "/tmp/b.mp4"]);
    let source = import_source(&payload);
    assert_eq!(source, "external");
    let folder = import_folder(&source);
    assert_eq!(folder, "external");
    let relative =
        imported_asset_relative_path(folder, "2024-05-06", "media_1", "/tmp/creator-reference.png");
    assert!(relative.starts_with("external/"));
    assert!(relative.ends_with("creator-reference.png"));
    assert_eq!(relative, "external/2024-05-06/media_1_creator-reference.png");
    assert_eq!(import_folder("anything"), "imported");
    assert_eq!(import_source(&parse("{}")), "imported");
}

#[test]
fn media_catalog_discovers_html_assets() {
    let found = discovered_asset_record("generated/page.html", "m1".into(), "t".into());
    assert_eq!(found.mime_type.as_deref(), Some("text/html"));
    assert_eq!(found.relative_path.as_deref(), Some("generated/page.html"));
    assert_eq!(found.source, "generated");
    assert_eq!(found.title.as_deref(), Some("page"));
    assert!(catalog_has_path(&vec![found], "generated/page.html"));
    assert!(is_catalog_file_name("catalog.json.backup"));
    assert!(is_catalog_file_name("catalog.json.lock"));
    assert!(!is_catalog_file_name("cover.png"));
}

#[test]
fn safety_gate_blocks_image_and_video_before_provider_calls() {
    let off = settings(false, false);
    let image = image_request_plan(&parse(r#"{ "prompt": "p" }"#), &off);
    assert!(image.err().unwrap().contains("safety.run_real_image=false"));
    let video = video_request_plan(&parse(r#"{ "prompt": "p" }"#), &off);
    assert!(video.err().unwrap().contains("safety.run_real_video=false"));
}

#[test]
fn image_plans_take_request_then_configuration_then_defaults() {
    let on = settings(true, true);
    let plan = image_request_plan(&parse(r#"{ "prompt": "cat", "count": 9 }"#), &on).unwrap();
    assert_eq!(plan.endpoint, "https://img.example.com");
    assert_eq!(plan.model, "gpt-image-2");
    assert_eq!(plan.provider, "openai-compatible");
    assert_eq!(plan.count, 4);
    assert_eq!(
        image_request_plan(&parse("{}"), &on).err().unwrap(),
        "Prompt is required"
    );
}

#[test]
fn video_plans_and_references() {
    let on = settings(true, true);
    let plan = video_request_plan(
        &parse(r#"{ "prompt": "waves", "generationMode": "continuation", "durationSeconds": 30 }"#),
        &on,
    )
    .unwrap();
    assert_eq!(plan.duration_seconds, 12);
    assert_eq!(plan.aspect_ratio, "16:9");
    assert_eq!(continuation_clip(&plan).unwrap_err(), "视频续写模式需要上一段视频");
    assert_eq!(
        check_video_references("reference-guided", "reference-guided", 0).unwrap_err(),
        "参考图视频模式至少需要 1 张参考图"
    );
    assert_eq!(
        check_video_references("first-last-frame", "first-last-frame", 1).unwrap_err(),
        "首尾帧视频模式需要 2 张参考图"
    );
    assert!(check_video_references("text-to-video", "text-to-video", 0).is_ok());
    assert_eq!(video_size("9:16", "1080p"), "1024x1792");
    assert_eq!(video_size("16:9", "720p"), "1280x720");
    assert_eq!(video_seconds(5), "4");
    assert_eq!(video_seconds(8), "8");
    assert_eq!(video_seconds(12), "12");
}

#[test]
fn video_tasks_are_read_from_provider_replies() {
    assert_eq!(video_task_id(&parse(r#"{ "id": "t1" }"#)).as_deref(), Some("t1"));
    assert_eq!(video_task_status(&parse(r#"{ "status": "Succeeded" }"#)), "SUCCEEDED");
    assert!(video_status_succeeded("SUCCEEDED"));
    assert!(!video_status_succeeded("RUNNING"));
    assert!(video_status_failed("FAILED"));
    assert!(matches!(video_poll_step("SUCCEEDED", ""), PollStep::Done));
    assert!(matches!(video_poll_step("QUEUED", ""), PollStep::Wait));
    match video_poll_step("FAILED", " {} ") {
        PollStep::Failed(m) => assert_eq!(m, "视频任务失败: status=FAILED, payload={}"),
        _ => panic!("expected a failure"),
    }
    let mut urls = Vec::new();
    collect_video_urls(
        &parse(r#"{ "content": { "video_url": "https://v/1.mp4" }, "videos": ["http://v/2.mp4", "no", "https://v/1.mp4"] }"#),
        &mut urls,
    );
    assert!(urls.contains(&"https://v/1.mp4".to_string()));
    assert!(urls.contains(&"http://v/2.mp4".to_string()));
    assert!(!urls.contains(&"no".to_string()));
    assert_eq!(urls.len(), 2);
    assert_eq!(
        ark_video_tasks_url("https://ark.example.com/api/v3", Some("abc")),
        "https://ark.example.com/api/v3/contents/generations/tasks/abc"
    );
}

#[test]
fn text_helpers_normalize_prompts_paths_and_names() {
    assert_eq!(normalize_prompt("  a \n  b\tc "), "a b c");
    assert_eq!(normalize_relative_path(" ./a\\b ").unwrap(), "a/b");
    assert!(normalize_relative_path("../x").is_err());
    assert_eq!(guess_mime_type("x/Y.MP4"), "video/mp4");
    assert_eq!(sanitize_imported_file_name("/tmp/my photo!.png"), "my_photo");
    let long = "x".repeat(5000);
    assert!(truncate_response_body(&long).chars().count() < 5000);
    assert_eq!(truncate_response_body("short"), "short");
    let (bytes, mime) = decode_data_url("data:image/png;base64,aGVsbG8=").unwrap();
    assert_eq!(bytes, b"hello");
    assert_eq!(mime, "image/png");
    assert_eq!(decode_percent_text("a%20b").unwrap(), "a b");
}
