use yunying_server::json::Json;
use yunying_server::media::{
    blocked_generation_response, ensure_real_generation_enabled, generated_asset_category,
    generated_asset_relative_path, image_generation_urls, media_asset_category, mime_extension,
    payload_delivery_role, sanitize_media_project_folder, MediaAsset, RealGenerationKind,
    SafetyConfig,
};

fn conv(v: &serde_json::Value) -> Json {
    match v {
        serde_json::Value::Null => Json::Null,
        serde_json::Value::Bool(b) => Json::Bool(*b),
        serde_json::Value::Number(n) => match n.as_i64() {
            Some(i) => Json::Int(i),
            None => Json::Number(n.to_string()),
        },
        serde_json::Value::String(s) => Json::Str(
            s.clone(),
            serde_json::from_str::<serde_json::Value>(s).ok().map(|d| Box::new(conv(&d))),
        ),
        serde_json::Value::Array(a) => Json::Array(a.iter().map(conv).collect()),
        serde_json::Value::Object(m) => {
            Json::Object(m.iter().map(|(k, v)| (k.clone(), conv(v))).collect())
        }
    }
}

fn parse(text: &str) -> Json {
    conv(&serde_json::from_str::<serde_json::Value>(text).unwrap())
}

fn now_iso() -> String {
    chrono::Utc::now().to_rfc3339()
}

#[test]
fn openai_image_endpoint_prefers_v1_for_versionless_base() {
    assert_eq!(
        image_generation_urls("https://api.example.com"),
        vec![
            "https://api.example.com/v1/images/generations".to_string(),
            "https://api.example.com/images/generations".to_string(),
        ]
    );
    assert_eq!(
        image_generation_urls("https://api.example.com/v1"),
        vec!["https://api.example.com/v1/images/generations".to_string()]
    );
}

#[test]
fn image_endpoint_strips_routes_and_slashes() {
    assert_eq!(
        image_generation_urls("  https://gw.example.com/v1/Chat/Completions/  "),
        vec!["https://gw.example.com/v1/images/generations".to_string()]
    );
    assert_eq!(
        image_generation_urls("https://gw.example.com/openai/models"),
        vec!["https://gw.example.com/openai/images/generations".to_string()]
    );
    assert_eq!(
        image_generation_urls("https://gw.example.com/v1/images/generations"),
        vec!["https://gw.example.com/v1/images/generations".to_string()]
    );
    assert_eq!(
        image_generation_urls("https://gw.example.com/api/responses"),
        vec![
            "https://gw.example.com/api/v1/images/generations".to_string(),
            "https://gw.example.com/api/images/generations".to_string(),
        ]
    );
}

fn asset(role: Option<&str>, title: Option<&str>, mime: Option<&str>, path: Option<&str>) -> MediaAsset {
    MediaAsset {
        id: "media_clip".into(),
        source: "generated".into(),
        project_id: Some("learning-desk-ad".into()),
        delivery_role: role.map(String::from),
        title: title.map(String::from),
        prompt: None,
        provider: Some("openmontage".into()),
        provider_template: None,
        model: None,
        aspect_ratio: None,
        size: None,
        requested_size: None,
        quality: None,
        mime_type: mime.map(String::from),
        relative_path: path.map(String::from),
        bound_manuscript_path: None,
        created_at: now_iso(),
        updated_at: now_iso(),
    }
}

#[test]
fn openmontage_intermediate_video_remains_a_clip() {
    let asset = asset(
        Some("intermediate_clip"),
        Some("学习桌广告片段1"),
        Some("video/mp4"),
        Some("generated/media_clip.mp4"),
    );
    assert_eq!(media_asset_category(&asset), "clips");
}

#[test]
fn finished_videos_go_to_output() {
    assert_eq!(
        media_asset_category(&asset(Some("final_video"), None, Some("video/mp4"), None)),
        "output"
    );
    assert_eq!(
        media_asset_category(&asset(None, Some("video_stitch: 成片"), Some("VIDEO/MP4"), None)),
        "output"
    );
    assert_eq!(
        media_asset_category(&asset(None, None, Some("video/mp4"), Some("generated\\p\\Output\\x.mp4"))),
        "output"
    );
    assert_eq!(
        media_asset_category(&asset(Some("final"), None, Some("image/png"), None)),
        "images"
    );
    assert_eq!(media_asset_category(&asset(None, None, Some("audio/mpeg"), None)), "audio");
    assert_eq!(media_asset_category(&asset(None, None, None, None)), "files");
}

#[test]
fn generated_assets_use_project_type_directories() {
    assert_eq!(
        generated_asset_relative_path(
            &parse(r#"{ "projectId": "Learning Desk Ad 2026", "deliveryRole": "cover" }"#),
            "media_image",
            "image/png",
        ),
        "generated/learning-desk-ad-2026/images/media_image.png"
    );
    assert_eq!(
        generated_asset_relative_path(
            &parse(r#"{ "projectId": "Learning Desk Ad 2026", "deliveryRole": "final_video" }"#),
            "media_video",
            "video/mp4",
        ),
        "generated/learning-desk-ad-2026/output/media_video.mp4"
    );
}

#[test]
fn generated_asset_without_project_is_flat() {
    assert_eq!(
        generated_asset_relative_path(&parse(r#"{ "projectId": "   " }"#), "a1", "image/jpeg; q=1"),
        "generated/a1.jpg"
    );
    assert_eq!(
        generated_asset_category(&parse(r#"{ "asset_role": "Output" }"#), "image/png"),
        "output"
    );
    assert_eq!(
        payload_delivery_role(&parse(r#"{ "delivery_role": " cover ", "assetRole": "x" }"#)),
        Some("cover".to_string())
    );
}

#[test]
fn project_folder_names_are_sanitized() {
    assert_eq!(sanitize_media_project_folder("学习桌广告"), "学习桌广告");
    assert_eq!(sanitize_media_project_folder("  --Hello,  World!!  "), "hello-world");
    assert_eq!(sanitize_media_project_folder("***"), "untitled-project");
    let long = "a".repeat(200);
    assert_eq!(sanitize_media_project_folder(&long).chars().count(), 80);
}

#[test]
fn mime_extensions() {
    assert_eq!(mime_extension("image/jpeg"), "jpg");
    assert_eq!(mime_extension(" IMAGE/WEBP ; charset=x"), "webp");
    assert_eq!(mime_extension("image/gif"), "gif");
    assert_eq!(mime_extension("image/svg+xml"), "svg");
    assert_eq!(mime_extension("video/quicktime"), "mov");
    assert_eq!(mime_extension("video/webm"), "webm");
    assert_eq!(mime_extension("video/x-flv"), "mp4");
    assert_eq!(mime_extension("application/pdf"), "png");
}

#[test]
fn blocked_generation_response_is_explicit_and_empty() {
    let response = blocked_generation_response("safety disabled");
    assert_eq!(response.get_bool("success"), Some(false));
    assert_eq!(response.get_bool("blocked"), Some(true));
    assert_eq!(response.get_str("reason").map(|s| s.as_str()), Some("safety_disabled"));
    assert!(matches!(response.get("assets"), Some(Json::Array(a)) if a.is_empty()));
}

#[test]
fn safety_gate_names_the_switch() {
    let off = SafetyConfig { run_real_image: false, run_real_video: false };
    let image_error = ensure_real_generation_enabled(&off, RealGenerationKind::Image).unwrap_err();
    let video_error = ensure_real_generation_enabled(&off, RealGenerationKind::Video).unwrap_err();
    assert!(image_error.contains("safety.run_real_image=false"));
    assert!(video_error.contains("safety.run_real_video=false"));
    assert_eq!(image_error, "安全策略已阻止真实图片生成：config.json 中 safety.run_real_image=false");
    let on = SafetyConfig { run_real_image: true, run_real_video: false };
    assert!(ensure_real_generation_enabled(&on, RealGenerationKind::Image).is_ok());
    assert!(ensure_real_generation_enabled(&on, RealGenerationKind::Video).is_err());
}
