use yunying_server::json::Json;
use yunying_server::system::{
    bounded_log_text, clipboard_text, coerce_config, default_social_config, image_source,
    is_dry_run, media_crawler_api_url, merge_json_object, normalize_social_config,
    payload_limit, read_recent_lines, read_social_config, release_url, renderer_log_record,
    startup_migration_reply, strip_html, system_channel, text_lines, truncate_log_fields,
    ImageSource, SystemChannel,
};
use yunying_server::text::is_http_url;

fn conv(v: &serde_json::Value) -> Json {
    match v {
        serde_json::Value::Null => Json::Null,
        serde_json::Value::Bool(b) => Json::Bool(*b),
        serde_json::Value::Number(n) => match n.as_i64() {
            Some(i) => Json::Int(i),
            None => Json::Number(n.to_string()),
        },
        serde_json::Value::String(s) => Json::Str(
            s.clone(),
            serde_json::from_str::<serde_json::Value>(s).ok().map(|d| Box::new(conv(&d))),
        ),
        serde_json::Value::Array(a) => Json::Array(a.iter().map(conv).collect()),
        serde_json::Value::Object(m) => {
            Json::Object(m.iter().map(|(k, v)| (k.clone(), conv(v))).collect())
        }
    }
}

fn back(j: &Json) -> serde_json::Value {
    match j {
        Json::Null => serde_json::Value::Null,
        Json::Bool(b) => serde_json::Value::Bool(*b),
        Json::Int(i) => serde_json::Value::from(*i),
        Json::Number(t) => serde_json::from_str(t).unwrap(),
        Json::Str(s, _) => serde_json::Value::String(s.clone()),
        Json::Array(a) => serde_json::Value::Array(a.iter().map(back).collect()),
        Json::Object(e) => {
            let mut m = serde_json::Map::new();
            for (k, v) in e {
                m.insert(k.clone(), back(v));
            }
            serde_json::Value::Object(m)
        }
    }
}

fn parse(text: &str) -> Json {
    conv(&serde_json::from_str::<serde_json::Value>(text).unwrap())
}

fn stored_text(j: &Json) -> Json {
    conv(&serde_json::Value::String(back(j).to_string()))
}

fn at<'a>(j: &'a Json, path: &[&str]) -> &'a Json {
    let mut cur = j;
    for k in path {
        cur = cur.get(k).unwrap();
    }
    cur
}

#[test]
fn helpers_pure() {
    assert!(is_http_url("https://x.com"));
    assert!(is_http_url("http://x.com"));
    assert!(!is_http_url("file:///x"));
    assert!(!is_http_url("javascript:alert(1)"));

    assert!(is_dry_run(&parse(r#"{ "dryRun": true }"#)));
    assert!(is_dry_run(&parse(r#"{ "confirm": false }"#)));
    assert!(!is_dry_run(&parse(r#"{ "dryRun": false, "confirm": true }"#)));

    assert_eq!(strip_html("<b>hi</b> <i>there</i>"), "hi there");
    assert_eq!(strip_html("plain"), "plain");

    assert_eq!(payload_limit(&parse(r#"{ "limit": 5000 }"#), 200), 1000);
    assert_eq!(payload_limit(&parse(r#"{ "limit": 0 }"#), 200), 1);
    assert_eq!(payload_limit(&parse("{}"), 200), 200);
}

#[test]
fn image_data_url_source_decodes_for_clipboard_copy() {
    match image_source("data:image/png;base64,aGVsbG8=").unwrap() {
        ImageSource::Bytes(b) => assert_eq!(b, b"hello"),
        ImageSource::Path(p) => panic!("unexpected path {p}"),
    }
}

#[test]
fn image_sources_name_local_files_and_refuse_bad_data_urls() {
    match image_source("file:///tmp/a%20b.png").unwrap() {
        ImageSource::Path(p) => assert_eq!(p, "/tmp/a b.png"),
        ImageSource::Bytes(_) => panic!("expected a path"),
    }
    match image_source("asset://localhost/Users/me/x.png").unwrap() {
        ImageSource::Path(p) => assert_eq!(p, "Users/me/x.png"),
        ImageSource::Bytes(_) => panic!("expected a path"),
    }
    match image_source("  relative/pic.png ").unwrap() {
        ImageSource::Path(p) => assert_eq!(p, "relative/pic.png"),
        ImageSource::Bytes(_) => panic!("expected a path"),
    }
    match image_source("data:image/png;base64,aGVs\n bG8=").unwrap() {
        ImageSource::Bytes(b) => assert_eq!(b, b"hello"),
        ImageSource::Path(_) => panic!("expected bytes"),
    }
    assert_eq!(image_source("data:image/png").unwrap_err(), "invalid image data URL");
    assert_eq!(
        image_source("data:text/plain,hello").unwrap_err(),
        "only base64 image data URLs are supported"
    );
    assert!(image_source("data:image/png;base64,@@@")
        .unwrap_err()
        .starts_with("decode image data URL: "));
}

#[test]
fn coerce_config_picks_object() {
    let a = coerce_config(
        &parse(r#"{ "config": { "mediaCrawler": { "enabled": true } } }"#),
        None,
        None,
    );
    assert_eq!(at(&a, &["mediaCrawler", "enabled"]).as_bool(), Some(true));

    let b = coerce_config(&parse(r#"{ "version": 1, "goose": {} }"#), None, None);
    assert_eq!(b.get_i64("version"), Some(1));

    let c = coerce_config(&parse(r#""oops""#), None, None);
    assert_eq!(c.get_i64("version"), Some(1));
    assert!(c.get("mediaCrawler").unwrap().is_object());
}

#[test]
fn social_config_roundtrip() {
    let first = read_social_config(None, None, None);
    assert_eq!(first.get_i64("version"), Some(1));
    assert_eq!(
        at(&first, &["mediaCrawler", "apiUrl"]).as_str().unwrap(),
        "http://127.0.0.1:8080"
    );

    let cfg = parse(r#"{ "mediaCrawler": { "enabled": false, "apiUrl": "http://host:9" } }"#);
    let stored = coerce_config(&cfg, None, None);
    assert_eq!(stored.get_i64("version"), Some(1));

    let back_cfg = read_social_config(Some(&stored_text(&stored)), None, None);
    assert_eq!(at(&back_cfg, &["mediaCrawler", "enabled"]).as_bool(), Some(false));
    assert_eq!(at(&back_cfg, &["mediaCrawler", "apiUrl"]).as_str().unwrap(), "http://host:9");
    // Defaults fill what the stored configuration lacks.
    assert_eq!(at(&back_cfg, &["mediaCrawler", "maxNotesCount"]).as_i64(), Some(20));
}

#[test]
fn stored_config_that_is_blank_or_not_an_object_falls_back_to_defaults() {
    let blank = read_social_config(Some(&conv(&serde_json::Value::String("  ".into()))), None, None);
    assert_eq!(back(&blank), back(&default_social_config(None, None)));
    let list = read_social_config(Some(&conv(&serde_json::Value::String("[1]".into()))), None, None);
    assert_eq!(back(&list), back(&default_social_config(None, None)));
    let num = read_social_config(Some(&Json::Int(3)), None, None);
    assert_eq!(back(&num), back(&default_social_config(None, None)));
}

#[test]
fn environment_settings_fill_the_connection_defaults() {
    let d = default_social_config(Some("/usr/bin/chrome".into()), Some("   ".into()));
    assert_eq!(
        at(&d, &["socialConnection", "browserExecutable"]).as_str().unwrap(),
        "/usr/bin/chrome"
    );
    assert_eq!(at(&d, &["socialConnection", "dataDir"]).as_str().unwrap(), "");
    assert_eq!(
        at(&d, &["socialConnection", "accounts", "youtube"]).as_str().unwrap(),
        "default"
    );
}

#[test]
fn merging_keeps_defaults_and_overrides_leaves() {
    let target = parse(r#"{ "a": { "x": 1, "y": 2 }, "b": 3 }"#);
    let source = parse(r#"{ "a": { "y": 5, "z": 6 }, "c": [1] }"#);
    let merged = merge_json_object(target, &source);
    assert_eq!(
        back(&merged),
        serde_json::from_str::<serde_json::Value>(
            r#"{ "a": { "x": 1, "y": 5, "z": 6 }, "b": 3, "c": [1] }"#
        )
        .unwrap()
    );
    // A source that is not an object replaces the target.
    let replaced = merge_json_object(parse(r#"{ "a": 1 }"#), &parse("7"));
    assert_eq!(back(&replaced), serde_json::Value::from(7));
}

#[test]
fn normalizing_forces_version_one() {
    let n = normalize_social_config(&parse(r#"{ "version": 9 }"#), None, None);
    assert_eq!(n.get_i64("version"), Some(1));
    assert_eq!(
        back(&media_crawler_api_url(&n)),
        serde_json::Value::String("http://127.0.0.1:8080".into())
    );
    assert_eq!(
        back(&media_crawler_api_url(&parse("{}"))),
        serde_json::Value::String("http://127.0.0.1:8080".into())
    );
}

#[test]
fn read_recent_log_tail() {
    let text = "a\nb\nc\nd\n";
    assert_eq!(read_recent_lines(text, 2), vec!["c".to_string(), "d".to_string()]);
    assert_eq!(
        read_recent_lines(text, 100),
        vec!["a".to_string(), "b".to_string(), "c".to_string(), "d".to_string()]
    );
    assert!(read_recent_lines("", 10).is_empty());
    // The limit is at least one line.
    assert_eq!(read_recent_lines(text, 0), vec!["d".to_string()]);
}

#[test]
fn lines_drop_carriage_returns_and_keep_a_last_unterminated_line() {
    assert_eq!(text_lines("x\r\ny\n\nz"), vec!["x", "y", "", "z"]);
    assert!(text_lines("").is_empty());
}

#[test]
fn append_renderer_log_writes_json_line() {
    let record = renderer_log_record(
        &parse(
            r#"{ "level": "error", "category": "plugin.bridge", "event": "window.error",
                 "message": "boom", "fields": { "line": 42 } }"#,
        ),
        "2024-01-01T00:00:00Z",
    );
    assert_eq!(record.get_str("source").unwrap(), "renderer");
    assert_eq!(record.get_str("level").unwrap(), "error");
    assert_eq!(record.get_str("message").unwrap(), "boom");
    assert_eq!(at(&record, &["fields", "line"]).as_i64(), Some(42));
    assert_eq!(record.get_str("timestamp").unwrap(), "2024-01-01T00:00:00Z");
}

#[test]
fn renderer_log_levels_default_to_info_and_texts_are_bounded() {
    let long = "m".repeat(200);
    let mut m = serde_json::Map::new();
    m.insert("level".into(), serde_json::Value::String("loud".into()));
    m.insert("category".into(), serde_json::Value::String(long));
    let record = renderer_log_record(&conv(&serde_json::Value::Object(m)), "t");
    assert_eq!(record.get_str("level").unwrap(), "info");
    assert_eq!(record.get_str("category").unwrap().chars().count(), 160);
    assert!(record.get("fields").unwrap().is_null());
    assert_eq!(bounded_log_text(Some("  abc  "), 2), "ab");
    assert_eq!(bounded_log_text(None, 5), "");
}

#[test]
fn oversized_log_lines_lose_their_fields() {
    let mut record = parse(r#"{ "message": "m", "fields": { "big": 1 } }"#);
    truncate_log_fields(&mut record, 100);
    assert_eq!(at(&record, &["fields", "big"]).as_i64(), Some(1));
    truncate_log_fields(&mut record, 70_000);
    assert_eq!(at(&record, &["fields", "truncated"]).as_bool(), Some(true));
    assert!(at(&record, &["fields"]).get("big").is_none());
}

#[test]
fn clipboard_text_prefers_the_given_text() {
    assert_eq!(clipboard_text(&parse(r#"{ "text": "  t  " }"#), "<p>x</p>"), "t");
    assert_eq!(clipboard_text(&parse(r#"{ "text": "   " }"#), "<p>x</p> <b>y</b>"), "x y");
    assert_eq!(clipboard_text(&parse("{}"), "<p>x</p>"), "x");
}

#[test]
fn release_url_prefers_request_then_configuration() {
    assert_eq!(release_url(&parse(r#"{ "url": " https://a " }"#), None), "https://a");
    assert_eq!(release_url(&parse("{}"), Some("https://conf".into())), "https://conf");
    assert!(release_url(&parse("{}"), None).starts_with("https://github.com/"));
}

#[test]
fn migration_reply_reports_progress_only_when_started() {
    let s = startup_migration_reply("app:startup-migration-start");
    assert_eq!(s.get_i64("progress"), Some(1));
    assert_eq!(s.get_str("status").unwrap(), "not-needed");
    let g = startup_migration_reply("app:startup-migration-status");
    assert_eq!(g.get_i64("progress"), Some(0));
}

#[test]
fn system_channels_are_recognized() {
    assert!(matches!(system_channel("app:get-version"), Ok(SystemChannel::GetVersion)));
    assert!(system_channel("app:nope").is_err());
}
