use yunying_server::json::Json;
use yunying_server::login::{
    find_platform, platform_logins, stub_session, LoginDriver, LoginRegistry, LoginStatus,
    StubLoginDriver, PLACEHOLDER_QR,
};

#[test]
fn platform_logins_cover_main() {
    let ps = platform_logins();
    for p in ["xhs", "douyin", "bilibili", "weibo", "kuaishou", "tencent"] {
        assert!(ps.iter().any(|x| x.platform == p), "缺平台 {p}");
    }
}

#[test]
fn each_platform_has_login_cookie() {
    for p in platform_logins() {
        assert!(
            !p.login_cookie_names.is_empty(),
            "{} 需至少一个登录态 cookie 名",
            p.platform
        );
    }
}

#[test]
fn stub_start_returns_qr_and_session() {
    let driver = StubLoginDriver;
    let mut registry = LoginRegistry::new();
    let sess = driver.start("xhs", "p1", true).unwrap();
    let r = registry.record_start(sess, "xhs");
    assert!(matches!(r.get("status"), Some(Json::Str(s, None)) if s == "pending"));
    assert!(matches!(r.get("qrImage"), Some(Json::Str(_, _))));
    match r.get("sessionId") {
        Some(Json::Str(s, _)) => assert!(s.starts_with("sess-xhs-")),
        _ => panic!("sessionId missing"),
    }
}

#[test]
fn find_platform_returns_the_matching_entry() {
    let p = find_platform("bilibili").unwrap();
    assert_eq!(p.login_url, "https://passport.bilibili.com/login");
    assert_eq!(p.login_cookie_names, vec!["SESSDATA".to_string(), "DedeUserID".to_string()]);
    assert!(find_platform("myspace").is_none());
    assert!(find_platform("").is_none());
}

#[test]
fn stub_session_formats_id_and_placeholder() {
    let s = stub_session("douyin", "", 1_700_000_000_123);
    assert_eq!(s.session_id, "sess-douyin-1700000000123");
    assert_eq!(s.qr_image.as_deref(), Some(PLACEHOLDER_QR));
    assert_eq!(s.status, LoginStatus::Pending);
    let n = stub_session("x", "p", -42);
    assert_eq!(n.session_id, "sess-x--42");
    let z = stub_session("x", "p", 0);
    assert_eq!(z.session_id, "sess-x-0");
}

#[test]
fn stub_poll_fails_and_stop_succeeds() {
    let d = StubLoginDriver;
    assert!(d.poll("sess-xhs-1").unwrap_err().contains("cdp feature"));
    assert!(d.stop("sess-xhs-1").is_ok());
}

#[test]
fn registry_defaults_profile_and_reads_back() {
    let mut reg = LoginRegistry::new();
    let sess = stub_session("weibo", "", 5);
    let _ = reg.record_start(sess, "weibo");
    let got = reg.record_poll("sess-weibo-5", Err("no driver".to_string())).unwrap();
    assert_eq!(got.profile, "weibo_default");
    assert_eq!(got.platform, "weibo");
    let mut updated = stub_session("weibo", "main", 5);
    updated.status = LoginStatus::LoggedIn;
    updated.cookies = Some("SUB=1".into());
    let got = reg.record_poll("sess-weibo-5", Ok(updated)).unwrap();
    assert_eq!(got.status, LoginStatus::LoggedIn);
    assert_eq!(got.cookies.as_deref(), Some("SUB=1"));
    reg.record_stop("sess-weibo-5");
    let err = reg.record_poll("sess-weibo-5", Err("x".into())).unwrap_err();
    assert_eq!(err, "登录会话不存在: sess-weibo-5");
}

#[test]
fn registry_insert_replaces_and_remove_forgets() {
    let mut reg = LoginRegistry::new();
    reg.insert("a", stub_session("xhs", "one", 1));
    reg.insert("b", stub_session("xhs", "two", 2));
    reg.insert("a", stub_session("xhs", "three", 3));
    assert_eq!(reg.get("a").unwrap().profile, "three");
    assert_eq!(reg.get("b").unwrap().profile, "two");
    reg.remove("a");
    assert!(reg.get("a").is_none());
    assert!(reg.get("b").is_some());
    reg.remove("zzz");
    assert!(reg.get("b").is_some());
}
