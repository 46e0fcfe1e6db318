//! Account binding by QR-code login: the per-platform login table, login
//! sessions, the stub driver used when no browser is available, and the
//! registry that keeps sessions between calls.

use vstd::prelude::*;
use crate::text::{owned, clone_string, chars_of, append_chars, append_str, string_from_chars, str_eq};
use crate::strs::views;
use crate::json::{Json, JsonV, object_of, entries_of, entries_view, lemma_entries_view};
use crate::num::{dec_i64, dec_int};

verus! {

// ---------------------------------------------------------------------------
// Platform table
// ---------------------------------------------------------------------------

/// The QR-code login configuration of one platform.
#[derive(Clone, Debug)]
pub struct PlatformLogin {
    pub platform: String,
    /// Login page that shows the QR code.
    pub login_url: String,
    /// CSS selector of the QR-code image.
    pub qr_selector: String,
    /// Cookie names whose presence means the account is logged in.
    pub login_cookie_names: Vec<String>,
    /// Display name of the platform.
    pub label: String,
}

/// The mathematical value of a [`PlatformLogin`].
pub struct PlatformLoginV {
    pub platform: Seq<char>,
    pub login_url: Seq<char>,
    pub qr_selector: Seq<char>,
    pub login_cookie_names: Seq<Seq<char>>,
    pub label: Seq<char>,
}

impl View for PlatformLogin {
    type V = PlatformLoginV;

    open spec fn view(&self) -> PlatformLoginV {
        PlatformLoginV {
            platform: self.platform@,
            login_url: self.login_url@,
            qr_selector: self.qr_selector@,
            login_cookie_names: views(self.login_cookie_names@),
            label: self.label@,
        }
    }
}

/// The built-in platforms, in order.
pub open spec fn platform_table() -> Seq<PlatformLoginV> {
    seq![
        PlatformLoginV {
            platform: "xhs"@,
            login_url: "https://www.xiaohongshu.com"@,
            qr_selector: "img.qrcode, canvas"@,
            login_cookie_names: seq!["web_session"@],
            label: "小红书"@,
        },
        PlatformLoginV {
            platform: "douyin"@,
            login_url: "https://www.douyin.com"@,
            qr_selector: "img[src*='qrcode'], .qrcode img"@,
            login_cookie_names: seq!["sid_guard"@, "LOGIN_STATUS"@],
            label: "抖音"@,
        },
        PlatformLoginV {
            platform: "bilibili"@,
            login_url: "https://passport.bilibili.com/login"@,
            qr_selector: "img.qrcode, .login-sao-box img"@,
            login_cookie_names: seq!["SESSDATA"@, "DedeUserID"@],
            label: "B站"@,
        },
        PlatformLoginV {
            platform: "weibo"@,
            login_url: "https://weibo.com/login.php"@,
            qr_selector: "img.qrcode"@,
            login_cookie_names: seq!["SSOLoginState"@, "SUB"@],
            label: "微博"@,
        },
        PlatformLoginV {
            platform: "kuaishou"@,
            login_url: "https://www.kuaishou.com/login"@,
            qr_selector: "img.qrcode"@,
            login_cookie_names: seq!["passToken"@],
            label: "快手"@,
        },
        PlatformLoginV {
            platform: "tencent"@,
            login_url: "https://channels.weixin.qq.com/login"@,
            qr_selector: "img.qrcode, .login__type__container__scan"@,
            login_cookie_names: seq!["login_type"@, "sessionid"@],
            label: "视频号"@,
        },
    ]
}

fn cookie_names(a: &str, b: Option<&str>) -> (r: Vec<String>)
    ensures
        views(r@) == (match b {
            Some(b) => seq![a@, b@],
            None => seq![a@],
        }),
{
    let mut v: Vec<String> = Vec::new();
    v.push(owned(a));
    match b {
        Some(b) => {
            v.push(owned(b));
        },
        None => {},
    }
    proof {
        match b {
            Some(bb) => { assert(views(v@) =~= seq![a@, bb@]); },
            None => { assert(views(v@) =~= seq![a@]); },
        }
    }
    v
}

fn login_entry(platform: &str, login_url: &str, qr_selector: &str, cookies: Vec<String>, label: &str) -> (r: PlatformLogin)
    ensures
        r@ == (PlatformLoginV {
            platform: platform@,
            login_url: login_url@,
            qr_selector: qr_selector@,
            login_cookie_names: views(cookies@),
            label: label@,
        }),
{
    PlatformLogin {
        platform: owned(platform),
        login_url: owned(login_url),
        qr_selector: owned(qr_selector),
        login_cookie_names: cookies,
        label: owned(label),
    }
}

/// The built-in platform login configurations.
pub fn platform_logins() -> (r: Vec<PlatformLogin>)
    ensures
        r@.len() == platform_table().len(),
        forall|i: int| 0 <= i < r@.len() ==> #[trigger] r@[i]@ == platform_table()[i],
{
    let mut v: Vec<PlatformLogin> = Vec::new();
    v.push(login_entry("xhs", "https://www.xiaohongshu.com", "img.qrcode, canvas",
        cookie_names("web_session", None), "小红书"));
    v.push(login_entry("douyin", "https://www.douyin.com", "img[src*='qrcode'], .qrcode img",
        cookie_names("sid_guard", Some("LOGIN_STATUS")), "抖音"));
    v.push(login_entry("bilibili", "https://passport.bilibili.com/login", "img.qrcode, .login-sao-box img",
        cookie_names("SESSDATA", Some("DedeUserID")), "B站"));
    v.push(login_entry("weibo", "https://weibo.com/login.php", "img.qrcode",
        cookie_names("SSOLoginState", Some("SUB")), "微博"));
    v.push(login_entry("kuaishou", "https://www.kuaishou.com/login", "img.qrcode",
        cookie_names("passToken", None), "快手"));
    v.push(login_entry("tencent", "https://channels.weixin.qq.com/login", "img.qrcode, .login__type__container__scan",
        cookie_names("login_type", Some("sessionid")), "视频号"));
    v
}

/// Every built-in platform names at least one login cookie.
pub proof fn lemma_every_platform_has_login_cookie()
    ensures
        forall|i: int| 0 <= i < platform_table().len()
            ==> #[trigger] platform_table()[i].login_cookie_names.len() >= 1,
{
}

/// The configuration of a platform by its key: the first entry of the table
/// whose key is `platform`, or `None` when no entry has it.
pub fn find_platform(platform: &str) -> (r: Option<PlatformLogin>)
    ensures
        match r {
            Some(p) => exists|i: int|
                0 <= i < platform_table().len()
                && platform_table()[i].platform == platform@
                && (forall|j: int| 0 <= j < i ==> platform_table()[j].platform != platform@)
                && #[trigger] platform_table()[i] == p@,
            None => forall|i: int| 0 <= i < platform_table().len()
                ==> #[trigger] platform_table()[i].platform != platform@,
        },
{
    let mut table = platform_logins();
    let n = table.len();
    let mut i: usize = 0;
    while i < n
        invariant
            n == table@.len(),
            n == platform_table().len(),
            i <= n,
            forall|k: int| 0 <= k < n ==> #[trigger] table@[k]@ == platform_table()[k],
            forall|j: int| 0 <= j < i ==> platform_table()[j].platform != platform@,
        decreases n - i,
    {
        assert(table@[i as int]@ == platform_table()[i as int]);
        if str_eq(table[i].platform.as_str(), platform) {
            let p = table.remove(i);
            assert(platform_table()[i as int] == p@);
            return Some(p);
        }
        i += 1;
    }
    None
}

// ---------------------------------------------------------------------------
// Login sessions
// ---------------------------------------------------------------------------

/// Where a QR-code login stands.
#[derive(Clone, Copy, Debug, PartialEq, Eq, Structural)]
pub enum LoginStatus {
    Pending,
    Scanned,
    LoggedIn,
    Expired,
    Failed,
}

/// One QR-code login, from its start to its end.
#[derive(Clone, Debug)]
pub struct LoginSession {
    pub session_id: String,
    pub platform: String,
    pub profile: String,
    /// The QR code as a `data:image/png;base64,...` URL.
    pub qr_image: Option<String>,
    pub status: LoginStatus,
    /// The cookie string once logged in.
    pub cookies: Option<String>,
    pub error: Option<String>,
}

/// The mathematical value of a [`LoginSession`].
pub struct LoginSessionV {
    pub session_id: Seq<char>,
    pub platform: Seq<char>,
    pub profile: Seq<char>,
    pub qr_image: Option<Seq<char>>,
    pub status: LoginStatus,
    pub cookies: Option<Seq<char>>,
    pub error: Option<Seq<char>>,
}

/// The view of an optional string.
pub open spec fn opt_view(o: Option<String>) -> Option<Seq<char>> {
    match o {
        Some(s) => Some(s@),
        None => None,
    }
}

impl View for LoginSession {
    type V = LoginSessionV;

    open spec fn view(&self) -> LoginSessionV {
        LoginSessionV {
            session_id: self.session_id@,
            platform: self.platform@,
            profile: self.profile@,
            qr_image: opt_view(self.qr_image),
            status: self.status,
            cookies: opt_view(self.cookies),
            error: opt_view(self.error),
        }
    }
}

fn copy_opt(o: &Option<String>) -> (r: Option<String>)
    ensures
        opt_view(r) == opt_view(*o),
{
    match o {
        Some(s) => Some(clone_string(s)),
        None => None,
    }
}

impl LoginSession {
    /// A copy of the session.
    pub fn copy(&self) -> (r: LoginSession)
        ensures
            r@ == self@,
    {
        LoginSession {
            session_id: clone_string(&self.session_id),
            platform: clone_string(&self.platform),
            profile: clone_string(&self.profile),
            qr_image: copy_opt(&self.qr_image),
            status: self.status,
            cookies: copy_opt(&self.cookies),
            error: copy_opt(&self.error),
        }
    }
}

/// The placeholder QR code (a transparent 1x1 PNG) that the stub driver shows.
pub const PLACEHOLDER_QR: &'static str = "data:image/png;base64,iVBORw0KGgoAAAANSUhEUgAAAAEAAAABCAQAAAC1HAwCAAAAC0lEQVR42mNkYAAAAAYAAjCB0C8AAAAASUVORK5CYII=";

/// The session id the stub driver gives a login started at `now_ms`.
pub open spec fn stub_session_id(platform: Seq<char>, now_ms: int) -> Seq<char> {
    "sess-"@ + platform + "-"@ + dec_int(now_ms)
}

/// The session the stub driver starts: pending, with the placeholder QR code.
pub open spec fn stub_session_view(platform: Seq<char>, profile: Seq<char>, now_ms: int) -> LoginSessionV {
    LoginSessionV {
        session_id: stub_session_id(platform, now_ms),
        platform: platform,
        profile: profile,
        qr_image: Some(PLACEHOLDER_QR@),
        status: LoginStatus::Pending,
        cookies: None,
        error: None,
    }
}

/// The session the stub driver starts for `platform` and `profile` at `now_ms`
/// (milliseconds since the Unix epoch).
pub fn stub_session(platform: &str, profile: &str, now_ms: i64) -> (r: LoginSession)
    ensures
        r@ == stub_session_view(platform@, profile@, now_ms as int),
{
    let mut id: Vec<char> = Vec::new();
    append_str(&mut id, "sess-");
    append_str(&mut id, platform);
    append_str(&mut id, "-");
    let digits = dec_i64(now_ms);
    append_chars(&mut id, &digits);
    LoginSession {
        session_id: string_from_chars(&id),
        platform: owned(platform),
        profile: owned(profile),
        qr_image: Some(owned(PLACEHOLDER_QR)),
        status: LoginStatus::Pending,
        cookies: None,
        error: None,
    }
}

/// Milliseconds since the Unix epoch from the system clock (0 when the clock
/// is before the epoch). Nothing is stated of the value: it is the time.
#[verifier::external_body]
fn now_millis() -> (r: i64) {
    match std::time::SystemTime::now().duration_since(std::time::UNIX_EPOCH) {
        Ok(d) => d.as_millis() as i64,
        Err(_) => 0,
    }
}

/// A QR-code login flow: open the login page and show its QR code, poll the
/// login cookies, stop.
pub trait LoginDriver {
    /// Starts a login and returns its session with the QR code.
    fn start(&self, platform: &str, profile: &str, headless: bool) -> Result<LoginSession, String>;

    /// The latest state of a session.
    fn poll(&self, session_id: &str) -> Result<LoginSession, String>;

    /// Stops a login.
    fn stop(&self, session_id: &str) -> Result<(), String>;
}

/// The driver used when no browser is available: a placeholder QR code and
/// sessions that stay pending.
pub struct StubLoginDriver;

/// What the stub driver answers a poll.
pub open spec fn stub_poll_message() -> Seq<char> {
    "StubLoginDriver：需启用 cdp feature（chromiumoxide）才真实检测扫码登录"@
}

impl LoginDriver for StubLoginDriver {
    fn start(&self, platform: &str, profile: &str, headless: bool) -> (r: Result<LoginSession, String>)
        ensures
            r is Ok,
            exists|t: i64| #[trigger] r->Ok_0@ == stub_session_view(platform@, profile@, t as int),
    {
        let now = now_millis();
        let s = stub_session(platform, profile, now);
        Ok(s)
    }

    fn poll(&self, session_id: &str) -> (r: Result<LoginSession, String>)
        ensures
            r is Err,
            r->Err_0@ == stub_poll_message(),
    {
        Err(owned("StubLoginDriver：需启用 cdp feature（chromiumoxide）才真实检测扫码登录"))
    }

    fn stop(&self, session_id: &str) -> (r: Result<(), String>)
        ensures
            r is Ok,
    {
        Ok(())
    }
}

// ---------------------------------------------------------------------------
// Session registry
// ---------------------------------------------------------------------------

/// The login sessions in progress, by key.
pub struct LoginRegistry {
    entries: Vec<(String, LoginSession)>,
}

/// Whether no key occurs twice.
pub open spec fn distinct_keys(e: Seq<(String, LoginSession)>) -> bool {
    forall|i: int, j: int| 0 <= i < j < e.len() ==> (#[trigger] e[i]).0@ != (#[trigger] e[j]).0@
}

/// The sessions of an entry list, by key.
pub open spec fn entries_map(e: Seq<(String, LoginSession)>) -> Map<Seq<char>, LoginSessionV> {
    Map::new(
        |k: Seq<char>| exists|i: int| 0 <= i < e.len() && (#[trigger] e[i]).0@ == k,
        |k: Seq<char>| e[choose|i: int| 0 <= i < e.len() && (#[trigger] e[i]).0@ == k].1@,
    )
}

proof fn lemma_map_at(e: Seq<(String, LoginSession)>, i: int)
    requires
        distinct_keys(e),
        0 <= i < e.len(),
    ensures
        entries_map(e).contains_key(e[i].0@),
        entries_map(e)[e[i].0@] == e[i].1@,
{
    let k = e[i].0@;
    assert(exists|j: int| 0 <= j < e.len() && (#[trigger] e[j]).0@ == k);
    let c = choose|j: int| 0 <= j < e.len() && (#[trigger] e[j]).0@ == k;
    if c != i {
        if c < i {
            assert(e[c].0@ != e[i].0@);
        } else {
            assert(e[i].0@ != e[c].0@);
        }
    }
}

impl LoginRegistry {
    /// No key occurs twice.
    #[verifier::type_invariant]
    spec fn wf(&self) -> bool {
        distinct_keys(self.entries@)
    }

    /// The sessions, by key.
    pub closed spec fn sessions(&self) -> Map<Seq<char>, LoginSessionV> {
        entries_map(self.entries@)
    }

    /// An empty registry.
    pub fn new() -> (r: LoginRegistry)
        ensures
            r.sessions() == Map::<Seq<char>, LoginSessionV>::empty(),
    {
        let r = LoginRegistry { entries: Vec::new() };
        assert(r.sessions() =~= Map::<Seq<char>, LoginSessionV>::empty());
        r
    }

    fn position(&self, key: &str) -> (r: Option<usize>)
        requires
            self.wf(),
        ensures
            match r {
                Some(i) => i < self.entries@.len() && self.entries@[i as int].0@ == key@,
                None => forall|i: int| 0 <= i < self.entries@.len() ==> (#[trigger] self.entries@[i]).0@ != key@,
            },
    {
        let n = self.entries.len();
        let mut i: usize = 0;
        while i < n
            invariant
                n == self.entries@.len(),
                i <= n,
                forall|j: int| 0 <= j < i ==> (#[trigger] self.entries@[j]).0@ != key@,
            decreases n - i,
        {
            if str_eq(self.entries[i].0.as_str(), key) {
                return Some(i);
            }
            i += 1;
        }
        None
    }

    /// Stores `session` under `key`, replacing what was there (`HashMap::insert`).
    pub fn insert(&mut self, key: &str, session: LoginSession)
        ensures
            final(self).sessions() == old(self).sessions().insert(key@, session@),
    {
        proof { use_type_invariant(&*self); }
        let ghost old_e = self.entries@;
        let ghost sv = session@;
        let pos = self.position(key);
        let mut entries: Vec<(String, LoginSession)> = Vec::new();
        std::mem::swap(&mut entries, &mut self.entries);
        match pos {
            Some(i) => {
                entries.set(i, (owned(key), session));
                let ghost e = entries@;
                assert(e == old_e.update(i as int, e[i as int]));
                assert(distinct_keys(e)) by {
                    assert forall|a: int, b: int| 0 <= a < b < e.len() implies (#[trigger] e[a]).0@ != (#[trigger] e[b]).0@ by {
                        if a != i && b != i {
                            assert(old_e[a].0@ != old_e[b].0@);
                        } else if a == i {
                            assert(old_e[a].0@ != old_e[b].0@);
                        } else {
                            assert(old_e[a].0@ != old_e[b].0@);
                        }
                    }
                }
                assert(entries_map(e) =~= entries_map(old_e).insert(key@, sv)) by {
                    assert forall|k: Seq<char>| #[trigger] entries_map(e).contains_key(k)
                        <==> entries_map(old_e).insert(key@, sv).contains_key(k) by {
                        if entries_map(e).contains_key(k) {
                            let j = choose|j: int| 0 <= j < e.len() && (#[trigger] e[j]).0@ == k;
                            if j != i {
                                assert(old_e[j].0@ == k);
                            }
                        }
                        if entries_map(old_e).contains_key(k) && k != key@ {
                            let j = choose|j: int| 0 <= j < old_e.len() && (#[trigger] old_e[j]).0@ == k;
                            assert(e[j].0@ == k);
                        }
                        if k == key@ {
                            assert(e[i as int].0@ == k);
                        }
                    }
                    assert forall|k: Seq<char>| #[trigger] entries_map(e).contains_key(k)
                        implies entries_map(e)[k] == entries_map(old_e).insert(key@, sv)[k] by {
                        let j = choose|j: int| 0 <= j < e.len() && (#[trigger] e[j]).0@ == k;
                        lemma_map_at(e, j);
                        if j != i {
                            assert(old_e[j] == e[j]);
                            lemma_map_at(old_e, j);
                        }
                    }
                }
            },
            None => {
                entries.push((owned(key), session));
                let ghost e = entries@;
                assert(e == old_e.push(e[e.len() - 1]));
                assert(distinct_keys(e)) by {
                    assert forall|a: int, b: int| 0 <= a < b < e.len() implies (#[trigger] e[a]).0@ != (#[trigger] e[b]).0@ by {
                        if b == e.len() - 1 {
                            assert(old_e[a].0@ != key@);
                        } else {
                            assert(old_e[a].0@ != old_e[b].0@);
                        }
                    }
                }
                assert(entries_map(e) =~= entries_map(old_e).insert(key@, sv)) by {
                    let last = e.len() - 1;
                    assert forall|k: Seq<char>| #[trigger] entries_map(e).contains_key(k)
                        <==> entries_map(old_e).insert(key@, sv).contains_key(k) by {
                        if entries_map(e).contains_key(k) {
                            let j = choose|j: int| 0 <= j < e.len() && (#[trigger] e[j]).0@ == k;
                            if j != last {
                                assert(old_e[j].0@ == k);
                            }
                        }
                        if entries_map(old_e).contains_key(k) {
                            let j = choose|j: int| 0 <= j < old_e.len() && (#[trigger] old_e[j]).0@ == k;
                            assert(e[j].0@ == k);
                        }
                        if k == key@ {
                            assert(e[last].0@ == k);
                        }
                    }
                    assert forall|k: Seq<char>| #[trigger] entries_map(e).contains_key(k)
                        implies entries_map(e)[k] == entries_map(old_e).insert(key@, sv)[k] by {
                        let j = choose|j: int| 0 <= j < e.len() && (#[trigger] e[j]).0@ == k;
                        lemma_map_at(e, j);
                        if j != last {
                            assert(old_e[j] == e[j]);
                            lemma_map_at(old_e, j);
                        }
                    }
                }
            },
        }
        self.entries = entries;
    }

    /// A copy of the session stored under `key`, if any.
    pub fn get(&self, key: &str) -> (r: Option<LoginSession>)
        ensures
            match r {
                Some(s) => self.sessions().contains_key(key@) && s@ == self.sessions()[key@],
                None => !self.sessions().contains_key(key@),
            },
    {
        proof { use_type_invariant(self); }
        match self.position(key) {
            Some(i) => {
                proof { lemma_map_at(self.entries@, i as int); }
                Some(self.entries[i].1.copy())
            },
            None => None,
        }
    }

    /// Drops the session stored under `key`, if any (`HashMap::remove`).
    pub fn remove(&mut self, key: &str)
        ensures
            final(self).sessions() == old(self).sessions().remove(key@),
    {
        proof { use_type_invariant(&*self); }
        let ghost old_e = self.entries@;
        let pos = self.position(key);
        let mut entries: Vec<(String, LoginSession)> = Vec::new();
        std::mem::swap(&mut entries, &mut self.entries);
        match pos {
            Some(i) => {
                let _ = entries.remove(i);
                let ghost e = entries@;
                assert(e == old_e.remove(i as int));
                assert(distinct_keys(e)) by {
                    assert forall|a: int, b: int| 0 <= a < b < e.len() implies (#[trigger] e[a]).0@ != (#[trigger] e[b]).0@ by {
                        if a < i && b < i {
                            assert(old_e[a].0@ != old_e[b].0@);
                        } else if a < i {
                            assert(old_e[a].0@ != old_e[b + 1].0@);
                        } else {
                            assert(old_e[a + 1].0@ != old_e[b + 1].0@);
                        }
                    }
                }
                assert(entries_map(e) =~= entries_map(old_e).remove(key@)) by {
                    assert forall|k: Seq<char>| #[trigger] entries_map(e).contains_key(k)
                        <==> entries_map(old_e).remove(key@).contains_key(k) by {
                        if entries_map(e).contains_key(k) {
                            let j = choose|j: int| 0 <= j < e.len() && (#[trigger] e[j]).0@ == k;
                            if j < i {
                                assert(old_e[j].0@ == k);
                                assert(old_e[j].0@ != old_e[i as int].0@);
                            } else {
                                assert(old_e[j + 1].0@ == k);
                                assert(old_e[i as int].0@ != old_e[j + 1].0@);
                            }
                        }
                        if entries_map(old_e).contains_key(k) && k != key@ {
                            let j = choose|j: int| 0 <= j < old_e.len() && (#[trigger] old_e[j]).0@ == k;
                            if j < i {
                                assert(e[j].0@ == k);
                            } else {
                                assert(j != i);
                                assert(e[j - 1].0@ == k);
                            }
                        }
                    }
                    assert forall|k: Seq<char>| #[trigger] entries_map(e).contains_key(k)
                        implies entries_map(e)[k] == entries_map(old_e).remove(key@)[k] by {
                        let j = choose|j: int| 0 <= j < e.len() && (#[trigger] e[j]).0@ == k;
                        lemma_map_at(e, j);
                        if j < i {
                            lemma_map_at(old_e, j);
                        } else {
                            lemma_map_at(old_e, j + 1);
                        }
                    }
                }
            },
            None => {
                assert(entries_map(old_e).remove(key@) =~= entries_map(old_e));
            },
        }
        self.entries = entries;
    }
}

// ---------------------------------------------------------------------------
// The login service's decisions
// ---------------------------------------------------------------------------

/// The profile a started session is stored with: its own, or
/// `<platform>_default` when it has none.
pub open spec fn effective_profile(profile: Seq<char>, platform: Seq<char>) -> Seq<char> {
    if profile.len() == 0 {
        platform + "_default"@
    } else {
        profile
    }
}

/// A started session as it is stored.
pub open spec fn stored_start(s: LoginSessionV, platform: Seq<char>) -> LoginSessionV {
    LoginSessionV { profile: effective_profile(s.profile, platform), ..s }
}

/// The answer to a started login: `{"sessionId", "qrImage", "status": "pending"}`.
pub open spec fn start_reply(s: LoginSessionV) -> JsonV {
    JsonV::Object(start_reply_entries(s))
}

/// The entries of [`start_reply`].
pub open spec fn start_reply_entries(s: LoginSessionV) -> Seq<(Seq<char>, JsonV)> {
    seq![
        ("sessionId"@, JsonV::Str(s.session_id, None)),
        ("qrImage"@, match s.qr_image {
            Some(q) => JsonV::Str(q, None),
            None => JsonV::Null,
        }),
        ("status"@, JsonV::Str("pending"@, None)),
    ]
}

impl LoginRegistry {
    /// Records a session that a driver started for `platform` (giving it the
    /// default profile when it has none) and returns the answer to the caller.
    pub fn record_start(&mut self, session: LoginSession, platform: &str) -> (r: Json)
        ensures
            final(self).sessions() == old(self).sessions().insert(
                session.session_id@, stored_start(session@, platform@)),
            r@ == start_reply(session@),
    {
        let mut sess = session;
        let pv = chars_of(sess.profile.as_str());
        if pv.len() == 0 {
            let mut p: Vec<char> = chars_of(platform);
            append_str(&mut p, "_default");
            sess.profile = string_from_chars(&p);
        }
        let id = clone_string(&sess.session_id);
        let qr = match &sess.qr_image {
            Some(q) => Json::from_string(clone_string(q)),
            None => Json::Null,
        };
        let ghost sv = sess@;
        assert(sv == stored_start(session@, platform@));
        self.insert(id.as_str(), sess);
        let mut e: Vec<(String, Json)> = Vec::new();
        e.push((owned("sessionId"), Json::from_string(id)));
        e.push((owned("qrImage"), qr));
        e.push((owned("status"), Json::text("pending")));
        proof {
            lemma_entries_view(e@, e@.len());
        }
        let ghost ev = entries_of(e);
        assert(ev =~= start_reply_entries(session@));
        let r = object_of(e);
        assert(r@ == JsonV::Object(ev));
        assert(r@ == start_reply(session@));
        r
    }

    /// Applies what a poll of `key` gave (storing the session it returned, if
    /// any) and returns the session now stored under `key`, or an error when
    /// there is none.
    pub fn record_poll(&mut self, key: &str, polled: Result<LoginSession, String>) -> (r: Result<LoginSession, String>)
        ensures
            final(self).sessions() == (match polled {
                Ok(s) => old(self).sessions().insert(key@, s@),
                Err(_) => old(self).sessions(),
            }),
            match r {
                Ok(s) => final(self).sessions().contains_key(key@) && s@ == final(self).sessions()[key@],
                Err(m) => !final(self).sessions().contains_key(key@)
                    && m@ == "登录会话不存在: "@ + key@,
            },
    {
        match polled {
            Ok(s) => { self.insert(key, s); },
            Err(_) => {},
        }
        match self.get(key) {
            Some(s) => Ok(s),
            None => {
                let mut m: Vec<char> = Vec::new();
                append_str(&mut m, "登录会话不存在: ");
                append_str(&mut m, key);
                Err(string_from_chars(&m))
            },
        }
    }

    /// Forgets the session under `key` once its driver was told to stop.
    pub fn record_stop(&mut self, key: &str)
        ensures
            final(self).sessions() == old(self).sessions().remove(key@),
    {
        self.remove(key);
    }
}

/// A started login can be read back under its session id, with its profile
/// defaulted, until a poll replaces it or a stop forgets it.
pub proof fn lemma_status_after_start(m: Map<Seq<char>, LoginSessionV>, s: LoginSessionV, platform: Seq<char>)
    ensures
        m.insert(s.session_id, stored_start(s, platform)).contains_key(s.session_id),
        m.insert(s.session_id, stored_start(s, platform))[s.session_id] == stored_start(s, platform),
        stored_start(s, platform).profile.len() > 0,
        !m.insert(s.session_id, stored_start(s, platform)).remove(s.session_id).contains_key(s.session_id),
{
    reveal_strlit("_default");
}

} // verus!
