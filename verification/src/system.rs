//! The system channels: dry runs and limits, release links, HTML to text,
//! renderer log records and log tails, image sources, and the social tool
//! configuration with its defaults and deep merge.

use vstd::prelude::*;
use crate::text::{
    chars_of, string_from_chars, owned, append_str, append_chars, trim, trim_chars, trim_str,
    non_empty, non_empty_str, has_prefix, has_suffix, contains_seq, starts_with_str, ends_with_str,
    contains_str, sub_chars, take_chars, take_chars_vec, first_index_of, find_char, is_ws, char_is_ws,
    strip_start, strip_start_chars, is_http_url,
};
use crate::json::{
    Json, JsonV, jget, get_text, get_flag, get_int, as_text, object_of, entries_of, lemma_entries_view,
    copy_json, set_entry, set_entry_exec, get_entry, entries_get, lemma_get_entry_member,
};
use crate::generation::{
    tstr, obj2, or_text, value_or, opt_view, joined_words, words_fold, base64_decoded, percent_decoded,
    with_field, set_field,
};

verus! {

// ---------------------------------------------------------------------------
// Requests
// ---------------------------------------------------------------------------

/// Whether a system request is a dry run: `dryRun` is `true` or `confirm`
/// is `false`.
pub open spec fn system_dry_run(p: JsonV) -> bool {
    get_flag(p, "dryRun"@) == Some(true) || get_flag(p, "confirm"@) == Some(false)
}

/// Whether a system request is a dry run.
pub fn is_dry_run(payload: &Json) -> (r: bool)
    ensures
        r == system_dry_run(payload@),
{
    let dry = match payload.get_bool("dryRun") {
        Some(b) => b,
        None => false,
    };
    let unconfirmed = match payload.get_bool("confirm") {
        Some(b) => !b,
        None => false,
    };
    dry || unconfirmed
}

/// The line limit a request asks for (`limit`, else the default), kept
/// between 1 and 1000.
pub open spec fn limit_of(p: JsonV, d: int) -> int {
    let raw: int = match get_int(p, "limit"@) {
        Some(n) => n as int,
        None => d,
    };
    if raw < 1 { 1 } else if raw > 1000 { 1000 } else { raw }
}

/// The line limit a request asks for.
pub fn payload_limit(payload: &Json, def: usize) -> (r: usize)
    requires
        def <= i64::MAX,
    ensures
        r == limit_of(payload@, def as int),
{
    let raw: i64 = match payload.get_i64("limit") {
        Some(n) => n,
        None => def as i64,
    };
    if raw < 1 {
        1
    } else if raw > 1000 {
        1000
    } else {
        raw as usize
    }
}

/// The release page to open: the request's `url` (trimmed, non-empty), else
/// the configured one, else GitHub.
pub open spec fn release_url_of(p: JsonV, configured: Option<Seq<char>>) -> Seq<char> {
    let from_payload = match get_text(p, "url"@) {
        Some(t) => non_empty(t),
        None => None,
    };
    match or_text(from_payload, configured) {
        Some(u) => u,
        None => "https://github.com/"@,
    }
}

/// The release page to open; the configured page comes from the
/// environment.
pub fn release_url(payload: &Json, configured: Option<String>) -> (r: String)
    ensures
        r@ == release_url_of(payload@, opt_view(configured)),
{
    let from_payload = match payload.get_str("url") {
        Some(t) => non_empty_str(t.as_str()),
        None => None,
    };
    match from_payload {
        Some(u) => u,
        None => match configured {
            Some(u) => u,
            None => owned("https://github.com/"),
        },
    }
}

// ---------------------------------------------------------------------------
// HTML to text
// ---------------------------------------------------------------------------

/// The text outside tags of the first `n` characters, each tag replaced by a
/// space, and whether a tag is open.
pub open spec fn untagged(s: Seq<char>, n: nat) -> (Seq<char>, bool)
    decreases n,
{
    if n == 0 || n > s.len() {
        (Seq::empty(), false)
    } else {
        let (o, in_tag) = untagged(s, (n - 1) as nat);
        let c = s[n - 1];
        if c == '<' {
            (o.push(' '), true)
        } else if c == '>' {
            (o, false)
        } else if !in_tag {
            (o.push(c), in_tag)
        } else {
            (o, in_tag)
        }
    }
}

/// HTML made plain: tags removed, words joined by single spaces.
pub open spec fn plain_text(html: Seq<char>) -> Seq<char> {
    joined_words(untagged(html, html.len()).0)
}

/// Removes HTML tags and folds the whitespace that is left.
pub fn strip_html(html: &str) -> (r: String)
    ensures
        r@ == plain_text(html@),
{
    let v = chars_of(html);
    let mut out: Vec<char> = Vec::new();
    let mut in_tag = false;
    let mut i: usize = 0;
    while i < v.len()
        invariant
            i <= v@.len(),
            v@ == html@,
            (out@, in_tag) == untagged(v@, i as nat),
        decreases v.len() - i,
    {
        let c = v[i];
        if c == '<' {
            in_tag = true;
            out.push(' ');
        } else if c == '>' {
            in_tag = false;
        } else if !in_tag {
            out.push(c);
        }
        i += 1;
    }
    let s = string_from_chars(&out);
    crate::generation::normalize_prompt(s.as_str())
}

/// The plain text to put on the clipboard for HTML: the request's `text`
/// (trimmed, non-empty), else the HTML made plain.
pub fn clipboard_text(payload: &Json, html: &str) -> (r: String)
    ensures
        r@ == match get_text(payload@, "text"@) {
            Some(t) => match non_empty(t) {
                Some(x) => x,
                None => plain_text(html@),
            },
            None => plain_text(html@),
        },
{
    match payload.get_str("text") {
        Some(t) => match non_empty_str(t.as_str()) {
            Some(x) => x,
            None => strip_html(html),
        },
        None => strip_html(html),
    }
}

// ---------------------------------------------------------------------------
// Logs
// ---------------------------------------------------------------------------

/// A log text: trimmed, at most `max` characters.
pub open spec fn bounded_text(v: Option<Seq<char>>, max: nat) -> Seq<char> {
    take_chars(trim(match v {
        Some(t) => t,
        None => Seq::empty(),
    }), max)
}

/// A log text: trimmed, at most `max` characters.
pub fn bounded_log_text(value: Option<&str>, max_chars: usize) -> (r: String)
    ensures
        r@ == bounded_text(match value {
            Some(s) => Some(s@),
            None => None,
        }, max_chars as nat),
{
    let v = match value {
        Some(s) => chars_of(s),
        None => Vec::new(),
    };
    let t = trim_chars(&v);
    string_from_chars(&take_chars_vec(&t, max_chars))
}

/// Whether a level is one the log accepts.
pub open spec fn known_level(l: Seq<char>) -> bool {
    l == "trace"@ || l == "debug"@ || l == "info"@ || l == "warn"@ || l == "error"@
}

/// The level of a renderer log record: the request's, trimmed, when known;
/// `info` otherwise.
pub open spec fn level_of(p: JsonV) -> Seq<char> {
    match get_text(p, "level"@) {
        Some(t) => if known_level(trim(t)) {
            trim(t)
        } else {
            "info"@
        },
        None => "info"@,
    }
}

/// The entries of a renderer log record written at `timestamp`.
pub open spec fn log_record_entries(p: JsonV, timestamp: Seq<char>) -> Seq<(Seq<char>, JsonV)> {
    seq![
        ("timestamp"@, tstr(timestamp)),
        ("source"@, tstr("renderer"@)),
        ("level"@, tstr(level_of(p))),
        ("category"@, tstr(bounded_text(get_text(p, "category"@), 160))),
        ("event"@, tstr(bounded_text(get_text(p, "event"@), 160))),
        ("message"@, tstr(bounded_text(get_text(p, "message"@), 16_384))),
        ("fields"@, value_or(p, "fields"@, JsonV::Null)),
    ]
}

fn opt_str_of(o: Option<&String>) -> (r: Option<&str>)
    ensures
        match o {
            Some(s) => r is Some && r->0@ == s@,
            None => r is None,
        },
{
    match o {
        Some(s) => Some(s.as_str()),
        None => None,
    }
}

/// The record a renderer log request appends, written at `timestamp`.
pub fn renderer_log_record(payload: &Json, timestamp: &str) -> (r: Json)
    ensures
        r@ == JsonV::Object(log_record_entries(payload@, timestamp@)),
{
    proof {
        reveal_strlit("trace");
        reveal_strlit("debug");
        reveal_strlit("info");
        reveal_strlit("warn");
        reveal_strlit("error");
    }
    let level: String = match payload.get_str("level") {
        Some(t) => {
            let l = trim_str(t.as_str());
            let s = l.as_str();
            if crate::text::str_eq(s, "trace") || crate::text::str_eq(s, "debug")
                || crate::text::str_eq(s, "info") || crate::text::str_eq(s, "warn")
                || crate::text::str_eq(s, "error") {
                l
            } else {
                owned("info")
            }
        },
        None => owned("info"),
    };
    let category = bounded_log_text(opt_str_of(payload.get_str("category")), 160);
    let event = bounded_log_text(opt_str_of(payload.get_str("event")), 160);
    let message = bounded_log_text(opt_str_of(payload.get_str("message")), 16_384);
    let fields = match payload.get("fields") {
        Some(f) => copy_json(f),
        None => Json::Null,
    };
    let mut e: Vec<(String, Json)> = Vec::new();
    e.push((owned("timestamp"), Json::text(timestamp)));
    e.push((owned("source"), Json::text("renderer")));
    e.push((owned("level"), Json::from_string(level)));
    e.push((owned("category"), Json::from_string(category)));
    e.push((owned("event"), Json::from_string(event)));
    e.push((owned("message"), Json::from_string(message)));
    e.push((owned("fields"), fields));
    proof { lemma_entries_view(e@, e@.len()); }
    assert(entries_of(e) =~= log_record_entries(payload@, timestamp@));
    object_of(e)
}

/// The longest log line written as it is, in bytes.
pub open spec fn max_log_line() -> nat {
    65_536
}

/// Shortens a log record whose line is too long: its fields are replaced by
/// a marker.
pub fn truncate_log_fields(record: &mut Json, line_len: usize)
    ensures
        line_len > max_log_line() ==> final(record)@ == with_field(old(record)@, "fields"@,
            JsonV::Object(seq![("truncated"@, JsonV::Bool(true))])),
        line_len <= max_log_line() ==> final(record)@ == old(record)@,
{
    if line_len > 65_536 {
        let mut e: Vec<(String, Json)> = Vec::new();
        e.push((owned("truncated"), Json::Bool(true)));
        proof { lemma_entries_view(e@, e@.len()); }
        assert(entries_of(e) =~= seq![("truncated"@, JsonV::Bool(true))]);
        set_field(record, "fields", object_of(e));
    }
}

/// A line without its final carriage return.
pub open spec fn without_cr(l: Seq<char>) -> Seq<char> {
    if l.len() > 0 && l.last() == '\r' {
        l.drop_last()
    } else {
        l
    }
}

/// The finished lines and the line under way after the first `n`
/// characters.
pub open spec fn lines_fold(s: Seq<char>, n: nat) -> (Seq<Seq<char>>, Seq<char>)
    decreases n,
{
    if n == 0 || n > s.len() {
        (Seq::empty(), Seq::empty())
    } else {
        let (done, cur) = lines_fold(s, (n - 1) as nat);
        if s[n - 1] == '\n' {
            (done.push(without_cr(cur)), Seq::empty())
        } else {
            (done, cur.push(s[n - 1]))
        }
    }
}

/// The lines of a text as `str::lines` gives them: split at `\n`, a `\r`
/// before it dropped, no empty line after a final `\n`.
pub open spec fn lines_of(s: Seq<char>) -> Seq<Seq<char>> {
    let (done, cur) = lines_fold(s, s.len());
    if cur.len() > 0 {
        done.push(cur)
    } else {
        done
    }
}

/// The last `limit` (kept between 1 and 1000) lines of a text.
pub open spec fn recent_lines(s: Seq<char>, limit: int) -> Seq<Seq<char>> {
    let l = if limit < 1 { 1 } else if limit > 1000 { 1000 } else { limit };
    let all = lines_of(s);
    if all.len() <= l {
        all
    } else {
        all.subrange(all.len() - l, all.len() as int)
    }
}

/// The lines of a text.
pub fn text_lines(text: &str) -> (r: Vec<String>)
    ensures
        crate::strs::views(r@) == lines_of(text@),
{
    let v = chars_of(text);
    let mut out: Vec<String> = Vec::new();
    let mut cur: Vec<char> = Vec::new();
    let mut i: usize = 0;
    while i < v.len()
        invariant
            i <= v@.len(),
            v@ == text@,
            (crate::strs::views(out@), cur@) == lines_fold(v@, i as nat),
        decreases v.len() - i,
    {
        if v[i] == '\n' {
            let mut line = cur;
            if line.len() > 0 && line[line.len() - 1] == '\r' {
                line.pop();
            }
            let ghost before = crate::strs::views(out@);
            out.push(string_from_chars(&line));
            assert(crate::strs::views(out@) =~= before.push(line@));
            cur = Vec::new();
        } else {
            cur.push(v[i]);
        }
        i += 1;
    }
    if cur.len() > 0 {
        let ghost before = crate::strs::views(out@);
        out.push(string_from_chars(&cur));
        assert(crate::strs::views(out@) =~= before.push(cur@));
    }
    out
}

/// The last lines of a log text: `limit` is kept between 1 and 1000.
pub fn read_recent_lines(text: &str, limit: usize) -> (r: Vec<String>)
    ensures
        crate::strs::views(r@) == recent_lines(text@, limit as int),
{
    let l: usize = if limit < 1 { 1 } else if limit > 1000 { 1000 } else { limit };
    let all = text_lines(text);
    if all.len() <= l {
        return all;
    }
    let mut out: Vec<String> = Vec::new();
    let start = all.len() - l;
    let mut i = start;
    while i < all.len()
        invariant
            start <= i <= all@.len(),
            start == all@.len() - l,
            crate::strs::views(out@) == crate::strs::views(all@).subrange(start as int, i as int),
        decreases all.len() - i,
    {
        let ghost before = crate::strs::views(out@);
        let ghost item = all@[i as int]@;
        out.push(all[i].clone());
        assert(crate::strs::views(out@) =~= before.push(item));
        assert(crate::strs::views(all@).subrange(start as int, i + 1) =~= crate::strs::views(all@).subrange(start as int, i as int).push(item));
        i += 1;
    }
    out
}

// ---------------------------------------------------------------------------
// Image sources
// ---------------------------------------------------------------------------

/// The text without whitespace.
pub open spec fn without_ws(s: Seq<char>) -> Seq<char>
    decreases s.len(),
{
    if s.len() == 0 {
        s
    } else if is_ws(s.last()) {
        without_ws(s.drop_last())
    } else {
        without_ws(s.drop_last()).push(s.last())
    }
}

/// Where an image to copy comes from.
#[derive(Debug)]
pub enum ImageSource {
    /// The decoded bytes of a data URL.
    Bytes(Vec<u8>),
    /// A local file to read.
    Path(String),
}

/// The local path an image source names: without its `file://` or asset
/// URL prefix, percent-decoded, and absolute for file and asset URLs.
pub open spec fn local_image_path(t: Seq<char>) -> Result<Seq<char>, Seq<char>> {
    let p = if has_prefix(t, "file://"@) {
        t.subrange(7, t.len() as int)
    } else if has_prefix(t, "asset://localhost/"@) {
        t.subrange(18, t.len() as int)
    } else if has_prefix(t, "http://asset.localhost/"@) {
        t.subrange(23, t.len() as int)
    } else if has_prefix(t, "https://asset.localhost/"@) {
        t.subrange(24, t.len() as int)
    } else {
        t
    };
    match percent_decoded(p) {
        Err(e) => Err("decode image path: "@ + e),
        Ok(d) => Ok(if has_prefix(t, "file://"@) || contains_seq(t, "asset.localhost/"@) {
            "/"@ + strip_start(d, '/')
        } else {
            d
        }),
    }
}

/// Where an image comes from, or why it cannot be read: a base64 data URL
/// is decoded (whitespace ignored), anything else names a local file.
pub open spec fn image_source_of(source: Seq<char>) -> Result<(bool, Seq<u8>, Seq<char>), Seq<char>> {
    let t = trim(source);
    if has_prefix(t, "data:"@) {
        let data = t.subrange(5, t.len() as int);
        match first_index_of(data, ',') {
            None => Err("invalid image data URL"@),
            Some(i) => if !crate::text::has_suffix(data.subrange(0, i), ";base64"@) {
                Err("only base64 image data URLs are supported"@)
            } else {
                match base64_decoded(without_ws(data.subrange(i + 1, data.len() as int))) {
                    Ok(b) => Ok((true, b, Seq::empty())),
                    Err(e) => Err("decode image data URL: "@ + e),
                }
            },
        }
    } else {
        match local_image_path(t) {
            Ok(p) => Ok((false, Seq::empty(), p)),
            Err(e) => Err(e),
        }
    }
}

/// The view of an image source.
pub open spec fn image_source_view(r: Result<ImageSource, String>) -> Result<(bool, Seq<u8>, Seq<char>), Seq<char>> {
    match r {
        Ok(ImageSource::Bytes(b)) => Ok((true, b@, Seq::empty())),
        Ok(ImageSource::Path(p)) => Ok((false, Seq::empty(), p@)),
        Err(e) => Err(e@),
    }
}

/// Where an image to copy comes from.
pub fn image_source(source: &str) -> (r: Result<ImageSource, String>)
    ensures
        image_source_view(r) == image_source_of(source@),
{
    let t = trim_chars(&chars_of(source));
    proof {
        reveal_strlit("data:");
        reveal_strlit("file://");
        reveal_strlit("asset://localhost/");
        reveal_strlit("http://asset.localhost/");
        reveal_strlit("https://asset.localhost/");
    }
    if starts_with_str(&t, "data:") {
        let data = sub_chars(&t, 5, t.len());
        let i = match find_char(&data, ',') {
            None => { return Err(owned("invalid image data URL")); },
            Some(i) => i,
        };
        let meta = sub_chars(&data, 0, i);
        if !ends_with_str(&meta, ";base64") {
            return Err(owned("only base64 image data URLs are supported"));
        }
        let enc = sub_chars(&data, i + 1, data.len());
        let mut clean: Vec<char> = Vec::new();
        let mut k: usize = 0;
        while k < enc.len()
            invariant
                k <= enc@.len(),
                clean@ == without_ws(enc@.subrange(0, k as int)),
            decreases enc.len() - k,
        {
            assert(enc@.subrange(0, k + 1).drop_last() =~= enc@.subrange(0, k as int));
            if !char_is_ws(enc[k]) {
                clean.push(enc[k]);
            }
            k += 1;
        }
        assert(enc@.subrange(0, enc@.len() as int) =~= enc@);
        let text = string_from_chars(&clean);
        return match crate::generation::decode_base64_text(text.as_str()) {
            Ok(b) => Ok(ImageSource::Bytes(b)),
            Err(e) => {
                let mut m = chars_of("decode image data URL: ");
                append_str(&mut m, e.as_str());
                Err(string_from_chars(&m))
            },
        };
    }
    let p = if starts_with_str(&t, "file://") {
        sub_chars(&t, 7, t.len())
    } else if starts_with_str(&t, "asset://localhost/") {
        sub_chars(&t, 18, t.len())
    } else if starts_with_str(&t, "http://asset.localhost/") {
        sub_chars(&t, 23, t.len())
    } else if starts_with_str(&t, "https://asset.localhost/") {
        sub_chars(&t, 24, t.len())
    } else {
        sub_chars(&t, 0, t.len())
    };
    assert(t@.subrange(0, t@.len() as int) =~= t@);
    let ps = string_from_chars(&p);
    match crate::generation::decode_percent_text(ps.as_str()) {
        Err(e) => {
            let mut m = chars_of("decode image path: ");
            append_str(&mut m, e.as_str());
            Err(string_from_chars(&m))
        },
        Ok(d) => {
            if starts_with_str(&t, "file://") || contains_str(&t, "asset.localhost/") {
                let mut m = chars_of("/");
                let rest = strip_start_chars(&chars_of(d.as_str()), '/');
                append_chars(&mut m, &rest);
                Ok(ImageSource::Path(string_from_chars(&m)))
            } else {
                Ok(ImageSource::Path(d))
            }
        },
    }
}

// ---------------------------------------------------------------------------
// Social tool configuration
// ---------------------------------------------------------------------------

/// A setting from the environment, kept when it holds more than whitespace.
pub open spec fn env_setting(v: Option<Seq<char>>) -> Seq<char> {
    match v {
        Some(t) => if trim(t).len() > 0 { t } else { Seq::empty() },
        None => Seq::empty(),
    }
}

/// The default social tool configuration, with the browser and data folder
/// taken from the environment.
pub open spec fn default_social(browser: Seq<char>, data_dir: Seq<char>) -> JsonV {
    JsonV::Object(seq![
        ("version"@, JsonV::Int(1)),
        ("mediaCrawler"@, JsonV::Object(seq![
            ("enabled"@, JsonV::Bool(true)),
            ("apiUrl"@, tstr("http://127.0.0.1:8080"@)),
            ("apiTimeoutMs"@, JsonV::Int(30000)),
            ("defaultPlatform"@, tstr("xhs"@)),
            ("defaultLoginType"@, tstr("qrcode"@)),
            ("saveOption"@, tstr("jsonl"@)),
            ("maxNotesCount"@, JsonV::Int(20)),
            ("maxCommentsCount"@, JsonV::Int(20)),
            ("proxyUrl"@, tstr(""@)),
            ("cookies"@, JsonV::Object(seq![
                ("xhs"@, tstr(""@)),
                ("douyin"@, tstr(""@)),
                ("bili"@, tstr(""@)),
            ])),
        ])),
        ("socialConnection"@, JsonV::Object(seq![
            ("enabled"@, JsonV::Bool(true)),
            ("runtimeMode"@, tstr("rust-cdp"@)),
            ("browserExecutable"@, tstr(browser)),
            ("dataDir"@, tstr(data_dir)),
            ("headless"@, JsonV::Bool(false)),
            ("proxyUrl"@, tstr(""@)),
            ("accounts"@, JsonV::Object(seq![
                ("xiaohongshu"@, tstr("default"@)),
                ("douyin"@, tstr("default"@)),
                ("kuaishou"@, tstr("default"@)),
                ("bilibili"@, tstr("default"@)),
                ("tencent"@, tstr("default"@)),
                ("youtube"@, tstr("default"@)),
            ])),
        ])),
        ("goose"@, JsonV::Object(seq![
            ("inlineMediaCrawler"@, JsonV::Bool(false)),
            ("inlineSocialConnection"@, JsonV::Bool(false)),
        ])),
    ])
}

fn push_text(e: &mut Vec<(String, Json)>, k: &str, v: &str)
    ensures
        entries_of(*final(e)) == entries_of(*old(e)).push((k@, tstr(v@))),
{
    proof { lemma_entries_view(e@, e@.len()); }
    e.push((owned(k), Json::text(v)));
    proof { lemma_entries_view(e@, e@.len()); }
    assert(entries_of(*e) =~= entries_of(*old(e)).push((k@, tstr(v@))));
}

fn push_value(e: &mut Vec<(String, Json)>, k: &str, v: Json)
    ensures
        entries_of(*final(e)) == entries_of(*old(e)).push((k@, v@)),
{
    let ghost vv = v@;
    proof { lemma_entries_view(e@, e@.len()); }
    e.push((owned(k), v));
    proof { lemma_entries_view(e@, e@.len()); }
    assert(entries_of(*e) =~= entries_of(*old(e)).push((k@, vv)));
}

fn env_setting_exec(v: Option<String>) -> (r: String)
    ensures
        r@ == env_setting(opt_view(v)),
{
    match v {
        Some(t) => if trim_chars(&chars_of(t.as_str())).len() > 0 { t } else { String::new() },
        None => String::new(),
    }
}

/// The default social tool configuration; the browser and data folder come
/// from the environment (blank values are dropped).
pub fn default_social_config(browser: Option<String>, data_dir: Option<String>) -> (r: Json)
    ensures
        r@ == default_social(env_setting(opt_view(browser)), env_setting(opt_view(data_dir))),
{
    let b = env_setting_exec(browser);
    let d = env_setting_exec(data_dir);
    let ghost bv = b@;
    let ghost dv = d@;
    proof {
        reveal_strlit("");
    }
    let mut cookies: Vec<(String, Json)> = Vec::new();
    proof { lemma_entries_view(cookies@, 0); }
    push_text(&mut cookies, "xhs", "");
    push_text(&mut cookies, "douyin", "");
    push_text(&mut cookies, "bili", "");
    let mut mc: Vec<(String, Json)> = Vec::new();
    proof { lemma_entries_view(mc@, 0); }
    push_value(&mut mc, "enabled", Json::Bool(true));
    push_text(&mut mc, "apiUrl", "http://127.0.0.1:8080");
    push_value(&mut mc, "apiTimeoutMs", Json::Int(30000));
    push_text(&mut mc, "defaultPlatform", "xhs");
    push_text(&mut mc, "defaultLoginType", "qrcode");
    push_text(&mut mc, "saveOption", "jsonl");
    push_value(&mut mc, "maxNotesCount", Json::Int(20));
    push_value(&mut mc, "maxCommentsCount", Json::Int(20));
    push_text(&mut mc, "proxyUrl", "");
    assert(entries_of(cookies) =~= seq![
        ("xhs"@, tstr(""@)),
        ("douyin"@, tstr(""@)),
        ("bili"@, tstr(""@)),
    ]);
    push_value(&mut mc, "cookies", object_of(cookies));
    let ghost mcv = entries_of(mc);
    let mut accounts: Vec<(String, Json)> = Vec::new();
    proof { lemma_entries_view(accounts@, 0); }
    push_text(&mut accounts, "xiaohongshu", "default");
    push_text(&mut accounts, "douyin", "default");
    push_text(&mut accounts, "kuaishou", "default");
    push_text(&mut accounts, "bilibili", "default");
    push_text(&mut accounts, "tencent", "default");
    push_text(&mut accounts, "youtube", "default");
    let mut sc: Vec<(String, Json)> = Vec::new();
    proof { lemma_entries_view(sc@, 0); }
    push_value(&mut sc, "enabled", Json::Bool(true));
    push_text(&mut sc, "runtimeMode", "rust-cdp");
    push_value(&mut sc, "browserExecutable", Json::from_string(b));
    push_value(&mut sc, "dataDir", Json::from_string(d));
    push_value(&mut sc, "headless", Json::Bool(false));
    push_text(&mut sc, "proxyUrl", "");
    let ghost acv = entries_of(accounts);
    push_value(&mut sc, "accounts", object_of(accounts));
    let ghost scv = entries_of(sc);
    let mut goose: Vec<(String, Json)> = Vec::new();
    proof { lemma_entries_view(goose@, 0); }
    push_value(&mut goose, "inlineMediaCrawler", Json::Bool(false));
    push_value(&mut goose, "inlineSocialConnection", Json::Bool(false));
    let ghost gv = entries_of(goose);
    let mut top: Vec<(String, Json)> = Vec::new();
    proof { lemma_entries_view(top@, 0); }
    push_value(&mut top, "version", Json::Int(1));
    push_value(&mut top, "mediaCrawler", object_of(mc));
    push_value(&mut top, "socialConnection", object_of(sc));
    push_value(&mut top, "goose", object_of(goose));
    assert(mcv =~= seq![
        ("enabled"@, JsonV::Bool(true)),
        ("apiUrl"@, tstr("http://127.0.0.1:8080"@)),
        ("apiTimeoutMs"@, JsonV::Int(30000)),
        ("defaultPlatform"@, tstr("xhs"@)),
        ("defaultLoginType"@, tstr("qrcode"@)),
        ("saveOption"@, tstr("jsonl"@)),
        ("maxNotesCount"@, JsonV::Int(20)),
        ("maxCommentsCount"@, JsonV::Int(20)),
        ("proxyUrl"@, tstr(""@)),
        ("cookies"@, JsonV::Object(seq![
            ("xhs"@, tstr(""@)),
            ("douyin"@, tstr(""@)),
            ("bili"@, tstr(""@)),
        ])),
    ]);
    assert(acv =~= seq![
        ("xiaohongshu"@, tstr("default"@)),
        ("douyin"@, tstr("default"@)),
        ("kuaishou"@, tstr("default"@)),
        ("bilibili"@, tstr("default"@)),
        ("tencent"@, tstr("default"@)),
        ("youtube"@, tstr("default"@)),
    ]);
    assert(scv =~= seq![
        ("enabled"@, JsonV::Bool(true)),
        ("runtimeMode"@, tstr("rust-cdp"@)),
        ("browserExecutable"@, tstr(bv)),
        ("dataDir"@, tstr(dv)),
        ("headless"@, JsonV::Bool(false)),
        ("proxyUrl"@, tstr(""@)),
        ("accounts"@, JsonV::Object(acv)),
    ]);
    assert(gv =~= seq![
        ("inlineMediaCrawler"@, JsonV::Bool(false)),
        ("inlineSocialConnection"@, JsonV::Bool(false)),
    ]);
    assert(entries_of(top) =~= match default_social(bv, dv) {
        JsonV::Object(e) => e,
        _ => Seq::empty(),
    });
    object_of(top)
}

/// `source` merged into `target`: objects are merged key by key (nested
/// objects recursively), anything else replaces the target.
pub open spec fn merge_json(t: JsonV, s: JsonV) -> JsonV
    decreases s, 1nat,
{
    match s {
        JsonV::Object(se) => match t {
            JsonV::Object(te) => JsonV::Object(merge_entries(te, se, se.len())),
            _ => s,
        },
        _ => s,
    }
}

/// The target entries with the first `n` source entries merged in.
pub open spec fn merge_entries(te: Seq<(Seq<char>, JsonV)>, se: Seq<(Seq<char>, JsonV)>, n: nat) -> Seq<(Seq<char>, JsonV)>
    decreases se, n,
{
    if n == 0 || n > se.len() {
        te
    } else {
        let acc = merge_entries(te, se, (n - 1) as nat);
        let k = se[n - 1].0;
        let v = se[n - 1].1;
        match get_entry(acc, k) {
            Some(existing) => if existing is Object && v is Object {
                proof {
                    assert(decreases_to!(se => se[n - 1]));
                }
                set_entry(acc, k, merge_json(existing, v))
            } else {
                set_entry(acc, k, v)
            },
            None => set_entry(acc, k, v),
        }
    }
}

/// Merges `source` into `target`.
pub fn merge_json_object(target: Json, source: &Json) -> (r: Json)
    ensures
        r@ == merge_json(target@, source@),
    decreases source@, 1nat,
{
    match source {
        Json::Object(se) => match target {
            Json::Object(te) => {
                proof {
                    crate::json::lemma_object_view(*se);
                    crate::json::lemma_object_view(te);
                }
                let ghost sev = entries_of(*se);
                let ghost tev = entries_of(te);
                let mut acc = te;
                let mut i: usize = 0;
                while i < se.len()
                    invariant
                        i <= se@.len(),
                        *source == Json::Object(*se),
                        source@ == JsonV::Object(sev),
                        sev == entries_of(*se),
                        sev.len() == se@.len(),
                        forall|k: int| 0 <= k < se@.len() ==> #[trigger] sev[k] == (se@[k].0@, se@[k].1@),
                        entries_of(acc) == merge_entries(tev, sev, i as nat),
                    decreases se.len() - i,
                {
                    let k = &se[i].0;
                    let v = &se[i].1;
                    let merged: Json = match entries_get(&acc, k.as_str()) {
                        Some(existing) => if existing.is_object() && v.is_object() {
                            let ex = copy_json(existing);
                            proof {
                                assert(decreases_to!(source@ => source@->Object_0));
                                assert(decreases_to!(sev => sev[i as int]));
                                assert(decreases_to!(sev[i as int] => sev[i as int].1));
                            }
                            merge_json_object(ex, v)
                        } else {
                            copy_json(v)
                        },
                        None => copy_json(v),
                    };
                    set_entry_exec(&mut acc, k.as_str(), merged);
                    i += 1;
                }
                Json::Object(acc)
            },
            _ => copy_json(source),
        },
        _ => copy_json(source),
    }
}

/// A stored or requested configuration completed by the defaults, with
/// `version` 1.
pub open spec fn normalized_social(raw: JsonV, browser: Seq<char>, data_dir: Seq<char>) -> JsonV {
    with_field(merge_json(default_social(browser, data_dir), raw), "version"@, JsonV::Int(1))
}

/// A configuration object completed by the defaults, with `version` 1.
pub fn normalize_social_config(raw: &Json, browser: Option<String>, data_dir: Option<String>) -> (r: Json)
    ensures
        r@ == normalized_social(raw@, env_setting(opt_view(browser)), env_setting(opt_view(data_dir))),
{
    let d = default_social_config(browser, data_dir);
    let mut m = merge_json_object(d, raw);
    set_field(&mut m, "version", Json::Int(1));
    m
}

/// The configuration a save request carries: its `config` object, else the
/// request itself when it is an object, completed by the defaults; the
/// defaults when neither is an object.
pub open spec fn coerced_social(p: JsonV, browser: Seq<char>, data_dir: Seq<char>) -> JsonV {
    let raw = match jget(p, "config"@) {
        Some(c) => if c is Object { c } else { p },
        None => p,
    };
    if raw is Object {
        normalized_social(raw, browser, data_dir)
    } else {
        default_social(browser, data_dir)
    }
}

/// The configuration a save request carries.
pub fn coerce_config(payload: &Json, browser: Option<String>, data_dir: Option<String>) -> (r: Json)
    ensures
        r@ == coerced_social(payload@, env_setting(opt_view(browser)), env_setting(opt_view(data_dir))),
{
    let raw: &Json = match payload.get("config") {
        Some(c) => if c.is_object() { c } else { payload },
        None => payload,
    };
    if raw.is_object() {
        normalize_social_config(raw, browser, data_dir)
    } else {
        default_social_config(browser, data_dir)
    }
}

/// The configuration read from the settings: the stored object completed by
/// the defaults; the defaults when nothing usable is stored.
pub open spec fn stored_social(v: Option<JsonV>, browser: Seq<char>, data_dir: Seq<char>) -> JsonV {
    match v {
        Some(JsonV::Str(t, emb)) => if trim(t).len() == 0 {
            default_social(browser, data_dir)
        } else {
            match emb {
                Some(d) => if *d is Object {
                    normalized_social(*d, browser, data_dir)
                } else {
                    default_social(browser, data_dir)
                },
                None => default_social(browser, data_dir),
            }
        },
        _ => default_social(browser, data_dir),
    }
}

/// The configuration read from the settings' stored text.
pub fn read_social_config(stored: Option<&Json>, browser: Option<String>, data_dir: Option<String>) -> (r: Json)
    ensures
        r@ == stored_social(match stored {
            Some(j) => Some(j@),
            None => None,
        }, env_setting(opt_view(browser)), env_setting(opt_view(data_dir))),
{
    match stored {
        Some(Json::Str(t, emb)) => {
            assert(stored.unwrap()@ == JsonV::Str(t@, match emb {
                Some(b) => Some(Box::new((**b)@)),
                None => None,
            }));
            if trim_chars(&chars_of(t.as_str())).len() == 0 {
                return default_social_config(browser, data_dir);
            }
            match emb {
                Some(d) => if d.is_object() {
                    normalize_social_config(d, browser, data_dir)
                } else {
                    default_social_config(browser, data_dir)
                },
                None => default_social_config(browser, data_dir),
            }
        },
        _ => default_social_config(browser, data_dir),
    }
}

/// The crawler API address of a configuration, with its default.
pub fn media_crawler_api_url(config: &Json) -> (r: Json)
    ensures
        r@ == match jget(config@, "mediaCrawler"@) {
            Some(m) => match jget(m, "apiUrl"@) {
                Some(u) => u,
                None => tstr("http://127.0.0.1:8080"@),
            },
            None => tstr("http://127.0.0.1:8080"@),
        },
{
    match config.get("mediaCrawler") {
        Some(m) => match m.get("apiUrl") {
            Some(u) => copy_json(u),
            None => Json::text("http://127.0.0.1:8080"),
        },
        None => Json::text("http://127.0.0.1:8080"),
    }
}

// ---------------------------------------------------------------------------
// Channels
// ---------------------------------------------------------------------------

/// The operations of the system channels.
#[derive(Clone, Copy, Debug, PartialEq, Eq, Structural)]
pub enum SystemChannel {
    GetVersion,
    CheckUpdate,
    OpenReleasePage,
    OpenPath,
    StartupMigrationStatus,
    StartupMigrationStart,
    ClipboardReadText,
    ClipboardReadImage,
    ClipboardWriteHtml,
    ShowInFolder,
    CopyImage,
    SaveAs,
    AudioCapability,
    AudioAction,
    LogsStatus,
    LogsRecent,
    LogsAppendRenderer,
    LogsPendingReports,
    LogsAcknowledge,
    LogsUploadReport,
    OpenLogDir,
    DebugStatus,
    DebugRecent,
    DebugRuntimeSummary,
    NotificationPermissionState,
    NotificationRequestPermission,
    NotificationShow,
    SocialToolsStatus,
    SocialToolsSaveConfig,
    SocialToolsCheckAccount,
    SocialToolsOpenCookiesDir,
}

/// The operation a channel name asks for.
pub open spec fn system_channel_of(ch: Seq<char>) -> Option<SystemChannel> {
    if ch == "app:get-version"@ {
        Some(SystemChannel::GetVersion)
    } else if ch == "app:check-update"@ {
        Some(SystemChannel::CheckUpdate)
    } else if ch == "app:open-release-page"@ {
        Some(SystemChannel::OpenReleasePage)
    } else if ch == "app:open-path"@ {
        Some(SystemChannel::OpenPath)
    } else if ch == "app:startup-migration-status"@ {
        Some(SystemChannel::StartupMigrationStatus)
    } else if ch == "app:startup-migration-start"@ {
        Some(SystemChannel::StartupMigrationStart)
    } else if ch == "clipboard:read-text"@ {
        Some(SystemChannel::ClipboardReadText)
    } else if ch == "clipboard:read-image"@ {
        Some(SystemChannel::ClipboardReadImage)
    } else if ch == "clipboard:write-html"@ {
        Some(SystemChannel::ClipboardWriteHtml)
    } else if ch == "file:show-in-folder"@ {
        Some(SystemChannel::ShowInFolder)
    } else if ch == "file:copy-image"@ {
        Some(SystemChannel::CopyImage)
    } else if ch == "file:save-as"@ {
        Some(SystemChannel::SaveAs)
    } else if ch == "audio:get-capture-capability"@ {
        Some(SystemChannel::AudioCapability)
    } else if ch == "audio:start-recording"@ {
        Some(SystemChannel::AudioAction)
    } else if ch == "audio:stop-recording"@ {
        Some(SystemChannel::AudioAction)
    } else if ch == "audio:cancel-recording"@ {
        Some(SystemChannel::AudioAction)
    } else if ch == "logs:get-status"@ {
        Some(SystemChannel::LogsStatus)
    } else if ch == "logs:get-recent"@ {
        Some(SystemChannel::LogsRecent)
    } else if ch == "logs:append-renderer"@ {
        Some(SystemChannel::LogsAppendRenderer)
    } else if ch == "logs:list-pending-reports"@ {
        Some(SystemChannel::LogsPendingReports)
    } else if ch == "logs:set-upload-consent"@ {
        Some(SystemChannel::LogsAcknowledge)
    } else if ch == "logs:dismiss-report"@ {
        Some(SystemChannel::LogsAcknowledge)
    } else if ch == "logs:upload-report"@ {
        Some(SystemChannel::LogsUploadReport)
    } else if ch == "logs:open-dir"@ {
        Some(SystemChannel::OpenLogDir)
    } else if ch == "debug:open-log-dir"@ {
        Some(SystemChannel::OpenLogDir)
    } else if ch == "debug:get-status"@ {
        Some(SystemChannel::DebugStatus)
    } else if ch == "debug:get-recent"@ {
        Some(SystemChannel::DebugRecent)
    } else if ch == "debug:get-runtime-summary"@ {
        Some(SystemChannel::DebugRuntimeSummary)
    } else if ch == "notifications:permission_state"@ {
        Some(SystemChannel::NotificationPermissionState)
    } else if ch == "notifications:request_permission"@ {
        Some(SystemChannel::NotificationRequestPermission)
    } else if ch == "notifications:show_system"@ {
        Some(SystemChannel::NotificationShow)
    } else if ch == "socialTools:get-status"@ {
        Some(SystemChannel::SocialToolsStatus)
    } else if ch == "social-tools:get-status"@ {
        Some(SystemChannel::SocialToolsStatus)
    } else if ch == "socialTools:save-config"@ {
        Some(SystemChannel::SocialToolsSaveConfig)
    } else if ch == "social-tools:save-config"@ {
        Some(SystemChannel::SocialToolsSaveConfig)
    } else if ch == "socialTools:check-account"@ {
        Some(SystemChannel::SocialToolsCheckAccount)
    } else if ch == "social-tools:check-account"@ {
        Some(SystemChannel::SocialToolsCheckAccount)
    } else if ch == "socialTools:open-social-cookies-dir"@ {
        Some(SystemChannel::SocialToolsOpenCookiesDir)
    } else if ch == "social-tools:open-social-cookies-dir"@ {
        Some(SystemChannel::SocialToolsOpenCookiesDir)
    } else {
        None
    }
}

/// The operation a channel name asks for, or the error for an unknown one.
pub fn system_channel(channel: &str) -> (r: Result<SystemChannel, String>)
    ensures
        match system_channel_of(channel@) {
            Some(c) => r is Ok && r->Ok_0 == c,
            None => r is Err && r->Err_0@ == "system 通道未实现: "@ + channel@,
        },
{
    if crate::text::str_eq(channel, "app:get-version") {
        return Ok(SystemChannel::GetVersion);
    }
    if crate::text::str_eq(channel, "app:check-update") {
        return Ok(SystemChannel::CheckUpdate);
    }
    if crate::text::str_eq(channel, "app:open-release-page") {
        return Ok(SystemChannel::OpenReleasePage);
    }
    if crate::text::str_eq(channel, "app:open-path") {
        return Ok(SystemChannel::OpenPath);
    }
    if crate::text::str_eq(channel, "app:startup-migration-status") {
        return Ok(SystemChannel::StartupMigrationStatus);
    }
    if crate::text::str_eq(channel, "app:startup-migration-start") {
        return Ok(SystemChannel::StartupMigrationStart);
    }
    if crate::text::str_eq(channel, "clipboard:read-text") {
        return Ok(SystemChannel::ClipboardReadText);
    }
    if crate::text::str_eq(channel, "clipboard:read-image") {
        return Ok(SystemChannel::ClipboardReadImage);
    }
    if crate::text::str_eq(channel, "clipboard:write-html") {
        return Ok(SystemChannel::ClipboardWriteHtml);
    }
    if crate::text::str_eq(channel, "file:show-in-folder") {
        return Ok(SystemChannel::ShowInFolder);
    }
    if crate::text::str_eq(channel, "file:copy-image") {
        return Ok(SystemChannel::CopyImage);
    }
    if crate::text::str_eq(channel, "file:save-as") {
        return Ok(SystemChannel::SaveAs);
    }
    if crate::text::str_eq(channel, "audio:get-capture-capability") {
        return Ok(SystemChannel::AudioCapability);
    }
    if crate::text::str_eq(channel, "audio:start-recording") {
        return Ok(SystemChannel::AudioAction);
    }
    if crate::text::str_eq(channel, "audio:stop-recording") {
        return Ok(SystemChannel::AudioAction);
    }
    if crate::text::str_eq(channel, "audio:cancel-recording") {
        return Ok(SystemChannel::AudioAction);
    }
    if crate::text::str_eq(channel, "logs:get-status") {
        return Ok(SystemChannel::LogsStatus);
    }
    if crate::text::str_eq(channel, "logs:get-recent") {
        return Ok(SystemChannel::LogsRecent);
    }
    if crate::text::str_eq(channel, "logs:append-renderer") {
        return Ok(SystemChannel::LogsAppendRenderer);
    }
    if crate::text::str_eq(channel, "logs:list-pending-reports") {
        return Ok(SystemChannel::LogsPendingReports);
    }
    if crate::text::str_eq(channel, "logs:set-upload-consent") {
        return Ok(SystemChannel::LogsAcknowledge);
    }
    if crate::text::str_eq(channel, "logs:dismiss-report") {
        return Ok(SystemChannel::LogsAcknowledge);
    }
    if crate::text::str_eq(channel, "logs:upload-report") {
        return Ok(SystemChannel::LogsUploadReport);
    }
    if crate::text::str_eq(channel, "logs:open-dir") {
        return Ok(SystemChannel::OpenLogDir);
    }
    if crate::text::str_eq(channel, "debug:open-log-dir") {
        return Ok(SystemChannel::OpenLogDir);
    }
    if crate::text::str_eq(channel, "debug:get-status") {
        return Ok(SystemChannel::DebugStatus);
    }
    if crate::text::str_eq(channel, "debug:get-recent") {
        return Ok(SystemChannel::DebugRecent);
    }
    if crate::text::str_eq(channel, "debug:get-runtime-summary") {
        return Ok(SystemChannel::DebugRuntimeSummary);
    }
    if crate::text::str_eq(channel, "notifications:permission_state") {
        return Ok(SystemChannel::NotificationPermissionState);
    }
    if crate::text::str_eq(channel, "notifications:request_permission") {
        return Ok(SystemChannel::NotificationRequestPermission);
    }
    if crate::text::str_eq(channel, "notifications:show_system") {
        return Ok(SystemChannel::NotificationShow);
    }
    if crate::text::str_eq(channel, "socialTools:get-status") {
        return Ok(SystemChannel::SocialToolsStatus);
    }
    if crate::text::str_eq(channel, "social-tools:get-status") {
        return Ok(SystemChannel::SocialToolsStatus);
    }
    if crate::text::str_eq(channel, "socialTools:save-config") {
        return Ok(SystemChannel::SocialToolsSaveConfig);
    }
    if crate::text::str_eq(channel, "social-tools:save-config") {
        return Ok(SystemChannel::SocialToolsSaveConfig);
    }
    if crate::text::str_eq(channel, "socialTools:check-account") {
        return Ok(SystemChannel::SocialToolsCheckAccount);
    }
    if crate::text::str_eq(channel, "social-tools:check-account") {
        return Ok(SystemChannel::SocialToolsCheckAccount);
    }
    if crate::text::str_eq(channel, "socialTools:open-social-cookies-dir") {
        return Ok(SystemChannel::SocialToolsOpenCookiesDir);
    }
    if crate::text::str_eq(channel, "social-tools:open-social-cookies-dir") {
        return Ok(SystemChannel::SocialToolsOpenCookiesDir);
    }
    let mut m = chars_of("system 通道未实现: ");
    append_str(&mut m, channel);
    Err(string_from_chars(&m))
}

/// The startup migration answer: nothing to migrate; starting reports full
/// progress.
pub open spec fn migration_entries(started: bool) -> Seq<(Seq<char>, JsonV)> {
    seq![
        ("status"@, tstr("not-needed"@)),
        ("needsDbImport"@, JsonV::Bool(false)),
        ("needsProjectUpgrade"@, JsonV::Bool(false)),
        ("shouldShowModal"@, JsonV::Bool(false)),
        ("progress"@, JsonV::Int(if started { 1 } else { 0 })),
        ("legacyMarkdownCount"@, JsonV::Int(0)),
        ("projectUpgradeCounts"@, JsonV::Null),
    ]
}

/// The startup migration answer for a channel.
pub fn startup_migration_reply(channel: &str) -> (r: Json)
    ensures
        r@ == JsonV::Object(migration_entries(has_suffix(channel@, "start"@))),
{
    let started = ends_with_str(&chars_of(channel), "start");
    let mut e: Vec<(String, Json)> = Vec::new();
    e.push((owned("status"), Json::text("not-needed")));
    e.push((owned("needsDbImport"), Json::Bool(false)));
    e.push((owned("needsProjectUpgrade"), Json::Bool(false)));
    e.push((owned("shouldShowModal"), Json::Bool(false)));
    e.push((owned("progress"), Json::Int(if started { 1 } else { 0 })));
    e.push((owned("legacyMarkdownCount"), Json::Int(0)));
    e.push((owned("projectUpgradeCounts"), Json::Null));
    proof { lemma_entries_view(e@, e@.len()); }
    assert(entries_of(e) =~= migration_entries(started));
    object_of(e)
}

} // verus!
