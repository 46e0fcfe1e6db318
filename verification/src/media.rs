//! Generated media: where assets are filed, which endpoint a generation
//! request goes to, the safety gate, and how provider replies are read.

use vstd::prelude::*;
use crate::text::{
    chars_of, string_from_chars, owned, append_str, append_chars, trim, trim_chars, non_empty,
    non_empty_str, lower_seq, lower_chars, has_prefix, has_suffix, contains_seq, replace_char,
    replace_char_chars, strip_end, strip_end_chars, strip_both, strip_both_chars, ends_with_str,
    starts_with_str, contains_str, is_str, sub_chars, before_first, before_first_chars,
    unicode_alnum, unicode_lower_char, char_is_alphanumeric, char_to_lowercase,
};
use crate::json::{Json, JsonV, get_text, object_of, entries_of, lemma_entries_view, items_view};
use crate::strs::views;

verus! {

// ---------------------------------------------------------------------------
// Image generation endpoints
// ---------------------------------------------------------------------------

/// An OpenAI-compatible base URL without a trailing chat, responses or
/// models route (matched without regard to ASCII case).
pub open spec fn without_api_route(base: Seq<char>) -> Seq<char> {
    let l = lower_seq(base);
    if has_suffix(l, "/chat/completions"@) {
        base.subrange(0, base.len() - "/chat/completions"@.len())
    } else if has_suffix(l, "/responses"@) {
        base.subrange(0, base.len() - "/responses"@.len())
    } else if has_suffix(l, "/models"@) {
        base.subrange(0, base.len() - "/models"@.len())
    } else {
        base
    }
}

/// The image generation URLs to try for an endpoint, in order: the endpoint
/// itself when it already names the images route, the images route below it
/// when it ends in `/v1` or `/openai`, and otherwise the `/v1` route first and
/// the versionless route second.
pub open spec fn image_urls(endpoint: Seq<char>) -> Seq<Seq<char>> {
    let base = without_api_route(strip_end(trim(endpoint), '/'));
    let l = lower_seq(base);
    if has_suffix(l, "/images/generations"@) {
        seq![base]
    } else if has_suffix(l, "/v1"@) || has_suffix(l, "/openai"@) {
        seq![base + "/images/generations"@]
    } else {
        seq![base + "/v1/images/generations"@, base + "/images/generations"@]
    }
}

fn drop_tail(v: &Vec<char>, suffix: &str) -> (r: Vec<char>)
    requires
        suffix@.len() <= v@.len(),
    ensures
        r@ == v@.subrange(0, v@.len() - suffix@.len()),
{
    let s = chars_of(suffix);
    sub_chars(v, 0, v.len() - s.len())
}

fn joined(base: &Vec<char>, tail: &str) -> (r: String)
    ensures
        r@ == base@ + tail@,
{
    let mut v: Vec<char> = Vec::new();
    append_chars(&mut v, base);
    append_str(&mut v, tail);
    assert(v@ =~= base@ + tail@);
    string_from_chars(&v)
}

/// The image generation URLs to try for an OpenAI-compatible endpoint.
pub fn image_generation_urls(endpoint: &str) -> (r: Vec<String>)
    ensures
        views(r@) == image_urls(endpoint@),
{
    let v = chars_of(endpoint);
    let t = trim_chars(&v);
    let stripped = strip_end_chars(&t, '/');
    let l = lower_chars(&stripped);
    let base = if ends_with_str(&l, "/chat/completions") {
        drop_tail(&stripped, "/chat/completions")
    } else if ends_with_str(&l, "/responses") {
        drop_tail(&stripped, "/responses")
    } else if ends_with_str(&l, "/models") {
        drop_tail(&stripped, "/models")
    } else {
        stripped
    };
    let lb = lower_chars(&base);
    let mut out: Vec<String> = Vec::new();
    if ends_with_str(&lb, "/images/generations") {
        out.push(string_from_chars(&base));
        assert(views(out@) =~= seq![base@]);
    } else if ends_with_str(&lb, "/v1") || ends_with_str(&lb, "/openai") {
        out.push(joined(&base, "/images/generations"));
        assert(views(out@) =~= seq![base@ + "/images/generations"@]);
    } else {
        out.push(joined(&base, "/v1/images/generations"));
        out.push(joined(&base, "/images/generations"));
        assert(views(out@) =~= seq![base@ + "/v1/images/generations"@, base@ + "/images/generations"@]);
    }
    out
}

// ---------------------------------------------------------------------------
// Media catalog entries and their folders
// ---------------------------------------------------------------------------

/// One asset of the media library, as the catalog stores it.
#[derive(Clone, Debug)]
pub struct MediaAsset {
    pub id: String,
    pub source: String,
    pub project_id: Option<String>,
    pub delivery_role: Option<String>,
    pub title: Option<String>,
    pub prompt: Option<String>,
    pub provider: Option<String>,
    pub provider_template: Option<String>,
    pub model: Option<String>,
    pub aspect_ratio: Option<String>,
    pub size: Option<String>,
    pub requested_size: Option<String>,
    pub quality: Option<String>,
    pub mime_type: Option<String>,
    pub relative_path: Option<String>,
    pub bound_manuscript_path: Option<String>,
    pub created_at: String,
    pub updated_at: String,
}

/// The text of an optional string, empty when absent (`unwrap_or_default`).
pub open spec fn text_or_empty(o: Option<String>) -> Seq<char> {
    match o {
        Some(s) => s@,
        None => Seq::empty(),
    }
}

/// The folder of an asset by its MIME type alone.
pub open spec fn mime_folder(mime: Seq<char>) -> Seq<char> {
    if has_prefix(mime, "image/"@) {
        "images"@
    } else if has_prefix(mime, "video/"@) {
        "clips"@
    } else if has_prefix(mime, "audio/"@) {
        "audio"@
    } else {
        "files"@
    }
}

/// Whether a delivery role marks a finished deliverable.
pub open spec fn final_role(role: Seq<char>) -> bool {
    contains_seq(role, "final"@) || contains_seq(role, "output"@)
}

/// The folder of a catalog asset: finished videos go to `output` (by role,
/// path, or a stitched or final title), others by their MIME type. Text is
/// compared in ASCII lower case, paths with `/` separators.
pub open spec fn asset_folder(mime: Seq<char>, title: Seq<char>, role: Seq<char>, path: Seq<char>) -> Seq<char> {
    let m = lower_seq(mime);
    let t = lower_seq(title);
    let r = lower_seq(role);
    let p = lower_seq(replace_char(path, '\\', '/'));
    if has_prefix(m, "video/"@) && (final_role(r) || contains_seq(p, "/output/"@)
        || has_prefix(t, "video_stitch:"@) || contains_seq(t, "最终"@) || contains_seq(t, "成片"@)) {
        "output"@
    } else {
        mime_folder(m)
    }
}

fn opt_chars(o: &Option<String>) -> (r: Vec<char>)
    ensures
        r@ == text_or_empty(*o),
{
    match o {
        Some(s) => chars_of(s.as_str()),
        None => Vec::new(),
    }
}

fn mime_folder_of(m: &Vec<char>) -> (r: &'static str)
    ensures
        r@ == mime_folder(m@),
{
    if starts_with_str(m, "image/") {
        "images"
    } else if starts_with_str(m, "video/") {
        "clips"
    } else if starts_with_str(m, "audio/") {
        "audio"
    } else {
        "files"
    }
}

/// The folder a catalog asset belongs in.
pub fn media_asset_category(asset: &MediaAsset) -> (r: &'static str)
    ensures
        r@ == asset_folder(
            text_or_empty(asset.mime_type),
            text_or_empty(asset.title),
            text_or_empty(asset.delivery_role),
            text_or_empty(asset.relative_path),
        ),
{
    let m = lower_chars(&opt_chars(&asset.mime_type));
    let t = lower_chars(&opt_chars(&asset.title));
    let r = lower_chars(&opt_chars(&asset.delivery_role));
    let p = lower_chars(&replace_char_chars(&opt_chars(&asset.relative_path), '\\', '/'));
    if starts_with_str(&m, "video/") && (contains_str(&r, "final") || contains_str(&r, "output")
        || contains_str(&p, "/output/") || starts_with_str(&t, "video_stitch:")
        || contains_str(&t, "最终") || contains_str(&t, "成片")) {
        "output"
    } else {
        mime_folder_of(&m)
    }
}

/// A non-empty trimmed text under `key` (`payload_string`).
pub open spec fn payload_text(p: JsonV, key: Seq<char>) -> Option<Seq<char>> {
    match get_text(p, key) {
        Some(t) => non_empty(t),
        None => None,
    }
}

/// The first key, from index `i` on, with a non-empty trimmed text.
pub open spec fn first_payload_text(p: JsonV, keys: Seq<Seq<char>>, i: int) -> Option<Seq<char>>
    decreases keys.len() - i,
{
    if i < 0 || i >= keys.len() {
        None
    } else {
        match payload_text(p, keys[i]) {
            Some(t) => Some(t),
            None => first_payload_text(p, keys, i + 1),
        }
    }
}

/// The trimmed text under `key`, when it is a non-empty string.
pub fn payload_string(payload: &Json, key: &str) -> (r: Option<String>)
    ensures
        match r {
            Some(s) => payload_text(payload@, key@) == Some(s@),
            None => payload_text(payload@, key@) is None,
        },
{
    match payload.get_str(key) {
        Some(s) => non_empty_str(s.as_str()),
        None => None,
    }
}

/// The views of a list of string slices.
pub open spec fn str_views(keys: Seq<&str>) -> Seq<Seq<char>> {
    keys.map_values(|k: &str| k@)
}

/// The first of `keys` under which the payload holds a non-empty string.
pub fn payload_first_string(payload: &Json, keys: &[&str]) -> (r: Option<String>)
    ensures
        match r {
            Some(s) => first_payload_text(payload@, str_views(keys@), 0) == Some(s@),
            None => first_payload_text(payload@, str_views(keys@), 0) is None,
        },
{
    let ghost ks = str_views(keys@);
    let n = keys.len();
    let mut i: usize = 0;
    while i < n
        invariant
            n == keys@.len(),
            ks == str_views(keys@),
            i <= n,
            first_payload_text(payload@, ks, 0) == first_payload_text(payload@, ks, i as int),
        decreases n - i,
    {
        assert(ks[i as int] == keys@[i as int]@);
        match payload_string(payload, keys[i]) {
            Some(s) => {
                return Some(s);
            },
            None => {},
        }
        i += 1;
    }
    None
}

/// The keys a delivery role is read from.
pub open spec fn role_keys() -> Seq<Seq<char>> {
    seq!["deliveryRole"@, "delivery_role"@, "assetRole"@, "asset_role"@]
}

/// The keys a project id is read from.
pub open spec fn project_keys() -> Seq<Seq<char>> {
    seq!["projectId"@, "project_id"@]
}

/// The delivery role a generation request names, if any.
pub fn payload_delivery_role(payload: &Json) -> (r: Option<String>)
    ensures
        match r {
            Some(s) => first_payload_text(payload@, role_keys(), 0) == Some(s@),
            None => first_payload_text(payload@, role_keys(), 0) is None,
        },
{
    let keys: [&str; 4] = ["deliveryRole", "delivery_role", "assetRole", "asset_role"];
    assert(str_views(keys@) =~= role_keys());
    payload_first_string(payload, keys.as_slice())
}

/// The folder of a newly generated asset: `output` when its role marks a
/// final deliverable, otherwise by MIME type (as given).
pub open spec fn generated_folder(p: JsonV, mime: Seq<char>) -> Seq<char> {
    let role = match first_payload_text(p, role_keys(), 0) {
        Some(r) => r,
        None => Seq::empty(),
    };
    if final_role(lower_seq(role)) {
        "output"@
    } else {
        mime_folder(mime)
    }
}

/// The folder of a newly generated asset.
pub fn generated_asset_category(payload: &Json, mime_type: &str) -> (r: &'static str)
    ensures
        r@ == generated_folder(payload@, mime_type@),
{
    let role_text: Vec<char> = match payload_delivery_role(payload) {
        Some(s) => chars_of(s.as_str()),
        None => Vec::new(),
    };
    let role = lower_chars(&role_text);
    if contains_str(&role, "final") || contains_str(&role, "output") {
        return "output";
    }
    mime_folder_of(&chars_of(mime_type))
}

/// One step of folder-name sanitizing: letters and digits are kept in lower
/// case, any other run of characters becomes one `-` (none at the start).
pub open spec fn folder_step(out: Seq<char>, c: char) -> Seq<char> {
    if unicode_alnum(c) {
        out + unicode_lower_char(c)
    } else if out.len() > 0 && out.last() != '-' {
        out.push('-')
    } else {
        out
    }
}

/// The folder name built from the first `n` characters, which stops growing
/// once it holds 80 characters.
pub open spec fn folder_prefix(s: Seq<char>, n: nat) -> Seq<char>
    decreases n,
{
    if n == 0 || n > s.len() {
        Seq::empty()
    } else {
        let prev = folder_prefix(s, (n - 1) as nat);
        if prev.len() >= 80 {
            prev
        } else {
            folder_step(prev, s[n - 1])
        }
    }
}

/// A project name made into a folder name: lower-case letters and digits
/// joined by single dashes, at most about 80 characters, `untitled-project`
/// when nothing is left.
pub open spec fn project_folder(name: Seq<char>) -> Seq<char> {
    let t = trim(name);
    let out = strip_both(folder_prefix(t, t.len()), '-');
    if out.len() == 0 {
        "untitled-project"@
    } else {
        out
    }
}

/// A project name made into a folder name.
pub fn sanitize_media_project_folder(value: &str) -> (r: String)
    ensures
        r@ == project_folder(value@),
{
    let t = trim_chars(&chars_of(value));
    let mut out: Vec<char> = Vec::new();
    let n = t.len();
    let mut i: usize = 0;
    while i < n
        invariant_except_break
            out@.len() < 80,
        invariant
            n == t@.len(),
            i <= n,
            out@ == folder_prefix(t@, i as nat),
        ensures
            out@ == folder_prefix(t@, n as nat),
        decreases n - i,
    {
        let c = t[i];
        let ghost before = out@;
        if char_is_alphanumeric(c) {
            let lc = char_to_lowercase(c);
            append_chars(&mut out, &lc);
        } else if out.len() > 0 && out[out.len() - 1] != '-' {
            out.push('-');
        }
        assert(out@ == folder_step(before, t@[i as int]));
        i += 1;
        if out.len() >= 80 {
            proof {
                lemma_folder_prefix_stays(t@, i as nat, n as nat);
            }
            break;
        }
    }
    let ghost full = folder_prefix(t@, n as nat);
    assert(out@ == full);
    let s = strip_both_chars(&out, '-');
    if s.len() == 0 {
        owned("untitled-project")
    } else {
        string_from_chars(&s)
    }
}

proof fn lemma_folder_prefix_stays(s: Seq<char>, i: nat, k: nat)
    requires
        i <= k <= s.len(),
        folder_prefix(s, i).len() >= 80,
    ensures
        folder_prefix(s, k) == folder_prefix(s, i),
    decreases k - i,
{
    if k > i {
        lemma_folder_prefix_stays(s, i, (k - 1) as nat);
    }
}

/// The file extension for a MIME type: its essence (before any `;`),
/// trimmed and compared in ASCII lower case; other video types are `mp4`
/// and anything else `png`.
pub open spec fn extension_for_mime(mime: Seq<char>) -> Seq<char> {
    let e = lower_seq(trim(before_first(mime, ';')));
    if e == "image/jpeg"@ {
        "jpg"@
    } else if e == "image/webp"@ {
        "webp"@
    } else if e == "image/gif"@ {
        "gif"@
    } else if e == "image/svg+xml"@ {
        "svg"@
    } else if e == "video/quicktime"@ {
        "mov"@
    } else if e == "video/webm"@ {
        "webm"@
    } else if has_prefix(lower_seq(mime), "video/"@) {
        "mp4"@
    } else {
        "png"@
    }
}

/// The file extension for a MIME type.
pub fn mime_extension(mime_type: &str) -> (r: &'static str)
    ensures
        r@ == extension_for_mime(mime_type@),
{
    let m = chars_of(mime_type);
    let e = lower_chars(&trim_chars(&before_first_chars(&m, ';')));
    if is_str(&e, "image/jpeg") {
        "jpg"
    } else if is_str(&e, "image/webp") {
        "webp"
    } else if is_str(&e, "image/gif") {
        "gif"
    } else if is_str(&e, "image/svg+xml") {
        "svg"
    } else if is_str(&e, "video/quicktime") {
        "mov"
    } else if is_str(&e, "video/webm") {
        "webm"
    } else if starts_with_str(&lower_chars(&m), "video/") {
        "mp4"
    } else {
        "png"
    }
}

/// Where a newly generated asset is stored, relative to the media root:
/// `generated/<id>.<ext>`, or `generated/<project>/<folder>/<id>.<ext>` when
/// the request names a project.
pub open spec fn generated_path(p: JsonV, id: Seq<char>, mime: Seq<char>) -> Seq<char> {
    let filename = id + "."@ + extension_for_mime(mime);
    match first_payload_text(p, project_keys(), 0) {
        None => "generated/"@ + filename,
        Some(project) => "generated/"@ + project_folder(project) + "/"@ + generated_folder(p, mime)
            + "/"@ + filename,
    }
}

/// Where a newly generated asset is stored, relative to the media root.
pub fn generated_asset_relative_path(payload: &Json, id: &str, mime_type: &str) -> (r: String)
    ensures
        r@ == generated_path(payload@, id@, mime_type@),
{
    let mut filename: Vec<char> = chars_of(id);
    append_str(&mut filename, ".");
    append_str(&mut filename, mime_extension(mime_type));
    let keys: [&str; 2] = ["projectId", "project_id"];
    assert(str_views(keys@) =~= project_keys());
    let mut out: Vec<char> = chars_of("generated/");
    match payload_first_string(payload, keys.as_slice()) {
        None => {
            append_chars(&mut out, &filename);
        },
        Some(project) => {
            let folder = sanitize_media_project_folder(project.as_str());
            append_str(&mut out, folder.as_str());
            append_str(&mut out, "/");
            append_str(&mut out, generated_asset_category(payload, mime_type));
            append_str(&mut out, "/");
            append_chars(&mut out, &filename);
        },
    }
    string_from_chars(&out)
}

// ---------------------------------------------------------------------------
// The safety gate
// ---------------------------------------------------------------------------

/// A kind of real (paid, external) generation.
#[derive(Clone, Copy, Debug, PartialEq, Eq, Structural)]
pub enum RealGenerationKind {
    Image,
    Video,
}

/// The safety switches of the configuration.
pub struct SafetyConfig {
    pub run_real_image: bool,
    pub run_real_video: bool,
}

impl RealGenerationKind {
    /// Whether the configuration lets this kind of generation run.
    pub fn safety_enabled(self, config: &SafetyConfig) -> (r: bool)
        ensures
            r == (match self {
                RealGenerationKind::Image => config.run_real_image,
                RealGenerationKind::Video => config.run_real_video,
            }),
    {
        match self {
            RealGenerationKind::Image => config.run_real_image,
            RealGenerationKind::Video => config.run_real_video,
        }
    }

    /// The display name of this kind of generation.
    pub fn label(self) -> (r: &'static str)
        ensures
            r@ == (match self {
                RealGenerationKind::Image => "图片生成"@,
                RealGenerationKind::Video => "视频生成"@,
            }),
    {
        match self {
            RealGenerationKind::Image => "图片生成",
            RealGenerationKind::Video => "视频生成",
        }
    }

    /// The configuration key that allows this kind of generation.
    pub fn config_key(self) -> (r: &'static str)
        ensures
            r@ == (match self {
                RealGenerationKind::Image => "safety.run_real_image"@,
                RealGenerationKind::Video => "safety.run_real_video"@,
            }),
    {
        match self {
            RealGenerationKind::Image => "safety.run_real_image",
            RealGenerationKind::Video => "safety.run_real_video",
        }
    }
}

/// The message of a generation that the safety switches block.
pub open spec fn blocked_message(label: Seq<char>, key: Seq<char>) -> Seq<char> {
    "安全策略已阻止真实"@ + label + "：config.json 中 "@ + key + "=false"@
}

/// Lets a real generation through only when the configuration enables its
/// kind; otherwise the error names the switch to turn on.
pub fn ensure_real_generation_enabled(config: &SafetyConfig, kind: RealGenerationKind) -> (r: Result<(), String>)
    ensures
        kind.safety_enabled_spec(config) ==> r is Ok,
        !kind.safety_enabled_spec(config) ==> r is Err && r->Err_0@ == blocked_message(
            kind.label_spec(), kind.config_key_spec()),
{
    if kind.safety_enabled(config) {
        return Ok(());
    }
    let mut m: Vec<char> = chars_of("安全策略已阻止真实");
    append_str(&mut m, kind.label());
    append_str(&mut m, "：config.json 中 ");
    append_str(&mut m, kind.config_key());
    append_str(&mut m, "=false");
    Err(string_from_chars(&m))
}

impl RealGenerationKind {
    /// Whether the configuration lets this kind of generation run.
    pub open spec fn safety_enabled_spec(self, config: &SafetyConfig) -> bool {
        match self {
            RealGenerationKind::Image => config.run_real_image,
            RealGenerationKind::Video => config.run_real_video,
        }
    }

    /// The display name of this kind of generation.
    pub open spec fn label_spec(self) -> Seq<char> {
        match self {
            RealGenerationKind::Image => "图片生成"@,
            RealGenerationKind::Video => "视频生成"@,
        }
    }

    /// The configuration key that allows this kind of generation.
    pub open spec fn config_key_spec(self) -> Seq<char> {
        match self {
            RealGenerationKind::Image => "safety.run_real_image"@,
            RealGenerationKind::Video => "safety.run_real_video"@,
        }
    }
}

/// The answer to a generation the safety gate blocked.
pub open spec fn blocked_reply(error: Seq<char>) -> JsonV {
    JsonV::Object(blocked_reply_entries(error))
}

/// The entries of [`blocked_reply`].
pub open spec fn blocked_reply_entries(error: Seq<char>) -> Seq<(Seq<char>, JsonV)> {
    seq![
        ("success"@, JsonV::Bool(false)),
        ("blocked"@, JsonV::Bool(true)),
        ("reason"@, JsonV::Str("safety_disabled"@, None)),
        ("error"@, JsonV::Str(error, None)),
        ("assets"@, JsonV::Array(Seq::empty())),
    ]
}

/// The answer to a generation the safety gate blocked: explicit, and with no
/// asset.
pub fn blocked_generation_response(error: &str) -> (r: Json)
    ensures
        r@ == blocked_reply(error@),
{
    let mut e: Vec<(String, Json)> = Vec::new();
    e.push((owned("success"), Json::Bool(false)));
    e.push((owned("blocked"), Json::Bool(true)));
    e.push((owned("reason"), Json::text("safety_disabled")));
    e.push((owned("error"), Json::text(error)));
    let items: Vec<Json> = Vec::new();
    let arr = Json::Array(items);
    assert(arr@ == JsonV::Array(Seq::empty())) by {
        assert(items_view(items@, 0) =~= Seq::<JsonV>::empty());
    }
    e.push((owned("assets"), arr));
    proof {
        lemma_entries_view(e@, e@.len());
    }
    let ghost ev = entries_of(e);
    assert(ev =~= blocked_reply_entries(error@));
    let r = object_of(e);
    assert(r@ == JsonV::Object(ev));
    r
}

} // verus!
