//! Image and video generation: paths and file names in the media library,
//! reading provider replies, cropping to an aspect ratio, the request plans
//! sent to providers, and the in-memory job pool.

use vstd::prelude::*;
use crate::text::{
    chars_of, string_from_chars, owned, append_str, append_chars, trim, trim_chars, trim_str,
    lower_seq, lower_chars, has_prefix, contains_seq, replace_char, replace_char_chars,
    strip_both, strip_both_chars, starts_with_str, contains_str, is_str, sub_chars,
    take_chars, take_chars_vec, first_index_of, find_char, unicode_alnum, char_is_alphanumeric,
    unicode_lower, to_lowercase_str, is_ws, char_is_ws,
};
use crate::num::{parse_u32_text, parse_u32, dec_nat, dec_u64};
use crate::media::{
    MediaAsset, payload_text, payload_string, payload_first_string, first_payload_text,
    project_keys, role_keys, payload_delivery_role, generated_path, generated_asset_relative_path,
    str_views, asset_folder, text_or_empty, media_asset_category, project_folder,
    sanitize_media_project_folder, extension_for_mime, mime_extension,
};
use crate::json::{
    Json, JsonV, jget, get_text, get_entry, lemma_jget_decreases, lemma_array_view, items_view,
    get_unsigned, as_text, object_of, entries_of, lemma_entries_view, get_flag, copy_json,
    set_entry, set_entry_exec, has_key, entries_get,
};
use crate::media::{SafetyConfig, RealGenerationKind, ensure_real_generation_enabled, blocked_message};
use crate::text::non_empty_str;
use crate::text::{unicode_upper, to_uppercase_str, find_seq, vec_find, chars_eq};
use crate::strs::{views, contains_string};
use crate::order::{rank_sorted, sort_by_rank, ranked_view, items_of, first_n, take_items, text_desc_rank};
use crate::text::{before_first, before_first_chars, strip_end, strip_end_chars, non_empty};
use base64::Engine;

verus! {

// ---------------------------------------------------------------------------
// Path pieces, from std
// ---------------------------------------------------------------------------

/// What `Path::extension` gives for a path written as text.
pub uninterp spec fn path_extension(p: Seq<char>) -> Option<Seq<char>>;

/// What `Path::file_stem` gives for a path written as text.
pub uninterp spec fn path_file_stem(p: Seq<char>) -> Option<Seq<char>>;

/// What `Path::file_name` gives for a path written as text.
pub uninterp spec fn path_file_name(p: Seq<char>) -> Option<Seq<char>>;

/// `Path::extension` of a UTF-8 path. Its result is named, not stated: it
/// follows std's splitting of a path into components.
#[verifier::external_body]
pub(crate) fn file_extension(p: &str) -> (r: Option<String>)
    ensures
        match r {
            Some(e) => path_extension(p@) == Some(e@),
            None => path_extension(p@) is None,
        },
{
    std::path::Path::new(p).extension().and_then(|e| e.to_str()).map(|e| e.to_string())
}

/// `Path::file_stem` of a UTF-8 path. Its result is named, not stated.
#[verifier::external_body]
pub(crate) fn file_stem(p: &str) -> (r: Option<String>)
    ensures
        match r {
            Some(e) => path_file_stem(p@) == Some(e@),
            None => path_file_stem(p@) is None,
        },
{
    std::path::Path::new(p).file_stem().and_then(|e| e.to_str()).map(|e| e.to_string())
}

/// `Path::file_name` of a UTF-8 path. Its result is named, not stated.
#[verifier::external_body]
pub(crate) fn file_name(p: &str) -> (r: Option<String>)
    ensures
        match r {
            Some(e) => path_file_name(p@) == Some(e@),
            None => path_file_name(p@) is None,
        },
{
    std::path::Path::new(p).file_name().and_then(|e| e.to_str()).map(|e| e.to_string())
}

// ---------------------------------------------------------------------------
// Text rules
// ---------------------------------------------------------------------------

/// A provider's reply body for an error message: trimmed, and cut to 500
/// characters followed by `...` when longer.
pub open spec fn truncated_body(v: Seq<char>) -> Seq<char> {
    let t = trim(v);
    if t.len() <= 500 {
        t
    } else {
        t.subrange(0, 500) + "..."@
    }
}

/// Shortens a provider's reply body for an error message.
pub fn truncate_response_body(value: &str) -> (r: String)
    ensures
        r@ == truncated_body(value@),
{
    let t = trim_chars(&chars_of(value));
    if t.len() <= 500 {
        return string_from_chars(&t);
    }
    let mut out = take_chars_vec(&t, 500);
    append_str(&mut out, "...");
    proof {
        reveal_strlit("...");
    }
    string_from_chars(&out)
}

/// `s` without any number of leading `./`.
pub open spec fn strip_dot_slash(s: Seq<char>) -> Seq<char>
    decreases s.len(),
{
    if s.len() >= 2 && s[0] == '.' && s[1] == '/' {
        strip_dot_slash(s.subrange(2, s.len() as int))
    } else {
        s
    }
}

/// Whether a normalized relative path is refused: empty, `.`, `..`,
/// absolute, or climbing out of its root.
pub open spec fn refused_relative(n: Seq<char>) -> bool {
    ||| n.len() == 0
    ||| n == "."@
    ||| n == ".."@
    ||| has_prefix(n, "/"@)
    ||| has_prefix(n, "../"@)
    ||| contains_seq(n, "/../"@)
}

/// The relative path stored for a manuscript binding: trimmed, with `/` for
/// `\`, without leading `./`; `None` where it is refused.
pub open spec fn relative_path_of(v: Seq<char>) -> Option<Seq<char>> {
    let n = replace_char(trim(v), '\\', '/');
    if refused_relative(n) {
        None
    } else {
        Some(strip_dot_slash(n))
    }
}

/// Normalizes a path relative to the manuscripts folder.
pub fn normalize_relative_path(value: &str) -> (r: Result<String, String>)
    ensures
        match relative_path_of(value@) {
            Some(p) => r is Ok && r->Ok_0@ == p,
            None => r is Err && r->Err_0@ == "Invalid relative path"@,
        },
{
    let n = replace_char_chars(&trim_chars(&chars_of(value)), '\\', '/');
    proof {
        reveal_strlit(".");
        reveal_strlit("..");
        reveal_strlit("/");
        reveal_strlit("../");
    }
    if n.len() == 0 || is_str(&n, ".") || is_str(&n, "..") || starts_with_str(&n, "/")
        || starts_with_str(&n, "../") || contains_str(&n, "/../") {
        return Err(owned("Invalid relative path"));
    }
    let mut i: usize = 0;
    assert(n@.subrange(0, n@.len() as int) =~= n@);
    while i + 1 < n.len() && n[i] == '.' && n[i + 1] == '/'
        invariant
            i <= n@.len(),
            i % 2 == 0,
            strip_dot_slash(n@) == strip_dot_slash(n@.subrange(i as int, n@.len() as int)),
        decreases n.len() - i,
    {
        let ghost s = n@.subrange(i as int, n@.len() as int);
        assert(s.subrange(2, s.len() as int) =~= n@.subrange(i + 2, n@.len() as int));
        i += 2;
    }
    let out = sub_chars(&n, i, n.len());
    Ok(string_from_chars(&out))
}

/// One step of `split_whitespace().join(" ")`: the text so far and whether
/// whitespace has been seen since its last word.
pub open spec fn words_fold(s: Seq<char>, n: nat) -> (Seq<char>, bool)
    decreases n,
{
    if n == 0 || n > s.len() {
        (Seq::empty(), false)
    } else {
        let (o, gap) = words_fold(s, (n - 1) as nat);
        let c = s[n - 1];
        if is_ws(c) {
            (o, true)
        } else if gap && o.len() > 0 {
            (o.push(' ').push(c), false)
        } else {
            (o.push(c), false)
        }
    }
}

/// The words of `s` joined by single spaces.
pub open spec fn joined_words(s: Seq<char>) -> Seq<char> {
    words_fold(s, s.len()).0
}

/// A prompt with its whitespace runs folded into single spaces and no
/// whitespace at either end.
pub fn normalize_prompt(value: &str) -> (r: String)
    ensures
        r@ == joined_words(value@),
{
    let v = chars_of(value);
    let mut out: Vec<char> = Vec::new();
    let mut gap = false;
    let mut i: usize = 0;
    while i < v.len()
        invariant
            i <= v@.len(),
            v@ == value@,
            (out@, gap) == words_fold(v@, i as nat),
        decreases v.len() - i,
    {
        let c = v[i];
        if char_is_ws(c) {
            gap = true;
        } else {
            if gap && out.len() > 0 {
                out.push(' ');
            }
            out.push(c);
            gap = false;
        }
        i += 1;
    }
    string_from_chars(&out)
}

// ---------------------------------------------------------------------------
// MIME types
// ---------------------------------------------------------------------------

/// The MIME type the media library gives a file extension (already in lower
/// case); `application/octet-stream` for any other.
pub open spec fn mime_for_extension(e: Seq<char>) -> Seq<char> {
    if e == "jpg"@ || e == "jpeg"@ { "image/jpeg"@ }
    else if e == "png"@ { "image/png"@ }
    else if e == "webp"@ { "image/webp"@ }
    else if e == "gif"@ { "image/gif"@ }
    else if e == "bmp"@ { "image/bmp"@ }
    else if e == "svg"@ { "image/svg+xml"@ }
    else if e == "mp4"@ { "video/mp4"@ }
    else if e == "mov"@ { "video/quicktime"@ }
    else if e == "webm"@ { "video/webm"@ }
    else if e == "m4v"@ { "video/x-m4v"@ }
    else if e == "avi"@ { "video/x-msvideo"@ }
    else if e == "mkv"@ { "video/x-matroska"@ }
    else if e == "mp3"@ { "audio/mpeg"@ }
    else if e == "wav"@ { "audio/wav"@ }
    else if e == "m4a"@ { "audio/mp4"@ }
    else if e == "aac"@ { "audio/aac"@ }
    else if e == "flac"@ { "audio/flac"@ }
    else if e == "ogg"@ { "audio/ogg"@ }
    else if e == "opus"@ { "audio/opus"@ }
    else if e == "pdf"@ { "application/pdf"@ }
    else if e == "html"@ || e == "htm"@ { "text/html"@ }
    else { "application/octet-stream"@ }
}

/// The MIME type for a lower-case file extension.
pub fn mime_type_for_extension(e: &str) -> (r: &'static str)
    ensures
        r@ == mime_for_extension(e@),
{
    let v = chars_of(e);
    if is_str(&v, "jpg") || is_str(&v, "jpeg") { "image/jpeg" }
    else if is_str(&v, "png") { "image/png" }
    else if is_str(&v, "webp") { "image/webp" }
    else if is_str(&v, "gif") { "image/gif" }
    else if is_str(&v, "bmp") { "image/bmp" }
    else if is_str(&v, "svg") { "image/svg+xml" }
    else if is_str(&v, "mp4") { "video/mp4" }
    else if is_str(&v, "mov") { "video/quicktime" }
    else if is_str(&v, "webm") { "video/webm" }
    else if is_str(&v, "m4v") { "video/x-m4v" }
    else if is_str(&v, "avi") { "video/x-msvideo" }
    else if is_str(&v, "mkv") { "video/x-matroska" }
    else if is_str(&v, "mp3") { "audio/mpeg" }
    else if is_str(&v, "wav") { "audio/wav" }
    else if is_str(&v, "m4a") { "audio/mp4" }
    else if is_str(&v, "aac") { "audio/aac" }
    else if is_str(&v, "flac") { "audio/flac" }
    else if is_str(&v, "ogg") { "audio/ogg" }
    else if is_str(&v, "opus") { "audio/opus" }
    else if is_str(&v, "pdf") { "application/pdf" }
    else if is_str(&v, "html") || is_str(&v, "htm") { "text/html" }
    else { "application/octet-stream" }
}

/// The MIME type guessed from a path: its extension in lower case.
pub open spec fn guessed_mime(p: Seq<char>) -> Seq<char> {
    let e = match path_extension(p) {
        Some(e) => e,
        None => Seq::empty(),
    };
    mime_for_extension(unicode_lower(e))
}

/// Guesses a file's MIME type from its extension.
pub fn guess_mime_type(path: &str) -> (r: String)
    ensures
        r@ == guessed_mime(path@),
{
    let e = match file_extension(path) {
        Some(e) => e,
        None => String::new(),
    };
    let lower = to_lowercase_str(e.as_str());
    owned(mime_type_for_extension(lower.as_str()))
}

/// Whether an extension (in ASCII lower case) is one of the video kinds.
pub open spec fn video_extension(e: Seq<char>) -> bool {
    ||| e == "mp4"@
    ||| e == "mov"@
    ||| e == "webm"@
    ||| e == "m4v"@
    ||| e == "avi"@
    ||| e == "mkv"@
}

/// Whether an asset is a video: its MIME type says so, or its file has a
/// video extension.
pub open spec fn is_video_asset(mime: Option<Seq<char>>, path: Option<Seq<char>>) -> bool {
    ||| (mime is Some && has_prefix(mime->0, "video/"@))
    ||| (path is Some && video_extension(lower_seq(
        match path_extension(path->0) {
            Some(e) => e,
            None => Seq::empty(),
        },
    )))
}

/// The view of an optional string.
pub open spec fn opt_view(o: Option<String>) -> Option<Seq<char>> {
    match o {
        Some(s) => Some(s@),
        None => None,
    }
}

/// Whether a media asset is a video.
pub fn is_video_media_asset(asset: &MediaAsset) -> (r: bool)
    ensures
        r == is_video_asset(opt_view(asset.mime_type), opt_view(asset.relative_path)),
{
    let by_mime = match &asset.mime_type {
        Some(m) => starts_with_str(&chars_of(m.as_str()), "video/"),
        None => false,
    };
    if by_mime {
        return true;
    }
    match &asset.relative_path {
        Some(p) => {
            let e = match file_extension(p.as_str()) {
                Some(e) => e,
                None => String::new(),
            };
            let l = lower_chars(&chars_of(e.as_str()));
            is_str(&l, "mp4") || is_str(&l, "mov") || is_str(&l, "webm") || is_str(&l, "m4v")
                || is_str(&l, "avi") || is_str(&l, "mkv")
        },
        None => false,
    }
}

// ---------------------------------------------------------------------------
// Imported file names
// ---------------------------------------------------------------------------

/// Whether an imported file name keeps a character: letters and digits,
/// `-`, `_`, `.`, and the CJK unified ideographs.
pub open spec fn kept_in_name(c: char) -> bool {
    ||| unicode_alnum(c)
    ||| c == '-'
    ||| c == '_'
    ||| c == '.'
    ||| ('\u{4e00}' <= c && c <= '\u{9fff}')
}

/// The name built from the first `n` characters: kept characters stay, any
/// run of others becomes one `_`.
pub open spec fn name_prefix(s: Seq<char>, n: nat) -> Seq<char>
    decreases n,
{
    if n == 0 || n > s.len() {
        Seq::empty()
    } else {
        let prev = name_prefix(s, (n - 1) as nat);
        let c = s[n - 1];
        if kept_in_name(c) {
            prev.push(c)
        } else if prev.len() == 0 || prev.last() != '_' {
            prev.push('_')
        } else {
            prev
        }
    }
}

/// The safe name an imported file is stored under, from its file stem
/// (`asset` when there is none or nothing is left).
pub open spec fn imported_name(p: Seq<char>) -> Seq<char> {
    let stem = match path_file_stem(p) {
        Some(s) => s,
        None => "asset"@,
    };
    let out = strip_both(name_prefix(stem, stem.len()), '_');
    if out.len() == 0 {
        "asset"@
    } else {
        out
    }
}

/// The safe name an imported file is stored under.
pub fn sanitize_imported_file_name(path: &str) -> (r: String)
    ensures
        r@ == imported_name(path@),
{
    let stem = match file_stem(path) {
        Some(s) => chars_of(s.as_str()),
        None => chars_of("asset"),
    };
    let mut out: Vec<char> = Vec::new();
    let mut i: usize = 0;
    while i < stem.len()
        invariant
            i <= stem@.len(),
            out@ == name_prefix(stem@, i as nat),
        decreases stem.len() - i,
    {
        let c = stem[i];
        if char_is_alphanumeric(c) || c == '-' || c == '_' || c == '.' || ('\u{4e00}' <= c && c
            <= '\u{9fff}') {
            out.push(c);
        } else if out.len() == 0 || out[out.len() - 1] != '_' {
            out.push('_');
        }
        i += 1;
    }
    let t = strip_both_chars(&out, '_');
    if t.len() == 0 {
        owned("asset")
    } else {
        string_from_chars(&t)
    }
}

// ---------------------------------------------------------------------------
// Aspect ratios
// ---------------------------------------------------------------------------

/// What `"W:H"` parses to: both sides trimmed and parsed as `u32`, both
/// above zero.
pub open spec fn aspect_of(v: Seq<char>) -> Option<(u32, u32)> {
    let t = trim(v);
    match first_index_of(t, ':') {
        None => None,
        Some(i) => {
            let w = parse_u32_text(trim(t.subrange(0, i)));
            let h = parse_u32_text(trim(t.subrange(i + 1, t.len() as int)));
            if w is Some && h is Some && w->0 > 0 && h->0 > 0 {
                Some((w->0, h->0))
            } else {
                None
            }
        },
    }
}

/// Parses an aspect ratio such as `16:9`.
pub fn parse_aspect_ratio(value: &str) -> (r: Option<(u32, u32)>)
    ensures
        r == aspect_of(value@),
{
    let t = trim_chars(&chars_of(value));
    match find_char(&t, ':') {
        None => None,
        Some(i) => {
            let a = string_from_chars(&trim_chars(&sub_chars(&t, 0, i)));
            let b = string_from_chars(&trim_chars(&sub_chars(&t, i + 1, t.len())));
            let w = parse_u32(a.as_str());
            let h = parse_u32(b.as_str());
            match (w, h) {
                (Some(w), Some(h)) => if w > 0 && h > 0 {
                    Some((w, h))
                } else {
                    None
                },
                _ => None,
            }
        },
    }
}

/// `clamp(v, lo, hi)` on integers with `lo <= hi`.
pub open spec fn clamp_int(v: int, lo: int, hi: int) -> int {
    if v < lo { lo } else if v > hi { hi } else { v }
}

/// The centered crop (`x`, `y`, width, height) that brings a `w`×`h` image to
/// the ratio `rw:rh`, or `None` when it is within one percent already.
pub open spec fn aspect_crop_of(w: u32, h: u32, rw: u32, rh: u32) -> Option<(u32, u32, u32, u32)> {
    let cur: int = w * rh;
    let tgt: int = h * rw;
    let diff: int = if cur >= tgt { cur - tgt } else { tgt - cur };
    let big: int = if cur >= tgt { cur } else { tgt };
    if diff <= big / 100 {
        None
    } else if cur > tgt {
        let cw = clamp_int((h * rw) / (rh as int), 1, w as int);
        Some((((w - cw) / 2) as u32, 0u32, cw as u32, h))
    } else {
        let ch = clamp_int((w * rh) / (rw as int), 1, h as int);
        Some((0u32, ((h - ch) / 2) as u32, w, ch as u32))
    }
}

/// The crop that corrects a generated image's aspect ratio, if any.
pub fn aspect_crop(w: u32, h: u32, rw: u32, rh: u32) -> (r: Option<(u32, u32, u32, u32)>)
    requires
        rw > 0,
        rh > 0,
    ensures
        r == aspect_crop_of(w, h, rw, rh),
{
    let w64 = w as u64;
    let h64 = h as u64;
    let rw64 = rw as u64;
    let rh64 = rh as u64;
    assert(w64 * rh64 <= 0xffff_ffff_u64 * 0xffff_ffff_u64) by (nonlinear_arith)
        requires w64 <= 0xffff_ffff_u64, rh64 <= 0xffff_ffff_u64;
    assert(h64 * rw64 <= 0xffff_ffff_u64 * 0xffff_ffff_u64) by (nonlinear_arith)
        requires h64 <= 0xffff_ffff_u64, rw64 <= 0xffff_ffff_u64;
    let cur = w64 * rh64;
    let tgt = h64 * rw64;
    let diff = if cur >= tgt { cur - tgt } else { tgt - cur };
    let big = if cur >= tgt { cur } else { tgt };
    if diff <= big / 100 {
        return None;
    }
    if cur > tgt {
        let q = tgt / rh64;
        assert(w64 >= 1) by (nonlinear_arith)
            requires cur == w64 * rh64, cur > 0;
        let cw = if q < 1 { 1 } else if q > w64 { w64 } else { q };
        Some((((w64 - cw) / 2) as u32, 0u32, cw as u32, h))
    } else {
        let q = cur / rw64;
        assert(h64 >= 1) by (nonlinear_arith)
            requires tgt == h64 * rw64, tgt > 0;
        let ch = if q < 1 { 1 } else if q > h64 { h64 } else { q };
        Some((0u32, ((h64 - ch) / 2) as u32, w, ch as u32))
    }
}


// ---------------------------------------------------------------------------
// Outside crates: base64, urlencoding, image
// ---------------------------------------------------------------------------

/// What base64's standard engine decodes a text to, or its error message.
pub uninterp spec fn base64_decoded(text: Seq<char>) -> Result<Seq<u8>, Seq<char>>;

/// What base64's standard engine encodes bytes to.
pub uninterp spec fn base64_text(bytes: Seq<u8>) -> Seq<char>;

/// What `urlencoding::decode` gives for a text, or its error message.
pub uninterp spec fn percent_decoded(text: Seq<char>) -> Result<Seq<char>, Seq<char>>;

/// The width and height of the image that `image::load_from_memory` reads
/// from the bytes, or its error message.
pub uninterp spec fn image_size_result(bytes: Seq<u8>) -> Result<(u32, u32), Seq<char>>;

/// The PNG bytes of the image read from `bytes`, cropped by
/// `DynamicImage::crop_imm(x, y, w, h)`, or the error message.
pub uninterp spec fn cropped_png(bytes: Seq<u8>, x: u32, y: u32, w: u32, h: u32) -> Result<Seq<u8>, Seq<char>>;

/// The view of a byte result.
pub open spec fn bytes_res(r: Result<Vec<u8>, String>) -> Result<Seq<u8>, Seq<char>> {
    match r {
        Ok(b) => Ok(b@),
        Err(e) => Err(e@),
    }
}

/// The view of a text result.
pub open spec fn text_res(r: Result<String, String>) -> Result<Seq<char>, Seq<char>> {
    match r {
        Ok(b) => Ok(b@),
        Err(e) => Err(e@),
    }
}

/// `base64::engine::general_purpose::STANDARD.decode`, its error as text.
/// The result is named, not stated: it is the base64 alphabet and padding
/// rules of that engine.
#[verifier::external_body]
fn base64_decode(text: &str) -> (r: Result<Vec<u8>, String>)
    ensures
        bytes_res(r) == base64_decoded(text@),
{
    base64::engine::general_purpose::STANDARD.decode(text).map_err(|e| e.to_string())
}

/// `base64::engine::general_purpose::STANDARD.encode`. The result is named.
#[verifier::external_body]
fn base64_encode(bytes: &[u8]) -> (r: String)
    ensures
        r@ == base64_text(bytes@),
{
    base64::engine::general_purpose::STANDARD.encode(bytes)
}

/// `urlencoding::decode`, its error as text. The result is named: percent
/// escapes are decoded and the bytes must be UTF-8.
#[verifier::external_body]
fn url_decode(text: &str) -> (r: Result<String, String>)
    ensures
        text_res(r) == percent_decoded(text@),
{
    urlencoding::decode(text).map(|c| c.into_owned()).map_err(|e| e.to_string())
}

/// `image::load_from_memory`, then the image's width and height; the error
/// as text. The result is named: it depends on the image decoders.
#[verifier::external_body]
fn decoded_image_size(bytes: &[u8]) -> (r: Result<(u32, u32), String>)
    ensures
        match r {
            Ok(d) => image_size_result(bytes@) == Ok::<(u32, u32), Seq<char>>(d),
            Err(e) => image_size_result(bytes@) == Err::<(u32, u32), Seq<char>>(e@),
        },
{
    image::load_from_memory(bytes).map(|i| (i.width(), i.height())).map_err(|e| e.to_string())
}

/// `image::load_from_memory`, `DynamicImage::crop_imm` and `write_to` as
/// PNG; the error as text. The result is named: it depends on the image
/// codecs.
#[verifier::external_body]
fn crop_to_png(bytes: &[u8], x: u32, y: u32, w: u32, h: u32) -> (r: Result<Vec<u8>, String>)
    ensures
        bytes_res(r) == cropped_png(bytes@, x, y, w, h),
{
    let img = image::load_from_memory(bytes).map_err(|e| e.to_string())?;
    let mut out = std::io::Cursor::new(Vec::new());
    img.crop_imm(x, y, w, h).write_to(&mut out, image::ImageOutputFormat::Png).map_err(|e| e.to_string())?;
    Ok(out.into_inner())
}

// ---------------------------------------------------------------------------
// Data URLs and aspect correction
// ---------------------------------------------------------------------------

/// The MIME type a data URL header names: the part after `data:` and before
/// any `;`, or `application/octet-stream` when that is blank or absent.
pub open spec fn data_url_mime(header: Seq<char>) -> Seq<char> {
    if has_prefix(header, "data:"@) {
        let m = before_first(header.subrange(5, header.len() as int), ';');
        if trim(m).len() > 0 {
            m
        } else {
            "application/octet-stream"@
        }
    } else {
        "application/octet-stream"@
    }
}

/// What a base64 data URL decodes to: its bytes and MIME type, or why not.
pub open spec fn data_url_of(v: Seq<char>) -> Result<(Seq<u8>, Seq<char>), Seq<char>> {
    match first_index_of(v, ',') {
        None => Err("Invalid data URL"@),
        Some(i) => {
            let header = v.subrange(0, i);
            let data = v.subrange(i + 1, v.len() as int);
            if !contains_seq(header, ";base64"@) {
                Err("Only base64 data URLs are supported"@)
            } else {
                match base64_decoded(trim(data)) {
                    Ok(b) => Ok((b, data_url_mime(header))),
                    Err(e) => Err("Invalid base64 asset: "@ + e),
                }
            }
        },
    }
}

/// The view of a decoded asset.
pub open spec fn asset_res(r: Result<(Vec<u8>, String), String>) -> Result<(Seq<u8>, Seq<char>), Seq<char>> {
    match r {
        Ok((b, m)) => Ok((b@, m@)),
        Err(e) => Err(e@),
    }
}

/// Decodes a base64 `data:` URL into its bytes and MIME type.
pub fn decode_data_url(value: &str) -> (r: Result<(Vec<u8>, String), String>)
    ensures
        asset_res(r) == data_url_of(value@),
{
    let v = chars_of(value);
    let i = match find_char(&v, ',') {
        None => {
            return Err(owned("Invalid data URL"));
        },
        Some(i) => i,
    };
    let header = sub_chars(&v, 0, i);
    let data = sub_chars(&v, i + 1, v.len());
    if !contains_str(&header, ";base64") {
        return Err(owned("Only base64 data URLs are supported"));
    }
    let mime: Vec<char> = if starts_with_str(&header, "data:") {
        proof {
            reveal_strlit("data:");
        }
        let m = before_first_chars(&sub_chars(&header, 5, header.len()), ';');
        if trim_chars(&m).len() > 0 {
            m
        } else {
            chars_of("application/octet-stream")
        }
    } else {
        chars_of("application/octet-stream")
    };
    let text = string_from_chars(&trim_chars(&data));
    match base64_decode(text.as_str()) {
        Ok(b) => Ok((b, string_from_chars(&mime))),
        Err(e) => {
            let mut m = chars_of("Invalid base64 asset: ");
            append_str(&mut m, e.as_str());
            Err(string_from_chars(&m))
        },
    }
}

/// The ratio named by an optional aspect text.
pub open spec fn ratio_of(aspect: Option<Seq<char>>) -> Option<(u32, u32)> {
    match aspect {
        Some(a) => aspect_of(a),
        None => None,
    }
}

/// A generated image brought to the requested aspect ratio: unchanged when
/// no ratio is named or it is already within one percent, otherwise the
/// centered crop as PNG.
pub open spec fn aspect_corrected(bytes: Seq<u8>, mime: Seq<char>, aspect: Option<Seq<char>>)
    -> Result<(Seq<u8>, Seq<char>), Seq<char>> {
    match ratio_of(aspect) {
        None => Ok((bytes, mime)),
        Some((rw, rh)) => match image_size_result(bytes) {
            Err(e) => Err("读取生成图片尺寸失败: "@ + e),
            Ok((w, h)) => match aspect_crop_of(w, h, rw, rh) {
                None => Ok((bytes, mime)),
                Some((x, y, cw, ch)) => match cropped_png(bytes, x, y, cw, ch) {
                    Err(e) => Err("校正生成图片比例失败: "@ + e),
                    Ok(png) => Ok((png, "image/png"@)),
                },
            },
        },
    }
}

/// The view of an optional text slice.
pub open spec fn opt_str_view(o: Option<&str>) -> Option<Seq<char>> {
    match o {
        Some(s) => Some(s@),
        None => None,
    }
}

/// Crops a generated image to the requested aspect ratio when it is off.
pub fn normalize_generated_image_aspect(bytes: Vec<u8>, mime_type: String, aspect_ratio: Option<&str>)
    -> (r: Result<(Vec<u8>, String), String>)
    ensures
        asset_res(r) == aspect_corrected(bytes@, mime_type@, opt_str_view(aspect_ratio)),
{
    let ratio = match aspect_ratio {
        Some(a) => parse_aspect_ratio(a),
        None => None,
    };
    let (rw, rh) = match ratio {
        None => {
            return Ok((bytes, mime_type));
        },
        Some(x) => x,
    };
    let (w, h) = match decoded_image_size(bytes.as_slice()) {
        Err(e) => {
            let mut m = chars_of("读取生成图片尺寸失败: ");
            append_str(&mut m, e.as_str());
            return Err(string_from_chars(&m));
        },
        Ok(d) => d,
    };
    match aspect_crop(w, h, rw, rh) {
        None => Ok((bytes, mime_type)),
        Some((x, y, cw, ch)) => match crop_to_png(bytes.as_slice(), x, y, cw, ch) {
            Err(e) => {
                let mut m = chars_of("校正生成图片比例失败: ");
                append_str(&mut m, e.as_str());
                Err(string_from_chars(&m))
            },
            Ok(png) => Ok((png, owned("image/png"))),
        },
    }
}

// ---------------------------------------------------------------------------
// Reference images and clips
// ---------------------------------------------------------------------------

/// What a media reference is read for.
#[derive(Clone, Copy, Debug, PartialEq, Eq, Structural)]
pub enum ReferenceKind {
    /// A reference image for video generation.
    Image,
    /// The previous clip whose last frame continues a video.
    PreviousClip,
}

/// Where a reference lives: a URL handed on as it is, or a local file.
#[derive(Debug)]
pub enum MediaSource {
    Remote(String),
    Local(String),
}

/// Whether a reference is handed on as it is.
pub open spec fn remote_reference(t: Seq<char>) -> bool {
    has_prefix(t, "https://"@) || has_prefix(t, "http://"@) || has_prefix(t, "data:"@)
}

/// A reference without its `file://`, `asset://localhost/` or
/// `redbox-asset://asset/` prefix (the first that matches).
pub open spec fn local_reference_text(t: Seq<char>) -> Seq<char> {
    if has_prefix(t, "file://"@) {
        t.subrange(7, t.len() as int)
    } else if has_prefix(t, "asset://localhost/"@) {
        t.subrange(18, t.len() as int)
    } else if has_prefix(t, "redbox-asset://asset/"@) {
        t.subrange(21, t.len() as int)
    } else {
        t
    }
}

/// The message prefix when a local reference cannot be percent-decoded.
pub open spec fn decode_failure_label(kind: ReferenceKind) -> Seq<char> {
    match kind {
        ReferenceKind::Image => "参考图路径解码失败: "@,
        ReferenceKind::PreviousClip => "上一段视频路径解码失败: "@,
    }
}

/// The view of a reference source: whether it is remote, and its text.
pub open spec fn source_view(r: Result<MediaSource, String>) -> Result<(bool, Seq<char>), Seq<char>> {
    match r {
        Ok(MediaSource::Remote(s)) => Ok((true, s@)),
        Ok(MediaSource::Local(s)) => Ok((false, s@)),
        Err(e) => Err(e@),
    }
}

/// Where a reference lives, or why it cannot be read.
pub open spec fn reference_source_of(kind: ReferenceKind, v: Seq<char>) -> Result<(bool, Seq<char>), Seq<char>> {
    let t = trim(v);
    if kind == ReferenceKind::PreviousClip && t.len() == 0 {
        Err("视频续写模式缺少上一段视频"@)
    } else if remote_reference(t) {
        Ok((true, t))
    } else {
        match percent_decoded(local_reference_text(t)) {
            Ok(p) => Ok((false, p)),
            Err(e) => Err(decode_failure_label(kind) + e),
        }
    }
}

/// Where a reference image or previous clip lives.
pub fn reference_source(kind: ReferenceKind, value: &str) -> (r: Result<MediaSource, String>)
    ensures
        source_view(r) == reference_source_of(kind, value@),
{
    let t = trim_chars(&chars_of(value));
    if kind == ReferenceKind::PreviousClip && t.len() == 0 {
        return Err(owned("视频续写模式缺少上一段视频"));
    }
    if starts_with_str(&t, "https://") || starts_with_str(&t, "http://") || starts_with_str(&t, "data:") {
        return Ok(MediaSource::Remote(string_from_chars(&t)));
    }
    proof {
        reveal_strlit("file://");
        reveal_strlit("asset://localhost/");
        reveal_strlit("redbox-asset://asset/");
    }
    let p = if starts_with_str(&t, "file://") {
        sub_chars(&t, 7, t.len())
    } else if starts_with_str(&t, "asset://localhost/") {
        sub_chars(&t, 18, t.len())
    } else if starts_with_str(&t, "redbox-asset://asset/") {
        sub_chars(&t, 21, t.len())
    } else {
        sub_chars(&t, 0, t.len())
    };
    assert(t@.subrange(0, t@.len() as int) =~= t@);
    let ps = string_from_chars(&p);
    match url_decode(ps.as_str()) {
        Ok(d) => Ok(MediaSource::Local(d)),
        Err(e) => {
            let mut m = match kind {
                ReferenceKind::Image => chars_of("参考图路径解码失败: "),
                ReferenceKind::PreviousClip => chars_of("上一段视频路径解码失败: "),
            };
            append_str(&mut m, e.as_str());
            Err(string_from_chars(&m))
        },
    }
}

/// The MIME family a reference must have.
pub open spec fn wanted_family(kind: ReferenceKind) -> Seq<char> {
    match kind {
        ReferenceKind::Image => "image/"@,
        ReferenceKind::PreviousClip => "video/"@,
    }
}

/// The MIME type of a local reference file, or why it is refused: it must
/// be a file, and of the wanted family.
pub open spec fn local_reference_mime(kind: ReferenceKind, path: Seq<char>, is_file: bool) -> Result<Seq<char>, Seq<char>> {
    if !is_file {
        Err(match kind {
            ReferenceKind::Image => "参考图不存在或不是文件: "@,
            ReferenceKind::PreviousClip => "上一段视频不存在或不是文件: "@,
        } + path)
    } else if !has_prefix(guessed_mime(path), wanted_family(kind)) {
        Err(match kind {
            ReferenceKind::Image => "参考图格式不受支持: "@,
            ReferenceKind::PreviousClip => "上一段视频格式不受支持: "@,
        } + guessed_mime(path))
    } else {
        Ok(guessed_mime(path))
    }
}

/// Checks a local reference file (whether it is a file is looked up by the
/// caller) and gives its MIME type.
pub fn check_local_reference(kind: ReferenceKind, path: &str, is_file: bool) -> (r: Result<String, String>)
    ensures
        text_res(r) == local_reference_mime(kind, path@, is_file),
{
    if !is_file {
        let mut m = match kind {
            ReferenceKind::Image => chars_of("参考图不存在或不是文件: "),
            ReferenceKind::PreviousClip => chars_of("上一段视频不存在或不是文件: "),
        };
        append_str(&mut m, path);
        return Err(string_from_chars(&m));
    }
    let mime = guess_mime_type(path);
    let family = match kind {
        ReferenceKind::Image => "image/",
        ReferenceKind::PreviousClip => "video/",
    };
    if !starts_with_str(&chars_of(mime.as_str()), family) {
        let mut m = match kind {
            ReferenceKind::Image => chars_of("参考图格式不受支持: "),
            ReferenceKind::PreviousClip => chars_of("上一段视频格式不受支持: "),
        };
        append_str(&mut m, mime.as_str());
        return Err(string_from_chars(&m));
    }
    Ok(mime)
}

/// A base64 data URL for bytes of a MIME type.
pub open spec fn data_url_text(mime: Seq<char>, bytes: Seq<u8>) -> Seq<char> {
    "data:"@ + mime + ";base64,"@ + base64_text(bytes)
}

/// Encodes bytes as a base64 data URL.
pub fn encode_data_url(mime: &str, bytes: &[u8]) -> (r: String)
    ensures
        r@ == data_url_text(mime@, bytes@),
{
    let mut m = chars_of("data:");
    append_str(&mut m, mime);
    append_str(&mut m, ";base64,");
    let b = base64_encode(bytes);
    append_str(&mut m, b.as_str());
    string_from_chars(&m)
}

/// The last frame of the previous clip as a PNG data URL; an empty frame is
/// refused.
pub fn last_frame_data_url(bytes: &[u8]) -> (r: Result<String, String>)
    ensures
        bytes@.len() == 0 ==> r is Err && r->Err_0@ == "上一段视频尾帧为空"@,
        bytes@.len() > 0 ==> r is Ok && r->Ok_0@ == data_url_text("image/png"@, bytes@),
{
    if bytes.len() == 0 {
        return Err(owned("上一段视频尾帧为空"));
    }
    Ok(encode_data_url("image/png", bytes))
}

// ---------------------------------------------------------------------------
// Video provider replies
// ---------------------------------------------------------------------------

/// The path of Ark's video task collection.
pub open spec fn tasks_route() -> Seq<char> {
    "/contents/generations/tasks"@
}

/// The Ark task URL for an endpoint: the endpoint without trailing `/` and
/// without anything from the task route on (found in lower case), then the
/// task route and, for one task, its trimmed id.
pub open spec fn ark_tasks_url(endpoint: Seq<char>, task_id: Option<Seq<char>>) -> Seq<char> {
    let n = strip_end(trim(endpoint), '/');
    let base = match find_seq(unicode_lower(n), tasks_route()) {
        Some(i) => take_chars(n, i as nat),
        None => n,
    };
    match task_id {
        Some(t) => base + tasks_route() + "/"@ + trim(t),
        None => base + tasks_route(),
    }
}

/// The Ark task URL for creating a task or reading one.
pub fn ark_video_tasks_url(endpoint: &str, task_id: Option<&str>) -> (r: String)
    ensures
        r@ == ark_tasks_url(endpoint@, opt_str_view(task_id)),
{
    let n = strip_end_chars(&trim_chars(&chars_of(endpoint)), '/');
    let ns = string_from_chars(&n);
    let lower = chars_of(to_lowercase_str(ns.as_str()).as_str());
    let route = chars_of("/contents/generations/tasks");
    let mut out = match vec_find(&lower, &route) {
        Some(i) => take_chars_vec(&n, i),
        None => sub_chars(&n, 0, n.len()),
    };
    assert(n@.subrange(0, n@.len() as int) =~= n@);
    append_chars(&mut out, &route);
    match task_id {
        Some(t) => {
            append_str(&mut out, "/");
            let tt = trim_chars(&chars_of(t));
            append_chars(&mut out, &tt);
        },
        None => {},
    }
    string_from_chars(&out)
}

/// The id of a created video task: `id`, `task_id` or `taskId` (trimmed,
/// non-empty), else the id found under `data`.
pub open spec fn task_id_of(j: JsonV) -> Option<Seq<char>>
    decreases j,
{
    match payload_text(j, "id"@) {
        Some(t) => Some(t),
        None => match payload_text(j, "task_id"@) {
            Some(t) => Some(t),
            None => match payload_text(j, "taskId"@) {
                Some(t) => Some(t),
                None => match jget(j, "data"@) {
                    Some(d) => {
                        proof {
                            lemma_jget_decreases(j, "data"@);
                        }
                        task_id_of(d)
                    },
                    None => None,
                },
            },
        },
    }
}

/// The id of a created video task.
pub fn video_task_id(payload: &Json) -> (r: Option<String>)
    ensures
        opt_view(r) == task_id_of(payload@),
    decreases payload@,
{
    match payload_string(payload, "id") {
        Some(t) => { return Some(t); },
        None => {},
    }
    match payload_string(payload, "task_id") {
        Some(t) => { return Some(t); },
        None => {},
    }
    match payload_string(payload, "taskId") {
        Some(t) => { return Some(t); },
        None => {},
    }
    match payload.get("data") {
        Some(d) => {
            proof {
                lemma_jget_decreases(payload@, "data"@);
            }
            video_task_id(d)
        },
        None => None,
    }
}

/// The status text under `key`, trimmed and in upper case, when non-empty.
pub open spec fn status_under(j: JsonV, key: Seq<char>) -> Option<Seq<char>> {
    match payload_text(j, key) {
        Some(t) => Some(unicode_upper(t)),
        None => None,
    }
}

/// A video task's status: `task_status`, `taskStatus` or `status` in upper
/// case, else the first non-empty status found under `data`, `output` or
/// `result`; empty when there is none.
pub open spec fn task_status_of(j: JsonV) -> Seq<char>
    decreases j,
{
    match status_under(j, "task_status"@) {
        Some(s) => s,
        None => match status_under(j, "taskStatus"@) {
            Some(s) => s,
            None => match status_under(j, "status"@) {
                Some(s) => s,
                None => {
                    let a = match jget(j, "data"@) {
                        Some(d) => {
                            proof { lemma_jget_decreases(j, "data"@); }
                            task_status_of(d)
                        },
                        None => Seq::empty(),
                    };
                    if a.len() > 0 {
                        a
                    } else {
                        let b = match jget(j, "output"@) {
                            Some(d) => {
                                proof { lemma_jget_decreases(j, "output"@); }
                                task_status_of(d)
                            },
                            None => Seq::empty(),
                        };
                        if b.len() > 0 {
                            b
                        } else {
                            match jget(j, "result"@) {
                                Some(d) => {
                                    proof { lemma_jget_decreases(j, "result"@); }
                                    task_status_of(d)
                                },
                                None => Seq::empty(),
                            }
                        }
                    }
                },
            },
        },
    }
}

/// A video task's status, in upper case.
pub fn video_task_status(payload: &Json) -> (r: String)
    ensures
        r@ == task_status_of(payload@),
    decreases payload@,
{
    match payload_string(payload, "task_status") {
        Some(t) => { return to_uppercase_str(t.as_str()); },
        None => {},
    }
    match payload_string(payload, "taskStatus") {
        Some(t) => { return to_uppercase_str(t.as_str()); },
        None => {},
    }
    match payload_string(payload, "status") {
        Some(t) => { return to_uppercase_str(t.as_str()); },
        None => {},
    }
    match payload.get("data") {
        Some(d) => {
            proof { lemma_jget_decreases(payload@, "data"@); }
            let n = video_task_status(d);
            if chars_of(n.as_str()).len() > 0 {
                return n;
            }
        },
        None => {},
    }
    match payload.get("output") {
        Some(d) => {
            proof { lemma_jget_decreases(payload@, "output"@); }
            let n = video_task_status(d);
            if chars_of(n.as_str()).len() > 0 {
                return n;
            }
        },
        None => {},
    }
    match payload.get("result") {
        Some(d) => {
            proof { lemma_jget_decreases(payload@, "result"@); }
            video_task_status(d)
        },
        None => String::new(),
    }
}

/// Whether a status says the task succeeded.
pub open spec fn status_succeeded(s: Seq<char>) -> bool {
    ||| contains_seq(s, "SUCCEEDED"@)
    ||| contains_seq(s, "SUCCESS"@)
    ||| contains_seq(s, "COMPLETED"@)
    ||| contains_seq(s, "DONE"@)
    ||| contains_seq(s, "FINISHED"@)
}

/// Whether a status says the task failed.
pub open spec fn status_failed(s: Seq<char>) -> bool {
    ||| contains_seq(s, "FAIL"@)
    ||| contains_seq(s, "ERROR"@)
    ||| contains_seq(s, "CANCEL"@)
}

/// Whether a video task status says it succeeded.
pub fn video_status_succeeded(status: &str) -> (r: bool)
    ensures
        r == status_succeeded(status@),
{
    let v = chars_of(status);
    contains_str(&v, "SUCCEEDED") || contains_str(&v, "SUCCESS") || contains_str(&v, "COMPLETED")
        || contains_str(&v, "DONE") || contains_str(&v, "FINISHED")
}

/// Whether a video task status says it failed.
pub fn video_status_failed(status: &str) -> (r: bool)
    ensures
        r == status_failed(status@),
{
    let v = chars_of(status);
    contains_str(&v, "FAIL") || contains_str(&v, "ERROR") || contains_str(&v, "CANCEL")
}

/// Whether a text is a downloadable video reference.
pub open spec fn video_url_text(t: Seq<char>) -> bool {
    has_prefix(t, "http://"@) || has_prefix(t, "https://"@) || has_prefix(t, "data:"@)
}

/// `acc` with `u` added unless it is there already.
pub open spec fn add_url(acc: Seq<Seq<char>>, u: Seq<char>) -> Seq<Seq<char>> {
    if acc.contains(u) {
        acc
    } else {
        acc.push(u)
    }
}

/// `acc` with the trimmed text under `key` added when it is a video URL.
pub open spec fn url_under(j: JsonV, key: Seq<char>, acc: Seq<Seq<char>>) -> Seq<Seq<char>> {
    match get_text(j, key) {
        Some(t) => if video_url_text(trim(t)) {
            add_url(acc, trim(t))
        } else {
            acc
        },
        None => acc,
    }
}

/// `acc` with the URLs directly under the known URL keys of an object.
pub open spec fn direct_urls(j: JsonV, acc: Seq<Seq<char>>) -> Seq<Seq<char>> {
    url_under(j, "video"@, url_under(j, "url"@, url_under(j, "fileUrl"@, url_under(j, "file_url"@,
        url_under(j, "videoUrl"@, url_under(j, "video_url"@, acc))))))
}

/// The video URLs of a provider reply, in the order found, each once: an
/// object's URL keys, then what lies under `data`, `output`, `result`,
/// `content` and `videos`; each item of an array; a string that is a URL.
pub open spec fn collect_urls(j: JsonV, acc: Seq<Seq<char>>) -> Seq<Seq<char>>
    decreases j, 0nat,
{
    match j {
        JsonV::Object(_) => {
            let a0 = direct_urls(j, acc);
            let a1 = match jget(j, "data"@) {
                Some(v) => { proof { lemma_jget_decreases(j, "data"@); } collect_urls(v, a0) },
                None => a0,
            };
            let a2 = match jget(j, "output"@) {
                Some(v) => { proof { lemma_jget_decreases(j, "output"@); } collect_urls(v, a1) },
                None => a1,
            };
            let a3 = match jget(j, "result"@) {
                Some(v) => { proof { lemma_jget_decreases(j, "result"@); } collect_urls(v, a2) },
                None => a2,
            };
            let a4 = match jget(j, "content"@) {
                Some(v) => { proof { lemma_jget_decreases(j, "content"@); } collect_urls(v, a3) },
                None => a3,
            };
            match jget(j, "videos"@) {
                Some(v) => { proof { lemma_jget_decreases(j, "videos"@); } collect_urls(v, a4) },
                None => a4,
            }
        },
        JsonV::Array(items) => collect_items(items, acc, items.len()),
        JsonV::Str(t, _) => if video_url_text(t) {
            add_url(acc, t)
        } else {
            acc
        },
        _ => acc,
    }
}

/// `collect_urls` over the first `n` items, in order.
pub open spec fn collect_items(items: Seq<JsonV>, acc: Seq<Seq<char>>, n: nat) -> Seq<Seq<char>>
    decreases items, n,
{
    if n == 0 || n > items.len() {
        acc
    } else {
        collect_urls(items[n - 1], collect_items(items, acc, (n - 1) as nat))
    }
}

/// Adds `u` to the list unless it is there already.
fn push_url(urls: &mut Vec<String>, u: &Vec<char>)
    ensures
        views(final(urls)@) == add_url(views(old(urls)@), u@),
{
    if !contains_string(urls, u) {
        let ghost before = views(urls@);
        urls.push(string_from_chars(u));
        assert(views(urls@) =~= before.push(u@));
    }
}

/// Adds the trimmed text under `key` when it is a video URL.
fn push_url_under(payload: &Json, key: &str, urls: &mut Vec<String>)
    ensures
        views(final(urls)@) == url_under(payload@, key@, views(old(urls)@)),
{
    match payload.get_str(key) {
        Some(t) => {
            let v = trim_chars(&chars_of(t.as_str()));
            if starts_with_str(&v, "http://") || starts_with_str(&v, "https://") || starts_with_str(&v, "data:") {
                push_url(urls, &v);
            }
        },
        None => {},
    }
}

/// Collects the video URLs of a provider reply into `urls`, skipping those
/// already there.
pub fn collect_video_urls(payload: &Json, urls: &mut Vec<String>)
    ensures
        views(final(urls)@) == collect_urls(payload@, views(old(urls)@)),
    decreases payload@, 0nat,
{
    match payload {
        Json::Object(_) => {
            push_url_under(payload, "video_url", urls);
            push_url_under(payload, "videoUrl", urls);
            push_url_under(payload, "file_url", urls);
            push_url_under(payload, "fileUrl", urls);
            push_url_under(payload, "url", urls);
            push_url_under(payload, "video", urls);
            match payload.get("data") {
                Some(v) => { proof { lemma_jget_decreases(payload@, "data"@); } collect_video_urls(v, urls); },
                None => {},
            }
            match payload.get("output") {
                Some(v) => { proof { lemma_jget_decreases(payload@, "output"@); } collect_video_urls(v, urls); },
                None => {},
            }
            match payload.get("result") {
                Some(v) => { proof { lemma_jget_decreases(payload@, "result"@); } collect_video_urls(v, urls); },
                None => {},
            }
            match payload.get("content") {
                Some(v) => { proof { lemma_jget_decreases(payload@, "content"@); } collect_video_urls(v, urls); },
                None => {},
            }
            match payload.get("videos") {
                Some(v) => { proof { lemma_jget_decreases(payload@, "videos"@); } collect_video_urls(v, urls); },
                None => {},
            }
        },
        Json::Array(items) => {
            proof {
                lemma_array_view(*items);
            }
            let ghost iv = items_view(items@, items@.len());
            let ghost acc0 = views(urls@);
            let mut i: usize = 0;
            while i < items.len()
                invariant
                    i <= items@.len(),
                    *payload == Json::Array(*items),
                    payload@ == JsonV::Array(iv),
                    iv.len() == items@.len(),
                    forall|k: int| 0 <= k < items@.len() ==> #[trigger] iv[k] == items@[k]@,
                    views(urls@) == collect_items(iv, acc0, i as nat),
                decreases items.len() - i,
            {
                proof {
                    assert(decreases_to!(payload@ => payload@->Array_0));
                    assert(payload@->Array_0 == iv);
                    assert(decreases_to!(iv => iv[i as int]));
                }
                collect_video_urls(&items[i], urls);
                i += 1;
            }
        },
        Json::Str(t, _) => {
            let v = chars_of(t.as_str());
            if starts_with_str(&v, "http://") || starts_with_str(&v, "https://") || starts_with_str(&v, "data:") {
                push_url(urls, &v);
            }
        },
        _ => {},
    }
}

// ---------------------------------------------------------------------------
// Stored assets
// ---------------------------------------------------------------------------

/// The essence of a MIME type: before any `;`, trimmed, in lower case.
pub open spec fn mime_essence(m: Seq<char>) -> Seq<char> {
    unicode_lower(trim(before_first(m, ';')))
}

/// Whether a stored asset's size is read from its bytes (raster images).
pub open spec fn measured_image(m: Seq<char>) -> bool {
    has_prefix(m, "image/"@) && m != "image/svg+xml"@
}

/// The `size` and `requested_size` a stored asset records: a raster image
/// records its physical `WxH` and keeps the requested size beside it; any
/// other asset records the requested size as its size.
pub open spec fn stored_sizes(bytes: Seq<u8>, m: Seq<char>, requested: Option<Seq<char>>)
    -> Result<(Option<Seq<char>>, Option<Seq<char>>), Seq<char>> {
    if measured_image(m) {
        match image_size_result(bytes) {
            Err(e) => Err("读取生成图片物理尺寸失败: "@ + e),
            Ok((w, h)) => Ok((Some(dec_nat(w as nat) + "x"@ + dec_nat(h as nat)), requested)),
        }
    } else {
        Ok((requested, None))
    }
}

/// The title of a generated asset: the request's title, else the first 40
/// characters of its prompt.
pub open spec fn generated_title(p: JsonV) -> Option<Seq<char>> {
    match payload_text(p, "title"@) {
        Some(t) => Some(t),
        None => match payload_text(p, "prompt"@) {
            Some(q) => Some(take_chars(q, 40)),
            None => None,
        },
    }
}

/// Whether `a` is the catalog entry of a generated asset with these parts.
pub open spec fn generated_asset_fields(
    a: MediaAsset,
    p: JsonV,
    id: Seq<char>,
    m: Seq<char>,
    provider: Seq<char>,
    model: Seq<char>,
    aspect: Option<Seq<char>>,
    size: Option<Seq<char>>,
    requested: Option<Seq<char>>,
    quality: Option<Seq<char>>,
    ts: Seq<char>,
) -> bool {
    &&& a.id@ == id
    &&& a.source@ == "generated"@
    &&& opt_view(a.project_id) == first_payload_text(p, project_keys(), 0)
    &&& opt_view(a.delivery_role) == first_payload_text(p, role_keys(), 0)
    &&& opt_view(a.title) == generated_title(p)
    &&& opt_view(a.prompt) == payload_text(p, "prompt"@)
    &&& opt_view(a.provider) == Some(provider)
    &&& opt_view(a.provider_template) == payload_text(p, "providerTemplate"@)
    &&& opt_view(a.model) == Some(model)
    &&& opt_view(a.aspect_ratio) == aspect
    &&& opt_view(a.size) == size
    &&& opt_view(a.requested_size) == requested
    &&& opt_view(a.quality) == quality
    &&& opt_view(a.mime_type) == Some(m)
    &&& opt_view(a.relative_path) == Some(generated_path(p, id, m))
    &&& a.bound_manuscript_path is None
    &&& a.created_at@ == ts
    &&& a.updated_at@ == ts
}

fn opt_string(o: Option<String>) -> (r: Option<String>)
    ensures
        opt_view(r) == opt_view(o),
{
    o
}

/// The catalog entry for the bytes a provider returned, stored under a new
/// id at a given time; empty bytes are refused.
pub fn generated_asset_record(
    payload: &Json,
    id: String,
    bytes: &[u8],
    mime_type: &str,
    provider: &str,
    model: &str,
    aspect_ratio: Option<String>,
    requested_size: Option<String>,
    quality: Option<String>,
    timestamp: String,
) -> (r: Result<MediaAsset, String>)
    ensures
        bytes@.len() == 0 ==> r is Err && r->Err_0@ == "生成产物内容为空"@,
        bytes@.len() > 0 ==> match stored_sizes(bytes@, mime_essence(mime_type@), opt_view(requested_size)) {
            Err(e) => r is Err && r->Err_0@ == e,
            Ok((size, req)) => r is Ok && generated_asset_fields(
                r->Ok_0,
                payload@,
                id@,
                mime_essence(mime_type@),
                provider@,
                model@,
                opt_view(aspect_ratio),
                size,
                req,
                opt_view(quality),
                timestamp@,
            ),
        },
{
    if bytes.len() == 0 {
        return Err(owned("生成产物内容为空"));
    }
    let essence = trim_chars(&before_first_chars(&chars_of(mime_type), ';'));
    let m = to_lowercase_str(string_from_chars(&essence).as_str());
    let mv = chars_of(m.as_str());
    proof {
        reveal_strlit("image/svg+xml");
    }
    let (size, req) = if starts_with_str(&mv, "image/") && !is_str(&mv, "image/svg+xml") {
        match decoded_image_size(bytes) {
            Err(e) => {
                let mut t = chars_of("读取生成图片物理尺寸失败: ");
                append_str(&mut t, e.as_str());
                return Err(string_from_chars(&t));
            },
            Ok((w, h)) => {
                let mut t = dec_u64(w as u64);
                append_str(&mut t, "x");
                append_chars(&mut t, &dec_u64(h as u64));
                (Some(string_from_chars(&t)), requested_size)
            },
        }
    } else {
        (requested_size, None)
    };
    let relative_path = generated_asset_relative_path(payload, id.as_str(), m.as_str());
    let prompt = payload_string(payload, "prompt");
    let title = match payload_string(payload, "title") {
        Some(t) => Some(t),
        None => match &prompt {
            Some(q) => Some(string_from_chars(&take_chars_vec(&chars_of(q.as_str()), 40))),
            None => None,
        },
    };
    let project_keys_arr: [&str; 2] = ["projectId", "project_id"];
    assert(str_views(project_keys_arr@) =~= project_keys());
    let created = timestamp.clone();
    Ok(MediaAsset {
        id,
        source: owned("generated"),
        project_id: payload_first_string(payload, project_keys_arr.as_slice()),
        delivery_role: payload_delivery_role(payload),
        title,
        prompt,
        provider: Some(owned(provider)),
        provider_template: payload_string(payload, "providerTemplate"),
        model: Some(owned(model)),
        aspect_ratio: opt_string(aspect_ratio),
        size,
        requested_size: req,
        quality: opt_string(quality),
        mime_type: Some(m),
        relative_path: Some(relative_path),
        bound_manuscript_path: None,
        created_at: created,
        updated_at: timestamp,
    })
}

/// The file name a generated asset keeps when it moves between projects:
/// that of its current path, else `<id>.<ext>` by its MIME type.
pub open spec fn moved_file_name(a: MediaAsset, current: Seq<char>) -> Seq<char> {
    match path_file_name(current) {
        Some(n) => n,
        None => a.id@ + "."@ + extension_for_mime(
            match a.mime_type {
                Some(m) => m@,
                None => "application/octet-stream"@,
            },
        ),
    }
}

/// Where a generated asset belongs for a project (or none): under the
/// project's folder and the asset's category folder.
pub open spec fn project_target_path(a: MediaAsset, current: Seq<char>, project: Option<Seq<char>>) -> Seq<char> {
    let name = moved_file_name(a, current);
    match project {
        Some(v) => "generated/"@ + project_folder(v) + "/"@ + asset_folder(
            text_or_empty(a.mime_type),
            text_or_empty(a.title),
            text_or_empty(a.delivery_role),
            text_or_empty(a.relative_path),
        ) + "/"@ + name,
        None => "generated/"@ + name,
    }
}

/// The path a generated asset must move to when it is given to a project,
/// or `None` when it stays where it is (it is not generated, has no path,
/// or is already there).
pub open spec fn project_move_of(a: MediaAsset, project: Option<Seq<char>>) -> Option<Seq<char>> {
    if a.source@ != "generated"@ {
        None
    } else {
        match a.relative_path {
            None => None,
            Some(cur) => {
                let next = project_target_path(a, cur@, project);
                if next == cur@ {
                    None
                } else {
                    Some(next)
                }
            },
        }
    }
}

/// Where a generated asset must move when it is given to a project.
pub fn project_move_target(asset: &MediaAsset, project_id: Option<&str>) -> (r: Option<String>)
    ensures
        opt_view(r) == project_move_of(*asset, opt_str_view(project_id)),
{
    if !str_eq_string(&asset.source, "generated") {
        return None;
    }
    let cur = match &asset.relative_path {
        None => { return None; },
        Some(c) => c,
    };
    let name: Vec<char> = match file_name(cur.as_str()) {
        Some(n) => chars_of(n.as_str()),
        None => {
            let mut t = chars_of(asset.id.as_str());
            append_str(&mut t, ".");
            let m = match &asset.mime_type {
                Some(m) => m.as_str(),
                None => "application/octet-stream",
            };
            append_str(&mut t, mime_extension(m));
            t
        },
    };
    let mut next = chars_of("generated/");
    match project_id {
        Some(v) => {
            let folder = sanitize_media_project_folder(v);
            append_str(&mut next, folder.as_str());
            append_str(&mut next, "/");
            append_str(&mut next, media_asset_category(asset));
            append_str(&mut next, "/");
            append_chars(&mut next, &name);
        },
        None => {
            append_chars(&mut next, &name);
        },
    }
    if chars_eq(&next, &chars_of(cur.as_str())) {
        None
    } else {
        Some(string_from_chars(&next))
    }
}

fn str_eq_string(a: &String, b: &str) -> (r: bool)
    ensures
        r == (a@ == b@),
{
    crate::text::str_eq(a.as_str(), b)
}

/// Gives an asset to a project: records the project and, when the file was
/// moved, its new path.
pub fn assign_asset_project(asset: &mut MediaAsset, project_id: Option<String>, moved_to: Option<String>)
    ensures
        final(asset).project_id == project_id,
        moved_to is Some ==> final(asset).relative_path == moved_to,
        moved_to is None ==> final(asset).relative_path == old(asset).relative_path,
        final(asset).id == old(asset).id,
        final(asset).source == old(asset).source,
        final(asset).title == old(asset).title,
        final(asset).mime_type == old(asset).mime_type,
        final(asset).updated_at == old(asset).updated_at,
{
    match moved_to {
        Some(p) => {
            asset.relative_path = Some(p);
        },
        None => {},
    }
    asset.project_id = project_id;
}

// ---------------------------------------------------------------------------
// Provider settings and request plans
// ---------------------------------------------------------------------------

/// The image provider settings of the configuration.
pub struct ImageSettings {
    pub endpoint: String,
    pub api_key: String,
    pub model: String,
    pub provider: String,
    pub size: String,
    pub quality: String,
    pub aspect_ratio: String,
}

/// The video provider settings of the configuration.
pub struct VideoSettings {
    pub endpoint: String,
    pub api_key: String,
    pub model: String,
    pub duration_seconds: u64,
}

/// The agent gateway settings, the fallback for the providers.
pub struct GooseSettings {
    pub base_url: String,
    pub api_key: String,
}

/// The configuration a generation reads.
pub struct GenerationSettings {
    pub image: ImageSettings,
    pub video: VideoSettings,
    pub goose: GooseSettings,
    pub safety: SafetyConfig,
}

/// The first present of two optional texts.
pub open spec fn or_text(a: Option<Seq<char>>, b: Option<Seq<char>>) -> Option<Seq<char>> {
    if a is Some {
        a
    } else {
        b
    }
}

fn or_string(a: Option<String>, b: Option<String>) -> (r: Option<String>)
    ensures
        opt_view(r) == or_text(opt_view(a), opt_view(b)),
{
    match a {
        Some(x) => Some(x),
        None => b,
    }
}

fn or_default(a: Option<String>, d: &str) -> (r: String)
    ensures
        r@ == match opt_view(a) {
            Some(x) => x,
            None => d@,
        },
{
    match a {
        Some(x) => x,
        None => owned(d),
    }
}

/// How many items the array under `key` holds (none when it is no array).
pub open spec fn array_len(p: JsonV, key: Seq<char>) -> nat {
    match jget(p, key) {
        Some(JsonV::Array(s)) => s.len(),
        _ => 0,
    }
}

fn array_len_exec(payload: &Json, key: &str) -> (r: usize)
    ensures
        r == array_len(payload@, key@),
{
    match payload.get(key) {
        Some(v) => match v.as_array() {
            Some(a) => {
                proof {
                    lemma_array_view(*a);
                }
                a.len()
            },
            None => 0,
        },
        None => 0,
    }
}

/// `clamp(v, lo, hi)` on `u64`.
pub open spec fn clamp_u64(v: u64, lo: u64, hi: u64) -> u64 {
    if v < lo { lo } else if v > hi { hi } else { v }
}

fn clamp_exec(v: u64, lo: u64, hi: u64) -> (r: u64)
    ensures
        r == clamp_u64(v, lo, hi),
{
    if v < lo { lo } else if v > hi { hi } else { v }
}

/// The unsigned integer under `key`, or `d`.
pub open spec fn unsigned_or(p: JsonV, key: Seq<char>, d: u64) -> u64 {
    match get_unsigned(p, key) {
        Some(n) => n,
        None => d,
    }
}

/// What an image generation sends to the provider.
pub struct ImagePlan {
    pub prompt: String,
    pub endpoint: String,
    pub api_key: String,
    pub model: String,
    pub provider: String,
    pub count: u64,
    pub size: Option<String>,
    pub quality: Option<String>,
    pub aspect_ratio: Option<String>,
}

/// The image endpoint: the request's, else the configured image endpoint,
/// else the gateway's base URL.
pub open spec fn image_endpoint(p: JsonV, c: GenerationSettings) -> Option<Seq<char>> {
    or_text(payload_text(p, "endpoint"@), or_text(non_empty(c.image.endpoint@), non_empty(c.goose.base_url@)))
}

/// The image API key: the request's, else the image key, else the gateway's.
pub open spec fn image_api_key(p: JsonV, c: GenerationSettings) -> Option<Seq<char>> {
    or_text(payload_text(p, "apiKey"@), or_text(non_empty(c.image.api_key@), non_empty(c.goose.api_key@)))
}

/// Why an image generation request is refused before anything is sent, if
/// it is.
pub open spec fn image_plan_error(p: JsonV, c: GenerationSettings) -> Option<Seq<char>> {
    if !c.safety.run_real_image {
        Some(blocked_message(RealGenerationKind::Image.label_spec(), RealGenerationKind::Image.config_key_spec()))
    } else if payload_text(p, "prompt"@) is None {
        Some("Prompt is required"@)
    } else if array_len(p, "referenceImages"@) > 0 {
        Some("当前 Rust 图片后端先支持文生图；参考图模式尚未迁移"@)
    } else if image_endpoint(p, c) is None {
        Some("Image endpoint is missing"@)
    } else if image_api_key(p, c) is None {
        Some("Image API key is missing"@)
    } else {
        None
    }
}

/// Whether `plan` is what an accepted image request sends: each setting from
/// the request, else from the configuration, else its default; one to four
/// images.
pub open spec fn image_plan_matches(plan: ImagePlan, p: JsonV, c: GenerationSettings) -> bool {
    &&& Some(plan.prompt@) == payload_text(p, "prompt"@)
    &&& Some(plan.endpoint@) == image_endpoint(p, c)
    &&& Some(plan.api_key@) == image_api_key(p, c)
    &&& plan.model@ == match or_text(payload_text(p, "model"@), non_empty(c.image.model@)) {
        Some(m) => m,
        None => "gpt-image-2"@,
    }
    &&& plan.provider@ == match or_text(payload_text(p, "provider"@), non_empty(c.image.provider@)) {
        Some(m) => m,
        None => "openai-compatible"@,
    }
    &&& plan.count == clamp_u64(unsigned_or(p, "count"@, 1), 1, 4)
    &&& opt_view(plan.size) == or_text(payload_text(p, "size"@), non_empty(c.image.size@))
    &&& opt_view(plan.quality) == or_text(payload_text(p, "quality"@), non_empty(c.image.quality@))
    &&& opt_view(plan.aspect_ratio) == or_text(payload_text(p, "aspectRatio"@), non_empty(c.image.aspect_ratio@))
}

/// Reads an image generation request against the configuration.
pub fn image_request_plan(payload: &Json, config: &GenerationSettings) -> (r: Result<ImagePlan, String>)
    ensures
        match image_plan_error(payload@, *config) {
            Some(e) => r is Err && r->Err_0@ == e,
            None => r is Ok && image_plan_matches(r->Ok_0, payload@, *config),
        },
{
    match ensure_real_generation_enabled(&config.safety, RealGenerationKind::Image) {
        Err(e) => { return Err(e); },
        Ok(()) => {},
    }
    let prompt = match payload_string(payload, "prompt") {
        None => { return Err(owned("Prompt is required")); },
        Some(p) => p,
    };
    if array_len_exec(payload, "referenceImages") > 0 {
        return Err(owned("当前 Rust 图片后端先支持文生图；参考图模式尚未迁移"));
    }
    let endpoint = match or_string(payload_string(payload, "endpoint"), or_string(
        non_empty_str(config.image.endpoint.as_str()), non_empty_str(config.goose.base_url.as_str()))) {
        None => { return Err(owned("Image endpoint is missing")); },
        Some(e) => e,
    };
    let api_key = match or_string(payload_string(payload, "apiKey"), or_string(
        non_empty_str(config.image.api_key.as_str()), non_empty_str(config.goose.api_key.as_str()))) {
        None => { return Err(owned("Image API key is missing")); },
        Some(e) => e,
    };
    let model = or_default(or_string(payload_string(payload, "model"), non_empty_str(config.image.model.as_str())), "gpt-image-2");
    let provider = or_default(or_string(payload_string(payload, "provider"), non_empty_str(config.image.provider.as_str())), "openai-compatible");
    let count = clamp_exec(match payload.get_u64("count") { Some(n) => n, None => 1 }, 1, 4);
    let size = or_string(payload_string(payload, "size"), non_empty_str(config.image.size.as_str()));
    let quality = or_string(payload_string(payload, "quality"), non_empty_str(config.image.quality.as_str()));
    let aspect_ratio = or_string(payload_string(payload, "aspectRatio"), non_empty_str(config.image.aspect_ratio.as_str()));
    Ok(ImagePlan { prompt, endpoint, api_key, model, provider, count, size, quality, aspect_ratio })
}

// ---------------------------------------------------------------------------
// JSON building blocks
// ---------------------------------------------------------------------------

/// A string value.
pub open spec fn tstr(s: Seq<char>) -> JsonV {
    JsonV::Str(s, None)
}

/// An object of two entries.
pub fn obj2(k1: &str, v1: Json, k2: &str, v2: Json) -> (r: Json)
    ensures
        r@ == JsonV::Object(seq![(k1@, v1@), (k2@, v2@)]),
{
    let ghost a = v1@;
    let ghost b = v2@;
    let mut e: Vec<(String, Json)> = Vec::new();
    e.push((owned(k1), v1));
    e.push((owned(k2), v2));
    proof {
        lemma_entries_view(e@, e@.len());
    }
    assert(entries_of(e) =~= seq![(k1@, a), (k2@, b)]);
    object_of(e)
}

/// An array value from a list of values.
pub fn array_of(v: Vec<Json>) -> (r: Json)
    ensures
        r@ == JsonV::Array(items_view(v@, v@.len())),
        items_view(v@, v@.len()).len() == v@.len(),
        forall|i: int| 0 <= i < v@.len() ==> #[trigger] items_view(v@, v@.len())[i] == v@[i]@,
{
    proof {
        lemma_array_view(v);
    }
    Json::Array(v)
}

/// The text items of an array, as they are (`filter_map(as_str)`).
pub open spec fn raw_texts(items: Seq<JsonV>) -> Seq<Seq<char>>
    decreases items.len(),
{
    if items.len() == 0 {
        Seq::empty()
    } else {
        let prev = raw_texts(items.drop_last());
        match as_text(items.last()) {
            Some(t) => prev.push(t),
            None => prev,
        }
    }
}

/// The text items of the array under `key`.
pub open spec fn array_texts(p: JsonV, key: Seq<char>) -> Seq<Seq<char>> {
    match jget(p, key) {
        Some(JsonV::Array(items)) => raw_texts(items),
        _ => Seq::empty(),
    }
}

/// The text items of the array under `key`, as they are.
pub fn array_texts_exec(payload: &Json, key: &str) -> (r: Vec<String>)
    ensures
        views(r@) == array_texts(payload@, key@),
{
    let mut out: Vec<String> = Vec::new();
    let items = match payload.get(key) {
        Some(v) => match v.as_array() {
            Some(a) => a,
            None => { return out; },
        },
        None => { return out; },
    };
    proof {
        lemma_array_view(*items);
    }
    let ghost iv = items_view(items@, items@.len());
    let mut i: usize = 0;
    while i < items.len()
        invariant
            i <= items@.len(),
            iv.len() == items@.len(),
            forall|k: int| 0 <= k < items@.len() ==> #[trigger] iv[k] == items@[k]@,
            views(out@) == raw_texts(iv.subrange(0, i as int)),
        decreases items.len() - i,
    {
        let ghost before = views(out@);
        assert(iv.subrange(0, i + 1).drop_last() =~= iv.subrange(0, i as int));
        match items[i].as_str() {
            Some(t) => {
                out.push(t.clone());
                assert(views(out@) =~= before.push(t@));
            },
            None => {},
        }
        i += 1;
    }
    assert(iv.subrange(0, iv.len() as int) =~= iv);
    out
}

// ---------------------------------------------------------------------------
// Image requests and replies
// ---------------------------------------------------------------------------

/// The entries of an image generation request body.
pub open spec fn image_body_entries(plan: ImagePlan) -> Seq<(Seq<char>, JsonV)> {
    let base = seq![
        ("model"@, tstr(plan.model@)),
        ("prompt"@, tstr(plan.prompt@)),
        ("n"@, JsonV::Int(plan.count as i64)),
        ("response_format"@, tstr("url"@)),
    ];
    let with_size = match plan.size {
        Some(v) => base.push(("size"@, tstr(v@))),
        None => base,
    };
    match plan.quality {
        Some(v) => with_size.push(("quality"@, tstr(v@))),
        None => with_size,
    }
}

/// The body of an image generation request.
pub fn image_request_body(plan: &ImagePlan) -> (r: Json)
    requires
        plan.count <= 4,
    ensures
        r@ == JsonV::Object(image_body_entries(*plan)),
{
    let mut e: Vec<(String, Json)> = Vec::new();
    e.push((owned("model"), Json::from_string(plan.model.clone())));
    e.push((owned("prompt"), Json::from_string(plan.prompt.clone())));
    e.push((owned("n"), Json::Int(plan.count as i64)));
    e.push((owned("response_format"), Json::text("url")));
    match &plan.size {
        Some(v) => { e.push((owned("size"), Json::from_string(v.clone()))); },
        None => {},
    }
    match &plan.quality {
        Some(v) => { e.push((owned("quality"), Json::from_string(v.clone()))); },
        None => {},
    }
    proof {
        lemma_entries_view(e@, e@.len());
    }
    assert(entries_of(e) =~= image_body_entries(*plan));
    object_of(e)
}

/// The first present of two optional values.
pub open spec fn or_json(a: Option<JsonV>, b: Option<JsonV>) -> Option<JsonV> {
    if a is Some {
        a
    } else {
        b
    }
}

/// The generated images of a provider reply: the array under `data`, else
/// under `images`.
pub open spec fn reply_outputs(r: JsonV) -> Option<Seq<JsonV>> {
    match or_json(jget(r, "data"@), jget(r, "images"@)) {
        Some(JsonV::Array(s)) => Some(s),
        _ => None,
    }
}

/// The generated images of a provider reply, or why there are none.
pub fn image_outputs(reply: &Json) -> (r: Result<&Vec<Json>, String>)
    ensures
        match reply_outputs(reply@) {
            Some(s) => r is Ok && items_view(r->Ok_0@, r->Ok_0@.len()) == s,
            None => r is Err && r->Err_0@ == "图片生成响应缺少 data/images"@,
        },
{
    let first = match reply.get("data") {
        Some(v) => Some(v),
        None => reply.get("images"),
    };
    match first {
        Some(v) => match v.as_array() {
            Some(a) => Ok(a),
            None => Err(owned("图片生成响应缺少 data/images")),
        },
        None => Err(owned("图片生成响应缺少 data/images")),
    }
}

/// Where a generated image comes from.
#[derive(Debug)]
pub enum ImageOutput {
    /// Inline base64 data.
    Base64(String),
    /// A URL to download.
    Url(String),
    /// Neither: the item is passed over.
    Skip,
}

/// The base64 data of an output item (`b64_json`, else `b64`).
pub open spec fn output_base64(o: JsonV) -> Option<Seq<char>> {
    match or_json(jget(o, "b64_json"@), jget(o, "b64"@)) {
        Some(v) => as_text(v),
        None => None,
    }
}

/// The URL of an output item (`url`, else `image_url`).
pub open spec fn output_url(o: JsonV) -> Option<Seq<char>> {
    match or_json(jget(o, "url"@), jget(o, "image_url"@)) {
        Some(v) => as_text(v),
        None => None,
    }
}

/// Where one generated image comes from: inline data first, then a URL.
pub fn image_output_source(output: &Json) -> (r: ImageOutput)
    ensures
        match output_base64(output@) {
            Some(b) => r matches ImageOutput::Base64(x) && x@ == b,
            None => match output_url(output@) {
                Some(u) => r matches ImageOutput::Url(x) && x@ == u,
                None => r is Skip,
            },
        },
{
    let b = match output.get("b64_json") {
        Some(v) => Some(v),
        None => output.get("b64"),
    };
    match b {
        Some(v) => match v.as_str() {
            Some(t) => { return ImageOutput::Base64(t.clone()); },
            None => {},
        },
        None => {},
    }
    let u = match output.get("url") {
        Some(v) => Some(v),
        None => output.get("image_url"),
    };
    match u {
        Some(v) => match v.as_str() {
            Some(t) => ImageOutput::Url(t.clone()),
            None => ImageOutput::Skip,
        },
        None => ImageOutput::Skip,
    }
}

/// Decodes an inline generated image.
pub fn decode_image_output(encoded: &str) -> (r: Result<Vec<u8>, String>)
    ensures
        match base64_decoded(encoded@) {
            Ok(b) => r is Ok && r->Ok_0@ == b,
            Err(e) => r is Err && r->Err_0@ == "图片 base64 解码失败: "@ + e,
        },
{
    match base64_decode(encoded) {
        Ok(b) => Ok(b),
        Err(e) => {
            let mut m = chars_of("图片 base64 解码失败: ");
            append_str(&mut m, e.as_str());
            Err(string_from_chars(&m))
        },
    }
}

/// Whether a provider reply is read as JSON: a success whose content type
/// (in lower case) mentions `json`.
pub fn json_reply_accepted(success: bool, content_type: &str) -> (r: bool)
    ensures
        r == (success && contains_seq(unicode_lower(content_type@), "json"@)),
{
    if !success {
        return false;
    }
    let l = to_lowercase_str(content_type);
    contains_str(&chars_of(l.as_str()), "json")
}

/// The message for a refused provider reply: where, the HTTP status, and the
/// shortened body.
pub fn http_failure_text(url: &str, status: &str, body: &str) -> (r: String)
    ensures
        r@ == url@ + " HTTP "@ + status@ + ": "@ + truncated_body(body@),
{
    let mut m = chars_of(url);
    append_str(&mut m, " HTTP ");
    append_str(&mut m, status);
    append_str(&mut m, ": ");
    let t = truncate_response_body(body);
    append_str(&mut m, t.as_str());
    string_from_chars(&m)
}

// ---------------------------------------------------------------------------
// Video requests
// ---------------------------------------------------------------------------

/// What a video generation sends to the provider, before its references are
/// read.
pub struct VideoPlan {
    pub prompt: String,
    pub endpoint: String,
    pub api_key: String,
    pub model: String,
    pub aspect_ratio: String,
    pub resolution: String,
    pub duration_seconds: u64,
    pub count: u64,
    pub generation_mode: String,
    pub reference_images: Vec<String>,
    pub first_clip: Option<String>,
    pub driving_audio: Option<String>,
    pub generate_audio: bool,
}

/// The video endpoint: the request's, else the configured one.
pub open spec fn video_endpoint(p: JsonV, c: GenerationSettings) -> Option<Seq<char>> {
    or_text(payload_text(p, "endpoint"@), non_empty(c.video.endpoint@))
}

/// The video API key: the request's, else the video key, else the gateway's.
pub open spec fn video_api_key(p: JsonV, c: GenerationSettings) -> Option<Seq<char>> {
    or_text(payload_text(p, "apiKey"@), or_text(non_empty(c.video.api_key@), non_empty(c.goose.api_key@)))
}

/// Why a video generation request is refused before anything is read or
/// sent, if it is.
pub open spec fn video_plan_error(p: JsonV, c: GenerationSettings) -> Option<Seq<char>> {
    if !c.safety.run_real_video {
        Some(blocked_message(RealGenerationKind::Video.label_spec(), RealGenerationKind::Video.config_key_spec()))
    } else if payload_text(p, "prompt"@) is None {
        Some("Prompt is required"@)
    } else if video_endpoint(p, c) is None {
        Some("Video endpoint is missing"@)
    } else if !contains_seq(unicode_lower(video_endpoint(p, c)->0), "ark.cn-beijing.volces.com"@) {
        Some("当前 Rust 视频后端先支持 Ark Plan/Seedance endpoint"@)
    } else if video_api_key(p, c) is None {
        Some("Video API key is missing"@)
    } else {
        None
    }
}

/// The video model: the request's unless it names a `wan2.7-` model, else
/// the configured one, else the Seedance default.
pub open spec fn video_model(p: JsonV, c: GenerationSettings) -> Seq<char> {
    let configured = match non_empty(c.video.model@) {
        Some(m) => m,
        None => "doubao-seedance-1.5-pro"@,
    };
    match payload_text(p, "model"@) {
        Some(v) => if !has_prefix(v, "wan2.7-"@) {
            v
        } else {
            configured
        },
        None => configured,
    }
}

/// Whether `plan` is what an accepted video request sends.
pub open spec fn video_plan_matches(plan: VideoPlan, p: JsonV, c: GenerationSettings) -> bool {
    &&& Some(plan.prompt@) == payload_text(p, "prompt"@)
    &&& Some(plan.endpoint@) == video_endpoint(p, c)
    &&& Some(plan.api_key@) == video_api_key(p, c)
    &&& plan.model@ == video_model(p, c)
    &&& plan.aspect_ratio@ == if payload_text(p, "aspectRatio"@) == Some("9:16"@) {
        "9:16"@
    } else {
        "16:9"@
    }
    &&& plan.resolution@ == if payload_text(p, "resolution"@) == Some("1080p"@) {
        "1080p"@
    } else {
        "720p"@
    }
    &&& plan.duration_seconds == clamp_u64(unsigned_or(p, "durationSeconds"@, c.video.duration_seconds), 5, 12)
    &&& plan.count == clamp_u64(unsigned_or(p, "count"@, 1), 1, 2)
    &&& plan.generation_mode@ == match payload_text(p, "generationMode"@) {
        Some(m) => m,
        None => "text-to-video"@,
    }
    &&& views(plan.reference_images@) == array_texts(p, "referenceImages"@)
    &&& opt_view(plan.first_clip) == payload_text(p, "firstClip"@)
    &&& opt_view(plan.driving_audio) == payload_text(p, "drivingAudio"@)
    &&& plan.generate_audio == match get_flag(p, "generateAudio"@) {
        Some(b) => b,
        None => false,
    }
}

/// Reads a video generation request against the configuration.
pub fn video_request_plan(payload: &Json, config: &GenerationSettings) -> (r: Result<VideoPlan, String>)
    ensures
        match video_plan_error(payload@, *config) {
            Some(e) => r is Err && r->Err_0@ == e,
            None => r is Ok && video_plan_matches(r->Ok_0, payload@, *config),
        },
{
    match ensure_real_generation_enabled(&config.safety, RealGenerationKind::Video) {
        Err(e) => { return Err(e); },
        Ok(()) => {},
    }
    let prompt = match payload_string(payload, "prompt") {
        None => { return Err(owned("Prompt is required")); },
        Some(p) => p,
    };
    let endpoint = match or_string(payload_string(payload, "endpoint"), non_empty_str(config.video.endpoint.as_str())) {
        None => { return Err(owned("Video endpoint is missing")); },
        Some(e) => e,
    };
    let lower = to_lowercase_str(endpoint.as_str());
    if !contains_str(&chars_of(lower.as_str()), "ark.cn-beijing.volces.com") {
        return Err(owned("当前 Rust 视频后端先支持 Ark Plan/Seedance endpoint"));
    }
    let api_key = match or_string(payload_string(payload, "apiKey"), or_string(
        non_empty_str(config.video.api_key.as_str()), non_empty_str(config.goose.api_key.as_str()))) {
        None => { return Err(owned("Video API key is missing")); },
        Some(e) => e,
    };
    let configured = or_default(non_empty_str(config.video.model.as_str()), "doubao-seedance-1.5-pro");
    let model = match payload_string(payload, "model") {
        Some(v) => if !starts_with_str(&chars_of(v.as_str()), "wan2.7-") {
            v
        } else {
            configured
        },
        None => configured,
    };
    proof {
        reveal_strlit("9:16");
        reveal_strlit("1080p");
    }
    let aspect_ratio = match payload_string(payload, "aspectRatio") {
        Some(v) => if crate::text::str_eq(v.as_str(), "9:16") { v } else { owned("16:9") },
        None => owned("16:9"),
    };
    let resolution = match payload_string(payload, "resolution") {
        Some(v) => if crate::text::str_eq(v.as_str(), "1080p") { v } else { owned("720p") },
        None => owned("720p"),
    };
    let duration_seconds = clamp_exec(match payload.get_u64("durationSeconds") {
        Some(n) => n,
        None => config.video.duration_seconds,
    }, 5, 12);
    let count = clamp_exec(match payload.get_u64("count") { Some(n) => n, None => 1 }, 1, 2);
    let generation_mode = or_default(payload_string(payload, "generationMode"), "text-to-video");
    let reference_images = array_texts_exec(payload, "referenceImages");
    let first_clip = payload_string(payload, "firstClip");
    let driving_audio = payload_string(payload, "drivingAudio");
    let generate_audio = match payload.get_bool("generateAudio") {
        Some(b) => b,
        None => false,
    };
    Ok(VideoPlan {
        prompt,
        endpoint,
        api_key,
        model,
        aspect_ratio,
        resolution,
        duration_seconds,
        count,
        generation_mode,
        reference_images,
        first_clip,
        driving_audio,
        generate_audio,
    })
}

/// The mode the provider is asked for: a continuation is sent as a
/// reference-guided video.
pub open spec fn provider_mode_of(mode: Seq<char>) -> Seq<char> {
    if mode == "continuation"@ {
        "reference-guided"@
    } else {
        mode
    }
}

/// The mode the provider is asked for.
pub fn provider_generation_mode(mode: &str) -> (r: String)
    ensures
        r@ == provider_mode_of(mode@),
{
    if crate::text::str_eq(mode, "continuation") {
        owned("reference-guided")
    } else {
        owned(mode)
    }
}

/// The previous clip a continuation continues: required in that mode, none
/// in the others.
pub fn continuation_clip(plan: &VideoPlan) -> (r: Result<Option<String>, String>)
    ensures
        plan.generation_mode@ == "continuation"@ ==> match plan.first_clip {
            Some(c) => r is Ok && r->Ok_0 is Some && r->Ok_0->0@ == c@,
            None => r is Err && r->Err_0@ == "视频续写模式需要上一段视频"@,
        },
        plan.generation_mode@ != "continuation"@ ==> r is Ok && r->Ok_0 is None,
{
    if !crate::text::str_eq(plan.generation_mode.as_str(), "continuation") {
        return Ok(None);
    }
    match &plan.first_clip {
        Some(c) => Ok(Some(c.clone())),
        None => Err(owned("视频续写模式需要上一段视频")),
    }
}

/// Why the references do not suit the mode, if they do not: a
/// reference-guided video needs one, a first-and-last-frame video two.
pub open spec fn reference_count_error(mode: Seq<char>, provider_mode: Seq<char>, n: nat) -> Option<Seq<char>> {
    if provider_mode == "reference-guided"@ && n == 0 {
        Some("参考图视频模式至少需要 1 张参考图"@)
    } else if mode == "first-last-frame"@ && n < 2 {
        Some("首尾帧视频模式需要 2 张参考图"@)
    } else {
        None
    }
}

/// Checks that there are enough references for the mode.
pub fn check_video_references(mode: &str, provider_mode: &str, count: usize) -> (r: Result<(), String>)
    ensures
        match reference_count_error(mode@, provider_mode@, count as nat) {
            Some(e) => r is Err && r->Err_0@ == e,
            None => r is Ok,
        },
{
    if crate::text::str_eq(provider_mode, "reference-guided") && count == 0 {
        return Err(owned("参考图视频模式至少需要 1 张参考图"));
    }
    if crate::text::str_eq(mode, "first-last-frame") && count < 2 {
        return Err(owned("首尾帧视频模式需要 2 张参考图"));
    }
    Ok(())
}

/// The pixel size asked for an aspect ratio and resolution.
pub open spec fn video_size_of(aspect: Seq<char>, resolution: Seq<char>) -> Seq<char> {
    if aspect == "9:16"@ && resolution == "1080p"@ {
        "1024x1792"@
    } else if aspect == "9:16"@ {
        "720x1280"@
    } else if resolution == "1080p"@ {
        "1792x1024"@
    } else {
        "1280x720"@
    }
}

proof fn lemma_size_text(t: Seq<char>, w: nat, h: nat)
    requires
        t == crate::num::dec_nat(w) + "x"@ + crate::num::dec_nat(h),
    ensures
        exists|w2: nat, h2: nat| t == crate::num::dec_nat(w2) + "x"@ + crate::num::dec_nat(h2) && w2 == w && h2 == h,
{
}

/// A requested video size is `W x H` in decimal pixels, and its orientation
/// follows the aspect ratio: taller than wide for `9:16`, wider than tall
/// for `16:9`, whatever the resolution.
pub proof fn lemma_video_size_orientation(aspect: Seq<char>, resolution: Seq<char>)
    ensures
        exists|w: nat, h: nat| #![auto]
            video_size_of(aspect, resolution) == crate::num::dec_nat(w) + "x"@ + crate::num::dec_nat(h)
            && (aspect == "9:16"@ ==> h > w)
            && (aspect == "16:9"@ ==> w > h),
{
    reveal_strlit("9:16");
    reveal_strlit("16:9");
    reveal_strlit("x");
    reveal_strlit("1024x1792");
    reveal_strlit("720x1280");
    reveal_strlit("1792x1024");
    reveal_strlit("1280x720");
    reveal_with_fuel(crate::num::dec_nat, 5);
    assert("9:16"@ != "16:9"@) by { assert("9:16"@[0] != "16:9"@[0]); }
    let s = video_size_of(aspect, resolution);
    if aspect == "9:16"@ && resolution == "1080p"@ {
        assert(s =~= crate::num::dec_nat(1024) + "x"@ + crate::num::dec_nat(1792));
        lemma_size_text(s, 1024, 1792);
    } else if aspect == "9:16"@ {
        assert(s =~= crate::num::dec_nat(720) + "x"@ + crate::num::dec_nat(1280));
        lemma_size_text(s, 720, 1280);
    } else if resolution == "1080p"@ {
        assert(s =~= crate::num::dec_nat(1792) + "x"@ + crate::num::dec_nat(1024));
        lemma_size_text(s, 1792, 1024);
    } else {
        assert(s =~= crate::num::dec_nat(1280) + "x"@ + crate::num::dec_nat(720));
        lemma_size_text(s, 1280, 720);
    }
}

/// The pixel size asked for an aspect ratio and resolution.
pub fn video_size(aspect: &str, resolution: &str) -> (r: &'static str)
    ensures
        r@ == video_size_of(aspect@, resolution@),
{
    let portrait = crate::text::str_eq(aspect, "9:16");
    let full = crate::text::str_eq(resolution, "1080p");
    if portrait && full {
        "1024x1792"
    } else if portrait {
        "720x1280"
    } else if full {
        "1792x1024"
    } else {
        "1280x720"
    }
}

/// The clip length asked for a duration: 4, 8 or 12 seconds.
pub open spec fn video_seconds_of(d: u64) -> Seq<char> {
    if d <= 6 {
        "4"@
    } else if d <= 10 {
        "8"@
    } else {
        "12"@
    }
}

/// The clip length asked for a duration.
pub fn video_seconds(d: u64) -> (r: &'static str)
    ensures
        r@ == video_seconds_of(d),
{
    if d <= 6 {
        "4"
    } else if d <= 10 {
        "8"
    } else {
        "12"
    }
}

/// At most the first five references.
pub open spec fn first_refs(refs: Seq<Seq<char>>) -> Seq<Seq<char>> {
    if refs.len() <= 5 {
        refs
    } else {
        refs.subrange(0, 5)
    }
}

/// The text part of a video request's content.
pub open spec fn text_part(prompt: Seq<char>) -> JsonV {
    JsonV::Object(seq![("type"@, tstr("text"@)), ("text"@, tstr(prompt))])
}

/// A reference image part of a video request's content.
pub open spec fn image_part(r: Seq<char>) -> JsonV {
    JsonV::Object(seq![("type"@, tstr("image_url"@)), ("image_url"@, JsonV::Object(seq![("url"@, tstr(r))]))])
}

/// A reference image of a video request's media.
pub open spec fn media_image(r: Seq<char>) -> JsonV {
    JsonV::Object(seq![("type"@, tstr("image"@)), ("image_url"@, tstr(r))])
}

/// The driving audio of a video request's media.
pub open spec fn media_audio(a: Seq<char>) -> JsonV {
    JsonV::Object(seq![("type"@, tstr("audio"@)), ("audio_url"@, tstr(a))])
}

/// The content of a video request: the prompt, then the references.
pub open spec fn content_parts(prompt: Seq<char>, refs: Seq<Seq<char>>) -> Seq<JsonV> {
    seq![text_part(prompt)] + first_refs(refs).map_values(|r: Seq<char>| image_part(r))
}

/// The media of a video request: the references, then the driving audio.
pub open spec fn media_parts(refs: Seq<Seq<char>>, audio: Option<Seq<char>>) -> Seq<JsonV> {
    let imgs = first_refs(refs).map_values(|r: Seq<char>| media_image(r));
    match audio {
        Some(a) => imgs.push(media_audio(a)),
        None => imgs,
    }
}

/// The entries of a video generation request body.
pub open spec fn video_body_entries(plan: VideoPlan, refs: Seq<Seq<char>>, mode: Seq<char>) -> Seq<(Seq<char>, JsonV)> {
    let base = seq![
        ("model"@, tstr(plan.model@)),
        ("content"@, JsonV::Array(content_parts(plan.prompt@, refs))),
        ("prompt"@, tstr(plan.prompt@)),
        ("ratio"@, tstr(plan.aspect_ratio@)),
        ("size"@, tstr(video_size_of(plan.aspect_ratio@, plan.resolution@))),
        ("resolution"@, tstr(plan.resolution@)),
        ("duration"@, JsonV::Int(plan.duration_seconds as i64)),
        ("seconds"@, tstr(video_seconds_of(plan.duration_seconds))),
        ("n"@, JsonV::Int(plan.count as i64)),
        ("generate_audio"@, JsonV::Bool(plan.generate_audio)),
        ("generation_mode"@, tstr(mode)),
    ];
    let media = media_parts(refs, opt_view(plan.driving_audio));
    if media.len() > 0 {
        base.push(("media"@, JsonV::Array(media)))
    } else {
        base
    }
}

/// The body of a video generation request, with the references as read.
pub fn video_request_body(plan: &VideoPlan, references: &Vec<String>, provider_mode: &str) -> (r: Json)
    requires
        plan.duration_seconds <= 12,
        plan.count <= 2,
    ensures
        r@ == JsonV::Object(video_body_entries(*plan, views(references@), provider_mode@)),
{
    let ghost refs = views(references@);
    let n = if references.len() <= 5 { references.len() } else { 5 };
    let ghost fr = first_refs(refs);
    assert(fr.len() == n);
    let mut content: Vec<Json> = Vec::new();
    let mut media: Vec<Json> = Vec::new();
    content.push(obj2("type", Json::text("text"), "text", Json::from_string(plan.prompt.clone())));
    let mut i: usize = 0;
    while i < n
        invariant
            i <= n,
            n <= references@.len(),
            fr.len() == n,
            refs == views(references@),
            fr == first_refs(refs),
            content@.len() == i + 1,
            media@.len() == i,
            content@[0]@ == text_part(plan.prompt@),
            forall|k: int| 0 <= k < i ==> (#[trigger] content@[k + 1])@ == image_part(fr[k]),
            forall|k: int| 0 <= k < i ==> (#[trigger] media@[k])@ == media_image(fr[k]),
        decreases n - i,
    {
        assert(fr[i as int] == references@[i as int]@);
        let inner = {
            let mut e: Vec<(String, Json)> = Vec::new();
            e.push((owned("url"), Json::from_string(references[i].clone())));
            proof { lemma_entries_view(e@, e@.len()); }
            assert(entries_of(e) =~= seq![("url"@, tstr(fr[i as int]))]);
            object_of(e)
        };
        content.push(obj2("type", Json::text("image_url"), "image_url", inner));
        media.push(obj2("type", Json::text("image"), "image_url", Json::from_string(references[i].clone())));
        i += 1;
    }
    match &plan.driving_audio {
        Some(a) => {
            media.push(obj2("type", Json::text("audio"), "audio_url", Json::from_string(a.clone())));
        },
        None => {},
    }
    let ghost cv = content_parts(plan.prompt@, refs);
    let ghost mv = media_parts(refs, opt_view(plan.driving_audio));
    let media_len = media.len();
    let ghost cseq = content@;
    let ghost mseq = media@;
    let content_json = array_of(content);
    let media_json = array_of(media);
    assert forall|k: int| 0 <= k < cseq.len() implies #[trigger] items_view(cseq, cseq.len())[k] == cv[k] by {
        if k > 0 {
            assert(cseq[(k - 1) + 1]@ == image_part(fr[k - 1]));
            assert(cv[k] == fr.map_values(|r: Seq<char>| image_part(r))[k - 1]);
        }
    }
    assert(items_view(cseq, cseq.len()) =~= cv);
    assert(items_view(mseq, mseq.len()) =~= mv);
    let mut e: Vec<(String, Json)> = Vec::new();
    e.push((owned("model"), Json::from_string(plan.model.clone())));
    e.push((owned("content"), content_json));
    e.push((owned("prompt"), Json::from_string(plan.prompt.clone())));
    e.push((owned("ratio"), Json::from_string(plan.aspect_ratio.clone())));
    e.push((owned("size"), Json::text(video_size(plan.aspect_ratio.as_str(), plan.resolution.as_str()))));
    e.push((owned("resolution"), Json::from_string(plan.resolution.clone())));
    e.push((owned("duration"), Json::Int(plan.duration_seconds as i64)));
    e.push((owned("seconds"), Json::text(video_seconds(plan.duration_seconds))));
    e.push((owned("n"), Json::Int(plan.count as i64)));
    e.push((owned("generate_audio"), Json::Bool(plan.generate_audio)));
    e.push((owned("generation_mode"), Json::text(provider_mode)));
    if media_len > 0 {
        e.push((owned("media"), media_json));
    }
    proof {
        lemma_entries_view(e@, e@.len());
    }
    assert(entries_of(e) =~= video_body_entries(*plan, refs, provider_mode@));
    object_of(e)
}

// ---------------------------------------------------------------------------
// Polling a video task
// ---------------------------------------------------------------------------

/// What to do after reading a video task's status.
#[derive(Debug)]
pub enum PollStep {
    /// The task succeeded: collect its URLs.
    Done,
    /// The task failed, with the message to report.
    Failed(String),
    /// Ask again later.
    Wait,
}

/// What to do after reading a video task's status; the reply's text goes
/// into a failure message.
pub fn video_poll_step(status: &str, reply_text: &str) -> (r: PollStep)
    ensures
        status_succeeded(status@) ==> r is Done,
        !status_succeeded(status@) && status_failed(status@) ==> (r matches PollStep::Failed(m)
            && m@ == "视频任务失败: status="@ + status@ + ", payload="@ + truncated_body(reply_text@)),
        !status_succeeded(status@) && !status_failed(status@) ==> r is Wait,
{
    if video_status_succeeded(status) {
        return PollStep::Done;
    }
    if video_status_failed(status) {
        let mut m = chars_of("视频任务失败: status=");
        append_str(&mut m, status);
        append_str(&mut m, ", payload=");
        let t = truncate_response_body(reply_text);
        append_str(&mut m, t.as_str());
        return PollStep::Failed(string_from_chars(&m));
    }
    PollStep::Wait
}

/// The message of a video task that did not finish in time.
pub fn video_timeout_text(task_id: &str, status: &str) -> (r: String)
    ensures
        r@ == "视频任务超时: id="@ + task_id@ + ", status="@ + status@,
{
    let mut m = chars_of("视频任务超时: id=");
    append_str(&mut m, task_id);
    append_str(&mut m, ", status=");
    append_str(&mut m, status);
    string_from_chars(&m)
}

// ---------------------------------------------------------------------------
// Generation jobs
// ---------------------------------------------------------------------------

/// A value present under `key`, else `d`.
pub open spec fn value_or(p: JsonV, key: Seq<char>, d: JsonV) -> JsonV {
    match jget(p, key) {
        Some(v) => v,
        None => d,
    }
}

/// The entries of a new, pending generation job.
pub open spec fn new_job_entries(id: Seq<char>, kind: Seq<char>, p: JsonV, now: i64) -> Seq<(Seq<char>, JsonV)> {
    seq![
        ("id"@, tstr(id)),
        ("jobId"@, tstr(id)),
        ("kind"@, tstr(kind)),
        ("source"@, value_or(p, "source"@, tstr("desktop"@))),
        ("status"@, tstr("pending"@)),
        ("prompt"@, value_or(p, "prompt"@, JsonV::Null)),
        ("request"@, p),
        ("artifacts"@, JsonV::Array(Seq::empty())),
        ("createdAt"@, JsonV::Int(now)),
        ("updatedAt"@, JsonV::Int(now)),
    ]
}

fn value_or_exec(payload: &Json, key: &str, d: Json) -> (r: Json)
    ensures
        r@ == value_or(payload@, key@, d@),
{
    match payload.get(key) {
        Some(v) => copy_json(v),
        None => d,
    }
}

/// A new, pending generation job for a request, made at `now`.
pub fn new_job_record(id: &str, kind: &str, payload: Json, now: i64) -> (r: Json)
    ensures
        r@ == JsonV::Object(new_job_entries(id@, kind@, payload@, now)),
{
    let ghost p = payload@;
    let source = value_or_exec(&payload, "source", Json::text("desktop"));
    let prompt = value_or_exec(&payload, "prompt", Json::Null);
    let empty: Vec<Json> = Vec::new();
    let artifacts = array_of(empty);
    let mut e: Vec<(String, Json)> = Vec::new();
    e.push((owned("id"), Json::text(id)));
    e.push((owned("jobId"), Json::text(id)));
    e.push((owned("kind"), Json::text(kind)));
    e.push((owned("source"), source));
    e.push((owned("status"), Json::text("pending")));
    e.push((owned("prompt"), prompt));
    e.push((owned("request"), payload));
    e.push((owned("artifacts"), artifacts));
    e.push((owned("createdAt"), Json::Int(now)));
    e.push((owned("updatedAt"), Json::Int(now)));
    proof {
        lemma_entries_view(e@, e@.len());
        assert(items_view(empty@, 0) =~= Seq::<JsonV>::empty());
    }
    assert(entries_of(e) =~= new_job_entries(id@, kind@, p, now));
    object_of(e)
}

/// The job used when a running job is no longer in the pool.
pub fn fallback_job(id: &str, kind: &str) -> (r: Json)
    ensures
        r@ == JsonV::Object(seq![("jobId"@, tstr(id@)), ("kind"@, tstr(kind@))]),
{
    obj2("jobId", Json::text(id), "kind", Json::text(kind))
}

/// An object value with `key` set (`value[key] = v`); any other value is
/// left as it is.
pub open spec fn with_field(j: JsonV, key: Seq<char>, v: JsonV) -> JsonV {
    match j {
        JsonV::Object(e) => JsonV::Object(set_entry(e, key, v)),
        _ => j,
    }
}

/// Sets `key` in an object value.
pub fn set_field(j: &mut Json, key: &str, v: Json)
    ensures
        final(j)@ == with_field(old(j)@, key@, v@),
{
    match j {
        Json::Object(e) => {
            proof { crate::json::lemma_object_view(*e); }
            set_entry_exec(e, key, v);
            proof { crate::json::lemma_object_view(*e); }
        },
        _ => {},
    }
}

/// Marks a job as running at `now`.
pub fn mark_job_running(job: &mut Json, now: i64)
    ensures
        final(job)@ == with_field(with_field(old(job)@, "status"@, tstr("running"@)), "updatedAt"@, JsonV::Int(now)),
{
    set_field(job, "status", Json::text("running"));
    set_field(job, "updatedAt", Json::Int(now));
}

/// Marks a job as completed at `now` with the stored assets.
pub fn mark_job_completed(job: &mut Json, assets: Vec<Json>, now: i64)
    ensures
        final(job)@ == with_field(with_field(with_field(with_field(old(job)@, "status"@, tstr("completed"@)),
            "artifacts"@, JsonV::Array(items_view(assets@, assets@.len()))), "completedAt"@, JsonV::Int(now)),
            "updatedAt"@, JsonV::Int(now)),
{
    let ghost av = items_view(assets@, assets@.len());
    set_field(job, "status", Json::text("completed"));
    let arr = array_of(assets);
    set_field(job, "artifacts", arr);
    set_field(job, "completedAt", Json::Int(now));
    set_field(job, "updatedAt", Json::Int(now));
}

/// Marks a job as failed at `now` with the error.
pub fn mark_job_failed(job: &mut Json, error: &str, now: i64)
    ensures
        final(job)@ == with_field(with_field(with_field(with_field(old(job)@, "status"@, tstr("failed"@)),
            "error"@, tstr(error@)), "completedAt"@, JsonV::Int(now)), "updatedAt"@, JsonV::Int(now)),
{
    set_field(job, "status", Json::text("failed"));
    set_field(job, "error", Json::text(error));
    set_field(job, "completedAt", Json::Int(now));
    set_field(job, "updatedAt", Json::Int(now));
}

/// Whether a job status is final.
pub open spec fn job_finished(status: Seq<char>) -> bool {
    status == "completed"@ || status == "failed"@ || status == "cancelled"@
}

/// Whether a job status is final.
pub fn job_status_finished(status: &str) -> (r: bool)
    ensures
        r == job_finished(status@),
{
    crate::text::str_eq(status, "completed") || crate::text::str_eq(status, "failed")
        || crate::text::str_eq(status, "cancelled")
}

/// How long to wait for a job: `timeoutMs`, by default twenty minutes, kept
/// between one second and thirty minutes.
pub fn await_timeout_ms(payload: &Json) -> (r: u64)
    ensures
        r == clamp_u64(unsigned_or(payload@, "timeoutMs"@, 1_200_000), 1_000, 1_800_000),
{
    clamp_exec(match payload.get_u64("timeoutMs") { Some(n) => n, None => 1_200_000 }, 1_000, 1_800_000)
}

/// The in-memory pool of generation jobs, by id.
pub struct JobPool {
    jobs: Vec<(String, Json)>,
}

/// The status text of a job, empty when it has none.
pub open spec fn job_status(j: JsonV) -> Seq<char> {
    match get_text(j, "status"@) {
        Some(s) => s,
        None => Seq::empty(),
    }
}

/// How many of the jobs are pending or running.
pub open spec fn active_jobs(s: Seq<(Seq<char>, JsonV)>) -> nat
    decreases s.len(),
{
    if s.len() == 0 {
        0
    } else {
        let st = job_status(s.last().1);
        active_jobs(s.drop_last()) + if st == "pending"@ || st == "running"@ { 1nat } else { 0nat }
    }
}

impl JobPool {
    /// The jobs, by id, in the order they were first added.
    pub closed spec fn view(&self) -> Seq<(Seq<char>, JsonV)> {
        entries_of(self.jobs)
    }

    /// An empty pool.
    pub fn new() -> (r: JobPool)
        ensures
            r.view() == Seq::<(Seq<char>, JsonV)>::empty(),
    {
        let jobs: Vec<(String, Json)> = Vec::new();
        proof { lemma_entries_view(jobs@, 0); }
        JobPool { jobs }
    }

    /// Stores a job under its id, replacing any job of that id.
    pub fn insert(&mut self, id: &str, job: Json)
        ensures
            final(self).view() == set_entry(old(self).view(), id@, job@),
    {
        set_entry_exec(&mut self.jobs, id, job);
    }

    /// The job of an id.
    pub fn get(&self, id: &str) -> (r: Option<&Json>)
        ensures
            match r {
                Some(v) => get_entry(self.view(), id@) == Some(v@),
                None => get_entry(self.view(), id@) is None,
            },
    {
        entries_get(&self.jobs, id)
    }

    /// Copies of all jobs.
    pub fn list(&self) -> (r: Vec<Json>)
        ensures
            r@.len() == self.view().len(),
            forall|i: int| 0 <= i < r@.len() ==> (#[trigger] r@[i])@ == self.view()[i].1,
    {
        proof { lemma_entries_view(self.jobs@, self.jobs@.len()); }
        let mut out: Vec<Json> = Vec::new();
        let mut i: usize = 0;
        while i < self.jobs.len()
            invariant
                i <= self.jobs@.len(),
                self.view().len() == self.jobs@.len(),
                forall|k: int| 0 <= k < self.jobs@.len() ==> #[trigger] self.view()[k] == (self.jobs@[k].0@, self.jobs@[k].1@),
                out@.len() == i,
                forall|k: int| 0 <= k < i ==> (#[trigger] out@[k])@ == self.view()[k].1,
            decreases self.jobs.len() - i,
        {
            out.push(copy_json(&self.jobs[i].1));
            i += 1;
        }
        out
    }

    /// Sets the status of a job, when there is one of that id
    /// (cancelling and retrying).
    pub fn set_status(&mut self, id: &str, status: &str)
        ensures
            match get_entry(old(self).view(), id@) {
                Some(j) => final(self).view() == set_entry(old(self).view(), id@, with_field(j, "status"@, tstr(status@))),
                None => final(self).view() == old(self).view(),
            },
    {
        match entries_get(&self.jobs, id) {
            Some(j) => {
                let mut c = copy_json(j);
                set_field(&mut c, "status", Json::text(status));
                set_entry_exec(&mut self.jobs, id, c);
            },
            None => {},
        }
    }

    /// How many jobs are pending or running.
    pub fn active_count(&self) -> (r: usize)
        ensures
            r == active_jobs(self.view()),
    {
        proof { lemma_entries_view(self.jobs@, self.jobs@.len()); }
        let mut n: usize = 0;
        let mut i: usize = 0;
        while i < self.jobs.len()
            invariant
                i <= self.jobs@.len(),
                self.view().len() == self.jobs@.len(),
                forall|k: int| 0 <= k < self.jobs@.len() ==> #[trigger] self.view()[k] == (self.jobs@[k].0@, self.jobs@[k].1@),
                n == active_jobs(self.view().subrange(0, i as int)),
                n <= i,
            decreases self.jobs.len() - i,
        {
            let ghost sub = self.view().subrange(0, i + 1);
            assert(sub.drop_last() =~= self.view().subrange(0, i as int));
            let st: Vec<char> = match self.jobs[i].1.get_str("status") {
                Some(s) => chars_of(s.as_str()),
                None => Vec::new(),
            };
            if is_str(&st, "pending") || is_str(&st, "running") {
                n += 1;
            }
            i += 1;
        }
        assert(self.view().subrange(0, self.jobs@.len() as int) =~= self.view());
        n
    }
}

// ---------------------------------------------------------------------------
// Generation and media requests
// ---------------------------------------------------------------------------

/// Whether a setting holds more than whitespace.
pub open spec fn filled(s: Seq<char>) -> bool {
    trim(s).len() > 0
}

fn filled_exec(s: &String) -> (r: bool)
    ensures
        r == filled(s@),
{
    trim_chars(&chars_of(s.as_str())).len() > 0
}

/// Whether images can be generated: an endpoint and a key, each from the
/// image settings or the gateway.
pub open spec fn image_configured(c: GenerationSettings) -> bool {
    (filled(c.image.endpoint@) || filled(c.goose.base_url@)) && (filled(c.image.api_key@) || filled(c.goose.api_key@))
}

/// Whether videos can be generated: a video endpoint and a key.
pub open spec fn video_configured(c: GenerationSettings) -> bool {
    filled(c.video.endpoint@) && (filled(c.video.api_key@) || filled(c.goose.api_key@))
}

/// The entries of the runtime status answer.
pub open spec fn runtime_status_entries(c: GenerationSettings, active: usize) -> Seq<(Seq<char>, JsonV)> {
    seq![
        ("success"@, JsonV::Bool(true)),
        ("runtimeReady"@, JsonV::Bool(image_configured(c) || video_configured(c))),
        ("runtimeRunning"@, JsonV::Bool(active > 0)),
        ("imageConfigured"@, JsonV::Bool(image_configured(c))),
        ("videoConfigured"@, JsonV::Bool(video_configured(c))),
        ("realImageEnabled"@, JsonV::Bool(c.safety.run_real_image)),
        ("realVideoEnabled"@, JsonV::Bool(c.safety.run_real_video)),
        ("activeJobCount"@, JsonV::Int(active as i64)),
    ]
}

/// What the generation runtime reports: which providers are configured and
/// enabled, and how many jobs are under way.
pub fn generation_runtime_status(config: &GenerationSettings, active: usize) -> (r: Json)
    requires
        active <= i64::MAX,
    ensures
        r@ == JsonV::Object(runtime_status_entries(*config, active)),
{
    let image = (filled_exec(&config.image.endpoint) || filled_exec(&config.goose.base_url))
        && (filled_exec(&config.image.api_key) || filled_exec(&config.goose.api_key));
    let video = filled_exec(&config.video.endpoint) && (filled_exec(&config.video.api_key)
        || filled_exec(&config.goose.api_key));
    let mut e: Vec<(String, Json)> = Vec::new();
    e.push((owned("success"), Json::Bool(true)));
    e.push((owned("runtimeReady"), Json::Bool(image || video)));
    e.push((owned("runtimeRunning"), Json::Bool(active > 0)));
    e.push((owned("imageConfigured"), Json::Bool(image)));
    e.push((owned("videoConfigured"), Json::Bool(video)));
    e.push((owned("realImageEnabled"), Json::Bool(config.safety.run_real_image)));
    e.push((owned("realVideoEnabled"), Json::Bool(config.safety.run_real_video)));
    e.push((owned("activeJobCount"), Json::Int(active as i64)));
    proof {
        lemma_entries_view(e@, e@.len());
    }
    assert(entries_of(e) =~= runtime_status_entries(*config, active));
    object_of(e)
}

/// How many assets a media listing returns: `limit`, by default 300, kept
/// between 1 and 5000.
pub fn media_list_limit(payload: &Json) -> (r: u64)
    ensures
        r == clamp_u64(unsigned_or(payload@, "limit"@, 300), 1, 5000),
{
    clamp_exec(match payload.get_u64("limit") { Some(n) => n, None => 300 }, 1, 5000)
}

/// The path an import item names: the item itself when it is text, else its
/// `path` text.
pub open spec fn import_item_path(item: JsonV) -> Option<Seq<char>> {
    match as_text(item) {
        Some(t) => Some(t),
        None => get_text(item, "path"@),
    }
}

/// The paths of the first `n` import items, in order.
pub open spec fn import_paths_of(items: Seq<JsonV>, n: nat) -> Seq<Seq<char>>
    decreases n,
{
    if n == 0 || n > items.len() {
        Seq::empty()
    } else {
        let prev = import_paths_of(items, (n - 1) as nat);
        match import_item_path(items[n - 1]) {
            Some(p) => prev.push(p),
            None => prev,
        }
    }
}

/// The file paths an import request names.
pub open spec fn import_files_of(p: JsonV) -> Seq<Seq<char>> {
    match jget(p, "files"@) {
        Some(JsonV::Array(items)) => import_paths_of(items, items.len()),
        _ => Seq::empty(),
    }
}

/// The file paths an import request names.
pub fn import_file_paths(payload: &Json) -> (r: Vec<String>)
    ensures
        views(r@) == import_files_of(payload@),
{
    let mut out: Vec<String> = Vec::new();
    let items = match payload.get("files") {
        Some(v) => match v.as_array() {
            Some(a) => a,
            None => { return out; },
        },
        None => { return out; },
    };
    proof {
        lemma_array_view(*items);
    }
    let ghost iv = items_view(items@, items@.len());
    let mut i: usize = 0;
    while i < items.len()
        invariant
            i <= items@.len(),
            iv.len() == items@.len(),
            forall|k: int| 0 <= k < items@.len() ==> #[trigger] iv[k] == items@[k]@,
            views(out@) == import_paths_of(iv, i as nat),
        decreases items.len() - i,
    {
        let ghost before = views(out@);
        let item = &items[i];
        let path = match item.as_str() {
            Some(t) => Some(t),
            None => item.get_str("path"),
        };
        match path {
            Some(t) => {
                out.push(t.clone());
                assert(views(out@) =~= before.push(t@));
            },
            None => {},
        }
        i += 1;
    }
    out
}

/// The source an import names (`source`, else `sourceKind`, when text),
/// by default `imported`.
pub open spec fn import_source_of(p: JsonV) -> Seq<char> {
    match or_json(jget(p, "source"@), jget(p, "sourceKind"@)) {
        Some(v) => match as_text(v) {
            Some(t) => t,
            None => "imported"@,
        },
        None => "imported"@,
    }
}

/// The source an import request names.
pub fn import_source(payload: &Json) -> (r: String)
    ensures
        r@ == import_source_of(payload@),
{
    let v = match payload.get("source") {
        Some(v) => Some(v),
        None => payload.get("sourceKind"),
    };
    match v {
        Some(v) => match v.as_str() {
            Some(t) => t.clone(),
            None => owned("imported"),
        },
        None => owned("imported"),
    }
}

/// The folder imported files are filed under: `external` when asked for,
/// otherwise `imported`.
pub fn import_folder(requested: &str) -> (r: &'static str)
    ensures
        r@ == if requested@ == "external"@ { "external"@ } else { "imported"@ },
{
    if crate::text::str_eq(requested, "external") {
        "external"
    } else {
        "imported"
    }
}

/// The asset id a media request names, trimmed (empty when absent).
pub fn asset_id_of(payload: &Json) -> (r: String)
    ensures
        r@ == trim(match get_text(payload@, "assetId"@) {
            Some(t) => t,
            None => Seq::empty(),
        }),
{
    match payload.get_str("assetId") {
        Some(t) => trim_str(t.as_str()),
        None => {
            proof {
                assert(trim(Seq::<char>::empty()) =~= Seq::<char>::empty());
            }
            String::new()
        },
    }
}

/// The relative path of an imported file: the import folder, the day, and
/// `<id>_<safe name><.ext>`.
pub open spec fn imported_relative_path(folder: Seq<char>, day: Seq<char>, id: Seq<char>, source: Seq<char>) -> Seq<char> {
    let ext = match path_extension(source) {
        Some(e) => if e.len() > 0 { "."@ + e } else { Seq::empty() },
        None => Seq::empty(),
    };
    folder + "/"@ + day + "/"@ + id + "_"@ + imported_name(source) + ext
}

/// Where an imported file is stored, relative to the media root.
pub fn imported_asset_relative_path(folder: &str, day: &str, id: &str, source: &str) -> (r: String)
    ensures
        r@ == imported_relative_path(folder@, day@, id@, source@),
{
    let mut m = chars_of(folder);
    append_str(&mut m, "/");
    append_str(&mut m, day);
    append_str(&mut m, "/");
    append_str(&mut m, id);
    append_str(&mut m, "_");
    let name = sanitize_imported_file_name(source);
    append_str(&mut m, name.as_str());
    match file_extension(source) {
        Some(e) => {
            if chars_of(e.as_str()).len() > 0 {
                append_str(&mut m, ".");
                append_str(&mut m, e.as_str());
            }
        },
        None => {},
    }
    string_from_chars(&m)
}

/// Updates an asset's title and prompt as a media request asks: a blank
/// text clears the field, a prompt keeps its words joined by single spaces.
pub fn update_asset_texts(asset: &mut MediaAsset, title: Option<&str>, prompt: Option<&str>, now: String)
    ensures
        title is Some ==> opt_view(final(asset).title) == non_empty(title->0@),
        title is None ==> final(asset).title == old(asset).title,
        prompt is Some ==> opt_view(final(asset).prompt) == match non_empty(prompt->0@) {
            Some(t) => Some(joined_words(t)),
            None => None,
        },
        prompt is None ==> final(asset).prompt == old(asset).prompt,
        final(asset).updated_at@ == now@,
        final(asset).id == old(asset).id,
        final(asset).relative_path == old(asset).relative_path,
        final(asset).project_id == old(asset).project_id,
{
    match title {
        Some(t) => {
            asset.title = non_empty_str(t);
        },
        None => {},
    }
    match prompt {
        Some(p) => {
            asset.prompt = match non_empty_str(p) {
                Some(t) => Some(normalize_prompt(t.as_str())),
                None => None,
            };
        },
        None => {},
    }
    asset.updated_at = now;
}

// ---------------------------------------------------------------------------
// Channels
// ---------------------------------------------------------------------------

/// The operations of the generation, media and cover channels.
#[derive(Clone, Copy, Debug, PartialEq, Eq, Structural)]
pub enum GenerationChannel {
    SubmitImage,
    SubmitVideo,
    GenerateImage,
    GenerateVideo,
    ListJobs,
    GetJob,
    GetJobArtifacts,
    AwaitJob,
    CancelJob,
    RetryJob,
    RuntimeStatus,
    MediaList,
    MediaImport,
    MediaUpdate,
    MediaDelete,
    MediaBind,
    MediaOpen,
    MediaOpenRoot,
    CoverList,
    CoverGenerate,
}

/// The operation a channel name asks for.
pub open spec fn generation_channel_of(ch: Seq<char>) -> Option<GenerationChannel> {
    if ch == "generation:submit-image"@ {
        Some(GenerationChannel::SubmitImage)
    } else if ch == "generation:submit-video"@ {
        Some(GenerationChannel::SubmitVideo)
    } else if ch == "image-gen:generate"@ {
        Some(GenerationChannel::GenerateImage)
    } else if ch == "video-gen:generate"@ {
        Some(GenerationChannel::GenerateVideo)
    } else if ch == "generation:list-jobs"@ {
        Some(GenerationChannel::ListJobs)
    } else if ch == "generation:list-job-summaries"@ {
        Some(GenerationChannel::ListJobs)
    } else if ch == "generation:get-job"@ {
        Some(GenerationChannel::GetJob)
    } else if ch == "generation:get-job-artifacts"@ {
        Some(GenerationChannel::GetJobArtifacts)
    } else if ch == "generation:await-job"@ {
        Some(GenerationChannel::AwaitJob)
    } else if ch == "generation:cancel-job"@ {
        Some(GenerationChannel::CancelJob)
    } else if ch == "generation:retry-job"@ {
        Some(GenerationChannel::RetryJob)
    } else if ch == "generation:get-runtime-status"@ {
        Some(GenerationChannel::RuntimeStatus)
    } else if ch == "media:list"@ {
        Some(GenerationChannel::MediaList)
    } else if ch == "media:import-files"@ {
        Some(GenerationChannel::MediaImport)
    } else if ch == "media:update"@ {
        Some(GenerationChannel::MediaUpdate)
    } else if ch == "media:delete"@ {
        Some(GenerationChannel::MediaDelete)
    } else if ch == "media:bind"@ {
        Some(GenerationChannel::MediaBind)
    } else if ch == "media:open"@ {
        Some(GenerationChannel::MediaOpen)
    } else if ch == "media:open-root"@ {
        Some(GenerationChannel::MediaOpenRoot)
    } else if ch == "cover:list"@ {
        Some(GenerationChannel::CoverList)
    } else if ch == "cover:generate"@ {
        Some(GenerationChannel::CoverGenerate)
    } else {
        None
    }
}

/// The operation a channel name asks for, or the error for an unknown one.
pub fn generation_channel(channel: &str) -> (r: Result<GenerationChannel, String>)
    ensures
        match generation_channel_of(channel@) {
            Some(c) => r is Ok && r->Ok_0 == c,
            None => r is Err && r->Err_0@ == "generation 命名空间未实现通道: "@ + channel@,
        },
{
    if crate::text::str_eq(channel, "generation:submit-image") {
        return Ok(GenerationChannel::SubmitImage);
    }
    if crate::text::str_eq(channel, "generation:submit-video") {
        return Ok(GenerationChannel::SubmitVideo);
    }
    if crate::text::str_eq(channel, "image-gen:generate") {
        return Ok(GenerationChannel::GenerateImage);
    }
    if crate::text::str_eq(channel, "video-gen:generate") {
        return Ok(GenerationChannel::GenerateVideo);
    }
    if crate::text::str_eq(channel, "generation:list-jobs") {
        return Ok(GenerationChannel::ListJobs);
    }
    if crate::text::str_eq(channel, "generation:list-job-summaries") {
        return Ok(GenerationChannel::ListJobs);
    }
    if crate::text::str_eq(channel, "generation:get-job") {
        return Ok(GenerationChannel::GetJob);
    }
    if crate::text::str_eq(channel, "generation:get-job-artifacts") {
        return Ok(GenerationChannel::GetJobArtifacts);
    }
    if crate::text::str_eq(channel, "generation:await-job") {
        return Ok(GenerationChannel::AwaitJob);
    }
    if crate::text::str_eq(channel, "generation:cancel-job") {
        return Ok(GenerationChannel::CancelJob);
    }
    if crate::text::str_eq(channel, "generation:retry-job") {
        return Ok(GenerationChannel::RetryJob);
    }
    if crate::text::str_eq(channel, "generation:get-runtime-status") {
        return Ok(GenerationChannel::RuntimeStatus);
    }
    if crate::text::str_eq(channel, "media:list") {
        return Ok(GenerationChannel::MediaList);
    }
    if crate::text::str_eq(channel, "media:import-files") {
        return Ok(GenerationChannel::MediaImport);
    }
    if crate::text::str_eq(channel, "media:update") {
        return Ok(GenerationChannel::MediaUpdate);
    }
    if crate::text::str_eq(channel, "media:delete") {
        return Ok(GenerationChannel::MediaDelete);
    }
    if crate::text::str_eq(channel, "media:bind") {
        return Ok(GenerationChannel::MediaBind);
    }
    if crate::text::str_eq(channel, "media:open") {
        return Ok(GenerationChannel::MediaOpen);
    }
    if crate::text::str_eq(channel, "media:open-root") {
        return Ok(GenerationChannel::MediaOpenRoot);
    }
    if crate::text::str_eq(channel, "cover:list") {
        return Ok(GenerationChannel::CoverList);
    }
    if crate::text::str_eq(channel, "cover:generate") {
        return Ok(GenerationChannel::CoverGenerate);
    }
    let mut m = chars_of("generation 命名空间未实现通道: ");
    append_str(&mut m, channel);
    Err(string_from_chars(&m))
}

// ---------------------------------------------------------------------------
// The catalog on disk
// ---------------------------------------------------------------------------

/// The source of a file found in the media folder, by its top folder.
pub open spec fn found_source(rel: Seq<char>) -> Seq<char> {
    if has_prefix(rel, "generated/"@) {
        "generated"@
    } else if has_prefix(rel, "external/"@) {
        "external"@
    } else {
        "imported"@
    }
}

/// The catalog entry for a media file found on disk that the catalog did
/// not list: titled by its file stem, typed by its extension.
pub fn discovered_asset_record(relative_path: &str, id: String, timestamp: String) -> (r: MediaAsset)
    ensures
        r.id@ == id@,
        r.source@ == found_source(relative_path@),
        opt_view(r.title) == path_file_stem(relative_path@),
        opt_view(r.mime_type) == Some(guessed_mime(relative_path@)),
        opt_view(r.relative_path) == Some(relative_path@),
        r.project_id is None && r.delivery_role is None && r.prompt is None && r.provider is None,
        r.provider_template is None && r.model is None && r.aspect_ratio is None && r.size is None,
        r.requested_size is None && r.quality is None && r.bound_manuscript_path is None,
        r.created_at@ == timestamp@ && r.updated_at@ == timestamp@,
{
    let v = chars_of(relative_path);
    let source = if starts_with_str(&v, "generated/") {
        "generated"
    } else if starts_with_str(&v, "external/") {
        "external"
    } else {
        "imported"
    };
    let created = timestamp.clone();
    MediaAsset {
        id,
        source: owned(source),
        project_id: None,
        delivery_role: None,
        title: file_stem(relative_path),
        prompt: None,
        provider: None,
        provider_template: None,
        model: None,
        aspect_ratio: None,
        size: None,
        requested_size: None,
        quality: None,
        mime_type: Some(guess_mime_type(relative_path)),
        relative_path: Some(owned(relative_path)),
        bound_manuscript_path: None,
        created_at: created,
        updated_at: timestamp,
    }
}

/// The catalog record of a file imported from `source_path` into `folder`
/// at `relative_path`: titled by the source's file stem, typed by the
/// source's extension, made at `timestamp`.
pub fn imported_asset_record(source_path: &str, folder: &str, relative_path: String, id: String, timestamp: String) -> (r: MediaAsset)
    ensures
        r.id@ == id@,
        r.source@ == folder@,
        opt_view(r.title) == path_file_stem(source_path@),
        opt_view(r.mime_type) == Some(guessed_mime(source_path@)),
        opt_view(r.relative_path) == Some(relative_path@),
        r.project_id is None && r.delivery_role is None && r.prompt is None && r.provider is None,
        r.provider_template is None && r.model is None && r.aspect_ratio is None && r.size is None,
        r.requested_size is None && r.quality is None && r.bound_manuscript_path is None,
        r.created_at@ == timestamp@ && r.updated_at@ == timestamp@,
{
    let created = crate::text::clone_string(&timestamp);
    MediaAsset {
        id,
        source: owned(folder),
        project_id: None,
        delivery_role: None,
        title: file_stem(source_path),
        prompt: None,
        provider: None,
        provider_template: None,
        model: None,
        aspect_ratio: None,
        size: None,
        requested_size: None,
        quality: None,
        mime_type: Some(guess_mime_type(source_path)),
        relative_path: Some(relative_path),
        bound_manuscript_path: None,
        created_at: created,
        updated_at: timestamp,
    }
}

/// The assets a media listing shows: the most recently updated first
/// (`updatedAt` texts compared in descending order; equal ones keep their
/// catalog order), at most `limit` of them and at least one.
pub open spec fn arranged_media(assets: Seq<MediaAsset>, limit: usize) -> Seq<MediaAsset> {
    first_n(items_of(rank_sorted(assets.map_values(|a: MediaAsset| (text_desc_rank(a.updated_at@), a)), assets.len())),
        if limit < 1 { 1 } else { limit as int })
}

/// Orders and limits the catalog's assets for a listing.
pub fn arrange_media_assets(assets: Vec<MediaAsset>, limit: usize) -> (r: Vec<MediaAsset>)
    ensures
        r@ == arranged_media(assets@, limit),
{
    let ghost av = assets@;
    let n0 = assets.len();
    let ghost n = n0 as nat;
    let mut rest = assets;
    let mut ranked: Vec<(Vec<i128>, MediaAsset)> = Vec::new();
    let mut k: usize = 0;
    while rest.len() > 0
        invariant
            k + rest@.len() == n,
            n <= usize::MAX,
            av.len() == n,
            rest@ == av.subrange(k as int, n as int),
            ranked_view(ranked@) == av.subrange(0, k as int).map_values(|a: MediaAsset| (text_desc_rank(a.updated_at@), a)),
        decreases rest.len(),
    {
        let a = rest.remove(0);
        assert(rest@ =~= av.subrange(k + 1, n as int));
        let key = crate::order::text_desc_rank_exec(a.updated_at.as_str());
        let ghost before = ranked_view(ranked@);
        let ghost aw = a;
        ranked.push((key, a));
        assert(ranked_view(ranked@) =~= before.push((text_desc_rank(aw.updated_at@), aw)));
        assert(av.subrange(0, k + 1) =~= av.subrange(0, k as int).push(aw));
        k += 1;
    }
    assert(av.subrange(0, n as int) =~= av);
    let sorted = sort_by_rank(ranked);
    let lim: usize = if limit < 1 { 1 } else { limit };
    take_items(sorted, lim)
}

/// Whether a catalog lists an asset at a relative path.
pub open spec fn lists_path(assets: Seq<MediaAsset>, rel: Seq<char>) -> bool {
    exists|i: int| 0 <= i < assets.len() && opt_view(#[trigger] assets[i].relative_path) == Some(rel)
}

/// The relative path of a catalog asset.
pub open spec fn asset_path(a: MediaAsset) -> Option<Seq<char>> {
    opt_view(a.relative_path)
}

/// The relative paths of catalog assets.
pub open spec fn asset_paths(s: Seq<MediaAsset>) -> Seq<Option<Seq<char>>> {
    s.map_values(|a: MediaAsset| asset_path(a))
}

/// The relative paths of found files.
pub open spec fn found_paths(found: Seq<(String, String, String)>) -> Seq<Seq<char>> {
    found.map_values(|f: (String, String, String)| f.0@)
}

/// Whether `a` is the catalog record of a file found at `rel`, made with
/// `id` at `ts` (as `discovered_asset_record` makes it).
pub open spec fn discovered_record(a: MediaAsset, rel: Seq<char>, id: Seq<char>, ts: Seq<char>) -> bool {
    &&& a.id@ == id
    &&& a.source@ == found_source(rel)
    &&& opt_view(a.title) == path_file_stem(rel)
    &&& opt_view(a.mime_type) == Some(guessed_mime(rel))
    &&& opt_view(a.relative_path) == Some(rel)
    &&& a.project_id is None && a.delivery_role is None && a.prompt is None && a.provider is None
    &&& a.provider_template is None && a.model is None && a.aspect_ratio is None && a.size is None
    &&& a.requested_size is None && a.quality is None && a.bound_manuscript_path is None
    &&& a.created_at@ == ts && a.updated_at@ == ts
}

/// Merging found files into a catalog whose assets have the paths `paths`:
/// the first `n` found paths taken in order, each added unless an asset
/// (listed or already added) has it. The paths afterwards, and which found
/// files were added.
pub open spec fn merge_plan(paths: Seq<Option<Seq<char>>>, rels: Seq<Seq<char>>, n: nat) -> (Seq<Option<Seq<char>>>, Seq<int>)
    decreases n,
{
    if n == 0 || n > rels.len() {
        (paths, Seq::empty())
    } else {
        let (s, k) = merge_plan(paths, rels, (n - 1) as nat);
        if s.contains(Some(rels[n - 1])) {
            (s, k)
        } else {
            (s.push(Some(rels[n - 1])), k.push(n - 1))
        }
    }
}

proof fn lemma_merge_plan_bounds(paths: Seq<Option<Seq<char>>>, rels: Seq<Seq<char>>, n: nat)
    ensures
        forall|j: int| 0 <= j < merge_plan(paths, rels, n).1.len() ==> 0 <= #[trigger] merge_plan(paths, rels, n).1[j] < n,
        merge_plan(paths, rels, n).1.len() <= n,
    decreases n,
{
    if n > 0 && n <= rels.len() {
        lemma_merge_plan_bounds(paths, rels, (n - 1) as nat);
    }
}

/// The catalog after merging the first `n` found files: the assets first,
/// then one discovered record for each found file the plan added.
pub open spec fn merged_so_far(out: Seq<MediaAsset>, a0: Seq<MediaAsset>, found: Seq<(String, String, String)>,
    paths: Seq<Option<Seq<char>>>, rels: Seq<Seq<char>>, n: nat) -> bool
{
    let kept = merge_plan(paths, rels, n).1;
    &&& out.len() == a0.len() + kept.len()
    &&& asset_paths(out) == merge_plan(paths, rels, n).0
    &&& forall|k: int| 0 <= k < a0.len() ==> out[k] == a0[k]
    &&& forall|j: int| 0 <= j < kept.len() ==> 0 <= kept[j] < n && discovered_record(#[trigger] out[a0.len() + j],
        found[kept[j]].0@, found[kept[j]].1@, found[kept[j]].2@)
}

/// Adds the files found in the media folder to the catalog: each found file
/// `(relative path, fresh id, timestamp)` becomes a discovered record unless
/// the catalog (with what was added before it) already lists its path.
pub fn merge_discovered(assets: Vec<MediaAsset>, found: &Vec<(String, String, String)>) -> (r: Vec<MediaAsset>)
    ensures
        ({
            let paths = asset_paths(assets@);
            let rels = found_paths(found@);
            let (after, kept) = merge_plan(paths, rels, rels.len());
            &&& r@.len() == assets@.len() + kept.len()
            &&& asset_paths(r@) == after
            &&& forall|i: int| 0 <= i < assets@.len() ==> r@[i] == assets@[i]
            &&& forall|j: int| 0 <= j < kept.len() ==> discovered_record(#[trigger] r@[assets@.len() + j],
                found@[kept[j]].0@, found@[kept[j]].1@, found@[kept[j]].2@)
        }),
{
    let ghost a0 = assets@;
    let ghost paths = asset_paths(assets@);
    let ghost rels = found_paths(found@);
    let mut out = assets;
    let mut i: usize = 0;
    while i < found.len()
        invariant
            i <= found@.len(),
            rels == found_paths(found@),
            paths == asset_paths(a0),
            merged_so_far(out@, a0, found@, paths, rels, i as nat),
        decreases found.len() - i,
    {
        let ghost before = out@;
        let ghost s0 = merge_plan(paths, rels, i as nat).0;
        let ghost k0 = merge_plan(paths, rels, i as nat).1;
        let rel = &found[i].0;
        assert(rels[i as int] == rel@);
        let listed = catalog_has_path(&out, rel.as_str());
        assert(merge_plan(paths, rels, (i + 1) as nat).0 == (if s0.contains(Some(rels[i as int])) { s0 }
            else { s0.push(Some(rels[i as int])) }));
        assert(merge_plan(paths, rels, (i + 1) as nat).1 == (if s0.contains(Some(rels[i as int])) { k0 }
            else { k0.push(i as int) }));
        assert(listed == s0.contains(Some(rel@))) by {
            if listed {
                let k = choose|k: int| 0 <= k < out@.len() && opt_view(#[trigger] out@[k].relative_path) == Some(rel@);
                assert(s0[k] == Some(rel@));
            }
            if s0.contains(Some(rel@)) {
                let k = choose|k: int| 0 <= k < s0.len() && s0[k] == Some(rel@);
                assert(opt_view(out@[k].relative_path) == Some(rel@));
            }
        }
        if !listed {
            let rec = discovered_asset_record(rel.as_str(), crate::text::clone_string(&found[i].1),
                crate::text::clone_string(&found[i].2));
            out.push(rec);
            assert(asset_paths(out@) =~= s0.push(Some(rel@)));
        }
        i += 1;
        proof {
            let s1 = merge_plan(paths, rels, i as nat).0;
            let k1 = merge_plan(paths, rels, i as nat).1;
            assert(out@.len() == a0.len() + k1.len());
            assert(asset_paths(out@) == s1);
            assert(forall|k: int| 0 <= k < a0.len() ==> out@[k] == a0[k]);
            assert forall|j: int| 0 <= j < k1.len() implies
                0 <= k1[j] < (i as nat)
                && discovered_record(#[trigger] out@[a0.len() + j],
                    found@[k1[j]].0@, found@[k1[j]].1@, found@[k1[j]].2@) by {
                if j < k0.len() {
                    assert(k1[j] == k0[j]);
                    assert(out@[a0.len() + j] == before[a0.len() + j]);
                    assert(discovered_record(before[a0.len() + j], found@[k0[j]].0@, found@[k0[j]].1@, found@[k0[j]].2@));
                } else {
                    assert(j == k0.len());
                    assert(k1[j] == i - 1);
                    assert(out@[a0.len() + j] == out@.last());
                }
            }
            lemma_merge_plan_bounds(paths, rels, i as nat);
            assert(merged_so_far(out@, a0, found@, paths, rels, i as nat));
        }
    }
    proof {
        assert(rels.len() == found@.len());
    }
    out
}

/// Whether a catalog lists an asset at a relative path.
pub fn catalog_has_path(assets: &Vec<MediaAsset>, rel: &str) -> (r: bool)
    ensures
        r == lists_path(assets@, rel@),
{
    let mut i: usize = 0;
    while i < assets.len()
        invariant
            i <= assets@.len(),
            forall|k: int| 0 <= k < i ==> opt_view(#[trigger] assets@[k].relative_path) != Some(rel@),
        decreases assets.len() - i,
    {
        match &assets[i].relative_path {
            Some(p) => {
                if crate::text::str_eq(p.as_str(), rel) {
                    return true;
                }
            },
            None => {},
        }
        i += 1;
    }
    false
}

/// Whether a found file is one of the catalog's own files.
pub open spec fn catalog_file_name(name: Seq<char>) -> bool {
    name == "catalog.json.lock"@ || has_prefix(name, "catalog.json."@)
}

/// Whether a found file is one of the catalog's own files.
pub fn is_catalog_file_name(name: &str) -> (r: bool)
    ensures
        r == catalog_file_name(name@),
{
    crate::text::str_eq(name, "catalog.json.lock") || starts_with_str(&chars_of(name), "catalog.json.")
}

/// The relative path of an image whose physical size should be checked: it
/// has a path, and its MIME type (recorded, else guessed) is a raster image.
pub open spec fn dimension_check_path(a: MediaAsset) -> Option<Seq<char>> {
    match a.relative_path {
        None => None,
        Some(p) => {
            let m = match a.mime_type {
                Some(m) => m@,
                None => guessed_mime(p@),
            };
            if has_prefix(m, "image/"@) && m != "image/svg+xml"@ {
                Some(p@)
            } else {
                None
            }
        },
    }
}

/// The relative path of an image whose physical size should be checked.
pub fn dimension_check(asset: &MediaAsset) -> (r: Option<String>)
    ensures
        opt_view(r) == dimension_check_path(*asset),
{
    let p = match &asset.relative_path {
        None => { return None; },
        Some(p) => p,
    };
    let m = match &asset.mime_type {
        Some(m) => m.clone(),
        None => guess_mime_type(p.as_str()),
    };
    let mv = chars_of(m.as_str());
    proof {
        reveal_strlit("image/svg+xml");
    }
    if starts_with_str(&mv, "image/") && !is_str(&mv, "image/svg+xml") {
        Some(p.clone())
    } else {
        None
    }
}

/// Records an image's physical size when it differs from the recorded one:
/// the old size becomes the requested size when none was kept. Answers
/// whether anything changed.
pub fn reconcile_dimensions(asset: &mut MediaAsset, width: u32, height: u32, now: String) -> (r: bool)
    ensures
        ({
            let physical = dec_nat(width as nat) + "x"@ + dec_nat(height as nat);
            &&& r == (opt_view(old(asset).size) != Some(physical))
            &&& r ==> opt_view(final(asset).size) == Some(physical)
                && final(asset).updated_at@ == now@
                && (old(asset).requested_size is None ==> final(asset).requested_size == old(asset).size)
                && (old(asset).requested_size is Some ==> final(asset).requested_size == old(asset).requested_size)
            &&& !r ==> *final(asset) == *old(asset)
        }),
{
    let mut t = dec_u64(width as u64);
    append_str(&mut t, "x");
    append_chars(&mut t, &dec_u64(height as u64));
    let same = match &asset.size {
        Some(s) => chars_eq(&chars_of(s.as_str()), &t),
        None => false,
    };
    if same {
        return false;
    }
    if asset.requested_size.is_none() {
        asset.requested_size = asset.size.take();
    }
    asset.size = Some(string_from_chars(&t));
    asset.updated_at = now;
    true
}

/// Decodes standard base64 text (its error as text).
pub fn decode_base64_text(text: &str) -> (r: Result<Vec<u8>, String>)
    ensures
        bytes_res(r) == base64_decoded(text@),
{
    base64_decode(text)
}

/// Percent-decodes a text (its error as text).
pub fn decode_percent_text(text: &str) -> (r: Result<String, String>)
    ensures
        text_res(r) == percent_decoded(text@),
{
    url_decode(text)
}

} // verus!
