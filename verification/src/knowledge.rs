//! The knowledge catalog: which writes run, which note or video a request
//! names, how stored rows are shown, how the catalog is filtered and paged,
//! and how document files are registered.

use vstd::prelude::*;
use crate::text::{
    chars_of, string_from_chars, owned, append_str, trim, trim_chars, trim_str, non_empty, non_empty_str,
    contains_seq, unicode_lower, to_lowercase_str, replace_char, replace_char_chars,
};
use crate::json::{
    Json, JsonV, jget, get_text, get_flag, get_int, as_text, as_int, object_of, entries_of, lemma_entries_view,
    items_view, lemma_array_view, copy_json, set_entry, set_entry_exec, get_entry, entries_get, has_key,
    lemma_object_view,
};
use crate::generation::{tstr, obj2, array_of, or_text, or_json, value_or, opt_view, with_field, set_field, path_file_name, file_name};
use crate::tasks::{obj_entries, int_or, text_or_default};
use crate::num::{dec_nat, dec_u64};
use crate::strs::views;

verus! {

// ---------------------------------------------------------------------------
// Requests
// ---------------------------------------------------------------------------

/// Whether a knowledge write runs: a request that is not an object runs;
/// otherwise `dryRun` decides, then `confirm`; by default it is previewed.
pub open spec fn knowledge_executes(p: JsonV) -> bool {
    match p {
        JsonV::Object(_) => match get_flag(p, "dryRun"@) {
            Some(d) => !d,
            None => match get_flag(p, "confirm"@) {
                Some(c) => c,
                None => false,
            },
        },
        _ => true,
    }
}

/// Whether a knowledge write runs.
pub fn should_execute(payload: &Json) -> (r: bool)
    ensures
        r == knowledge_executes(payload@),
{
    match payload {
        Json::Object(_) => match payload.get_bool("dryRun") {
            Some(d) => !d,
            None => match payload.get_bool("confirm") {
                Some(c) => c,
                None => false,
            },
        },
        _ => true,
    }
}

/// The id a request names under the first present of its keys (the request
/// itself when it is a text), trimmed and non-empty.
pub open spec fn named_id(v: Option<JsonV>, p: JsonV) -> Option<Seq<char>> {
    let raw = match v {
        Some(x) => as_text(x),
        None => None,
    };
    match or_text(raw, as_text(p)) {
        Some(t) => non_empty(t),
        None => None,
    }
}

fn named_id_exec(v: Option<&Json>, payload: &Json) -> (r: Option<String>)
    ensures
        opt_view(r) == named_id(match v { Some(x) => Some(x@), None => None }, payload@),
{
    let raw = match v {
        Some(x) => x.as_str(),
        None => None,
    };
    let t = match raw {
        Some(t) => Some(t),
        None => payload.as_str(),
    };
    match t {
        Some(t) => non_empty_str(t.as_str()),
        None => None,
    }
}

/// The note a request names: `noteId`, else `id`, else the request itself.
pub open spec fn note_id_in(p: JsonV) -> Option<Seq<char>> {
    named_id(or_json(jget(p, "noteId"@), jget(p, "id"@)), p)
}

/// The note a request names.
pub fn note_id_of(payload: &Json) -> (r: Option<String>)
    ensures
        opt_view(r) == note_id_in(payload@),
{
    let v = match payload.get("noteId") {
        Some(v) => Some(v),
        None => payload.get("id"),
    };
    named_id_exec(v, payload)
}

/// The video a request names: `videoId`, else `noteId`, else `id`, else the
/// request itself.
pub open spec fn video_id_in(p: JsonV) -> Option<Seq<char>> {
    named_id(or_json(jget(p, "videoId"@), or_json(jget(p, "noteId"@), jget(p, "id"@))), p)
}

/// The video a request names.
pub fn youtube_id_of(payload: &Json) -> (r: Option<String>)
    ensures
        opt_view(r) == video_id_in(payload@),
{
    let v = match payload.get("videoId") {
        Some(v) => Some(v),
        None => match payload.get("noteId") {
            Some(v) => Some(v),
            None => payload.get("id"),
        },
    };
    named_id_exec(v, payload)
}

/// The document source a delete names: `sourceId`, `source_id` or `id`
/// (the request itself when it is a text), as it is; empty when none.
pub open spec fn source_to_delete(p: JsonV) -> Seq<char> {
    let raw = match or_json(jget(p, "sourceId"@), or_json(jget(p, "source_id"@), jget(p, "id"@))) {
        Some(x) => as_text(x),
        None => None,
    };
    match or_text(raw, as_text(p)) {
        Some(t) => t,
        None => Seq::empty(),
    }
}

/// The document source a delete names.
pub fn delete_source_id(payload: &Json) -> (r: String)
    ensures
        r@ == source_to_delete(payload@),
{
    let v = match payload.get("sourceId") {
        Some(v) => Some(v),
        None => match payload.get("source_id") {
            Some(v) => Some(v),
            None => payload.get("id"),
        },
    };
    let raw = match v {
        Some(x) => x.as_str(),
        None => None,
    };
    match raw {
        Some(t) => t.clone(),
        None => match payload.as_str() {
            Some(t) => t.clone(),
            None => String::new(),
        },
    }
}

// ---------------------------------------------------------------------------
// Catalog views
// ---------------------------------------------------------------------------

/// `acc` with each entry of `extra` added whose key it lacks (the first `n`).
pub open spec fn add_missing(acc: Seq<(Seq<char>, JsonV)>, extra: Seq<(Seq<char>, JsonV)>, n: nat) -> Seq<(Seq<char>, JsonV)>
    decreases n,
{
    if n == 0 || n > extra.len() {
        acc
    } else {
        let prev = add_missing(acc, extra, (n - 1) as nat);
        if has_key(prev, extra[n - 1].0) {
            prev
        } else {
            prev.push(extra[n - 1])
        }
    }
}

/// The metadata object a stored text holds, as entries (none otherwise).
pub open spec fn stored_object(v: Option<JsonV>) -> Seq<(Seq<char>, JsonV)> {
    match v {
        Some(JsonV::Str(_, Some(d))) => match *d {
            JsonV::Object(e) => e,
            _ => Seq::empty(),
        },
        _ => Seq::empty(),
    }
}

/// A knowledge vector row as a catalog item: its source as id and kind,
/// then the metadata fields it does not set already.
pub open spec fn catalog_item(row: JsonV) -> Seq<(Seq<char>, JsonV)> {
    let sid = text_or_default(row, "source_id"@, Seq::empty());
    let base = seq![
        ("id"@, tstr(sid)),
        ("sourceId"@, tstr(sid)),
        ("kind"@, tstr(text_or_default(row, "source_type"@, Seq::empty()))),
        ("sourceType"@, value_or(row, "source_type"@, JsonV::Null)),
        ("createdAt"@, value_or(row, "created_at"@, JsonV::Null)),
    ];
    let meta = stored_object(jget(row, "metadata"@));
    add_missing(base, meta, meta.len())
}

fn text_or_empty_exec(row: &Json, key: &str) -> (r: String)
    ensures
        r@ == text_or_default(row@, key@, Seq::empty()),
{
    match row.get_str(key) {
        Some(t) => t.clone(),
        None => String::new(),
    }
}

fn field_or_null(row: &Json, key: &str) -> (r: Json)
    ensures
        r@ == value_or(row@, key@, JsonV::Null),
{
    match row.get(key) {
        Some(v) => copy_json(v),
        None => Json::Null,
    }
}

fn has_key_exec(e: &Vec<(String, Json)>, key: &str) -> (r: bool)
    ensures
        r == has_key(entries_of(*e), key@),
{
    proof { lemma_entries_view(e@, e@.len()); }
    let ghost ev = entries_of(*e);
    let mut i: usize = 0;
    while i < e.len()
        invariant
            i <= e@.len(),
            ev == entries_of(*e),
            ev.len() == e@.len(),
            forall|k: int| 0 <= k < e@.len() ==> #[trigger] ev[k] == (e@[k].0@, e@[k].1@),
            forall|k: int| 0 <= k < i ==> (#[trigger] ev[k]).0 != key@,
        decreases e.len() - i,
    {
        if crate::text::str_eq(e[i].0.as_str(), key) {
            assert(ev[i as int].0 == key@);
            return true;
        }
        i += 1;
    }
    false
}

/// A knowledge vector row as a catalog item.
pub fn catalog_item_from_vector_row(row: &Json) -> (r: Json)
    ensures
        r@ == JsonV::Object(catalog_item(row@)),
{
    let sid = text_or_empty_exec(row, "source_id");
    let mut e: Vec<(String, Json)> = Vec::new();
    e.push((owned("id"), Json::from_string(sid.clone())));
    e.push((owned("sourceId"), Json::from_string(sid)));
    e.push((owned("kind"), Json::from_string(text_or_empty_exec(row, "source_type"))));
    e.push((owned("sourceType"), field_or_null(row, "source_type")));
    e.push((owned("createdAt"), field_or_null(row, "created_at")));
    proof { lemma_entries_view(e@, e@.len()); }
    let ghost base = entries_of(e);
    let meta: Vec<(String, Json)> = match row.get("metadata") {
        Some(Json::Str(t, Some(d))) => match &**d {
            Json::Object(m) => {
                proof { lemma_object_view(*m); }
                crate::json::entries_or_empty(d)
            },
            _ => Vec::new(),
        },
        _ => Vec::new(),
    };
    proof { lemma_entries_view(meta@, meta@.len()); }
    let ghost mv = entries_of(meta);
    assert(mv == stored_object(jget(row@, "metadata"@)));
    let mut i: usize = 0;
    while i < meta.len()
        invariant
            i <= meta@.len(),
            mv == entries_of(meta),
            mv.len() == meta@.len(),
            forall|k: int| 0 <= k < meta@.len() ==> #[trigger] mv[k] == (meta@[k].0@, meta@[k].1@),
            entries_of(e) == add_missing(base, mv, i as nat),
        decreases meta.len() - i,
    {
        if !has_key_exec(&e, meta[i].0.as_str()) {
            let ghost before = entries_of(e);
            proof { lemma_entries_view(e@, e@.len()); }
            e.push((meta[i].0.clone(), copy_json(&meta[i].1)));
            proof { lemma_entries_view(e@, e@.len()); }
            assert(entries_of(e) =~= before.push(mv[i as int]));
        }
        i += 1;
    }
    assert(base =~= seq![
        ("id"@, tstr(text_or_default(row@, "source_id"@, Seq::empty()))),
        ("sourceId"@, tstr(text_or_default(row@, "source_id"@, Seq::empty()))),
        ("kind"@, tstr(text_or_default(row@, "source_type"@, Seq::empty()))),
        ("sourceType"@, value_or(row@, "source_type"@, JsonV::Null)),
        ("createdAt"@, value_or(row@, "created_at"@, JsonV::Null)),
    ]);
    object_of(e)
}

/// A document source as a catalog item.
pub open spec fn document_source(row: JsonV) -> Seq<(Seq<char>, JsonV)> {
    let sid = text_or_default(row, "source_id"@, Seq::empty());
    seq![
        ("id"@, tstr(sid)),
        ("sourceId"@, tstr(sid)),
        ("kind"@, tstr("document-source"@)),
        ("title"@, tstr(sid)),
        ("name"@, tstr(sid)),
        ("fileCount"@, JsonV::Int(int_or(row, "file_count"@, 0))),
        ("status"@, tstr("completed"@)),
        ("updatedAt"@, JsonV::Int(int_or(row, "updated_at"@, 0))),
    ]
}

/// A document source as a catalog item.
pub fn document_source_view(row: &Json) -> (r: Json)
    ensures
        r@ == JsonV::Object(document_source(row@)),
{
    let sid = text_or_empty_exec(row, "source_id");
    let mut e: Vec<(String, Json)> = Vec::new();
    e.push((owned("id"), Json::from_string(sid.clone())));
    e.push((owned("sourceId"), Json::from_string(sid.clone())));
    e.push((owned("kind"), Json::text("document-source")));
    e.push((owned("title"), Json::from_string(sid.clone())));
    e.push((owned("name"), Json::from_string(sid)));
    e.push((owned("fileCount"), Json::Int(match row.get_i64("file_count") { Some(n) => n, None => 0 })));
    e.push((owned("status"), Json::text("completed")));
    e.push((owned("updatedAt"), Json::Int(match row.get_i64("updated_at") { Some(n) => n, None => 0 })));
    proof { lemma_entries_view(e@, e@.len()); }
    assert(entries_of(e) =~= document_source(row@));
    object_of(e)
}

/// An index lane as the renderer reads it.
pub open spec fn lane_entries(lane: JsonV) -> Seq<(Seq<char>, JsonV)> {
    seq![
        ("lane"@, value_or(lane, "lane"@, JsonV::Null)),
        ("label"@, value_or(lane, "lane"@, JsonV::Null)),
        ("status"@, value_or(lane, "status"@, JsonV::Null)),
        ("done"@, JsonV::Int(int_or(lane, "done"@, 0))),
        ("total"@, JsonV::Int(int_or(lane, "total"@, 0))),
        ("failed"@, JsonV::Int(int_or(lane, "failed"@, 0))),
        ("metadataOnly"@, JsonV::Int(int_or(lane, "metadata_only"@, 0))),
        ("lastUpdatedAt"@, value_or(lane, "last_updated_at"@, JsonV::Null)),
        ("nextRetryAt"@, value_or(lane, "next_retry_at"@, JsonV::Null)),
    ]
}

/// An index lane as the renderer reads it.
pub fn lane_view(lane: &Json) -> (r: Json)
    ensures
        r@ == JsonV::Object(lane_entries(lane@)),
{
    let mut e: Vec<(String, Json)> = Vec::new();
    e.push((owned("lane"), field_or_null(lane, "lane")));
    e.push((owned("label"), field_or_null(lane, "lane")));
    e.push((owned("status"), field_or_null(lane, "status")));
    e.push((owned("done"), Json::Int(match lane.get_i64("done") { Some(n) => n, None => 0 })));
    e.push((owned("total"), Json::Int(match lane.get_i64("total") { Some(n) => n, None => 0 })));
    e.push((owned("failed"), Json::Int(match lane.get_i64("failed") { Some(n) => n, None => 0 })));
    e.push((owned("metadataOnly"), Json::Int(match lane.get_i64("metadata_only") { Some(n) => n, None => 0 })));
    e.push((owned("lastUpdatedAt"), field_or_null(lane, "last_updated_at")));
    e.push((owned("nextRetryAt"), field_or_null(lane, "next_retry_at")));
    proof { lemma_entries_view(e@, e@.len()); }
    assert(entries_of(e) =~= lane_entries(lane@));
    object_of(e)
}

/// The index status of the summed lanes: files indexed, pending (never
/// below zero) and failed, and whether any lane is running.
pub open spec fn index_status_entries(done: i64, total: i64, failed: i64, running: i64, last: JsonV) -> Seq<(Seq<char>, JsonV)> {
    let pending = total - done - failed;
    seq![
        ("indexedCount"@, JsonV::Int(done)),
        ("pendingCount"@, JsonV::Int(if pending < 0 { 0 } else { pending as i64 })),
        ("failedCount"@, JsonV::Int(failed)),
        ("lastIndexedAt"@, last),
        ("isBuilding"@, JsonV::Bool(running > 0)),
        ("lastError"@, JsonV::Null),
    ]
}

/// The index status of the summed lanes.
pub fn index_status(done: i64, total: i64, failed: i64, running: i64, last: Json) -> (r: Json)
    requires
        i64::MIN <= total - done <= i64::MAX,
        i64::MIN <= total - done - failed <= i64::MAX,
    ensures
        r@ == JsonV::Object(index_status_entries(done, total, failed, running, last@)),
{
    let ghost lv = last@;
    let p = total - done - failed;
    let pending = if p < 0 { 0 } else { p };
    let mut e: Vec<(String, Json)> = Vec::new();
    e.push((owned("indexedCount"), Json::Int(done)));
    e.push((owned("pendingCount"), Json::Int(pending)));
    e.push((owned("failedCount"), Json::Int(failed)));
    e.push((owned("lastIndexedAt"), last));
    e.push((owned("isBuilding"), Json::Bool(running > 0)));
    e.push((owned("lastError"), Json::Null));
    proof { lemma_entries_view(e@, e@.len()); }
    assert(entries_of(e) =~= index_status_entries(done, total, failed, running, lv));
    object_of(e)
}

// ---------------------------------------------------------------------------
// The index dashboard
// ---------------------------------------------------------------------------

/// The sum of a counter over the first `n` lanes (0 where absent).
pub open spec fn lane_sum(lanes: Seq<JsonV>, key: Seq<char>, n: nat) -> int
    decreases n,
{
    if n == 0 || n > lanes.len() {
        0
    } else {
        lane_sum(lanes, key, (n - 1) as nat) + int_or(lanes[n - 1], key, 0)
    }
}

/// Whether a lane is working: `running` or `processing`.
pub open spec fn lane_busy(l: JsonV) -> bool {
    get_text(l, "status"@) == Some("running"@) || get_text(l, "status"@) == Some("processing"@)
}

/// Whether any of the first `n` lanes is working.
pub open spec fn any_busy(lanes: Seq<JsonV>, n: nat) -> bool
    decreases n,
{
    if n == 0 || n > lanes.len() {
        false
    } else {
        any_busy(lanes, (n - 1) as nat) || lane_busy(lanes[n - 1])
    }
}

/// The last non-null `last_updated_at` among the first `n` lanes.
pub open spec fn last_indexed(lanes: Seq<JsonV>, n: nat) -> Option<JsonV>
    decreases n,
{
    if n == 0 || n > lanes.len() {
        None
    } else {
        match jget(lanes[n - 1], "last_updated_at"@) {
            Some(t) => if t is Null { last_indexed(lanes, (n - 1) as nat) } else { Some(t) },
            None => last_indexed(lanes, (n - 1) as nat),
        }
    }
}

/// The scope a lane belongs to (empty when it names none).
pub open spec fn lane_scope(l: JsonV) -> Seq<char> {
    text_or_default(l, "scope_id"@, Seq::empty())
}

/// The lanes among the first `n` that belong to a scope, in order.
pub open spec fn scope_lanes(lanes: Seq<JsonV>, scope: Seq<char>, n: nat) -> Seq<JsonV>
    decreases n,
{
    if n == 0 || n > lanes.len() {
        Seq::empty()
    } else if lane_scope(lanes[n - 1]) == scope {
        scope_lanes(lanes, scope, (n - 1) as nat).push(lanes[n - 1])
    } else {
        scope_lanes(lanes, scope, (n - 1) as nat)
    }
}

/// The lanes as the renderer reads them.
pub open spec fn lane_views(lanes: Seq<JsonV>) -> Seq<JsonV> {
    lanes.map_values(|l: JsonV| JsonV::Object(lane_entries(l)))
}

/// One scope of the dashboard: its lanes' files and failures, and whether
/// any of them is working.
pub open spec fn scope_entries(lanes: Seq<JsonV>, scope: Seq<char>) -> Seq<(Seq<char>, JsonV)> {
    let own = scope_lanes(lanes, scope, lanes.len());
    seq![
        ("scopeId"@, tstr(scope)),
        ("name"@, tstr(scope)),
        ("scopeType"@, tstr("knowledge"@)),
        ("ownerId"@, tstr(Seq::empty())),
        ("ownerName"@, tstr(Seq::empty())),
        ("fileCount"@, JsonV::Int(lane_sum(own, "total"@, own.len()) as i64)),
        ("status"@, tstr(if any_busy(own, own.len()) { "indexing"@ } else { "idle"@ })),
        ("failedCount"@, JsonV::Int(lane_sum(own, "failed"@, own.len()) as i64)),
        ("lanes"@, JsonV::Array(lane_views(own))),
    ]
}

/// The dashboard of the index lanes, given the scopes in order.
pub open spec fn dashboard_entries(lanes: Seq<JsonV>, scopes: Seq<Seq<char>>) -> Seq<(Seq<char>, JsonV)> {
    let n = lanes.len();
    seq![
        ("overall"@, JsonV::Object(seq![
            ("status"@, tstr(if any_busy(lanes, n) { "indexing"@ } else { "idle"@ })),
            ("indexedFiles"@, JsonV::Int(lane_sum(lanes, "done"@, n) as i64)),
            ("totalFiles"@, JsonV::Int(lane_sum(lanes, "total"@, n) as i64)),
            ("failedFiles"@, JsonV::Int(lane_sum(lanes, "failed"@, n) as i64)),
            ("lastIndexedAt"@, match last_indexed(lanes, n) { Some(t) => t, None => JsonV::Null }),
        ])),
        ("lanes"@, JsonV::Array(lane_views(lanes))),
        ("scopes"@, JsonV::Array(scopes.map_values(|s: Seq<char>| JsonV::Object(scope_entries(lanes, s))))),
    ]
}

/// The largest lane counter the dashboard adds up.
pub open spec fn max_lane_count() -> int {
    0x100_0000_0000
}

/// Whether a lane's counters are at most 2^40 in size.
pub open spec fn lane_counts_small(l: JsonV) -> bool {
    &&& -max_lane_count() <= int_or(l, "done"@, 0) <= max_lane_count()
    &&& -max_lane_count() <= int_or(l, "total"@, 0) <= max_lane_count()
    &&& -max_lane_count() <= int_or(l, "failed"@, 0) <= max_lane_count()
}

/// Whether the lanes' counters are small enough to add up: each at most
/// 2^40 in size, at most 2^20 lanes.
pub open spec fn lanes_addable(lanes: Seq<JsonV>) -> bool {
    &&& lanes.len() <= 0x10_0000
    &&& forall|i: int| 0 <= i < lanes.len() ==> lane_counts_small(#[trigger] lanes[i])
}

fn lane_count(l: &Json, key: &str) -> (r: i64)
    ensures
        r == int_or(l@, key@, 0),
{
    match l.get_i64(key) {
        Some(n) => n,
        None => 0,
    }
}

fn lane_busy_exec(l: &Json) -> (r: bool)
    ensures
        r == lane_busy(l@),
{
    proof {
        reveal_strlit("running");
        reveal_strlit("processing");
    }
    match l.get_str("status") {
        Some(t) => crate::text::str_eq(t.as_str(), "running") || crate::text::str_eq(t.as_str(), "processing"),
        None => false,
    }
}

fn lane_scope_exec(l: &Json) -> (r: String)
    ensures
        r@ == lane_scope(l@),
{
    match l.get_str("scope_id") {
        Some(t) => t.clone(),
        None => String::new(),
    }
}

fn lane_views_exec(lanes: &Vec<Json>) -> (r: Json)
    ensures
        r@ == JsonV::Array(lane_views(crate::tasks::json_views(lanes@))),
{
    let ghost lv = crate::tasks::json_views(lanes@);
    let mut out: Vec<Json> = Vec::new();
    let mut i: usize = 0;
    while i < lanes.len()
        invariant
            i <= lanes@.len(),
            lv == crate::tasks::json_views(lanes@),
            out@.len() == i,
            forall|k: int| 0 <= k < i ==> (#[trigger] out@[k])@ == JsonV::Object(lane_entries(lv[k])),
        decreases lanes.len() - i,
    {
        out.push(lane_view(&lanes[i]));
        i += 1;
    }
    let ghost ov = out@;
    let r = array_of(out);
    assert(items_view(ov, ov.len()) =~= lane_views(lv));
    r
}

fn scope_json(lanes: &Vec<Json>, scope: &String) -> (r: Json)
    requires
        lanes_addable(crate::tasks::json_views(lanes@)),
    ensures
        r@ == JsonV::Object(scope_entries(crate::tasks::json_views(lanes@), scope@)),
{
    proof {
        reveal_strlit("knowledge");
        reveal_strlit("indexing");
        reveal_strlit("idle");
        reveal_strlit("");
    }
    let ghost lv = crate::tasks::json_views(lanes@);
    let mut own: Vec<Json> = Vec::new();
    let mut total: i64 = 0;
    let mut failed: i64 = 0;
    let mut busy = false;
    let mut i: usize = 0;
    while i < lanes.len()
        invariant
            i <= lanes@.len(),
            lv == crate::tasks::json_views(lanes@),
            lanes_addable(lv),
            crate::tasks::json_views(own@) == scope_lanes(lv, scope@, i as nat),
            own@.len() <= i,
            -(max_lane_count() * own@.len()) <= total <= max_lane_count() * own@.len(),
            -(max_lane_count() * own@.len()) <= failed <= max_lane_count() * own@.len(),
            total == lane_sum(crate::tasks::json_views(own@), "total"@, own@.len()),
            failed == lane_sum(crate::tasks::json_views(own@), "failed"@, own@.len()),
            busy == any_busy(crate::tasks::json_views(own@), own@.len()),
        decreases lanes.len() - i,
    {
        let ghost prev = crate::tasks::json_views(own@);
        let sc = lane_scope_exec(&lanes[i]);
        if crate::text::str_eq(sc.as_str(), scope.as_str()) {
            let ghost x = lv[i as int];
            assert(lane_counts_small(x));
            let ghost cur = prev.push(x);
            assert(cur.drop_last() =~= prev);
            proof {
                lemma_lane_sum_prefix(cur, "total"@, prev.len());
                lemma_lane_sum_prefix(cur, "failed"@, prev.len());
                lemma_busy_prefix(cur, prev.len());
                assert(prev.len() < 0x10_0000);
                assert(max_lane_count() * prev.len() + max_lane_count() == max_lane_count() * (prev.len() + 1)) by (nonlinear_arith);
                assert(max_lane_count() * prev.len() <= max_lane_count() * 0x10_0000) by (nonlinear_arith)
                    requires prev.len() < 0x10_0000;
                assert(lv[i as int] == lanes@[i as int]@);
            }
            let ghost len = own@.len();
            assert(len < 0x10_0000);
            assert(max_lane_count() * len <= 0x100_0000_0000 * 0x10_0000) by (nonlinear_arith)
                requires len < 0x10_0000, max_lane_count() == 0x100_0000_0000;
            let dt = lane_count(&lanes[i], "total");
            let df = lane_count(&lanes[i], "failed");
            assert(-0x100_0000_0000 <= dt <= 0x100_0000_0000);
            assert(-0x100_0000_0000 <= df <= 0x100_0000_0000);
            assert(-(0x100_0000_0000 * 0x10_0000) <= total <= 0x100_0000_0000 * 0x10_0000);
            assert(-(0x100_0000_0000 * 0x10_0000) <= failed <= 0x100_0000_0000 * 0x10_0000);
            total = total + dt;
            failed = failed + df;
            busy = busy || lane_busy_exec(&lanes[i]);
            own.push(copy_json(&lanes[i]));
            assert(crate::tasks::json_views(own@) =~= cur);
        } else {
            assert(scope_lanes(lv, scope@, (i + 1) as nat) == prev);
        }
        i += 1;
    }
    let mut e: Vec<(String, Json)> = Vec::new();
    e.push((owned("scopeId"), Json::from_string(scope.clone())));
    e.push((owned("name"), Json::from_string(scope.clone())));
    e.push((owned("scopeType"), Json::text("knowledge")));
    e.push((owned("ownerId"), Json::from_string(String::new())));
    e.push((owned("ownerName"), Json::from_string(String::new())));
    e.push((owned("fileCount"), Json::Int(total)));
    e.push((owned("status"), Json::text(if busy { "indexing" } else { "idle" })));
    e.push((owned("failedCount"), Json::Int(failed)));
    e.push((owned("lanes"), lane_views_exec(&own)));
    proof { lemma_entries_view(e@, e@.len()); }
    assert(scope_lanes(lv, scope@, lv.len()) == scope_lanes(lv, scope@, lanes@.len() as nat));
    assert(entries_of(e) =~= scope_entries(lv, scope@));
    object_of(e)
}

/// The scopes the lanes belong to.
pub open spec fn lane_scopes(lanes: Seq<JsonV>) -> Set<Seq<char>> {
    lanes.map_values(|l: JsonV| lane_scope(l)).to_set()
}

/// The index dashboard: the totals over all lanes, each lane, and each scope
/// (in the order of their ids) with its own lanes.
pub fn file_index_dashboard(lanes: &Vec<Json>) -> (r: Json)
    requires
        lanes_addable(crate::tasks::json_views(lanes@)),
    ensures
        exists|scopes: Seq<Seq<char>>| #![auto]
            crate::tasks::strictly_sorted(scopes)
            && scopes.to_set() == lane_scopes(crate::tasks::json_views(lanes@))
            && r@ == JsonV::Object(dashboard_entries(crate::tasks::json_views(lanes@), scopes)),
{
    proof {
        reveal_strlit("indexing");
        reveal_strlit("idle");
    }
    let ghost lv = crate::tasks::json_views(lanes@);
    let mut done: i64 = 0;
    let mut total: i64 = 0;
    let mut failed: i64 = 0;
    let mut busy = false;
    let mut last: Option<Json> = None;
    let mut scopes: Vec<String> = Vec::new();
    let mut i: usize = 0;
    while i < lanes.len()
        invariant
            i <= lanes@.len(),
            lv == crate::tasks::json_views(lanes@),
            lanes_addable(lv),
            -(max_lane_count() * i) <= done <= max_lane_count() * i,
            -(max_lane_count() * i) <= total <= max_lane_count() * i,
            -(max_lane_count() * i) <= failed <= max_lane_count() * i,
            done == lane_sum(lv, "done"@, i as nat),
            total == lane_sum(lv, "total"@, i as nat),
            failed == lane_sum(lv, "failed"@, i as nat),
            busy == any_busy(lv, i as nat),
            match last {
                Some(t) => last_indexed(lv, i as nat) == Some(t@),
                None => last_indexed(lv, i as nat) is None,
            },
            crate::tasks::strictly_sorted(views(scopes@)),
            views(scopes@).to_set() == lv.subrange(0, i as int).map_values(|l: JsonV| lane_scope(l)).to_set(),
        decreases lanes.len() - i,
    {
        let ghost x = lv[i as int];
        assert(x == lanes@[i as int]@);
        assert(lane_counts_small(x));
        assert(i < 0x10_0000);
        assert(max_lane_count() * i <= 0x100_0000_0000 * 0x10_0000) by (nonlinear_arith)
            requires i < 0x10_0000, max_lane_count() == 0x100_0000_0000;
        assert(max_lane_count() * i + max_lane_count() == max_lane_count() * (i + 1)) by (nonlinear_arith);
        let dd = lane_count(&lanes[i], "done");
        let dt = lane_count(&lanes[i], "total");
        let df = lane_count(&lanes[i], "failed");
        assert(-(0x100_0000_0000 * 0x10_0000) <= done <= 0x100_0000_0000 * 0x10_0000);
        assert(-(0x100_0000_0000 * 0x10_0000) <= total <= 0x100_0000_0000 * 0x10_0000);
        assert(-(0x100_0000_0000 * 0x10_0000) <= failed <= 0x100_0000_0000 * 0x10_0000);
        done = done + dd;
        total = total + dt;
        failed = failed + df;
        busy = busy || lane_busy_exec(&lanes[i]);
        match lanes[i].get("last_updated_at") {
            Some(t) => if !t.is_null() {
                last = Some(copy_json(t));
            },
            None => {},
        }
        let ghost before = lv.subrange(0, i as int).map_values(|l: JsonV| lane_scope(l));
        let sc = lane_scope_exec(&lanes[i]);
        crate::tasks::sorted_insert(&mut scopes, sc);
        proof {
            assert(lv.subrange(0, i + 1).map_values(|l: JsonV| lane_scope(l)) =~= before.push(lane_scope(x)));
            before.lemma_push_to_set_commute(lane_scope(x));
        }
        i += 1;
    }
    assert(lv.subrange(0, lv.len() as int) =~= lv);
    let mut items: Vec<Json> = Vec::new();
    let mut k: usize = 0;
    while k < scopes.len()
        invariant
            k <= scopes@.len(),
            lv == crate::tasks::json_views(lanes@),
            lanes_addable(lv),
            items@.len() == k,
            forall|m: int| 0 <= m < k ==> (#[trigger] items@[m])@ == JsonV::Object(scope_entries(lv, scopes@[m]@)),
        decreases scopes.len() - k,
    {
        items.push(scope_json(lanes, &scopes[k]));
        k += 1;
    }
    let ghost iv = items@;
    let scope_arr = array_of(items);
    assert(items_view(iv, iv.len()) =~= views(scopes@).map_values(|s: Seq<char>| JsonV::Object(scope_entries(lv, s))));
    let n = lanes.len();
    assert(n as nat == lv.len());
    let last_json = match last { Some(t) => t, None => Json::Null };
    assert(last_json@ == match last_indexed(lv, lv.len()) { Some(t) => t, None => JsonV::Null });
    let mut overall: Vec<(String, Json)> = Vec::new();
    overall.push((owned("status"), Json::text(if busy { "indexing" } else { "idle" })));
    overall.push((owned("indexedFiles"), Json::Int(done)));
    overall.push((owned("totalFiles"), Json::Int(total)));
    overall.push((owned("failedFiles"), Json::Int(failed)));
    overall.push((owned("lastIndexedAt"), last_json));
    proof { lemma_entries_view(overall@, overall@.len()); }
    assert(entries_of(overall) =~= seq![
        ("status"@, tstr(if any_busy(lv, lv.len()) { "indexing"@ } else { "idle"@ })),
        ("indexedFiles"@, JsonV::Int(lane_sum(lv, "done"@, lv.len()) as i64)),
        ("totalFiles"@, JsonV::Int(lane_sum(lv, "total"@, lv.len()) as i64)),
        ("failedFiles"@, JsonV::Int(lane_sum(lv, "failed"@, lv.len()) as i64)),
        ("lastIndexedAt"@, match last_indexed(lv, lv.len()) { Some(t) => t, None => JsonV::Null }),
    ]);
    let mut e: Vec<(String, Json)> = Vec::new();
    e.push((owned("overall"), object_of(overall)));
    e.push((owned("lanes"), lane_views_exec(lanes)));
    e.push((owned("scopes"), scope_arr));
    proof { lemma_entries_view(e@, e@.len()); }
    assert(entries_of(e) =~= dashboard_entries(lv, views(scopes@)));
    object_of(e)
}

proof fn lemma_lane_sum_prefix(s: Seq<JsonV>, key: Seq<char>, n: nat)
    requires
        n < s.len(),
    ensures
        lane_sum(s, key, n) == lane_sum(s.drop_last(), key, n),
    decreases n,
{
    if n > 0 {
        lemma_lane_sum_prefix(s, key, (n - 1) as nat);
    }
}

proof fn lemma_busy_prefix(s: Seq<JsonV>, n: nat)
    requires
        n < s.len(),
    ensures
        any_busy(s, n) == any_busy(s.drop_last(), n),
    decreases n,
{
    if n > 0 {
        lemma_busy_prefix(s, (n - 1) as nat);
    }
}

// ---------------------------------------------------------------------------
// Catalog pages
// ---------------------------------------------------------------------------

/// What a page request asks for.
pub struct PageRequest {
    /// The query, in lower case (empty for none).
    pub query: String,
    /// The kind to keep (empty for all).
    pub kind: String,
    /// How many items, between 1 and 500.
    pub limit: i64,
    /// Where the page starts, never below zero.
    pub cursor: i64,
}

/// The page request inside a payload (`payload.payload`, else the payload).
pub open spec fn page_inner(p: JsonV) -> JsonV {
    match jget(p, "payload"@) {
        Some(i) => i,
        None => p,
    }
}

/// What a page request asks for: the query in lower case, the kind, the
/// limit (by default 200, between 1 and 500) and the cursor (at least 0).
pub open spec fn page_request_matches(r: PageRequest, p: JsonV) -> bool {
    let inner = page_inner(p);
    &&& r.query@ == unicode_lower(text_or_default(inner, "query"@, Seq::empty()))
    &&& r.kind@ == text_or_default(inner, "kind"@, Seq::empty())
    &&& r.limit == crate::tasks::clamp_i64(int_or(inner, "limit"@, 200), 1, 500)
    &&& r.cursor == if int_or(inner, "cursor"@, 0) < 0 { 0 } else { int_or(inner, "cursor"@, 0) }
}

/// What a page request asks for.
pub fn page_request(payload: &Json) -> (r: PageRequest)
    ensures
        page_request_matches(r, payload@),
{
    let inner = match payload.get("payload") {
        Some(i) => i,
        None => payload,
    };
    let q = text_or_empty_exec(inner, "query");
    let query = to_lowercase_str(q.as_str());
    let kind = text_or_empty_exec(inner, "kind");
    let l = match inner.get_i64("limit") { Some(n) => n, None => 200 };
    let limit = if l < 1 { 1 } else if l > 500 { 500 } else { l };
    let c = match inner.get_i64("cursor") { Some(n) => n, None => 0 };
    let cursor = if c < 0 { 0 } else { c };
    PageRequest { query, kind, limit, cursor }
}

/// Whether a catalog item passes a page's filters: its kind, and the query
/// within its text (compared in lower case).
pub open spec fn page_selected(item: JsonV, text: Seq<char>, query: Seq<char>, kind: Seq<char>) -> bool {
    (kind.len() == 0 || get_text(item, "kind"@) == Some(kind))
        && (query.len() == 0 || contains_seq(unicode_lower(text), query))
}

/// The items passing a page's filters among the first `n`.
pub open spec fn page_filtered(items: Seq<JsonV>, texts: Seq<Seq<char>>, query: Seq<char>, kind: Seq<char>, n: nat) -> Seq<JsonV>
    decreases n,
{
    if n == 0 || n > items.len() {
        Seq::empty()
    } else {
        let prev = page_filtered(items, texts, query, kind, (n - 1) as nat);
        if page_selected(items[n - 1], texts[n - 1], query, kind) {
            prev.push(items[n - 1])
        } else {
            prev
        }
    }
}

/// The kind an item is counted under.
pub open spec fn counted_kind(item: JsonV) -> Seq<char> {
    text_or_default(item, "kind"@, "unknown"@)
}

/// The count of each kind among the first `n` items, in the order kinds are
/// first seen.
pub open spec fn kind_counts(items: Seq<JsonV>, n: nat) -> Seq<(Seq<char>, JsonV)>
    decreases n,
{
    if n == 0 || n > items.len() {
        Seq::empty()
    } else {
        let prev = kind_counts(items, (n - 1) as nat);
        let k = counted_kind(items[n - 1]);
        match get_entry(prev, k) {
            Some(v) => match as_int(v) {
                Some(c) => set_entry(prev, k, JsonV::Int((c + 1) as i64)),
                None => prev,
            },
            None => set_entry(prev, k, JsonV::Int(1)),
        }
    }
}

/// The items of a page: from the cursor, at most `limit` of them.
pub open spec fn page_items(f: Seq<JsonV>, cursor: i64, limit: i64) -> Seq<JsonV> {
    if cursor >= f.len() {
        Seq::empty()
    } else if cursor + limit >= f.len() {
        f.subrange(cursor as int, f.len() as int)
    } else {
        f.subrange(cursor as int, cursor + limit)
    }
}

/// The answer to a page request.
pub open spec fn page_entries(items: Seq<JsonV>, texts: Seq<Seq<char>>, r: PageRequest) -> Seq<(Seq<char>, JsonV)> {
    let f = page_filtered(items, texts, r.query@, r.kind@, items.len());
    seq![
        ("items"@, JsonV::Array(page_items(f, r.cursor, r.limit))),
        ("nextCursor"@, if r.cursor + r.limit < f.len() { tstr(dec_nat((r.cursor + r.limit) as nat)) } else { JsonV::Null }),
        ("total"@, JsonV::Int(f.len() as i64)),
        ("kindCounts"@, JsonV::Object(kind_counts(f, f.len()))),
    ]
}

/// Whether the count under `k` is an integer between 1 and `n`, if any.
pub open spec fn count_within(e: Seq<(Seq<char>, JsonV)>, k: Seq<char>, n: nat) -> bool {
    match get_entry(e, k) {
        Some(JsonV::Int(c)) => 1 <= c <= n,
        Some(_) => false,
        None => true,
    }
}

proof fn lemma_counts_bounded(items: Seq<JsonV>, n: nat)
    requires
        n <= items.len(),
        n < i64::MAX,
    ensures
        forall|k: Seq<char>| #[trigger] count_within(kind_counts(items, n), k, n),
    decreases n,
{
    if n > 0 {
        lemma_counts_bounded(items, (n - 1) as nat);
        let prev = kind_counts(items, (n - 1) as nat);
        let k0 = counted_kind(items[n - 1]);
        let v0 = match get_entry(prev, k0) {
            Some(JsonV::Int(c)) => JsonV::Int((c + 1) as i64),
            _ => JsonV::Int(1),
        };
        assert(count_within(prev, k0, (n - 1) as nat));
        assert(kind_counts(items, n) == set_entry(prev, k0, v0));
        assert forall|k: Seq<char>| #[trigger] count_within(kind_counts(items, n), k, n) by {
            assert(count_within(prev, k, (n - 1) as nat));
            crate::redclaw::lemma_set_entry_get(prev, k0, v0);
            if k != k0 {
                crate::redclaw::lemma_set_entry_get_other(prev, k0, v0, k);
            }
        }
    }
}

/// The sum of the integer values of some entries (other values count 0).
pub open spec fn int_total(e: Seq<(Seq<char>, JsonV)>) -> int
    decreases e.len(),
{
    if e.len() == 0 {
        0
    } else {
        int_total(e.drop_last()) + match e.last().1 { JsonV::Int(c) => c as int, _ => 0 }
    }
}

/// The integer value of an entry (0 for other values).
pub open spec fn int_value(v: JsonV) -> int {
    match v {
        JsonV::Int(c) => c as int,
        _ => 0,
    }
}

proof fn lemma_int_total_update(e: Seq<(Seq<char>, JsonV)>, i: int, x: (Seq<char>, JsonV))
    requires
        0 <= i < e.len(),
    ensures
        int_total(e.update(i, x)) == int_total(e) - int_value(e[i].1) + int_value(x.1),
    decreases e.len(),
{
    let u = e.update(i, x);
    if i == e.len() - 1 {
        assert(u.drop_last() =~= e.drop_last());
    } else {
        lemma_int_total_update(e.drop_last(), i, x);
        assert(u.drop_last() =~= e.drop_last().update(i, x));
    }
}

proof fn lemma_int_total_set(e: Seq<(Seq<char>, JsonV)>, k: Seq<char>, v: JsonV)
    ensures
        int_total(set_entry(e, k, v)) == int_total(e) + int_value(v) - match get_entry(e, k) {
            Some(old) => int_value(old),
            None => 0,
        },
        forall|m: int| 0 <= m < set_entry(e, k, v).len() ==>
            (#[trigger] set_entry(e, k, v)[m]).0 == k || exists|j: int| 0 <= j < e.len() && e[j].0 == set_entry(e, k, v)[m].0,
{
    if has_key(e, k) {
        crate::redclaw::lemma_first_key_exists(e, k);
        let i = choose|i: int| 0 <= i < e.len() && e[i].0 == k && forall|m: int| 0 <= m < i ==> e[m].0 != k;
        crate::json::lemma_get_entry_first(e, k, i);
        lemma_int_total_update(e, i, (k, v));
        let u = set_entry(e, k, v);
        assert forall|m: int| 0 <= m < u.len() implies
            (#[trigger] u[m]).0 == k || exists|j: int| 0 <= j < e.len() && e[j].0 == u[m].0 by {
            if m != i {
                assert(u[m] == e[m]);
            }
        }
    } else {
        crate::json::lemma_get_entry_none(e, k);
        let u = e.push((k, v));
        assert(u.drop_last() =~= e);
        assert forall|m: int| 0 <= m < u.len() implies
            (#[trigger] u[m]).0 == k || exists|j: int| 0 <= j < e.len() && e[j].0 == u[m].0 by {
            if m < e.len() {
                assert(u[m] == e[m]);
            }
        }
    }
}

/// Whether every key is the counted kind of one of the first `n` items.
pub open spec fn keys_counted(e: Seq<(Seq<char>, JsonV)>, items: Seq<JsonV>, n: nat) -> bool {
    forall|m: int| 0 <= m < e.len() ==> exists|j: int| 0 <= j < n && #[trigger] e[m].0 == counted_kind(items[j])
}

proof fn lemma_kind_counts_sum(items: Seq<JsonV>, n: nat)
    requires
        n <= items.len(),
        n < i64::MAX,
    ensures
        int_total(kind_counts(items, n)) == n,
        keys_counted(kind_counts(items, n), items, n),
    decreases n,
{
    if n > 0 {
        lemma_kind_counts_sum(items, (n - 1) as nat);
        lemma_counts_bounded(items, (n - 1) as nat);
        let prev = kind_counts(items, (n - 1) as nat);
        let k = counted_kind(items[n - 1]);
        assert(count_within(prev, k, (n - 1) as nat));
        let v = match get_entry(prev, k) {
            Some(JsonV::Int(c)) => JsonV::Int((c + 1) as i64),
            _ => JsonV::Int(1),
        };
        assert(kind_counts(items, n) == set_entry(prev, k, v));
        lemma_int_total_set(prev, k, v);
        let u = set_entry(prev, k, v);
        assert forall|m: int| 0 <= m < u.len() implies exists|j: int| 0 <= j < n && #[trigger] u[m].0 == counted_kind(items[j]) by {
            if u[m].0 == k {
                assert(u[m].0 == counted_kind(items[n - 1]));
            } else {
                let j0 = choose|j0: int| 0 <= j0 < prev.len() && prev[j0].0 == u[m].0;
                assert(exists|j: int| 0 <= j < n - 1 && #[trigger] prev[j0].0 == counted_kind(items[j]));
            }
        }
    }
}

proof fn lemma_filtered_kinds(items: Seq<JsonV>, texts: Seq<Seq<char>>, q: Seq<char>, kind: Seq<char>, n: nat)
    requires
        kind.len() > 0,
    ensures
        forall|j: int| 0 <= j < page_filtered(items, texts, q, kind, n).len() ==>
            counted_kind(#[trigger] page_filtered(items, texts, q, kind, n)[j]) == kind,
    decreases n,
{
    if n > 0 && n <= items.len() {
        lemma_filtered_kinds(items, texts, q, kind, (n - 1) as nat);
        let prev = page_filtered(items, texts, q, kind, (n - 1) as nat);
        let f = page_filtered(items, texts, q, kind, n);
        assert forall|j: int| 0 <= j < f.len() implies counted_kind(#[trigger] f[j]) == kind by {
            if j < prev.len() {
                assert(f[j] == prev[j]);
            }
        }
    }
}

/// A page's kind counts describe the page's filtered items: they add up to
/// its `total`, and when the request names a kind every counted kind is that
/// kind.
pub proof fn lemma_kind_counts_match_total(items: Seq<JsonV>, texts: Seq<Seq<char>>, r: PageRequest)
    requires
        texts.len() == items.len(),
        items.len() < i64::MAX,
    ensures
        ({
            let e = page_entries(items, texts, r);
            exists|c: Seq<(Seq<char>, JsonV)>, total: i64| #![auto]
                get_entry(e, "kindCounts"@) == Some(JsonV::Object(c))
                && get_entry(e, "total"@) == Some(JsonV::Int(total))
                && int_total(c) == total
                && (r.kind@.len() > 0 ==> forall|m: int| 0 <= m < c.len() ==> #[trigger] c[m].0 == r.kind@)
        }),
{
    reveal_strlit("items");
    reveal_strlit("nextCursor");
    reveal_strlit("total");
    reveal_strlit("kindCounts");
    let f = page_filtered(items, texts, r.query@, r.kind@, items.len());
    lemma_filtered_len(items, texts, r.query@, r.kind@, items.len());
    lemma_kind_counts_sum(f, f.len());
    let c = kind_counts(f, f.len());
    let e = page_entries(items, texts, r);
    assert("items"@ != "total"@) by { assert("items"@[0] != "total"@[0]); }
    assert("nextCursor"@ != "total"@) by { assert("nextCursor"@[0] != "total"@[0]); }
    assert("items"@ != "kindCounts"@) by { assert("items"@[0] != "kindCounts"@[0]); }
    assert("nextCursor"@ != "kindCounts"@) by { assert("nextCursor"@[0] != "kindCounts"@[0]); }
    assert("total"@ != "kindCounts"@) by { assert("total"@[0] != "kindCounts"@[0]); }
    crate::json::lemma_get_entry_first(e, "total"@, 2);
    crate::json::lemma_get_entry_first(e, "kindCounts"@, 3);
    if r.kind@.len() > 0 {
        lemma_filtered_kinds(items, texts, r.query@, r.kind@, items.len());
        assert forall|m: int| 0 <= m < c.len() implies #[trigger] c[m].0 == r.kind@ by {
            let j = choose|j: int| 0 <= j < f.len() && #[trigger] c[m].0 == counted_kind(f[j]);
            assert(counted_kind(f[j]) == r.kind@);
        }
    }
    assert(get_entry(e, "total"@) == Some(JsonV::Int(f.len() as i64)));
    assert(get_entry(e, "kindCounts"@) == Some(JsonV::Object(c)));
    assert(int_total(c) == (f.len() as i64));
}

proof fn lemma_filtered_len(items: Seq<JsonV>, texts: Seq<Seq<char>>, q: Seq<char>, k: Seq<char>, n: nat)
    ensures
        page_filtered(items, texts, q, k, n).len() <= n,
    decreases n,
{
    if n > 0 {
        lemma_filtered_len(items, texts, q, k, (n - 1) as nat);
    }
}

/// Filters, counts and pages catalog items; `texts` holds each item's JSON
/// text, which the query is looked for in.
pub fn list_page(items: &Vec<Json>, texts: &Vec<String>, req: &PageRequest) -> (r: Json)
    requires
        texts@.len() == items@.len(),
        items@.len() < i64::MAX,
        1 <= req.limit <= 500,
        req.cursor >= 0,
    ensures
        r@ == JsonV::Object(page_entries(items_view(items@, items@.len()), crate::strs::views(texts@), *req)),
{
    proof { lemma_array_view(*items); }
    let ghost iv = items_view(items@, items@.len());
    let ghost tv = crate::strs::views(texts@);
    let mut f: Vec<Json> = Vec::new();
    let mut i: usize = 0;
    let qv = chars_of(req.query.as_str());
    let kv = chars_of(req.kind.as_str());
    while i < items.len()
        invariant
            i <= items@.len(),
            texts@.len() == items@.len(),
            iv == items_view(items@, items@.len()),
            tv == crate::strs::views(texts@),
            iv.len() == items@.len(),
            forall|k: int| 0 <= k < items@.len() ==> #[trigger] iv[k] == items@[k]@,
            qv@ == req.query@,
            kv@ == req.kind@,
            f@.len() == page_filtered(iv, tv, req.query@, req.kind@, i as nat).len(),
            forall|m: int| 0 <= m < f@.len() ==> (#[trigger] f@[m])@ == page_filtered(iv, tv, req.query@, req.kind@, i as nat)[m],
        decreases items.len() - i,
    {
        assert(iv[i as int] == items@[i as int]@);
        assert(tv[i as int] == texts@[i as int]@);
        let kind_ok = kv.len() == 0 || match items[i].get_str("kind") {
            Some(k) => crate::text::chars_eq(&chars_of(k.as_str()), &kv),
            None => false,
        };
        let query_ok = qv.len() == 0 || {
            let l = to_lowercase_str(texts[i].as_str());
            crate::text::vec_contains(&chars_of(l.as_str()), &qv)
        };
        if kind_ok && query_ok {
            f.push(copy_json(&items[i]));
        }
        i += 1;
    }
    let ghost fv = page_filtered(iv, tv, req.query@, req.kind@, iv.len());
    proof { lemma_filtered_len(iv, tv, req.query@, req.kind@, iv.len()); }
    let total = f.len();
    let mut counts: Vec<(String, Json)> = Vec::new();
    proof { lemma_entries_view(counts@, 0); }
    let mut j: usize = 0;
    while j < f.len()
        invariant
            j <= f@.len(),
            f@.len() == fv.len(),
            fv.len() <= items@.len(),
            items@.len() < i64::MAX,
            forall|m: int| 0 <= m < f@.len() ==> (#[trigger] f@[m])@ == fv[m],
            entries_of(counts) == kind_counts(fv, j as nat),
        decreases f.len() - j,
    {
        proof { lemma_counts_bounded(fv, j as nat); }
        assert(f@[j as int]@ == fv[j as int]);
        let k = match f[j].get_str("kind") {
            Some(k) => k.clone(),
            None => owned("unknown"),
        };
        match entries_get(&counts, k.as_str()) {
            Some(v) => match v.as_i64() {
                Some(c) => {
                    assert(count_within(kind_counts(fv, j as nat), k@, j as nat));
                    assert(c <= j);
                    set_entry_exec(&mut counts, k.as_str(), Json::Int(c + 1));
                },
                None => {},
            },
            None => {
                set_entry_exec(&mut counts, k.as_str(), Json::Int(1));
            },
        }
        j += 1;
    }
    let mut page: Vec<Json> = Vec::new();
    let len = f.len() as i64;
    let stop: i128 = (req.cursor as i128) + (req.limit as i128);
    let end: i64 = if req.cursor >= len {
        req.cursor
    } else if stop >= len as i128 {
        len
    } else {
        stop as i64
    };
    let mut p = req.cursor;
    while p < end
        invariant
            req.cursor <= p <= end,
            end == req.cursor || end <= len,
            len == f@.len(),
            req.cursor >= 0,
            page@.len() == p - req.cursor,
            forall|m: int| 0 <= m < page@.len() ==> (#[trigger] page@[m])@ == f@[req.cursor + m]@,
        decreases end - p,
    {
        page.push(copy_json(&f[p as usize]));
        p += 1;
    }
    let ghost pv = page@;
    let page_json = array_of(page);
    assert(items_view(pv, pv.len()) =~= page_items(fv, req.cursor, req.limit));
    let next = if stop < len as i128 {
        Json::from_string(string_from_chars(&dec_u64(stop as u64)))
    } else {
        Json::Null
    };
    let mut e: Vec<(String, Json)> = Vec::new();
    e.push((owned("items"), page_json));
    e.push((owned("nextCursor"), next));
    e.push((owned("total"), Json::Int(total as i64)));
    e.push((owned("kindCounts"), object_of(counts)));
    proof { lemma_entries_view(e@, e@.len()); }
    assert(entries_of(e) =~= page_entries(iv, tv, *req));
    object_of(e)
}

// ---------------------------------------------------------------------------
// Registering document files
// ---------------------------------------------------------------------------

/// The path a document item names: the item itself when it is a text, else
/// its `absolutePath` or `path`; empty when none.
pub open spec fn doc_item_path(f: JsonV) -> Seq<char> {
    match or_text(as_text(f), or_text(get_text(f, "absolutePath"@), get_text(f, "path"@))) {
        Some(t) => t,
        None => Seq::empty(),
    }
}

/// The path a document item names.
pub fn doc_file_path(f: &Json) -> (r: String)
    ensures
        r@ == doc_item_path(f@),
{
    match f.as_str() {
        Some(t) => t.clone(),
        None => match f.get_str("absolutePath") {
            Some(t) => t.clone(),
            None => match f.get_str("path") {
                Some(t) => t.clone(),
                None => String::new(),
            },
        },
    }
}

/// A document file to register.
pub struct DocFileRow {
    pub source_id: String,
    pub absolute_path: String,
    pub relative_path: String,
    pub title: String,
    pub file_size: i64,
    pub mtime_ms: i64,
}

/// A text that holds more than whitespace.
pub open spec fn filled_text(v: Option<Seq<char>>) -> Option<Seq<char>> {
    match v {
        Some(t) => if trim(t).len() > 0 { Some(t) } else { None },
        None => None,
    }
}

/// Whether `row` registers a document item: its source (given, else the
/// fresh id), its relative path and title (given, else its file name), and
/// its size and time (given, else read from the file, else 0).
pub open spec fn doc_row_matches(row: DocFileRow, f: JsonV, fresh: Seq<char>, size: Option<i64>, mtime: Option<i64>) -> bool {
    let abs = doc_item_path(f);
    let sid_raw = match or_json(jget(f, "sourceId"@), jget(f, "source_id"@)) {
        Some(v) => as_text(v),
        None => None,
    };
    &&& row.absolute_path@ == abs
    &&& row.source_id@ == match filled_text(sid_raw) { Some(t) => t, None => fresh }
    &&& row.relative_path@ == match get_text(f, "relativePath"@) {
        Some(t) => t,
        None => match path_file_name(abs) { Some(n) => n, None => abs },
    }
    &&& row.title@ == match filled_text(get_text(f, "title"@)) {
        Some(t) => t,
        None => match path_file_name(abs) { Some(n) => n, None => "未命名文件"@ },
    }
    &&& row.file_size == match get_int(f, "fileSize"@) { Some(n) => n, None => match size { Some(n) => n, None => 0 } }
    &&& row.mtime_ms == match get_int(f, "mtimeMs"@) { Some(n) => n, None => match mtime { Some(n) => n, None => 0 } }
}

fn filled_exec(v: Option<&String>) -> (r: Option<String>)
    ensures
        opt_view(r) == filled_text(match v { Some(s) => Some(s@), None => None }),
{
    match v {
        Some(t) => if trim_chars(&chars_of(t.as_str())).len() > 0 { Some(t.clone()) } else { None },
        None => None,
    }
}

/// The row a document item registers, or `None` when it is skipped (no
/// path, or a bare path that is not a file); whether the path is a file and
/// the file's size and time are looked up by the caller.
pub fn doc_file_entry(f: &Json, is_file: bool, fresh_id: String, size: Option<i64>, mtime: Option<i64>) -> (r: Option<DocFileRow>)
    ensures
        (doc_item_path(f@).len() == 0 || (as_text(f@) is Some && !is_file)) ==> r is None,
        !(doc_item_path(f@).len() == 0 || (as_text(f@) is Some && !is_file)) ==> r is Some
            && doc_row_matches(r->0, f@, fresh_id@, size, mtime),
{
    let abs = doc_file_path(f);
    if chars_of(abs.as_str()).len() == 0 || (f.as_str().is_some() && !is_file) {
        return None;
    }
    let sid_v = match f.get("sourceId") {
        Some(v) => Some(v),
        None => f.get("source_id"),
    };
    let sid_raw = match sid_v {
        Some(v) => v.as_str(),
        None => None,
    };
    let source_id = match filled_exec(sid_raw) {
        Some(t) => t,
        None => fresh_id,
    };
    let name = file_name(abs.as_str());
    let relative_path = match f.get_str("relativePath") {
        Some(t) => t.clone(),
        None => match &name {
            Some(n) => n.clone(),
            None => abs.clone(),
        },
    };
    let title = match filled_exec(f.get_str("title")) {
        Some(t) => t,
        None => match &name {
            Some(n) => n.clone(),
            None => owned("未命名文件"),
        },
    };
    let file_size = match f.get_i64("fileSize") {
        Some(n) => n,
        None => match size { Some(n) => n, None => 0 },
    };
    let mtime_ms = match f.get_i64("mtimeMs") {
        Some(n) => n,
        None => match mtime { Some(n) => n, None => 0 },
    };
    Some(DocFileRow { source_id, absolute_path: abs, relative_path, title, file_size, mtime_ms })
}

/// The items a document registration lists: `files`, else `paths`, when an
/// array.
pub open spec fn doc_items(p: JsonV) -> Seq<JsonV> {
    match or_json(jget(p, "files"@), jget(p, "paths"@)) {
        Some(JsonV::Array(items)) => items,
        _ => Seq::empty(),
    }
}

/// The items a document registration lists.
pub fn doc_file_items(payload: &Json) -> (r: Vec<Json>)
    ensures
        items_view(r@, r@.len()) == doc_items(payload@),
{
    let v = match payload.get("files") {
        Some(v) => Some(v),
        None => payload.get("paths"),
    };
    match v {
        Some(x) => match x.as_array() {
            Some(a) => {
                proof { lemma_array_view(*a); }
                let c = copy_json(x);
                match c {
                    Json::Array(items) => {
                        proof { lemma_array_view(items); }
                        items
                    },
                    _ => Vec::new(),
                }
            },
            None => {
                let e: Vec<Json> = Vec::new();
                proof { lemma_array_view(e); }
                assert(items_view(e@, 0) =~= Seq::<JsonV>::empty());
                e
            },
        },
        None => {
            let e: Vec<Json> = Vec::new();
            proof { lemma_array_view(e); }
            assert(items_view(e@, 0) =~= Seq::<JsonV>::empty());
            e
        },
    }
}

/// The knowledge space a registration goes to (`default` when none).
pub fn space_id_of(payload: &Json) -> (r: String)
    ensures
        r@ == text_or_default(payload@, "spaceId"@, "default"@),
{
    match payload.get_str("spaceId") {
        Some(t) => t.clone(),
        None => owned("default"),
    }
}

/// A folder registration: the source it registers under and the folder.
pub struct FolderRequest {
    pub space_id: String,
    pub source_id: String,
    pub folder: String,
}

/// A folder registration, or `None` when it names no folder (`path` or
/// `folder`); its source is `sourceId`, `source_id` or `id` when not blank,
/// else the fresh id.
pub fn folder_request(payload: &Json, fresh_id: String) -> (r: Option<FolderRequest>)
    ensures
        or_text(get_text(payload@, "path"@), get_text(payload@, "folder"@)) is None ==> r is None,
        or_text(get_text(payload@, "path"@), get_text(payload@, "folder"@)) is Some ==> r is Some && ({
            let req = r->0;
            let sid_raw = match or_json(jget(payload@, "sourceId"@), or_json(jget(payload@, "source_id"@), jget(payload@, "id"@))) {
                Some(v) => as_text(v),
                None => None,
            };
            &&& req.space_id@ == text_or_default(payload@, "spaceId"@, "default"@)
            &&& req.source_id@ == match filled_text(sid_raw) { Some(t) => t, None => fresh_id@ }
            &&& Some(req.folder@) == or_text(get_text(payload@, "path"@), get_text(payload@, "folder"@))
        }),
{
    let folder = match payload.get_str("path") {
        Some(t) => t.clone(),
        None => match payload.get_str("folder") {
            Some(t) => t.clone(),
            None => { return None; },
        },
    };
    let v = match payload.get("sourceId") {
        Some(v) => Some(v),
        None => match payload.get("source_id") {
            Some(v) => Some(v),
            None => payload.get("id"),
        },
    };
    let raw = match v {
        Some(x) => x.as_str(),
        None => None,
    };
    let source_id = match filled_exec(raw) {
        Some(t) => t,
        None => fresh_id,
    };
    Some(FolderRequest { space_id: space_id_of(payload), source_id, folder })
}

/// The path of a file found in a registered folder, relative to it, with `/`
/// separators.
pub fn folder_relative_path(relative: &str) -> (r: String)
    ensures
        r@ == replace_char(relative@, '\\', '/'),
{
    string_from_chars(&replace_char_chars(&chars_of(relative), '\\', '/'))
}

// ---------------------------------------------------------------------------
// Channels
// ---------------------------------------------------------------------------

/// The operations of the knowledge channels.
#[derive(Clone, Copy, Debug, PartialEq, Eq, Structural)]
pub enum KnowledgeChannel {
    List,
    ListYoutube,
    DocsList,
    ListPage,
    ItemDetail,
    IndexStatus,
    FileIndexDashboard,
    ReadYoutubeSubtitle,
    Delete,
    DocsAddFiles,
    DocsAddFolder,
    DocsDeleteSource,
    RebuildCatalog,
    OpenIndexRoot,
    Transcribe,
    RetryYoutubeSubtitle,
}

/// The operation a channel name asks for.
pub open spec fn knowledge_channel_of(ch: Seq<char>) -> Option<KnowledgeChannel> {
    if ch == "knowledge:list"@ {
        Some(KnowledgeChannel::List)
    } else if ch == "knowledge:list-youtube"@ {
        Some(KnowledgeChannel::ListYoutube)
    } else if ch == "knowledge:docs:list"@ {
        Some(KnowledgeChannel::DocsList)
    } else if ch == "knowledge:list-page"@ {
        Some(KnowledgeChannel::ListPage)
    } else if ch == "knowledge:get-item-detail"@ {
        Some(KnowledgeChannel::ItemDetail)
    } else if ch == "knowledge:get-index-status"@ {
        Some(KnowledgeChannel::IndexStatus)
    } else if ch == "knowledge:get-file-index-dashboard"@ {
        Some(KnowledgeChannel::FileIndexDashboard)
    } else if ch == "knowledge:read-youtube-subtitle"@ {
        Some(KnowledgeChannel::ReadYoutubeSubtitle)
    } else if ch == "knowledge:delete"@ {
        Some(KnowledgeChannel::Delete)
    } else if ch == "knowledge:docs:add-files"@ {
        Some(KnowledgeChannel::DocsAddFiles)
    } else if ch == "knowledge:docs:add-folder"@ {
        Some(KnowledgeChannel::DocsAddFolder)
    } else if ch == "knowledge:docs:delete-source"@ {
        Some(KnowledgeChannel::DocsDeleteSource)
    } else if ch == "knowledge:rebuild-catalog"@ {
        Some(KnowledgeChannel::RebuildCatalog)
    } else if ch == "knowledge:open-index-root"@ {
        Some(KnowledgeChannel::OpenIndexRoot)
    } else if ch == "knowledge:transcribe"@ {
        Some(KnowledgeChannel::Transcribe)
    } else if ch == "knowledge:retry-youtube-subtitle"@ {
        Some(KnowledgeChannel::RetryYoutubeSubtitle)
    } else {
        None
    }
}

/// The operation a channel name asks for, or the error for an unknown one.
pub fn knowledge_channel(channel: &str) -> (r: Result<KnowledgeChannel, String>)
    ensures
        match knowledge_channel_of(channel@) {
            Some(c) => r is Ok && r->Ok_0 == c,
            None => r is Err && r->Err_0@ == "knowledge 通道未实现: "@ + channel@,
        },
{
    if crate::text::str_eq(channel, "knowledge:list") {
        return Ok(KnowledgeChannel::List);
    }
    if crate::text::str_eq(channel, "knowledge:list-youtube") {
        return Ok(KnowledgeChannel::ListYoutube);
    }
    if crate::text::str_eq(channel, "knowledge:docs:list") {
        return Ok(KnowledgeChannel::DocsList);
    }
    if crate::text::str_eq(channel, "knowledge:list-page") {
        return Ok(KnowledgeChannel::ListPage);
    }
    if crate::text::str_eq(channel, "knowledge:get-item-detail") {
        return Ok(KnowledgeChannel::ItemDetail);
    }
    if crate::text::str_eq(channel, "knowledge:get-index-status") {
        return Ok(KnowledgeChannel::IndexStatus);
    }
    if crate::text::str_eq(channel, "knowledge:get-file-index-dashboard") {
        return Ok(KnowledgeChannel::FileIndexDashboard);
    }
    if crate::text::str_eq(channel, "knowledge:read-youtube-subtitle") {
        return Ok(KnowledgeChannel::ReadYoutubeSubtitle);
    }
    if crate::text::str_eq(channel, "knowledge:delete") {
        return Ok(KnowledgeChannel::Delete);
    }
    if crate::text::str_eq(channel, "knowledge:docs:add-files") {
        return Ok(KnowledgeChannel::DocsAddFiles);
    }
    if crate::text::str_eq(channel, "knowledge:docs:add-folder") {
        return Ok(KnowledgeChannel::DocsAddFolder);
    }
    if crate::text::str_eq(channel, "knowledge:docs:delete-source") {
        return Ok(KnowledgeChannel::DocsDeleteSource);
    }
    if crate::text::str_eq(channel, "knowledge:rebuild-catalog") {
        return Ok(KnowledgeChannel::RebuildCatalog);
    }
    if crate::text::str_eq(channel, "knowledge:open-index-root") {
        return Ok(KnowledgeChannel::OpenIndexRoot);
    }
    if crate::text::str_eq(channel, "knowledge:transcribe") {
        return Ok(KnowledgeChannel::Transcribe);
    }
    if crate::text::str_eq(channel, "knowledge:retry-youtube-subtitle") {
        return Ok(KnowledgeChannel::RetryYoutubeSubtitle);
    }
    let mut m = chars_of("knowledge 通道未实现: ");
    append_str(&mut m, channel);
    Err(string_from_chars(&m))
}

} // verus!
