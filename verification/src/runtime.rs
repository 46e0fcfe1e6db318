//! Session metadata, the embedded reply stream, the session bridge and the
//! MCP settings: how requests are read and how stored rows are answered.

use vstd::prelude::*;
use crate::text::{chars_of, string_from_chars, owned, append_str, trim, trim_chars, trim_str, non_empty, non_empty_str};
use crate::json::{
    Json, JsonV, jget, get_text, get_flag, get_int, as_text, object_of, entries_of, lemma_entries_view,
    items_view, lemma_array_view, copy_json, set_entry, set_entry_exec, entries_or_empty, object_entries,
};
use crate::generation::{tstr, obj2, array_of, or_text, or_json, value_or, opt_view};

verus! {

// ---------------------------------------------------------------------------
// Reading requests
// ---------------------------------------------------------------------------

/// The session a request names: `sessionId`, else `session_id`, trimmed and
/// non-empty.
pub open spec fn session_id_in(p: JsonV) -> Option<Seq<char>> {
    match or_text(get_text(p, "sessionId"@), get_text(p, "session_id"@)) {
        Some(t) => non_empty(t),
        None => None,
    }
}

/// The session a request names.
pub fn session_id_of(payload: &Json) -> (r: Option<String>)
    ensures
        opt_view(r) == session_id_in(payload@),
{
    let raw = match payload.get_str("sessionId") {
        Some(s) => Some(s),
        None => payload.get_str("session_id"),
    };
    match raw {
        Some(s) => non_empty_str(s.as_str()),
        None => None,
    }
}

/// The row limit a request asks for, when it is a positive integer.
pub fn opt_limit(payload: &Json) -> (r: Option<i64>)
    ensures
        r == match get_int(payload@, "limit"@) {
            Some(l) => if l > 0 { Some(l) } else { None },
            None => None,
        },
{
    match payload.get_i64("limit") {
        Some(l) => if l > 0 { Some(l) } else { None },
        None => None,
    }
}

/// Whether a request asks for a dry run (`dryRun`, else `dry_run`).
pub open spec fn runtime_dry_run(p: JsonV) -> bool {
    match get_flag(p, "dryRun"@) {
        Some(b) => b,
        None => match get_flag(p, "dry_run"@) {
            Some(b) => b,
            None => false,
        },
    }
}

/// Whether a request asks for a dry run.
pub fn is_dry_run(payload: &Json) -> (r: bool)
    ensures
        r == runtime_dry_run(payload@),
{
    match payload.get_bool("dryRun") {
        Some(b) => b,
        None => match payload.get_bool("dry_run") {
            Some(b) => b,
            None => false,
        },
    }
}

/// The text under the first of two keys that holds text, trimmed; empty
/// when neither does.
pub open spec fn text_of_either(p: JsonV, a: Seq<char>, b: Seq<char>) -> Seq<char> {
    match or_text(get_text(p, a), get_text(p, b)) {
        Some(t) => trim(t),
        None => Seq::empty(),
    }
}

fn text_of_either_exec(payload: &Json, a: &str, b: &str) -> (r: String)
    ensures
        r@ == text_of_either(payload@, a@, b@),
{
    let v = match payload.get_str(a) {
        Some(s) => Some(s),
        None => payload.get_str(b),
    };
    match v {
        Some(s) => trim_str(s.as_str()),
        None => {
            assert(trim(Seq::<char>::empty()) =~= Seq::<char>::empty());
            String::new()
        },
    }
}

/// The message a runtime query sends (`message`, else `text`), trimmed.
pub fn query_message(payload: &Json) -> (r: String)
    ensures
        r@ == text_of_either(payload@, "message"@, "text"@),
{
    text_of_either_exec(payload, "message", "text")
}

/// The message a bridge request sends, trimmed.
pub fn bridge_message(payload: &Json) -> (r: String)
    ensures
        r@ == text_of_either(payload@, "message"@, "message"@),
{
    text_of_either_exec(payload, "message", "message")
}

/// The tool an MCP call names (`toolName`, else `name`), trimmed.
pub fn mcp_tool_name(payload: &Json) -> (r: String)
    ensures
        r@ == text_of_either(payload@, "toolName"@, "name"@),
{
    text_of_either_exec(payload, "toolName", "name")
}

/// The text under `key`, or a default.
pub open spec fn text_or(p: JsonV, key: Seq<char>, d: Seq<char>) -> Seq<char> {
    match get_text(p, key) {
        Some(t) => t,
        None => d,
    }
}

fn text_or_exec(payload: &Json, key: &str, d: &str) -> (r: String)
    ensures
        r@ == text_or(payload@, key@, d@),
{
    match payload.get_str(key) {
        Some(s) => s.clone(),
        None => owned(d),
    }
}

// ---------------------------------------------------------------------------
// Stored rows
// ---------------------------------------------------------------------------

/// The object a stored metadata text holds, or an empty object when the text
/// is absent, not JSON, or not an object.
pub open spec fn metadata_of(v: Option<JsonV>) -> JsonV {
    match v {
        Some(JsonV::Str(_, Some(d))) => match *d {
            JsonV::Object(e) => JsonV::Object(e),
            _ => JsonV::Object(Seq::empty()),
        },
        _ => JsonV::Object(Seq::empty()),
    }
}

/// The object a stored metadata text holds.
pub fn parse_metadata(raw: Option<&Json>) -> (r: Json)
    ensures
        r@ == metadata_of(match raw {
            Some(j) => Some(j@),
            None => None,
        }),
{
    match raw {
        Some(Json::Str(t, Some(d))) => match &**d {
            Json::Object(_) => {
                assert(raw.unwrap()@ == JsonV::Str(t@, Some(Box::new((**d)@))));
                copy_json(d)
            },
            _ => {
                assert(raw.unwrap()@ == JsonV::Str(t@, Some(Box::new((**d)@))));
                let e: Vec<(String, Json)> = Vec::new();
                proof { lemma_entries_view(e@, 0); }
                object_of(e)
            },
        },
        _ => {
            let e: Vec<(String, Json)> = Vec::new();
            proof { lemma_entries_view(e@, 0); }
            object_of(e)
        },
    }
}

/// The document a stored JSON text holds, or `null`.
pub open spec fn embedded_or_null(v: Option<JsonV>) -> JsonV {
    match v {
        Some(JsonV::Str(_, Some(d))) => *d,
        _ => JsonV::Null,
    }
}

fn embedded_or_null_exec(v: Option<&Json>) -> (r: Json)
    ensures
        r@ == embedded_or_null(match v {
            Some(j) => Some(j@),
            None => None,
        }),
{
    match v {
        Some(Json::Str(_, Some(d))) => copy_json(d),
        _ => Json::Null,
    }
}

fn field_or_null(row: &Json, key: &str) -> (r: Json)
    ensures
        r@ == value_or(row@, key@, JsonV::Null),
{
    match row.get(key) {
        Some(v) => copy_json(v),
        None => Json::Null,
    }
}

/// A transcript row as the renderer reads it: camel-case keys, its payload
/// text read as JSON.
pub open spec fn transcript_entries(row: JsonV) -> Seq<(Seq<char>, JsonV)> {
    seq![
        ("id"@, value_or(row, "id"@, JsonV::Null)),
        ("sessionId"@, value_or(row, "session_id"@, JsonV::Null)),
        ("recordType"@, value_or(row, "record_type"@, JsonV::Null)),
        ("role"@, value_or(row, "role"@, JsonV::Null)),
        ("content"@, value_or(row, "content"@, JsonV::Null)),
        ("payload"@, embedded_or_null(jget(row, "payload_json"@))),
        ("createdAt"@, value_or(row, "created_at"@, JsonV::Null)),
    ]
}

/// A transcript row as the renderer reads it.
pub fn map_transcript_row(row: &Json) -> (r: Json)
    ensures
        r@ == JsonV::Object(transcript_entries(row@)),
{
    let mut e: Vec<(String, Json)> = Vec::new();
    e.push((owned("id"), field_or_null(row, "id")));
    e.push((owned("sessionId"), field_or_null(row, "session_id")));
    e.push((owned("recordType"), field_or_null(row, "record_type")));
    e.push((owned("role"), field_or_null(row, "role")));
    e.push((owned("content"), field_or_null(row, "content")));
    e.push((owned("payload"), embedded_or_null_exec(row.get("payload_json"))));
    e.push((owned("createdAt"), field_or_null(row, "created_at")));
    proof { lemma_entries_view(e@, e@.len()); }
    assert(entries_of(e) =~= transcript_entries(row@));
    object_of(e)
}

/// Whether a stored tool result succeeded: a non-zero `success` integer.
pub open spec fn stored_success(row: JsonV) -> bool {
    match get_int(row, "success"@) {
        Some(n) => n != 0,
        None => false,
    }
}

/// A tool result row as the renderer reads it.
pub open spec fn tool_result_entries(row: JsonV) -> Seq<(Seq<char>, JsonV)> {
    seq![
        ("id"@, value_or(row, "id"@, JsonV::Null)),
        ("sessionId"@, value_or(row, "session_id"@, JsonV::Null)),
        ("callId"@, value_or(row, "call_id"@, JsonV::Null)),
        ("toolName"@, value_or(row, "tool_name"@, JsonV::Null)),
        ("command"@, value_or(row, "command"@, JsonV::Null)),
        ("success"@, JsonV::Bool(stored_success(row))),
        ("resultText"@, value_or(row, "result_text"@, JsonV::Null)),
        ("summaryText"@, value_or(row, "summary_text"@, JsonV::Null)),
        ("payload"@, embedded_or_null(jget(row, "payload_json"@))),
        ("createdAt"@, value_or(row, "created_at"@, JsonV::Null)),
        ("updatedAt"@, value_or(row, "updated_at"@, JsonV::Null)),
    ]
}

/// A tool result row as the renderer reads it: camel-case keys, `success`
/// as a flag, its payload text read as JSON.
pub fn map_tool_result_row(row: &Json) -> (r: Json)
    ensures
        r@ == JsonV::Object(tool_result_entries(row@)),
{
    let success = match row.get_i64("success") {
        Some(n) => n != 0,
        None => false,
    };
    let mut e: Vec<(String, Json)> = Vec::new();
    e.push((owned("id"), field_or_null(row, "id")));
    e.push((owned("sessionId"), field_or_null(row, "session_id")));
    e.push((owned("callId"), field_or_null(row, "call_id")));
    e.push((owned("toolName"), field_or_null(row, "tool_name")));
    e.push((owned("command"), field_or_null(row, "command")));
    e.push((owned("success"), Json::Bool(success)));
    e.push((owned("resultText"), field_or_null(row, "result_text")));
    e.push((owned("summaryText"), field_or_null(row, "summary_text")));
    e.push((owned("payload"), embedded_or_null_exec(row.get("payload_json"))));
    e.push((owned("createdAt"), field_or_null(row, "created_at")));
    e.push((owned("updatedAt"), field_or_null(row, "updated_at")));
    proof { lemma_entries_view(e@, e@.len()); }
    assert(entries_of(e) =~= tool_result_entries(row@));
    object_of(e)
}

/// The trimmed text under `key` of the metadata, or a default.
pub open spec fn meta_text_or(meta: JsonV, key: Seq<char>, d: Seq<char>) -> Seq<char> {
    match get_text(meta, key) {
        Some(t) => if trim(t).len() > 0 { trim(t) } else { d },
        None => d,
    }
}

fn meta_text_or_exec(meta: &Json, key: &str, d: &str) -> (r: String)
    ensures
        r@ == meta_text_or(meta@, key@, d@),
{
    match meta.get_str(key) {
        Some(t) => {
            let s = trim_str(t.as_str());
            if chars_of(s.as_str()).len() > 0 {
                s
            } else {
                owned(d)
            }
        },
        None => owned(d),
    }
}

/// The bridge summary of a session row, with the number of tasks it owns.
pub open spec fn summary_entries(row: JsonV, owner_tasks: i64) -> Seq<(Seq<char>, JsonV)> {
    let meta = metadata_of(jget(row, "metadata"@));
    seq![
        ("id"@, value_or(row, "id"@, JsonV::Null)),
        ("title"@, value_or(row, "title"@, JsonV::Null)),
        ("createdAt"@, value_or(row, "created_at"@, JsonV::Null)),
        ("updatedAt"@, value_or(row, "updated_at"@, JsonV::Null)),
        ("contextType"@, tstr(meta_text_or(meta, "contextType"@, "chat"@))),
        ("runtimeMode"@, tstr(meta_text_or(meta, "runtimeMode"@, "redclaw"@))),
        ("isBackgroundSession"@, JsonV::Bool(match get_flag(meta, "isBackgroundSession"@) {
            Some(b) => b,
            None => false,
        })),
        ("ownerTaskCount"@, JsonV::Int(owner_tasks)),
        ("backgroundTaskCount"@, JsonV::Int(0)),
    ]
}

/// The bridge summary of a session row: its context type and runtime mode
/// come from its metadata (`chat` and `redclaw` by default).
pub fn session_summary(row: &Json, owner_tasks: i64) -> (r: Json)
    ensures
        r@ == JsonV::Object(summary_entries(row@, owner_tasks)),
{
    let meta = parse_metadata(row.get("metadata"));
    let context_type = meta_text_or_exec(&meta, "contextType", "chat");
    let runtime_mode = meta_text_or_exec(&meta, "runtimeMode", "redclaw");
    let background = match meta.get_bool("isBackgroundSession") {
        Some(b) => b,
        None => false,
    };
    let mut e: Vec<(String, Json)> = Vec::new();
    e.push((owned("id"), field_or_null(row, "id")));
    e.push((owned("title"), field_or_null(row, "title")));
    e.push((owned("createdAt"), field_or_null(row, "created_at")));
    e.push((owned("updatedAt"), field_or_null(row, "updated_at")));
    e.push((owned("contextType"), Json::from_string(context_type)));
    e.push((owned("runtimeMode"), Json::from_string(runtime_mode)));
    e.push((owned("isBackgroundSession"), Json::Bool(background)));
    e.push((owned("ownerTaskCount"), Json::Int(owner_tasks)));
    e.push((owned("backgroundTaskCount"), Json::Int(0)));
    proof { lemma_entries_view(e@, e@.len()); }
    assert(entries_of(e) =~= summary_entries(row@, owner_tasks));
    object_of(e)
}

// ---------------------------------------------------------------------------
// MCP servers
// ---------------------------------------------------------------------------

/// The object items of the first `n` items, in order.
pub open spec fn object_items(items: Seq<JsonV>, n: nat) -> Seq<JsonV>
    decreases n,
{
    if n == 0 || n > items.len() {
        Seq::empty()
    } else {
        let prev = object_items(items, (n - 1) as nat);
        if items[n - 1] is Object {
            prev.push(items[n - 1])
        } else {
            prev
        }
    }
}

/// The MCP servers to store: the objects of an array; nothing from any
/// other value.
pub open spec fn servers_of(v: JsonV) -> Seq<JsonV> {
    match v {
        JsonV::Array(items) => object_items(items, items.len()),
        _ => Seq::empty(),
    }
}

/// The MCP servers to store: only the objects of an array are kept.
pub fn normalize_servers(value: &Json) -> (r: Vec<Json>)
    ensures
        items_view(r@, r@.len()) == servers_of(value@),
{
    let mut out: Vec<Json> = Vec::new();
    proof { lemma_array_view(out); }
    let items = match value.as_array() {
        Some(a) => a,
        None => {
            assert(items_view(out@, 0) =~= Seq::<JsonV>::empty());
            return out;
        },
    };
    proof { lemma_array_view(*items); }
    let ghost iv = items_view(items@, items@.len());
    let mut i: usize = 0;
    while i < items.len()
        invariant
            i <= items@.len(),
            iv.len() == items@.len(),
            forall|k: int| 0 <= k < items@.len() ==> #[trigger] iv[k] == items@[k]@,
            out@.len() == object_items(iv, i as nat).len(),
            forall|k: int| 0 <= k < out@.len() ==> (#[trigger] out@[k])@ == object_items(iv, i as nat)[k],
        decreases items.len() - i,
    {
        if items[i].is_object() {
            out.push(copy_json(&items[i]));
        }
        i += 1;
    }
    proof { lemma_array_view(out); }
    assert(items_view(out@, out@.len()) =~= object_items(iv, iv.len()));
    out
}

/// The MCP servers stored in the settings: the array the stored text holds;
/// none when it is blank or not a JSON array.
pub open spec fn stored_servers(v: Option<JsonV>) -> Seq<JsonV> {
    match v {
        Some(JsonV::Str(t, emb)) => if trim(t).len() == 0 {
            Seq::empty()
        } else {
            match emb {
                Some(d) => match *d {
                    JsonV::Array(items) => items,
                    _ => Seq::empty(),
                },
                None => Seq::empty(),
            }
        },
        _ => Seq::empty(),
    }
}

/// The MCP servers stored in the settings.
pub fn read_mcp_servers(stored: Option<&Json>) -> (r: Vec<Json>)
    ensures
        items_view(r@, r@.len()) == stored_servers(match stored {
            Some(j) => Some(j@),
            None => None,
        }),
{
    let empty: Vec<Json> = Vec::new();
    proof {
        lemma_array_view(empty);
        assert(items_view(empty@, 0) =~= Seq::<JsonV>::empty());
    }
    match stored {
        Some(Json::Str(t, emb)) => {
            assert(stored.unwrap()@ == JsonV::Str(t@, match emb {
                Some(b) => Some(Box::new((**b)@)),
                None => None,
            }));
            if trim_chars(&chars_of(t.as_str())).len() == 0 {
                return empty;
            }
            match emb {
                Some(d) => match &**d {
                    Json::Array(items) => {
                        proof { lemma_array_view(*items); }
                        let c = copy_json(d);
                        match c {
                            Json::Array(v) => {
                                proof { lemma_array_view(v); }
                                v
                            },
                            _ => empty,
                        }
                    },
                    _ => empty,
                },
                None => empty,
            }
        },
        _ => empty,
    }
}

/// The answer of an MCP channel that is not implemented yet.
pub fn mcp_unimplemented(channel: &str, detail: &str) -> (r: Json)
    ensures
        r@ == JsonV::Object(seq![
            ("success"@, JsonV::Bool(false)),
            ("implemented"@, JsonV::Bool(false)),
            ("todo"@, JsonV::Bool(true)),
            ("channel"@, tstr(channel@)),
            ("message"@, tstr(detail@)),
        ]),
{
    let mut e: Vec<(String, Json)> = Vec::new();
    e.push((owned("success"), Json::Bool(false)));
    e.push((owned("implemented"), Json::Bool(false)));
    e.push((owned("todo"), Json::Bool(true)));
    e.push((owned("channel"), Json::text(channel)));
    e.push((owned("message"), Json::text(detail)));
    proof { lemma_entries_view(e@, e@.len()); }
    let ghost want = seq![
        ("success"@, JsonV::Bool(false)),
        ("implemented"@, JsonV::Bool(false)),
        ("todo"@, JsonV::Bool(true)),
        ("channel"@, tstr(channel@)),
        ("message"@, tstr(detail@)),
    ];
    assert(entries_of(e) =~= want);
    object_of(e)
}

// ---------------------------------------------------------------------------
// Sessions and forks
// ---------------------------------------------------------------------------

/// One item of the session list: the stored row with its counts.
pub fn session_list_item(row: Json, transcript_count: i64) -> (r: Json)
    ensures
        r@ == JsonV::Object(seq![
            ("id"@, value_or(row@, "id"@, JsonV::Null)),
            ("transcriptCount"@, JsonV::Int(transcript_count)),
            ("checkpointCount"@, JsonV::Int(0)),
            ("chatSession"@, row@),
        ]),
{
    let ghost rv = row@;
    let id = field_or_null(&row, "id");
    let mut e: Vec<(String, Json)> = Vec::new();
    e.push((owned("id"), id));
    e.push((owned("transcriptCount"), Json::Int(transcript_count)));
    e.push((owned("checkpointCount"), Json::Int(0)));
    e.push((owned("chatSession"), row));
    proof { lemma_entries_view(e@, e@.len()); }
    assert(entries_of(e) =~= seq![
        ("id"@, value_or(rv, "id"@, JsonV::Null)),
        ("transcriptCount"@, JsonV::Int(transcript_count)),
        ("checkpointCount"@, JsonV::Int(0)),
        ("chatSession"@, rv),
    ]);
    object_of(e)
}

/// What a fork request asks for.
#[derive(Debug)]
pub enum ForkRequest {
    /// No session named: the request is answered with an error.
    Missing,
    /// A dry run: nothing is written.
    DryRun(String),
    /// Fork the session, with an optional new title.
    Fork(String, Option<String>),
}

/// What a fork request asks for: the session it names, whether it is a dry
/// run, and the title it gives.
pub fn fork_request(payload: &Json) -> (r: ForkRequest)
    ensures
        match session_id_in(payload@) {
            None => r is Missing,
            Some(s) => if runtime_dry_run(payload@) {
                r matches ForkRequest::DryRun(x) && x@ == s
            } else {
                r matches ForkRequest::Fork(x, t) && x@ == s && opt_view(t) == get_text(payload@, "title"@)
            },
        },
{
    let source = match session_id_of(payload) {
        None => { return ForkRequest::Missing; },
        Some(s) => s,
    };
    if is_dry_run(payload) {
        return ForkRequest::DryRun(source);
    }
    let title = match payload.get_str("title") {
        Some(t) => Some(t.clone()),
        None => None,
    };
    ForkRequest::Fork(source, title)
}

/// The title of a forked session: the one asked for, else the source's.
pub fn fork_title(title: Option<String>, source_row: &Json) -> (r: Option<String>)
    ensures
        opt_view(r) == or_text(opt_view(title), get_text(source_row@, "title"@)),
{
    match title {
        Some(t) => Some(t),
        None => match source_row.get_str("title") {
            Some(t) => Some(t.clone()),
            None => None,
        },
    }
}

/// The metadata of a bridge session: its context type and runtime mode,
/// created by the bridge, then each entry of the request's metadata object
/// (which may override them).
pub open spec fn bridge_metadata(p: JsonV) -> Seq<(Seq<char>, JsonV)> {
    let base = seq![
        ("contextType"@, tstr(text_or(p, "contextType"@, "redclaw"@))),
        ("runtimeMode"@, tstr(text_or(p, "runtimeMode"@, "redclaw"@))),
        ("createdBy"@, tstr("session-bridge"@)),
    ];
    let extra = match jget(p, "metadata"@) {
        Some(JsonV::Object(e)) => e,
        _ => Seq::empty(),
    };
    insert_all(base, extra, extra.len())
}

/// `base` with the first `n` entries of `extra` inserted in order.
pub open spec fn insert_all(base: Seq<(Seq<char>, JsonV)>, extra: Seq<(Seq<char>, JsonV)>, n: nat) -> Seq<(Seq<char>, JsonV)>
    decreases n,
{
    if n == 0 || n > extra.len() {
        base
    } else {
        let prev = insert_all(base, extra, (n - 1) as nat);
        set_entry(prev, extra[n - 1].0, extra[n - 1].1)
    }
}

/// The metadata of a new bridge session.
pub fn bridge_session_metadata(payload: &Json) -> (r: Json)
    ensures
        r@ == JsonV::Object(bridge_metadata(payload@)),
{
    let mut e: Vec<(String, Json)> = Vec::new();
    e.push((owned("contextType"), Json::from_string(text_or_exec(payload, "contextType", "redclaw"))));
    e.push((owned("runtimeMode"), Json::from_string(text_or_exec(payload, "runtimeMode", "redclaw"))));
    e.push((owned("createdBy"), Json::text("session-bridge")));
    proof { lemma_entries_view(e@, e@.len()); }
    let ghost base = entries_of(e);
    assert(base =~= seq![
        ("contextType"@, tstr(text_or(payload@, "contextType"@, "redclaw"@))),
        ("runtimeMode"@, tstr(text_or(payload@, "runtimeMode"@, "redclaw"@))),
        ("createdBy"@, tstr("session-bridge"@)),
    ]);
    let extra: Vec<(String, Json)> = match payload.get("metadata") {
        Some(m) => match m {
            Json::Object(_) => entries_or_empty(m),
            _ => Vec::new(),
        },
        None => Vec::new(),
    };
    proof { lemma_entries_view(extra@, extra@.len()); }
    let ghost ev = entries_of(extra);
    assert(ev == match jget(payload@, "metadata"@) {
        Some(JsonV::Object(x)) => x,
        _ => Seq::<(Seq<char>, JsonV)>::empty(),
    });
    let mut i: usize = 0;
    while i < extra.len()
        invariant
            i <= extra@.len(),
            ev == entries_of(extra),
            ev.len() == extra@.len(),
            forall|k: int| 0 <= k < extra@.len() ==> #[trigger] ev[k] == (extra@[k].0@, extra@[k].1@),
            entries_of(e) == insert_all(base, ev, i as nat),
        decreases extra.len() - i,
    {
        let v = copy_json(&extra[i].1);
        set_entry_exec(&mut e, extra[i].0.as_str(), v);
        i += 1;
    }
    object_of(e)
}

/// The bridge's status: embedded, not listening on its own.
pub open spec fn bridge_status_entries() -> Seq<(Seq<char>, JsonV)> {
    seq![
        ("enabled"@, JsonV::Bool(true)),
        ("listening"@, JsonV::Bool(false)),
        ("embedded"@, JsonV::Bool(true)),
        ("runtime"@, tstr("embedded"@)),
        ("note"@, tstr("嵌入式 goosed：会话经 chat:send-message / runtime:query 驱动"@)),
        ("subscriberCount"@, JsonV::Int(0)),
        ("lastError"@, JsonV::Null),
    ]
}

/// The bridge's status.
pub fn session_bridge_status() -> (r: Json)
    ensures
        r@ == JsonV::Object(bridge_status_entries()),
{
    let mut e: Vec<(String, Json)> = Vec::new();
    e.push((owned("enabled"), Json::Bool(true)));
    e.push((owned("listening"), Json::Bool(false)));
    e.push((owned("embedded"), Json::Bool(true)));
    e.push((owned("runtime"), Json::text("embedded")));
    e.push((owned("note"), Json::text("嵌入式 goosed：会话经 chat:send-message / runtime:query 驱动")));
    e.push((owned("subscriberCount"), Json::Int(0)));
    e.push((owned("lastError"), Json::Null));
    proof { lemma_entries_view(e@, e@.len()); }
    assert(entries_of(e) =~= bridge_status_entries());
    object_of(e)
}

// ---------------------------------------------------------------------------
// The embedded reply stream
// ---------------------------------------------------------------------------

/// An event of the embedded agent's reply stream.
#[derive(Debug)]
pub enum ReplyEvent {
    /// More reply text.
    TextDelta(String),
    /// The reply is complete.
    Done,
    /// Any other event, forwarded as it is.
    Other,
}

/// What to do with a reply event.
#[derive(Debug, PartialEq, Eq, Structural)]
pub enum ReplyStep {
    /// Forward the event to the renderer.
    Forward,
    /// The reply is complete; `persist` says whether the assistant message is
    /// stored (it is when it holds more than whitespace).
    Finish { persist: bool },
}

/// Takes one reply event: text is added to the reply so far and forwarded;
/// the end of the reply is answered by storing a non-blank reply.
pub fn reply_step(content: &mut String, event: &ReplyEvent) -> (r: ReplyStep)
    ensures
        match event {
            ReplyEvent::TextDelta(t) => final(content)@ == old(content)@ + t@ && r == ReplyStep::Forward,
            ReplyEvent::Done => final(content)@ == old(content)@ && r == (ReplyStep::Finish {
                persist: trim(old(content)@).len() > 0,
            }),
            ReplyEvent::Other => final(content)@ == old(content)@ && r == ReplyStep::Forward,
        },
{
    match event {
        ReplyEvent::TextDelta(t) => {
            let mut c = chars_of(content.as_str());
            append_str(&mut c, t.as_str());
            *content = string_from_chars(&c);
            ReplyStep::Forward
        },
        ReplyEvent::Done => {
            let persist = trim_chars(&chars_of(content.as_str())).len() > 0;
            ReplyStep::Finish { persist }
        },
        ReplyEvent::Other => ReplyStep::Forward,
    }
}

// ---------------------------------------------------------------------------
// Channels
// ---------------------------------------------------------------------------

/// The operations of the session, runtime, bridge and MCP channels.
#[derive(Clone, Copy, Debug, PartialEq, Eq, Structural)]
pub enum RuntimeChannel {
    SessionsList,
    SessionsGet,
    SessionsResume,
    SessionsFork,
    SessionsGetTranscript,
    SessionsGetToolResults,
    RuntimeQuery,
    RuntimeResume,
    RuntimeForkSession,
    RuntimeGetTrace,
    RuntimeGetCheckpoints,
    RuntimeGetToolResults,
    RuntimeListApprovals,
    BridgeStatus,
    BridgeListSessions,
    BridgeGetSession,
    BridgeCreateSession,
    BridgeSendMessage,
    BridgeListPermissions,
    BridgeResolvePermission,
    McpList,
    McpSave,
    McpTest,
    McpListTools,
    McpCall,
    McpSessions,
    McpDisconnect,
    McpDiscoverLocal,
    McpImportLocal,
    McpOauthStatus,
}

/// The operation a channel name asks for.
pub open spec fn runtime_channel_of(ch: Seq<char>) -> Option<RuntimeChannel> {
    if ch == "sessions:list"@ {
        Some(RuntimeChannel::SessionsList)
    } else if ch == "sessions:get"@ {
        Some(RuntimeChannel::SessionsGet)
    } else if ch == "sessions:resume"@ {
        Some(RuntimeChannel::SessionsResume)
    } else if ch == "sessions:fork"@ {
        Some(RuntimeChannel::SessionsFork)
    } else if ch == "sessions:get-transcript"@ {
        Some(RuntimeChannel::SessionsGetTranscript)
    } else if ch == "sessions:get-tool-results"@ {
        Some(RuntimeChannel::SessionsGetToolResults)
    } else if ch == "runtime:query"@ {
        Some(RuntimeChannel::RuntimeQuery)
    } else if ch == "runtime:resume"@ {
        Some(RuntimeChannel::RuntimeResume)
    } else if ch == "runtime:fork-session"@ {
        Some(RuntimeChannel::RuntimeForkSession)
    } else if ch == "runtime:get-trace"@ {
        Some(RuntimeChannel::RuntimeGetTrace)
    } else if ch == "runtime:get-checkpoints"@ {
        Some(RuntimeChannel::RuntimeGetCheckpoints)
    } else if ch == "runtime:get-tool-results"@ {
        Some(RuntimeChannel::RuntimeGetToolResults)
    } else if ch == "runtime:list-approvals"@ {
        Some(RuntimeChannel::RuntimeListApprovals)
    } else if ch == "session-bridge:status"@ {
        Some(RuntimeChannel::BridgeStatus)
    } else if ch == "session-bridge:list-sessions"@ {
        Some(RuntimeChannel::BridgeListSessions)
    } else if ch == "session-bridge:get-session"@ {
        Some(RuntimeChannel::BridgeGetSession)
    } else if ch == "session-bridge:create-session"@ {
        Some(RuntimeChannel::BridgeCreateSession)
    } else if ch == "session-bridge:send-message"@ {
        Some(RuntimeChannel::BridgeSendMessage)
    } else if ch == "session-bridge:list-permissions"@ {
        Some(RuntimeChannel::BridgeListPermissions)
    } else if ch == "session-bridge:resolve-permission"@ {
        Some(RuntimeChannel::BridgeResolvePermission)
    } else if ch == "mcp:list"@ {
        Some(RuntimeChannel::McpList)
    } else if ch == "mcp:save"@ {
        Some(RuntimeChannel::McpSave)
    } else if ch == "mcp:test"@ {
        Some(RuntimeChannel::McpTest)
    } else if ch == "mcp:list-tools"@ {
        Some(RuntimeChannel::McpListTools)
    } else if ch == "mcp:call"@ {
        Some(RuntimeChannel::McpCall)
    } else if ch == "mcp:sessions"@ {
        Some(RuntimeChannel::McpSessions)
    } else if ch == "mcp:disconnect"@ {
        Some(RuntimeChannel::McpDisconnect)
    } else if ch == "mcp:discover-local"@ {
        Some(RuntimeChannel::McpDiscoverLocal)
    } else if ch == "mcp:import-local"@ {
        Some(RuntimeChannel::McpImportLocal)
    } else if ch == "mcp:oauth-status"@ {
        Some(RuntimeChannel::McpOauthStatus)
    } else {
        None
    }
}

/// The operation a channel name asks for, or the error for an unknown one.
pub fn runtime_channel(channel: &str) -> (r: Result<RuntimeChannel, String>)
    ensures
        match runtime_channel_of(channel@) {
            Some(c) => r is Ok && r->Ok_0 == c,
            None => r is Err && r->Err_0@ == "runtime 命名空间未实现通道: "@ + channel@,
        },
{
    if crate::text::str_eq(channel, "sessions:list") {
        return Ok(RuntimeChannel::SessionsList);
    }
    if crate::text::str_eq(channel, "sessions:get") {
        return Ok(RuntimeChannel::SessionsGet);
    }
    if crate::text::str_eq(channel, "sessions:resume") {
        return Ok(RuntimeChannel::SessionsResume);
    }
    if crate::text::str_eq(channel, "sessions:fork") {
        return Ok(RuntimeChannel::SessionsFork);
    }
    if crate::text::str_eq(channel, "sessions:get-transcript") {
        return Ok(RuntimeChannel::SessionsGetTranscript);
    }
    if crate::text::str_eq(channel, "sessions:get-tool-results") {
        return Ok(RuntimeChannel::SessionsGetToolResults);
    }
    if crate::text::str_eq(channel, "runtime:query") {
        return Ok(RuntimeChannel::RuntimeQuery);
    }
    if crate::text::str_eq(channel, "runtime:resume") {
        return Ok(RuntimeChannel::RuntimeResume);
    }
    if crate::text::str_eq(channel, "runtime:fork-session") {
        return Ok(RuntimeChannel::RuntimeForkSession);
    }
    if crate::text::str_eq(channel, "runtime:get-trace") {
        return Ok(RuntimeChannel::RuntimeGetTrace);
    }
    if crate::text::str_eq(channel, "runtime:get-checkpoints") {
        return Ok(RuntimeChannel::RuntimeGetCheckpoints);
    }
    if crate::text::str_eq(channel, "runtime:get-tool-results") {
        return Ok(RuntimeChannel::RuntimeGetToolResults);
    }
    if crate::text::str_eq(channel, "runtime:list-approvals") {
        return Ok(RuntimeChannel::RuntimeListApprovals);
    }
    if crate::text::str_eq(channel, "session-bridge:status") {
        return Ok(RuntimeChannel::BridgeStatus);
    }
    if crate::text::str_eq(channel, "session-bridge:list-sessions") {
        return Ok(RuntimeChannel::BridgeListSessions);
    }
    if crate::text::str_eq(channel, "session-bridge:get-session") {
        return Ok(RuntimeChannel::BridgeGetSession);
    }
    if crate::text::str_eq(channel, "session-bridge:create-session") {
        return Ok(RuntimeChannel::BridgeCreateSession);
    }
    if crate::text::str_eq(channel, "session-bridge:send-message") {
        return Ok(RuntimeChannel::BridgeSendMessage);
    }
    if crate::text::str_eq(channel, "session-bridge:list-permissions") {
        return Ok(RuntimeChannel::BridgeListPermissions);
    }
    if crate::text::str_eq(channel, "session-bridge:resolve-permission") {
        return Ok(RuntimeChannel::BridgeResolvePermission);
    }
    if crate::text::str_eq(channel, "mcp:list") {
        return Ok(RuntimeChannel::McpList);
    }
    if crate::text::str_eq(channel, "mcp:save") {
        return Ok(RuntimeChannel::McpSave);
    }
    if crate::text::str_eq(channel, "mcp:test") {
        return Ok(RuntimeChannel::McpTest);
    }
    if crate::text::str_eq(channel, "mcp:list-tools") {
        return Ok(RuntimeChannel::McpListTools);
    }
    if crate::text::str_eq(channel, "mcp:call") {
        return Ok(RuntimeChannel::McpCall);
    }
    if crate::text::str_eq(channel, "mcp:sessions") {
        return Ok(RuntimeChannel::McpSessions);
    }
    if crate::text::str_eq(channel, "mcp:disconnect") {
        return Ok(RuntimeChannel::McpDisconnect);
    }
    if crate::text::str_eq(channel, "mcp:discover-local") {
        return Ok(RuntimeChannel::McpDiscoverLocal);
    }
    if crate::text::str_eq(channel, "mcp:import-local") {
        return Ok(RuntimeChannel::McpImportLocal);
    }
    if crate::text::str_eq(channel, "mcp:oauth-status") {
        return Ok(RuntimeChannel::McpOauthStatus);
    }
    let mut m = chars_of("runtime 命名空间未实现通道: ");
    append_str(&mut m, channel);
    Err(string_from_chars(&m))
}

} // verus!
