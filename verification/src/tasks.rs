//! Agent tasks, work items, subjects and background tasks: how stored rows
//! are read back, how work items resolve their dependencies, how subject
//! records are built and searched, and what the background task pool does.

use vstd::prelude::*;
use crate::text::{
    chars_of, string_from_chars, owned, append_str, trim, trim_chars, trim_str, non_empty, non_empty_str,
    has_prefix, starts_with_str, contains_seq, contains_str, unicode_lower, to_lowercase_str, is_str,
};
use crate::json::{
    Json, JsonV, jget, get_text, get_flag, get_int, as_text, object_of, entries_of, lemma_entries_view,
    items_view, lemma_array_view, copy_json, set_entry, set_entry_exec, get_entry, entries_get,
    lemma_object_view,
};
use crate::generation::{tstr, obj2, array_of, or_text, value_or, opt_view, with_field, set_field, array_texts, array_texts_exec, raw_texts};
use crate::redclaw::{json_column, parse_json_col};
use crate::strs::views;
use crate::order::{rank_sorted, sort_by_rank, ranked_view, map_items, items_of, first_n, lemma_rank_sorted_map, take_items};

verus! {

// ---------------------------------------------------------------------------
// Object entries
// ---------------------------------------------------------------------------

/// The entries without those named `key`.
pub open spec fn remove_key(e: Seq<(Seq<char>, JsonV)>, key: Seq<char>) -> Seq<(Seq<char>, JsonV)>
    decreases e.len(),
{
    if e.len() == 0 {
        e
    } else if e.last().0 == key {
        remove_key(e.drop_last(), key)
    } else {
        remove_key(e.drop_last(), key).push(e.last())
    }
}

/// Removes the entries named `key`.
pub fn remove_entry_exec(e: &mut Vec<(String, Json)>, key: &str)
    ensures
        entries_of(*final(e)) == remove_key(entries_of(*old(e)), key@),
{
    proof { lemma_entries_view(e@, e@.len()); }
    let ghost ev = entries_of(*e);
    let mut out: Vec<(String, Json)> = Vec::new();
    let mut i: usize = 0;
    while i < e.len()
        invariant
            i <= e@.len(),
            e@ == old(e)@,
            ev == entries_of(*old(e)),
            ev.len() == e@.len(),
            forall|k: int| 0 <= k < e@.len() ==> #[trigger] ev[k] == (e@[k].0@, e@[k].1@),
            entries_of(out) == remove_key(ev.subrange(0, i as int), key@),
        decreases e.len() - i,
    {
        proof { lemma_entries_view(out@, out@.len()); }
        assert(ev.subrange(0, i + 1).drop_last() =~= ev.subrange(0, i as int));
        if !crate::text::str_eq(e[i].0.as_str(), key) {
            let ghost before = entries_of(out);
            let k = e[i].0.clone();
            let v = copy_json(&e[i].1);
            out.push((k, v));
            proof { lemma_entries_view(out@, out@.len()); }
            assert(entries_of(out) =~= before.push(ev[i as int]));
        }
        i += 1;
    }
    assert(ev.subrange(0, ev.len() as int) =~= ev);
    *e = out;
}

/// An object's entries, or none for any other value.
pub open spec fn obj_entries(j: JsonV) -> Seq<(Seq<char>, JsonV)> {
    match j {
        JsonV::Object(e) => e,
        _ => Seq::empty(),
    }
}

fn entries_copy(j: &Json) -> (r: Vec<(String, Json)>)
    ensures
        entries_of(r) == obj_entries(j@),
{
    crate::json::entries_or_empty(j)
}

fn field_or(row: &Json, key: &str, d: Json) -> (r: Json)
    ensures
        r@ == value_or(row@, key@, d@),
{
    match row.get(key) {
        Some(v) => copy_json(v),
        None => d,
    }
}

/// The text under `key`, as it is.
fn text_at(p: &Json, key: &str) -> (r: Option<String>)
    ensures
        opt_view(r) == get_text(p@, key@),
{
    match p.get_str(key) {
        Some(s) => Some(s.clone()),
        None => None,
    }
}

/// The text under `key` when it is not empty.
pub open spec fn filled_text(p: JsonV, key: Seq<char>) -> Option<Seq<char>> {
    match get_text(p, key) {
        Some(t) => if t.len() > 0 { Some(t) } else { None },
        None => None,
    }
}

fn filled_text_exec(p: &Json, key: &str) -> (r: Option<String>)
    ensures
        opt_view(r) == filled_text(p@, key@),
{
    match p.get_str(key) {
        Some(s) => if chars_of(s.as_str()).len() > 0 { Some(s.clone()) } else { None },
        None => None,
    }
}

// ---------------------------------------------------------------------------
// Tasks
// ---------------------------------------------------------------------------

/// A stored task as the renderer reads it: camel-case keys, JSON columns
/// parsed.
pub open spec fn hydrated_task(row: JsonV) -> Seq<(Seq<char>, JsonV)> {
    seq![
        ("id"@, value_or(row, "id"@, JsonV::Null)),
        ("taskType"@, value_or(row, "task_type"@, JsonV::Null)),
        ("status"@, value_or(row, "status"@, JsonV::Null)),
        ("runtimeMode"@, value_or(row, "runtime_mode"@, JsonV::Null)),
        ("ownerSessionId"@, value_or(row, "owner_session_id"@, JsonV::Null)),
        ("intent"@, value_or(row, "intent"@, JsonV::Null)),
        ("roleId"@, value_or(row, "role_id"@, JsonV::Null)),
        ("goal"@, value_or(row, "goal"@, JsonV::Null)),
        ("currentNode"@, value_or(row, "current_node"@, JsonV::Null)),
        ("route"@, json_column(jget(row, "route_json"@), JsonV::Null)),
        ("graph"@, json_column(jget(row, "graph_json"@), JsonV::Array(Seq::empty()))),
        ("artifacts"@, json_column(jget(row, "artifacts_json"@), JsonV::Array(Seq::empty()))),
        ("checkpoints"@, json_column(jget(row, "checkpoints_json"@), JsonV::Array(Seq::empty()))),
        ("metadata"@, json_column(jget(row, "metadata_json"@), JsonV::Null)),
        ("lastError"@, value_or(row, "last_error"@, JsonV::Null)),
        ("createdAt"@, value_or(row, "created_at"@, JsonV::Int(0))),
        ("updatedAt"@, value_or(row, "updated_at"@, JsonV::Int(0))),
        ("startedAt"@, value_or(row, "started_at"@, JsonV::Null)),
        ("completedAt"@, value_or(row, "completed_at"@, JsonV::Null)),
    ]
}

fn empty_array() -> (r: Json)
    ensures
        r@ == JsonV::Array(Seq::empty()),
{
    let v: Vec<Json> = Vec::new();
    proof { lemma_array_view(v); }
    assert(items_view(v@, 0) =~= Seq::<JsonV>::empty());
    Json::Array(v)
}

fn opt_ref(o: Option<&Json>) -> (r: Option<&Json>)
    ensures
        r == o,
{
    o
}

/// A stored task as the renderer reads it.
pub fn hydrate_task(row: &Json) -> (r: Json)
    ensures
        r@ == JsonV::Object(hydrated_task(row@)),
{
    let mut e: Vec<(String, Json)> = Vec::new();
    e.push((owned("id"), field_or(row, "id", Json::Null)));
    e.push((owned("taskType"), field_or(row, "task_type", Json::Null)));
    e.push((owned("status"), field_or(row, "status", Json::Null)));
    e.push((owned("runtimeMode"), field_or(row, "runtime_mode", Json::Null)));
    e.push((owned("ownerSessionId"), field_or(row, "owner_session_id", Json::Null)));
    e.push((owned("intent"), field_or(row, "intent", Json::Null)));
    e.push((owned("roleId"), field_or(row, "role_id", Json::Null)));
    e.push((owned("goal"), field_or(row, "goal", Json::Null)));
    e.push((owned("currentNode"), field_or(row, "current_node", Json::Null)));
    e.push((owned("route"), parse_json_col(row.get("route_json"), &Json::Null)));
    e.push((owned("graph"), parse_json_col(row.get("graph_json"), &empty_array())));
    e.push((owned("artifacts"), parse_json_col(row.get("artifacts_json"), &empty_array())));
    e.push((owned("checkpoints"), parse_json_col(row.get("checkpoints_json"), &empty_array())));
    e.push((owned("metadata"), parse_json_col(row.get("metadata_json"), &Json::Null)));
    e.push((owned("lastError"), field_or(row, "last_error", Json::Null)));
    e.push((owned("createdAt"), field_or(row, "created_at", Json::Int(0))));
    e.push((owned("updatedAt"), field_or(row, "updated_at", Json::Int(0))));
    e.push((owned("startedAt"), field_or(row, "started_at", Json::Null)));
    e.push((owned("completedAt"), field_or(row, "completed_at", Json::Null)));
    proof { lemma_entries_view(e@, e@.len()); }
    assert(entries_of(e) =~= hydrated_task(row@));
    object_of(e)
}

/// A stored trace as the renderer reads it.
pub open spec fn trace_entries(row: JsonV) -> Seq<(Seq<char>, JsonV)> {
    seq![
        ("id"@, value_or(row, "id"@, JsonV::Null)),
        ("taskId"@, value_or(row, "task_id"@, JsonV::Null)),
        ("nodeId"@, value_or(row, "node_id"@, JsonV::Null)),
        ("eventType"@, value_or(row, "event_type"@, JsonV::Null)),
        ("payload"@, json_column(jget(row, "payload_json"@), JsonV::Null)),
        ("createdAt"@, value_or(row, "created_at"@, JsonV::Int(0))),
    ]
}

/// A stored trace as the renderer reads it.
pub fn map_trace_row(row: &Json) -> (r: Json)
    ensures
        r@ == JsonV::Object(trace_entries(row@)),
{
    let mut e: Vec<(String, Json)> = Vec::new();
    e.push((owned("id"), field_or(row, "id", Json::Null)));
    e.push((owned("taskId"), field_or(row, "task_id", Json::Null)));
    e.push((owned("nodeId"), field_or(row, "node_id", Json::Null)));
    e.push((owned("eventType"), field_or(row, "event_type", Json::Null)));
    e.push((owned("payload"), parse_json_col(row.get("payload_json"), &Json::Null)));
    e.push((owned("createdAt"), field_or(row, "created_at", Json::Int(0))));
    proof { lemma_entries_view(e@, e@.len()); }
    assert(entries_of(e) =~= trace_entries(row@));
    object_of(e)
}

/// Whether a stored task belongs to the RedClaw scheduler.
pub open spec fn internal_task(row: JsonV) -> bool {
    match get_text(row, "task_type"@) {
        Some(t) => has_prefix(t, "redclaw-"@),
        None => false,
    }
}

/// Refuses to change a task that belongs to the RedClaw scheduler.
pub fn reject_internal_redclaw_task(row: &Json) -> (r: Result<(), String>)
    ensures
        internal_task(row@) ==> r is Err && r->Err_0@
            == "RedClaw scheduler tasks can only be changed through redclaw:runner-* APIs"@,
        !internal_task(row@) ==> r is Ok,
{
    match row.get_str("task_type") {
        Some(t) => if starts_with_str(&chars_of(t.as_str()), "redclaw-") {
            Err(owned("RedClaw scheduler tasks can only be changed through redclaw:runner-* APIs"))
        } else {
            Ok(())
        },
        None => Ok(()),
    }
}

/// The limit a listing asks for (`limit`, else the default), kept within
/// bounds.
pub open spec fn bounded_limit(p: JsonV, d: i64, lo: i64, hi: i64) -> i64 {
    let v = match get_int(p, "limit"@) {
        Some(n) => n,
        None => d,
    };
    if v < lo { lo } else if v > hi { hi } else { v }
}

/// The limit a listing asks for, kept within bounds.
pub fn listing_limit(payload: &Json, d: i64, lo: i64, hi: i64) -> (r: i64)
    requires
        lo <= hi,
    ensures
        r == bounded_limit(payload@, d, lo, hi),
{
    let v = match payload.get_i64("limit") {
        Some(n) => n,
        None => d,
    };
    if v < lo { lo } else if v > hi { hi } else { v }
}

/// Whether a task status can be resumed from its session.
pub open spec fn resumable(t: JsonV) -> bool {
    get_text(t, "status"@) == Some("running"@) || get_text(t, "status"@) == Some("paused"@)
}

/// The first running or paused task from position `i` on.
pub open spec fn first_resumable(tasks: Seq<JsonV>, i: int) -> Option<JsonV>
    decreases tasks.len() - i,
{
    if i < 0 || i >= tasks.len() {
        None
    } else if resumable(tasks[i]) {
        Some(tasks[i])
    } else {
        first_resumable(tasks, i + 1)
    }
}

/// The task a session resumes: the first running or paused one, else the
/// first one.
pub open spec fn resume_pick(tasks: Seq<JsonV>) -> Option<JsonV> {
    match first_resumable(tasks, 0) {
        Some(t) => Some(t),
        None => if tasks.len() > 0 {
            Some(tasks[0])
        } else {
            None
        },
    }
}

/// The task a session resumes, among its tasks newest first.
pub fn pick_resumable(tasks: &Vec<Json>) -> (r: Json)
    ensures
        r@ == match resume_pick(items_view(tasks@, tasks@.len())) {
            Some(t) => t,
            None => JsonV::Null,
        },
{
    proof { lemma_array_view(*tasks); }
    let ghost tv = items_view(tasks@, tasks@.len());
    let mut i: usize = 0;
    while i < tasks.len()
        invariant
            i <= tasks@.len(),
            tv.len() == tasks@.len(),
            forall|k: int| 0 <= k < tasks@.len() ==> #[trigger] tv[k] == tasks@[k]@,
            first_resumable(tv, 0) == first_resumable(tv, i as int),
            tv == items_view(tasks@, tasks@.len()),
        decreases tasks.len() - i,
    {
        assert(tv[i as int] == tasks@[i as int]@);
        let st = tasks[i].get_str("status");
        let hit = match st {
            Some(s) => crate::text::str_eq(s.as_str(), "running") || crate::text::str_eq(s.as_str(), "paused"),
            None => false,
        };
        assert(hit == resumable(tv[i as int]));
        if hit {
            return copy_json(&tasks[i]);
        }
        i += 1;
    }
    if tasks.len() > 0 {
        copy_json(&tasks[0])
    } else {
        Json::Null
    }
}

// ---------------------------------------------------------------------------
// New tasks
// ---------------------------------------------------------------------------

/// One node of the default task graph.
pub open spec fn graph_node(prefix: Seq<char>, suffix: Seq<char>, kind: Seq<char>, title: Seq<char>) -> JsonV {
    JsonV::Object(seq![
        ("id"@, tstr(prefix + suffix)),
        ("type"@, tstr(kind)),
        ("title"@, tstr(title)),
        ("status"@, tstr("pending"@)),
    ])
}

/// The default task graph: route, plan, execute tools, complete.
pub open spec fn default_graph_nodes(suffix: Seq<char>) -> Seq<JsonV> {
    seq![
        graph_node("route_"@, suffix, "route"@, "初始化任务上下文"@),
        graph_node("plan_"@, suffix, "plan"@, "生成执行计划"@),
        graph_node("execute_tools_"@, suffix, "execute_tools"@, "调用工具执行"@),
        graph_node("complete_"@, suffix, "complete"@, "完成任务"@),
    ]
}

fn graph_node_exec(prefix: &str, suffix: &str, kind: &str, title: &str) -> (r: Json)
    ensures
        r@ == graph_node(prefix@, suffix@, kind@, title@),
{
    let mut id = chars_of(prefix);
    append_str(&mut id, suffix);
    let mut e: Vec<(String, Json)> = Vec::new();
    e.push((owned("id"), Json::from_string(string_from_chars(&id))));
    e.push((owned("type"), Json::text(kind)));
    e.push((owned("title"), Json::text(title)));
    e.push((owned("status"), Json::text("pending")));
    proof { lemma_entries_view(e@, e@.len()); }
    assert(entries_of(e) =~= seq![
        ("id"@, tstr(prefix@ + suffix@)),
        ("type"@, tstr(kind@)),
        ("title"@, tstr(title@)),
        ("status"@, tstr("pending"@)),
    ]);
    object_of(e)
}

/// The default task graph, its node ids ending in `suffix`.
pub fn default_graph(suffix: &str) -> (r: Json)
    ensures
        r@ == JsonV::Array(default_graph_nodes(suffix@)),
{
    let mut v: Vec<Json> = Vec::new();
    v.push(graph_node_exec("route_", suffix, "route", "初始化任务上下文"));
    v.push(graph_node_exec("plan_", suffix, "plan", "生成执行计划"));
    v.push(graph_node_exec("execute_tools_", suffix, "execute_tools", "调用工具执行"));
    v.push(graph_node_exec("complete_", suffix, "complete", "完成任务"));
    let r = array_of(v);
    assert(items_view(v@, v@.len()) =~= default_graph_nodes(suffix@));
    r
}

/// The goal of a new task: `goal`, else the user input when it is not empty.
pub open spec fn task_goal(p: JsonV) -> Option<Seq<char>> {
    let input = match get_text(p, "userInput"@) {
        Some(t) => t,
        None => Seq::empty(),
    };
    or_text(get_text(p, "goal"@), if input.len() > 0 { Some(input) } else { None })
}

/// A text or `null`.
pub open spec fn text_or_null(o: Option<Seq<char>>) -> JsonV {
    match o {
        Some(t) => tstr(t),
        None => JsonV::Null,
    }
}

fn text_or_null_exec(o: &Option<String>) -> (r: Json)
    ensures
        r@ == text_or_null(opt_view(*o)),
{
    match o {
        Some(t) => Json::from_string(t.clone()),
        None => Json::Null,
    }
}

/// The entries of a new task's snapshot.
pub open spec fn new_task_entries(p: JsonV, id: Seq<char>, suffix: Seq<char>, now: i64, dry: bool) -> Seq<(Seq<char>, JsonV)> {
    let runtime_mode = match get_text(p, "runtimeMode"@) { Some(t) => t, None => "redclaw"@ };
    let input = match get_text(p, "userInput"@) { Some(t) => t, None => Seq::empty() };
    let intent = match get_text(p, "intent"@) { Some(t) => t, None => "generic"@ };
    let meta = set_entry(obj_entries(match jget(p, "metadata"@) { Some(m) => m, None => JsonV::Null }),
        "userInput"@, tstr(input));
    let route = JsonV::Object(seq![
        ("intent"@, tstr(intent)),
        ("goal"@, text_or_null(task_goal(p))),
        ("requiresMultiAgent"@, JsonV::Bool(false)),
        ("requiresLongRunningTask"@, JsonV::Bool(false)),
    ]);
    seq![
        ("id"@, tstr(id)),
        ("taskType"@, tstr(intent)),
        ("status"@, tstr("pending"@)),
        ("runtimeMode"@, tstr(runtime_mode)),
        ("ownerSessionId"@, text_or_null(get_text(p, "sessionId"@))),
        ("intent"@, tstr(intent)),
        ("roleId"@, text_or_null(get_text(p, "roleId"@))),
        ("goal"@, text_or_null(task_goal(p))),
        ("currentNode"@, tstr("route_"@ + suffix)),
        ("route"@, route),
        ("graph"@, JsonV::Array(default_graph_nodes(suffix))),
        ("artifacts"@, JsonV::Array(Seq::empty())),
        ("checkpoints"@, JsonV::Array(Seq::empty())),
        ("metadata"@, JsonV::Object(meta)),
        ("lastError"@, JsonV::Null),
        ("createdAt"@, JsonV::Int(now)),
        ("updatedAt"@, JsonV::Int(now)),
        ("startedAt"@, JsonV::Null),
        ("completedAt"@, JsonV::Null),
        ("dryRun"@, JsonV::Bool(dry)),
    ]
}

/// The snapshot of a new, pending task made at `now`: its intent and goal,
/// the default graph starting at its route node, and the request's metadata
/// with the user input.
pub fn new_task_snapshot(payload: &Json, id: &str, suffix: &str, now: i64, dry: bool) -> (r: Json)
    ensures
        r@ == JsonV::Object(new_task_entries(payload@, id@, suffix@, now, dry)),
{
    let runtime_mode = match text_at(payload, "runtimeMode") { Some(t) => t, None => owned("redclaw") };
    let input = match text_at(payload, "userInput") { Some(t) => t, None => String::new() };
    let intent = match text_at(payload, "intent") { Some(t) => t, None => owned("generic") };
    let goal: Option<String> = match text_at(payload, "goal") {
        Some(g) => Some(g),
        None => if chars_of(input.as_str()).len() > 0 { Some(input.clone()) } else { None },
    };
    let mut meta: Vec<(String, Json)> = match payload.get("metadata") {
        Some(m) => entries_copy(m),
        None => {
            let v: Vec<(String, Json)> = Vec::new();
            proof { lemma_entries_view(v@, 0); }
            v
        },
    };
    set_entry_exec(&mut meta, "userInput", Json::from_string(input.clone()));
    let mut route: Vec<(String, Json)> = Vec::new();
    route.push((owned("intent"), Json::from_string(intent.clone())));
    route.push((owned("goal"), text_or_null_exec(&goal)));
    route.push((owned("requiresMultiAgent"), Json::Bool(false)));
    route.push((owned("requiresLongRunningTask"), Json::Bool(false)));
    proof { lemma_entries_view(route@, route@.len()); }
    let ghost rv = entries_of(route);
    assert(opt_view(goal) == task_goal(payload@));
    assert(rv =~= seq![
        ("intent"@, tstr(intent@)),
        ("goal"@, text_or_null(task_goal(payload@))),
        ("requiresMultiAgent"@, JsonV::Bool(false)),
        ("requiresLongRunningTask"@, JsonV::Bool(false)),
    ]);
    let graph = default_graph(suffix);
    let mut node = chars_of("route_");
    append_str(&mut node, suffix);
    let ghost metav = entries_of(meta);
    assert(metav == set_entry(obj_entries(match jget(payload@, "metadata"@) { Some(m) => m, None => JsonV::Null }),
        "userInput"@, tstr(input@)));
    let mut e: Vec<(String, Json)> = Vec::new();
    e.push((owned("id"), Json::text(id)));
    e.push((owned("taskType"), Json::from_string(intent.clone())));
    e.push((owned("status"), Json::text("pending")));
    e.push((owned("runtimeMode"), Json::from_string(runtime_mode)));
    e.push((owned("ownerSessionId"), text_or_null_exec(&text_at(payload, "sessionId"))));
    e.push((owned("intent"), Json::from_string(intent)));
    e.push((owned("roleId"), text_or_null_exec(&text_at(payload, "roleId"))));
    e.push((owned("goal"), text_or_null_exec(&goal)));
    e.push((owned("currentNode"), Json::from_string(string_from_chars(&node))));
    e.push((owned("route"), object_of(route)));
    e.push((owned("graph"), graph));
    e.push((owned("artifacts"), empty_array()));
    e.push((owned("checkpoints"), empty_array()));
    e.push((owned("metadata"), object_of(meta)));
    e.push((owned("lastError"), Json::Null));
    e.push((owned("createdAt"), Json::Int(now)));
    e.push((owned("updatedAt"), Json::Int(now)));
    e.push((owned("startedAt"), Json::Null));
    e.push((owned("completedAt"), Json::Null));
    e.push((owned("dryRun"), Json::Bool(dry)));
    proof { lemma_entries_view(e@, e@.len()); }
    assert(entries_of(e) =~= new_task_entries(payload@, id@, suffix@, now, dry));
    object_of(e)
}

// ---------------------------------------------------------------------------
// Work items
// ---------------------------------------------------------------------------

/// A text under `key`, or a default.
pub open spec fn text_or_default(p: JsonV, key: Seq<char>, d: Seq<char>) -> Seq<char> {
    match get_text(p, key) {
        Some(t) => t,
        None => d,
    }
}

fn text_or_default_exec(p: &Json, key: &str, d: &str) -> (r: String)
    ensures
        r@ == text_or_default(p@, key@, d@),
{
    match p.get_str(key) {
        Some(t) => t.clone(),
        None => owned(d),
    }
}

/// An integer under `key`, or a default.
pub open spec fn int_or(p: JsonV, key: Seq<char>, d: i64) -> i64 {
    match get_int(p, key) {
        Some(n) => n,
        None => d,
    }
}

/// A stored work row read back: its metadata object with the row's kind,
/// id, status and times.
pub open spec fn work_record_entries(row: JsonV) -> Seq<(Seq<char>, JsonV)> {
    let base = obj_entries(json_column(jget(row, "metadata_json"@), JsonV::Object(Seq::empty())));
    set_entry(set_entry(set_entry(set_entry(set_entry(base,
        "kind"@, tstr("work"@)),
        "id"@, tstr(text_or_default(row, "id"@, Seq::empty()))),
        "status"@, tstr(text_or_default(row, "status"@, "pending"@))),
        "createdAt"@, JsonV::Int(int_or(row, "created_at"@, 0))),
        "updatedAt"@, JsonV::Int(int_or(row, "updated_at"@, 0)))
}

fn empty_object() -> (r: Json)
    ensures
        r@ == JsonV::Object(Seq::empty()),
{
    let e: Vec<(String, Json)> = Vec::new();
    proof { lemma_entries_view(e@, 0); }
    object_of(e)
}

/// A stored work row read back as a work record.
pub fn load_work_record(row: &Json) -> (r: Json)
    ensures
        r@ == JsonV::Object(work_record_entries(row@)),
{
    let meta = parse_json_col(row.get("metadata_json"), &empty_object());
    let mut e = entries_copy(&meta);
    set_entry_exec(&mut e, "kind", Json::text("work"));
    let id = match row.get_str("id") {
        Some(t) => t.clone(),
        None => String::new(),
    };
    set_entry_exec(&mut e, "id", Json::from_string(id));
    set_entry_exec(&mut e, "status", Json::from_string(text_or_default_exec(row, "status", "pending")));
    set_entry_exec(&mut e, "createdAt", Json::Int(match row.get_i64("created_at") { Some(n) => n, None => 0 }));
    set_entry_exec(&mut e, "updatedAt", Json::Int(match row.get_i64("updated_at") { Some(n) => n, None => 0 }));
    object_of(e)
}

/// The last record with an id (later records with the same id win).
pub open spec fn record_by_id(records: Seq<JsonV>, id: Seq<char>) -> Option<JsonV>
    decreases records.len(),
{
    if records.len() == 0 {
        None
    } else if get_text(records.last(), "id"@) == Some(id) {
        Some(records.last())
    } else {
        record_by_id(records.drop_last(), id)
    }
}

/// Whether a dependency still blocks: it is unknown, or neither done nor
/// cancelled.
pub open spec fn blocks(records: Seq<JsonV>, dep: Seq<char>) -> bool {
    match record_by_id(records, dep) {
        None => true,
        Some(d) => {
            let s = text_or_default(d, "status"@, Seq::empty());
            s != "done"@ && s != "cancelled"@
        },
    }
}

/// The dependencies that still block, in order.
pub open spec fn blocking(records: Seq<JsonV>, deps: Seq<Seq<char>>) -> Seq<Seq<char>>
    decreases deps.len(),
{
    if deps.len() == 0 {
        deps
    } else if blocks(records, deps.last()) {
        blocking(records, deps.drop_last()).push(deps.last())
    } else {
        blocking(records, deps.drop_last())
    }
}

/// The status a work item shows: a pending item is ready when nothing
/// blocks it, blocked otherwise; any other status shows as it is.
pub open spec fn effective_status(status: Seq<char>, blocked: Seq<Seq<char>>) -> Seq<char> {
    if status == "pending"@ {
        if blocked.len() == 0 {
            "ready"@
        } else {
            "blocked"@
        }
    } else {
        status
    }
}

/// A work record with its effective status, blockers and readiness.
pub open spec fn materialized(rec: JsonV, records: Seq<JsonV>) -> JsonV {
    let blocked = blocking(records, array_texts(rec, "dependsOn"@));
    let eff = effective_status(text_or_default(rec, "status"@, "pending"@), blocked);
    with_field(with_field(with_field(rec,
        "effectiveStatus"@, tstr(eff)),
        "blockedBy"@, JsonV::Array(blocked.map_values(|d: Seq<char>| tstr(d)))),
        "ready"@, JsonV::Bool(eff == "ready"@))
}

/// Whether a dependency is settled: the record of that id (the last one
/// stored) is done or cancelled.
pub open spec fn dep_settled(records: Seq<JsonV>, dep: Seq<char>) -> bool {
    match record_by_id(records, dep) {
        Some(d) => get_text(d, "status"@) == Some("done"@) || get_text(d, "status"@) == Some("cancelled"@),
        None => false,
    }
}

/// Whether a value is the id (as a text) of one of `deps` that is not
/// settled.
pub open spec fn unsettled_dependency(records: Seq<JsonV>, deps: Seq<Seq<char>>, x: JsonV) -> bool {
    match x {
        JsonV::Str(d, _) => deps.contains(d) && !dep_settled(records, d),
        _ => false,
    }
}

proof fn lemma_blocks_unsettled(records: Seq<JsonV>, dep: Seq<char>)
    ensures
        blocks(records, dep) <==> !dep_settled(records, dep),
{
    reveal_strlit("done");
    reveal_strlit("cancelled");
    if let Some(d) = record_by_id(records, dep) {
        if get_text(d, "status"@) is None {
            assert("done"@.len() == 4);
            assert("cancelled"@.len() == 9);
            assert(Seq::<char>::empty() != "done"@);
            assert(Seq::<char>::empty() != "cancelled"@);
        }
    }
}

proof fn lemma_blocking_members(records: Seq<JsonV>, deps: Seq<Seq<char>>)
    ensures
        forall|i: int| 0 <= i < blocking(records, deps).len() ==>
            deps.contains(#[trigger] blocking(records, deps)[i]) && !dep_settled(records, blocking(records, deps)[i]),
        (forall|i: int| 0 <= i < deps.len() ==> dep_settled(records, #[trigger] deps[i])) ==> blocking(records, deps).len() == 0,
    decreases deps.len(),
{
    if deps.len() > 0 {
        let rest = deps.drop_last();
        lemma_blocking_members(records, rest);
        lemma_blocks_unsettled(records, deps.last());
        let b = blocking(records, deps);
        assert forall|i: int| 0 <= i < b.len() implies deps.contains(#[trigger] b[i]) && !dep_settled(records, b[i]) by {
            if i < blocking(records, rest).len() {
                assert(b[i] == blocking(records, rest)[i]);
                let j = choose|j: int| 0 <= j < rest.len() && rest[j] == b[i];
                assert(deps[j] == b[i]);
            } else {
                assert(b[i] == deps.last());
                assert(deps[deps.len() - 1] == b[i]);
            }
        }
        if forall|i: int| 0 <= i < deps.len() ==> dep_settled(records, #[trigger] deps[i]) {
            assert forall|i: int| 0 <= i < rest.len() implies dep_settled(records, #[trigger] rest[i]) by {
                assert(rest[i] == deps[i]);
            }
            assert(dep_settled(records, deps[deps.len() - 1]));
        }
    }
}

/// A work item is held back only by dependencies that are not settled: each
/// id in its `blockedBy` is one of its `dependsOn` ids whose record is
/// missing or neither done nor cancelled; and a pending item whose
/// dependencies are all done or cancelled is ready, with nothing blocking it.
pub proof fn lemma_settled_dependencies_never_block(rec: JsonV, records: Seq<JsonV>)
    requires
        rec is Object,
    ensures
        ({
            let m = materialized(rec, records);
            let deps = array_texts(rec, "dependsOn"@);
            &&& exists|b: Seq<JsonV>| #![auto] jget(m, "blockedBy"@) == Some(JsonV::Array(b))
                && forall|i: int| 0 <= i < b.len() ==> unsettled_dependency(records, deps, #[trigger] b[i])
            &&& (text_or_default(rec, "status"@, "pending"@) == "pending"@
                && forall|i: int| 0 <= i < deps.len() ==> dep_settled(records, #[trigger] deps[i]))
                ==> jget(m, "effectiveStatus"@) == Some(JsonV::Str("ready"@, None))
                    && jget(m, "ready"@) == Some(JsonV::Bool(true))
                    && jget(m, "blockedBy"@) == Some(JsonV::Array(Seq::empty()))
        }),
{
    reveal_strlit("effectiveStatus");
    reveal_strlit("blockedBy");
    reveal_strlit("ready");
    let deps = array_texts(rec, "dependsOn"@);
    let blocked = blocking(records, deps);
    lemma_blocking_members(records, deps);
    let eff = effective_status(text_or_default(rec, "status"@, "pending"@), blocked);
    let arr = JsonV::Array(blocked.map_values(|d: Seq<char>| tstr(d)));
    let e0 = match rec { JsonV::Object(e) => e, _ => Seq::empty() };
    let e1 = set_entry(e0, "effectiveStatus"@, tstr(eff));
    let e2 = set_entry(e1, "blockedBy"@, arr);
    let e3 = set_entry(e2, "ready"@, JsonV::Bool(eff == "ready"@));
    assert(materialized(rec, records) == JsonV::Object(e3));
    assert("ready"@ != "blockedBy"@) by { assert("ready"@[0] != "blockedBy"@[0]); }
    assert("ready"@ != "effectiveStatus"@) by { assert("ready"@[0] != "effectiveStatus"@[0]); }
    assert("blockedBy"@ != "effectiveStatus"@) by { assert("blockedBy"@[0] != "effectiveStatus"@[0]); }
    crate::redclaw::lemma_set_entry_get(e2, "ready"@, JsonV::Bool(eff == "ready"@));
    crate::redclaw::lemma_set_entry_get_other(e2, "ready"@, JsonV::Bool(eff == "ready"@), "blockedBy"@);
    crate::redclaw::lemma_set_entry_get_other(e2, "ready"@, JsonV::Bool(eff == "ready"@), "effectiveStatus"@);
    crate::redclaw::lemma_set_entry_get(e1, "blockedBy"@, arr);
    crate::redclaw::lemma_set_entry_get_other(e1, "blockedBy"@, arr, "effectiveStatus"@);
    crate::redclaw::lemma_set_entry_get(e0, "effectiveStatus"@, tstr(eff));
    let b = blocked.map_values(|d: Seq<char>| tstr(d));
    assert(jget(materialized(rec, records), "blockedBy"@) == Some(JsonV::Array(b)));
    assert forall|i: int| 0 <= i < b.len() implies unsettled_dependency(records, deps, #[trigger] b[i]) by {
        assert(b[i] == JsonV::Str(blocked[i], None));
        assert(deps.contains(blocked[i]) && !dep_settled(records, blocked[i]));
    }
    if text_or_default(rec, "status"@, "pending"@) == "pending"@
        && forall|i: int| 0 <= i < deps.len() ==> dep_settled(records, #[trigger] deps[i]) {
        assert(blocked.len() == 0);
        assert(b =~= Seq::<JsonV>::empty());
    }
}

fn record_by_id_exec<'a>(records: &'a Vec<Json>, id: &Vec<char>) -> (r: Option<&'a Json>)
    ensures
        match r {
            Some(j) => record_by_id(items_view(records@, records@.len()), id@) == Some(j@),
            None => record_by_id(items_view(records@, records@.len()), id@) is None,
        },
{
    proof { lemma_array_view(*records); }
    let ghost rv = items_view(records@, records@.len());
    let mut i = records.len();
    assert(rv.subrange(0, rv.len() as int) =~= rv);
    while i > 0
        invariant
            i <= records@.len(),
            rv == items_view(records@, records@.len()),
            rv.len() == records@.len(),
            forall|k: int| 0 <= k < records@.len() ==> #[trigger] rv[k] == records@[k]@,
            record_by_id(rv, id@) == record_by_id(rv.subrange(0, i as int), id@),
        decreases i,
    {
        let ghost sub = rv.subrange(0, i as int);
        assert(sub.drop_last() =~= rv.subrange(0, i - 1));
        assert(sub.last() == records@[i - 1]@);
        let hit = match records[i - 1].get_str("id") {
            Some(t) => crate::text::chars_eq(&chars_of(t.as_str()), id),
            None => false,
        };
        if hit {
            return Some(&records[i - 1]);
        }
        i -= 1;
    }
    assert(rv.subrange(0, 0) =~= Seq::<JsonV>::empty());
    None
}

/// A work record with its effective status, blockers and readiness, its
/// dependencies looked up among all records.
pub fn materialize_work(rec: &Json, records: &Vec<Json>) -> (r: Json)
    ensures
        r@ == materialized(rec@, items_view(records@, records@.len())),
{
    let ghost rv = items_view(records@, records@.len());
    let deps = array_texts_exec(rec, "dependsOn");
    let ghost dv = views(deps@);
    let mut blocked: Vec<String> = Vec::new();
    let mut i: usize = 0;
    while i < deps.len()
        invariant
            i <= deps@.len(),
            dv == views(deps@),
            rv == items_view(records@, records@.len()),
            views(blocked@) == blocking(rv, dv.subrange(0, i as int)),
        decreases deps.len() - i,
    {
        let ghost sub = dv.subrange(0, i + 1);
        assert(sub.drop_last() =~= dv.subrange(0, i as int));
        let d = chars_of(deps[i].as_str());
        assert(d@ == dv[i as int]);
        let is_blocking = match record_by_id_exec(records, &d) {
            None => true,
            Some(found) => {
                let st: Vec<char> = match found.get_str("status") {
                    Some(t) => chars_of(t.as_str()),
                    None => Vec::new(),
                };
                !is_str(&st, "done") && !is_str(&st, "cancelled")
            },
        };
        if is_blocking {
            let ghost before = views(blocked@);
            blocked.push(deps[i].clone());
            assert(views(blocked@) =~= before.push(dv[i as int]));
        }
        i += 1;
    }
    assert(dv.subrange(0, dv.len() as int) =~= dv);
    let status = chars_of(text_or_default_exec(rec, "status", "pending").as_str());
    let eff: Vec<char> = if is_str(&status, "pending") {
        if blocked.len() == 0 { chars_of("ready") } else { chars_of("blocked") }
    } else {
        status
    };
    let ready = is_str(&eff, "ready");
    let ghost bv = views(blocked@);
    let mut items: Vec<Json> = Vec::new();
    let mut k: usize = 0;
    while k < blocked.len()
        invariant
            k <= blocked@.len(),
            bv == views(blocked@),
            items@.len() == k,
            forall|m: int| 0 <= m < k ==> (#[trigger] items@[m])@ == tstr(bv[m]),
        decreases blocked.len() - k,
    {
        items.push(Json::from_string(blocked[k].clone()));
        k += 1;
    }
    let arr = array_of(items);
    assert(items_view(items@, items@.len()) =~= bv.map_values(|d: Seq<char>| tstr(d)));
    let mut snap = copy_json(rec);
    set_field(&mut snap, "effectiveStatus", Json::from_string(string_from_chars(&eff)));
    set_field(&mut snap, "blockedBy", arr);
    set_field(&mut snap, "ready", Json::Bool(ready));
    snap
}

/// The object stored for a work record: marked as work, without the row's
/// columns and the derived fields.
pub open spec fn work_store_entries(rec: JsonV) -> Seq<(Seq<char>, JsonV)> {
    let e = set_entry(obj_entries(rec), "kind"@, tstr("work"@));
    remove_key(remove_key(remove_key(remove_key(remove_key(remove_key(remove_key(e,
        "id"@), "status"@), "createdAt"@), "updatedAt"@), "effectiveStatus"@), "blockedBy"@), "ready"@)
}

/// The object stored for a work record.
pub fn work_store_meta(record: &Json) -> (r: Json)
    ensures
        r@ == JsonV::Object(work_store_entries(record@)),
{
    let mut e = entries_copy(record);
    set_entry_exec(&mut e, "kind", Json::text("work"));
    remove_entry_exec(&mut e, "id");
    remove_entry_exec(&mut e, "status");
    remove_entry_exec(&mut e, "createdAt");
    remove_entry_exec(&mut e, "updatedAt");
    remove_entry_exec(&mut e, "effectiveStatus");
    remove_entry_exec(&mut e, "blockedBy");
    remove_entry_exec(&mut e, "ready");
    object_of(e)
}

/// The status a work update sets: the request's, else the item's, else
/// `pending`.
pub open spec fn work_next_status(existing: JsonV, p: JsonV) -> Seq<char> {
    match get_text(p, "status"@) {
        Some(s) => s,
        None => text_or_default(existing, "status"@, "pending"@),
    }
}

/// `e` with `key` set when `v` is present.
pub open spec fn set_if(e: Seq<(Seq<char>, JsonV)>, key: Seq<char>, v: Option<JsonV>) -> Seq<(Seq<char>, JsonV)> {
    match v {
        Some(x) => set_entry(e, key, x),
        None => e,
    }
}

/// `clamp(v, lo, hi)` on `i64`.
pub open spec fn clamp_i64(v: i64, lo: i64, hi: i64) -> i64 {
    if v < lo { lo } else if v > hi { hi } else { v }
}

/// A work item updated by a request: title, description, type, priority
/// (kept between 0 and 3) and summary as given, the new status, without the
/// derived fields.
pub open spec fn updated_work(existing: JsonV, p: JsonV) -> JsonV {
    match existing {
        JsonV::Object(e) => {
            let e6 = set_entry(work_fields_applied(e, p), "status"@, tstr(work_next_status(existing, p)));
            JsonV::Object(remove_key(remove_key(remove_key(e6, "effectiveStatus"@), "blockedBy"@), "ready"@))
        },
        _ => existing,
    }
}

/// The request's fields applied to a work item's entries.
pub open spec fn work_fields_applied(e: Seq<(Seq<char>, JsonV)>, p: JsonV) -> Seq<(Seq<char>, JsonV)> {
    let e1 = set_if(e, "title"@, match get_text(p, "title"@) { Some(t) => Some(tstr(t)), None => None });
    let e2 = set_if(e1, "description"@, jget(p, "description"@));
    let e3 = set_if(e2, "type"@, match get_text(p, "type"@) { Some(t) => Some(tstr(t)), None => None });
    let e4 = set_if(e3, "priority"@, match get_int(p, "priority"@) {
        Some(n) => Some(JsonV::Int(clamp_i64(n, 0, 3))),
        None => None,
    });
    set_if(e4, "summary"@, jget(p, "summary"@))
}

fn apply_work_fields(e: &mut Vec<(String, Json)>, payload: &Json)
    ensures
        entries_of(*final(e)) == work_fields_applied(entries_of(*old(e)), payload@),
{
    match payload.get_str("title") {
        Some(t) => { set_entry_exec(e, "title", Json::from_string(t.clone())); },
        None => {},
    }
    match payload.get("description") {
        Some(d) => { set_entry_exec(e, "description", copy_json(d)); },
        None => {},
    }
    match payload.get_str("type") {
        Some(t) => { set_entry_exec(e, "type", Json::from_string(t.clone())); },
        None => {},
    }
    match payload.get_i64("priority") {
        Some(n) => {
            let c = if n < 0 { 0 } else if n > 3 { 3 } else { n };
            set_entry_exec(e, "priority", Json::Int(c));
        },
        None => {},
    }
    match payload.get("summary") {
        Some(d) => { set_entry_exec(e, "summary", copy_json(d)); },
        None => {},
    }
}

/// A work item updated by a request, and the status it now has.
#[verifier::rlimit(40)]
pub fn update_work_record(existing: &Json, payload: &Json) -> (r: (String, Json))
    ensures
        r.0@ == work_next_status(existing@, payload@),
        r.1@ == updated_work(existing@, payload@),
{
    let status = match text_at(payload, "status") {
        Some(s) => s,
        None => text_or_default_exec(existing, "status", "pending"),
    };
    match existing {
        Json::Object(_) => {
            let mut e = entries_copy(existing);
            apply_work_fields(&mut e, payload);
            set_entry_exec(&mut e, "status", Json::from_string(status.clone()));
            remove_entry_exec(&mut e, "effectiveStatus");
            remove_entry_exec(&mut e, "blockedBy");
            remove_entry_exec(&mut e, "ready");
            (status, object_of(e))
        },
        _ => (status, copy_json(existing)),
    }
}

/// The first record with an id.
pub open spec fn first_by_id(records: Seq<JsonV>, id: Seq<char>, i: int) -> Option<JsonV>
    decreases records.len() - i,
{
    if i < 0 || i >= records.len() {
        None
    } else if get_text(records[i], "id"@) == Some(id) {
        Some(records[i])
    } else {
        first_by_id(records, id, i + 1)
    }
}

/// The first record with an id.
pub fn find_record<'a>(records: &'a Vec<Json>, id: &str) -> (r: Option<&'a Json>)
    ensures
        match r {
            Some(j) => first_by_id(items_view(records@, records@.len()), id@, 0) == Some(j@),
            None => first_by_id(items_view(records@, records@.len()), id@, 0) is None,
        },
{
    proof { lemma_array_view(*records); }
    let ghost rv = items_view(records@, records@.len());
    let mut i: usize = 0;
    while i < records.len()
        invariant
            i <= records@.len(),
            rv == items_view(records@, records@.len()),
            rv.len() == records@.len(),
            forall|k: int| 0 <= k < records@.len() ==> #[trigger] rv[k] == records@[k]@,
            first_by_id(rv, id@, 0) == first_by_id(rv, id@, i as int),
        decreases records.len() - i,
    {
        assert(rv[i as int] == records@[i as int]@);
        let hit = match records[i].get_str("id") {
            Some(t) => crate::text::str_eq(t.as_str(), id),
            None => false,
        };
        if hit {
            return Some(&records[i]);
        }
        i += 1;
    }
    None
}

/// Whether a work item passes a listing's filters: status (effective or
/// stored), type, and tag.
pub open spec fn work_selected(item: JsonV, p: JsonV) -> bool {
    &&& (match get_text(p, "status"@) {
        Some(st) => get_text(item, "effectiveStatus"@) == Some(st) || get_text(item, "status"@) == Some(st),
        None => true,
    })
    &&& (match get_text(p, "type"@) {
        Some(ty) => get_text(item, "type"@) == Some(ty),
        None => true,
    })
    &&& (match get_text(p, "tag"@) {
        Some(tag) => match jget(item, "tags"@) {
            Some(JsonV::Array(tags)) => exists|i: int| 0 <= i < tags.len() && as_text(#[trigger] tags[i]) == Some(tag),
            _ => false,
        },
        None => true,
    })
}

fn has_tag(item: &Json, tag: &str) -> (r: bool)
    ensures
        r == match jget(item@, "tags"@) {
            Some(JsonV::Array(tags)) => exists|i: int| 0 <= i < tags.len() && as_text(#[trigger] tags[i]) == Some(tag@),
            _ => false,
        },
{
    let tags = match item.get("tags") {
        Some(t) => match t.as_array() {
            Some(a) => a,
            None => { return false; },
        },
        None => { return false; },
    };
    proof { lemma_array_view(*tags); }
    let ghost tv = items_view(tags@, tags@.len());
    assert(jget(item@, "tags"@) == Some(JsonV::Array(tv)));
    let mut i: usize = 0;
    while i < tags.len()
        invariant
            jget(item@, "tags"@) == Some(JsonV::Array(tv)),
            i <= tags@.len(),
            tv.len() == tags@.len(),
            forall|k: int| 0 <= k < tags@.len() ==> #[trigger] tv[k] == tags@[k]@,
            forall|k: int| 0 <= k < i ==> as_text(#[trigger] tv[k]) != Some(tag@),
            tv == items_view(tags@, tags@.len()),
        decreases tags.len() - i,
    {
        assert(tv[i as int] == tags@[i as int]@);
        match tags[i].as_str() {
            Some(t) => if crate::text::str_eq(t.as_str(), tag) {
                assert(as_text(tv[i as int]) == Some(tag@));
                return true;
            },
            None => {},
        }
        i += 1;
    }
    false
}

/// Whether a work item passes a listing's filters.
pub fn work_item_selected(item: &Json, payload: &Json) -> (r: bool)
    ensures
        r == work_selected(item@, payload@),
{
    match payload.get_str("status") {
        Some(st) => {
            let eff = match item.get_str("effectiveStatus") {
                Some(e) => crate::text::str_eq(e.as_str(), st.as_str()),
                None => false,
            };
            let raw = match item.get_str("status") {
                Some(e) => crate::text::str_eq(e.as_str(), st.as_str()),
                None => false,
            };
            if !(eff || raw) {
                return false;
            }
        },
        None => {},
    }
    match payload.get_str("type") {
        Some(ty) => {
            let ok = match item.get_str("type") {
                Some(e) => crate::text::str_eq(e.as_str(), ty.as_str()),
                None => false,
            };
            if !ok {
                return false;
            }
        },
        None => {},
    }
    match payload.get_str("tag") {
        Some(tag) => has_tag(item, tag.as_str()),
        None => true,
    }
}

/// The rank of a work item in a listing: active items first, then ready
/// ones, then by priority (2 when unset), then the most recently updated.
pub open spec fn work_rank(item: JsonV) -> Seq<i128> {
    seq![
        if get_text(item, "effectiveStatus"@) == Some("active"@) { 0i128 } else { 1i128 },
        if get_flag(item, "ready"@) == Some(true) { 0i128 } else { 1i128 },
        int_or(item, "priority"@, 2) as i128,
        (-(int_or(item, "updatedAt"@, 0) as int)) as i128,
    ]
}

/// Whether work item `a` is listed before `b`, by the key (not active,
/// not ready, priority (2 when unset), newest update first) compared
/// component by component.
pub open spec fn work_before(a: JsonV, b: JsonV) -> bool {
    let ka = if get_text(a, "effectiveStatus"@) == Some("active"@) { 0int } else { 1int };
    let kb = if get_text(b, "effectiveStatus"@) == Some("active"@) { 0int } else { 1int };
    let ra = if get_flag(a, "ready"@) == Some(true) { 0int } else { 1int };
    let rb = if get_flag(b, "ready"@) == Some(true) { 0int } else { 1int };
    let pa = int_or(a, "priority"@, 2) as int;
    let pb = int_or(b, "priority"@, 2) as int;
    let ua = int_or(a, "updatedAt"@, 0) as int;
    let ub = int_or(b, "updatedAt"@, 0) as int;
    ||| ka < kb
    ||| ka == kb && ra < rb
    ||| ka == kb && ra == rb && pa < pb
    ||| ka == kb && ra == rb && pa == pb && ua > ub
}

/// The work listing's order is that key order, and a strict total order on
/// keys: no item comes before itself or both before and after another,
/// it is transitive, and of two items with different keys one comes first.
pub proof fn lemma_work_order(a: JsonV, b: JsonV, c: JsonV)
    ensures
        crate::order::rank_lt(work_rank(a), work_rank(b)) <==> work_before(a, b),
        !work_before(a, a),
        !(work_before(a, b) && work_before(b, a)),
        work_before(a, b) && work_before(b, c) ==> work_before(a, c),
        work_before(a, b) || work_before(b, a) || work_rank(a) == work_rank(b),
{
    reveal_with_fuel(crate::order::rank_lt_from, 5);
    let (x, y) = (work_rank(a), work_rank(b));
    assert(x.len() == 4 && y.len() == 4);
    if work_rank(a)[0] == work_rank(b)[0] && work_rank(a)[1] == work_rank(b)[1]
        && work_rank(a)[2] == work_rank(b)[2] && work_rank(a)[3] == work_rank(b)[3] {
        assert(work_rank(a) =~= work_rank(b));
    }
}

/// The rank of a work item in a listing.
pub fn work_rank_exec(item: &Json) -> (r: Vec<i128>)
    ensures
        r@ == work_rank(item@),
{
    proof { reveal_strlit("active"); }
    let active = match item.get_str("effectiveStatus") {
        Some(t) => crate::text::str_eq(t.as_str(), "active"),
        None => false,
    };
    let ready = match item.get_bool("ready") {
        Some(b) => b,
        None => false,
    };
    let priority: i64 = match item.get_i64("priority") { Some(n) => n, None => 2 };
    let updated: i64 = match item.get_i64("updatedAt") { Some(n) => n, None => 0 };
    let mut r: Vec<i128> = Vec::new();
    r.push(if active { 0 } else { 1 });
    r.push(if ready { 0 } else { 1 });
    r.push(priority as i128);
    r.push(-(updated as i128));
    assert(r@ =~= work_rank(item@));
    r
}

/// The items among the first `n` that pass a listing's filters, in order.
pub open spec fn select_work(items: Seq<JsonV>, p: JsonV, n: nat) -> Seq<JsonV>
    decreases n,
{
    if n == 0 || n > items.len() {
        Seq::empty()
    } else {
        let prev = select_work(items, p, (n - 1) as nat);
        if work_selected(items[n - 1], p) {
            prev.push(items[n - 1])
        } else {
            prev
        }
    }
}

/// Every stored work record with its effective status.
pub open spec fn all_materialized(records: Seq<JsonV>) -> Seq<JsonV> {
    Seq::new(records.len(), |i: int| materialized(records[i], records))
}

/// The work items paired with their ranks.
pub open spec fn work_ranked(items: Seq<JsonV>) -> Seq<(Seq<i128>, JsonV)> {
    items.map_values(|x: JsonV| (work_rank(x), x))
}

/// A work listing: the records with their effective status, those passing
/// the filters, ordered by rank (equal ranks keep their stored order), at
/// most `limit` of them (all by default, kept between 1 and 5000).
pub open spec fn listed_work(records: Seq<JsonV>, p: JsonV) -> Seq<JsonV> {
    let sel = select_work(all_materialized(records), p, records.len());
    let sorted = items_of(rank_sorted(work_ranked(sel), sel.len()));
    first_n(sorted, clamp_i64(int_or(p, "limit"@, sel.len() as i64), 1, 5000) as int)
}

/// The views of a list of values.
pub open spec fn json_views(v: Seq<Json>) -> Seq<JsonV> {
    v.map_values(|j: Json| j@)
}

proof fn lemma_items_view_is_map(v: Seq<Json>)
    ensures
        items_view(v, v.len()) == json_views(v),
{
    crate::json::lemma_items_view(v, v.len());
    assert(items_view(v, v.len()) =~= json_views(v));
}

/// The stored work item an update request names: its `id` must be a
/// non-empty text, and a record must have it.
pub open spec fn work_update_target_of(records: Seq<JsonV>, p: JsonV) -> Result<JsonV, Seq<char>> {
    match get_text(p, "id"@) {
        Some(id) => if id.len() == 0 {
            Err("work item id is required"@)
        } else {
            match first_by_id(records, id, 0) {
                Some(r) => Ok(r),
                None => Err("Work item not found: "@ + id),
            }
        },
        None => Err("work item id is required"@),
    }
}

/// The stored work item an update request names, or why there is none.
pub fn work_update_target<'a>(records: &'a Vec<Json>, payload: &Json) -> (r: Result<&'a Json, String>)
    ensures
        match work_update_target_of(items_view(records@, records@.len()), payload@) {
            Ok(j) => r is Ok && r->Ok_0@ == j,
            Err(m) => r is Err && r->Err_0@ == m,
        },
{
    let id = match payload.get_str("id") {
        Some(t) => t,
        None => {
            return Err(owned("work item id is required"));
        },
    };
    if chars_of(id.as_str()).len() == 0 {
        return Err(owned("work item id is required"));
    }
    match find_record(records, id.as_str()) {
        Some(j) => Ok(j),
        None => {
            let mut m: Vec<char> = Vec::new();
            append_str(&mut m, "Work item not found: ");
            append_str(&mut m, id.as_str());
            Err(string_from_chars(&m))
        },
    }
}

/// Lists work items: each record with its effective status, filtered by the
/// request's status, type and tag, ordered by rank, and limited.
pub fn list_work_items(records: &Vec<Json>, payload: &Json) -> (r: Vec<Json>)
    requires
        records@.len() < i64::MAX,
    ensures
        json_views(r@) == listed_work(json_views(records@), payload@),
{
    proof { lemma_items_view_is_map(records@); }
    let ghost rv = json_views(records@);
    let ghost mats = all_materialized(rv);
    let mut ranked: Vec<(Vec<i128>, Json)> = Vec::new();
    let mut i: usize = 0;
    while i < records.len()
        invariant
            i <= records@.len(),
            rv == json_views(records@),
            rv == items_view(records@, records@.len()),
            mats == all_materialized(rv),
            map_items(ranked_view(ranked@), |j: Json| j@) == work_ranked(select_work(mats, payload@, i as nat)),
            ranked@.len() <= i,
        decreases records.len() - i,
    {
        let m = materialize_work(&records[i], records);
        assert(m@ == mats[i as int]);
        let ghost before = map_items(ranked_view(ranked@), |j: Json| j@);
        if work_item_selected(&m, payload) {
            let key = work_rank_exec(&m);
            let ghost mv = m@;
            ranked.push((key, m));
            assert(map_items(ranked_view(ranked@), |j: Json| j@) =~= before.push((work_rank(mv), mv)));
            assert(work_ranked(select_work(mats, payload@, (i + 1) as nat)) =~= work_ranked(select_work(mats, payload@, i as nat)).push((work_rank(mv), mv)));
        } else {
            assert(select_work(mats, payload@, (i + 1) as nat) == select_work(mats, payload@, i as nat));
        }
        i += 1;
    }
    let ghost sel = select_work(mats, payload@, rv.len());
    let ghost rk = ranked_view(ranked@);
    let n = ranked.len();
    assert(sel.len() == n) by {
        assert(work_ranked(sel).len() == sel.len());
    }
    let limit: i64 = match payload.get_i64("limit") {
        Some(l) => l,
        None => n as i64,
    };
    let lim: i64 = if limit < 1 { 1 } else if limit > 5000 { 5000 } else { limit };
    let sorted = sort_by_rank(ranked);
    proof {
        lemma_rank_sorted_map(rk, n as nat, |j: Json| j@);
    }
    let out = take_items(sorted, lim as usize);
    proof {
        let sv = ranked_view(sorted@);
        assert(json_views(items_of(sv)) =~= items_of(map_items(sv, |j: Json| j@)));
        assert(json_views(out@) =~= first_n(json_views(items_of(sv)), lim as int));
    }
    out
}


// ---------------------------------------------------------------------------
// Sorted sets of strings
// ---------------------------------------------------------------------------

/// The order of `String`: lexicographic by character (code point).
pub open spec fn text_lt(a: Seq<char>, b: Seq<char>) -> bool
    decreases a.len(),
{
    if a.len() == 0 {
        b.len() > 0
    } else if b.len() == 0 {
        false
    } else if a[0] == b[0] {
        text_lt(a.drop_first(), b.drop_first())
    } else {
        (a[0] as int) < (b[0] as int)
    }
}

/// No text is below itself.
pub proof fn lemma_text_lt_irreflexive(a: Seq<char>)
    ensures
        !text_lt(a, a),
    decreases a.len(),
{
    if a.len() > 0 {
        lemma_text_lt_irreflexive(a.drop_first());
    }
}

/// Of two different texts, one is below the other.
pub proof fn lemma_text_lt_total(a: Seq<char>, b: Seq<char>)
    requires
        a != b,
    ensures
        text_lt(a, b) || text_lt(b, a),
    decreases a.len(),
{
    if a.len() > 0 && b.len() > 0 && a[0] == b[0] {
        if a.drop_first() == b.drop_first() {
            assert(a =~= seq![a[0]] + a.drop_first());
            assert(b =~= seq![b[0]] + b.drop_first());
        }
        lemma_text_lt_total(a.drop_first(), b.drop_first());
    } else if a.len() == 0 && b.len() == 0 {
        assert(a =~= b);
    } else if a.len() > 0 && b.len() > 0 {
        assert(a[0] != b[0]);
        assert((a[0] as int) != (b[0] as int));
    }
}

/// The order of texts is transitive.
pub proof fn lemma_text_lt_transitive(a: Seq<char>, b: Seq<char>, c: Seq<char>)
    requires
        text_lt(a, b),
        text_lt(b, c),
    ensures
        text_lt(a, c),
    decreases a.len(),
{
    if a.len() > 0 && b.len() > 0 && c.len() > 0 && a[0] == b[0] && b[0] == c[0] {
        lemma_text_lt_transitive(a.drop_first(), b.drop_first(), c.drop_first());
    }
}

proof fn lemma_sorted_tail_set(s: Seq<Seq<char>>)
    requires
        strictly_sorted(s),
        s.len() > 0,
    ensures
        strictly_sorted(s.drop_first()),
        s.drop_first().to_set() == s.to_set().remove(s[0]),
{
    let t = s.drop_first();
    assert forall|i: int, j: int| 0 <= i < j < t.len() implies text_lt(#[trigger] t[i], #[trigger] t[j]) by {
        assert(t[i] == s[i + 1] && t[j] == s[j + 1]);
    }
    assert forall|x: Seq<char>| t.to_set().contains(x) <==> s.to_set().remove(s[0]).contains(x) by {
        if t.contains(x) {
            let i = choose|i: int| 0 <= i < t.len() && t[i] == x;
            assert(s[i + 1] == x);
            assert(text_lt(s[0], s[i + 1]));
            lemma_text_lt_irreflexive(s[0]);
        }
        if s.contains(x) && x != s[0] {
            let i = choose|i: int| 0 <= i < s.len() && s[i] == x;
            assert(i > 0);
            assert(t[i - 1] == x);
        }
    }
    assert(t.to_set() =~= s.to_set().remove(s[0]));
}

/// A sorted set of texts is determined by its elements: two strictly
/// increasing lists with the same elements are the same list.
pub proof fn lemma_sorted_set_unique(a: Seq<Seq<char>>, b: Seq<Seq<char>>)
    requires
        strictly_sorted(a),
        strictly_sorted(b),
        a.to_set() == b.to_set(),
    ensures
        a == b,
    decreases a.len(),
{
    if a.len() == 0 {
        if b.len() > 0 {
            assert(b.to_set().contains(b[0]));
        }
        assert(a =~= b);
    } else {
        assert(a.to_set().contains(a[0]));
        assert(b.contains(a[0]));
        let j = choose|j: int| 0 <= j < b.len() && b[j] == a[0];
        assert(b.to_set().contains(b[0]));
        assert(a.contains(b[0]));
        let k = choose|k: int| 0 <= k < a.len() && a[k] == b[0];
        if j > 0 {
            assert(text_lt(b[0], b[j]));
            if k > 0 {
                assert(text_lt(a[0], a[k]));
                lemma_text_lt_transitive(a[0], b[0], a[0]);
            }
            lemma_text_lt_irreflexive(a[0]);
        }
        assert(a[0] == b[0]);
        lemma_sorted_tail_set(a);
        lemma_sorted_tail_set(b);
        lemma_sorted_set_unique(a.drop_first(), b.drop_first());
        assert(a =~= seq![a[0]] + a.drop_first());
        assert(b =~= seq![b[0]] + b.drop_first());
    }
}

/// Whether a text comes before another.
pub fn text_less(a: &Vec<char>, b: &Vec<char>) -> (r: bool)
    ensures
        r == text_lt(a@, b@),
{
    let mut i: usize = 0;
    assert(a@.subrange(0, a@.len() as int) =~= a@);
    assert(b@.subrange(0, b@.len() as int) =~= b@);
    assert(a@.subrange(0, 0) =~= b@.subrange(0, 0));
    while i < a.len() && i < b.len() && a[i] == b[i]
        invariant
            i <= a@.len(),
            i <= b@.len(),
            a@.subrange(0, i as int) == b@.subrange(0, i as int),
            text_lt(a@, b@) == text_lt(a@.subrange(i as int, a@.len() as int), b@.subrange(i as int, b@.len() as int)),
        decreases a.len() - i,
    {
        let ghost sa = a@.subrange(i as int, a@.len() as int);
        let ghost sb = b@.subrange(i as int, b@.len() as int);
        assert(sa.drop_first() =~= a@.subrange(i + 1, a@.len() as int));
        assert(sb.drop_first() =~= b@.subrange(i + 1, b@.len() as int));
        assert(a@.subrange(0, i + 1) =~= a@.subrange(0, i as int).push(a@[i as int]));
        assert(b@.subrange(0, i + 1) =~= b@.subrange(0, i as int).push(b@[i as int]));
        i += 1;
    }
    if i == a.len() {
        i < b.len()
    } else if i == b.len() {
        false
    } else {
        a[i] < b[i]
    }
}

/// Whether a list is strictly increasing.
pub open spec fn strictly_sorted(s: Seq<Seq<char>>) -> bool {
    forall|i: int, j: int| 0 <= i < j < s.len() ==> text_lt(#[trigger] s[i], #[trigger] s[j])
}

/// Inserts a text into a strictly increasing list unless it is there (a
/// `BTreeSet` insertion).
pub fn sorted_insert(v: &mut Vec<String>, x: String)
    requires
        strictly_sorted(views(old(v)@)),
    ensures
        strictly_sorted(views(final(v)@)),
        views(final(v)@).to_set() == views(old(v)@).to_set().insert(x@),
{
    let ghost old_v = views(v@);
    let xc = chars_of(x.as_str());
    let mut k: usize = 0;
    while k < v.len() && text_less(&chars_of(v[k].as_str()), &xc)
        invariant
            k <= v@.len(),
            views(v@) == old_v,
            xc@ == x@,
            forall|m: int| 0 <= m < k ==> text_lt(#[trigger] old_v[m], x@),
        decreases v.len() - k,
    {
        k += 1;
    }
    if k < v.len() && crate::text::chars_eq(&chars_of(v[k].as_str()), &xc) {
        assert(old_v[k as int] == x@);
        assert(old_v.to_set().insert(x@) =~= old_v.to_set());
        return;
    }
    proof {
        if k < v@.len() {
            assert(!text_lt(old_v[k as int], x@));
            assert(old_v[k as int] != x@);
            lemma_text_lt_total(old_v[k as int], x@);
        }
    }
    v.insert(k, x);
    let ghost nv = views(v@);
    assert(nv =~= old_v.subrange(0, k as int).push(x@) + old_v.subrange(k as int, old_v.len() as int));
    assert forall|i: int, j: int| 0 <= i < j < nv.len() implies text_lt(#[trigger] nv[i], #[trigger] nv[j]) by {
        if j < k {
            assert(nv[i] == old_v[i] && nv[j] == old_v[j]);
        } else if j == k {
            assert(nv[i] == old_v[i]);
        } else if i == k {
            assert(nv[j] == old_v[j - 1]);
            if j - 1 > k {
                assert(text_lt(old_v[k as int], old_v[j - 1]));
                lemma_text_lt_transitive(x@, old_v[k as int], old_v[j - 1]);
            }
        } else if i < k {
            assert(nv[i] == old_v[i] && nv[j] == old_v[j - 1]);
        } else {
            assert(nv[i] == old_v[i - 1] && nv[j] == old_v[j - 1]);
        }
    }
    assert forall|y: Seq<char>| nv.to_set().contains(y) <==> old_v.to_set().insert(x@).contains(y) by {
        if nv.to_set().contains(y) {
            let i = choose|i: int| 0 <= i < nv.len() && nv[i] == y;
            if i < k {
                assert(old_v[i] == y);
            } else if i > k {
                assert(old_v[i - 1] == y);
            }
        }
        if old_v.to_set().contains(y) {
            let i = choose|i: int| 0 <= i < old_v.len() && old_v[i] == y;
            if i < k {
                assert(nv[i] == y);
            } else {
                assert(nv[i + 1] == y);
            }
        }
        if y == x@ {
            assert(nv[k as int] == y);
        }
    }
    assert(nv.to_set() =~= old_v.to_set().insert(x@));
}

// ---------------------------------------------------------------------------
// Subjects
// ---------------------------------------------------------------------------

/// The pieces of a text between commas (`split(',')`): finished pieces and
/// the piece under way after the first `n` characters.
pub open spec fn comma_fold(s: Seq<char>, n: nat) -> (Seq<Seq<char>>, Seq<char>)
    decreases n,
{
    if n == 0 || n > s.len() {
        (Seq::empty(), Seq::empty())
    } else {
        let (done, cur) = comma_fold(s, (n - 1) as nat);
        if s[n - 1] == ',' {
            (done.push(cur), Seq::empty())
        } else {
            (done, cur.push(s[n - 1]))
        }
    }
}

/// The pieces of a text between commas.
pub open spec fn comma_pieces(s: Seq<char>) -> Seq<Seq<char>> {
    let (done, cur) = comma_fold(s, s.len());
    done.push(cur)
}

/// The trimmed, non-empty texts of a list.
pub open spec fn trimmed_filled(s: Seq<Seq<char>>) -> Seq<Seq<char>>
    decreases s.len(),
{
    if s.len() == 0 {
        s
    } else if trim(s.last()).len() > 0 {
        trimmed_filled(s.drop_last()).push(trim(s.last()))
    } else {
        trimmed_filled(s.drop_last())
    }
}

/// The strings a tag value lists: the texts of an array, or the
/// comma-separated parts of a text, trimmed and non-empty.
pub open spec fn listed_strings(v: JsonV) -> Seq<Seq<char>> {
    match v {
        JsonV::Array(items) => trimmed_filled(raw_texts(items)),
        JsonV::Str(t, _) => trimmed_filled(comma_pieces(t)),
        _ => Seq::empty(),
    }
}

/// The candidate strings of a list field: from the request when it has the
/// field, else from the stored record.
pub open spec fn listed_candidates(primary: Option<JsonV>, fallback: Option<JsonV>) -> Seq<Seq<char>> {
    match primary {
        Some(v) => listed_strings(v),
        None => match fallback {
            Some(v) => listed_strings(v),
            None => Seq::empty(),
        },
    }
}

fn raw_items_texts(items: &Vec<Json>) -> (r: Vec<String>)
    ensures
        views(r@) == raw_texts(items_view(items@, items@.len())),
{
    proof { lemma_array_view(*items); }
    let ghost iv = items_view(items@, items@.len());
    let mut out: Vec<String> = Vec::new();
    let mut i: usize = 0;
    while i < items.len()
        invariant
            i <= items@.len(),
            iv == items_view(items@, items@.len()),
            iv.len() == items@.len(),
            forall|k: int| 0 <= k < items@.len() ==> #[trigger] iv[k] == items@[k]@,
            views(out@) == raw_texts(iv.subrange(0, i as int)),
        decreases items.len() - i,
    {
        assert(iv.subrange(0, i + 1).drop_last() =~= iv.subrange(0, i as int));
        assert(iv[i as int] == items@[i as int]@);
        match items[i].as_str() {
            Some(t) => {
                let ghost before = views(out@);
                out.push(t.clone());
                assert(views(out@) =~= before.push(t@));
            },
            None => {},
        }
        i += 1;
    }
    assert(iv.subrange(0, iv.len() as int) =~= iv);
    out
}

fn comma_split(t: &String) -> (r: Vec<String>)
    ensures
        views(r@) == comma_pieces(t@),
{
    let v = chars_of(t.as_str());
    let mut out: Vec<String> = Vec::new();
    let mut cur: Vec<char> = Vec::new();
    let mut i: usize = 0;
    while i < v.len()
        invariant
            i <= v@.len(),
            v@ == t@,
            (views(out@), cur@) == comma_fold(v@, i as nat),
        decreases v.len() - i,
    {
        if v[i] == ',' {
            let ghost before = views(out@);
            out.push(string_from_chars(&cur));
            assert(views(out@) =~= before.push(cur@));
            cur = Vec::new();
        } else {
            cur.push(v[i]);
        }
        i += 1;
    }
    let ghost before = views(out@);
    out.push(string_from_chars(&cur));
    assert(views(out@) =~= before.push(cur@));
    out
}

fn trim_filter(list: &Vec<String>) -> (r: Vec<String>)
    ensures
        views(r@) == trimmed_filled(views(list@)),
{
    let ghost lv = views(list@);
    let mut out: Vec<String> = Vec::new();
    let mut i: usize = 0;
    while i < list.len()
        invariant
            i <= list@.len(),
            lv == views(list@),
            views(out@) == trimmed_filled(lv.subrange(0, i as int)),
        decreases list.len() - i,
    {
        assert(lv.subrange(0, i + 1).drop_last() =~= lv.subrange(0, i as int));
        let t = trim_str(list[i].as_str());
        if chars_of(t.as_str()).len() > 0 {
            let ghost before = views(out@);
            out.push(t);
            assert(views(out@) =~= before.push(trim(lv[i as int])));
        }
        i += 1;
    }
    assert(lv.subrange(0, lv.len() as int) =~= lv);
    out
}

fn listed_strings_exec(v: &Json) -> (r: Vec<String>)
    ensures
        views(r@) == listed_strings(v@),
{
    match v {
        Json::Array(items) => {
            proof { lemma_array_view(*items); }
            trim_filter(&raw_items_texts(items))
        },
        Json::Str(t, _) => trim_filter(&comma_split(t)),
        _ => Vec::new(),
    }
}

/// A list field as stored: its distinct strings in order (a sorted set).
pub fn normalize_str_list(primary: Option<&Json>, fallback: Option<&Json>) -> (r: Vec<String>)
    ensures
        strictly_sorted(views(r@)),
        views(r@).to_set() == listed_candidates(
            match primary { Some(j) => Some(j@), None => None },
            match fallback { Some(j) => Some(j@), None => None },
        ).to_set(),
{
    let cands: Vec<String> = match primary {
        Some(p) => listed_strings_exec(p),
        None => match fallback {
            Some(f) => listed_strings_exec(f),
            None => Vec::new(),
        },
    };
    let ghost cv = views(cands@);
    let mut out: Vec<String> = Vec::new();
    let mut i: usize = 0;
    assert(views(out@).to_set() =~= cv.subrange(0, 0).to_set());
    while i < cands.len()
        invariant
            i <= cands@.len(),
            cv == views(cands@),
            strictly_sorted(views(out@)),
            views(out@).to_set() == cv.subrange(0, i as int).to_set(),
        decreases cands.len() - i,
    {
        sorted_insert(&mut out, cands[i].clone());
        assert(cv.subrange(0, i + 1) =~= cv.subrange(0, i as int).push(cv[i as int]));
        proof {
            cv.subrange(0, i as int).lemma_push_to_set_commute(cv[i as int]);
        }
        i += 1;
    }
    assert(cv.subrange(0, cv.len() as int) =~= cv);
    out
}

/// An attribute's trimmed key or value text.
pub open spec fn attr_text(item: JsonV, key: Seq<char>) -> Seq<char> {
    trim(text_or_default(item, key, Seq::empty()))
}

/// The distinct non-empty attributes of the first `n` items, and the
/// `key::value` texts seen.
pub open spec fn attrs_fold(items: Seq<JsonV>, n: nat) -> (Seq<JsonV>, Set<Seq<char>>)
    decreases n,
{
    if n == 0 || n > items.len() {
        (Seq::empty(), Set::empty())
    } else {
        let (out, seen) = attrs_fold(items, (n - 1) as nat);
        let k = attr_text(items[n - 1], "key"@);
        let v = attr_text(items[n - 1], "value"@);
        let d = k + "::"@ + v;
        if k.len() == 0 && v.len() == 0 {
            (out, seen)
        } else if seen.contains(d) {
            (out, seen)
        } else {
            (out.push(JsonV::Object(seq![("key"@, tstr(k)), ("value"@, tstr(v))])), seen.insert(d))
        }
    }
}

/// The attributes to store: trimmed key and value pairs, blank ones dropped,
/// repeats (by `key::value`) dropped.
pub open spec fn attributes_of(input: Option<JsonV>) -> Seq<JsonV> {
    match input {
        Some(JsonV::Array(items)) => attrs_fold(items, items.len()).0,
        _ => Seq::empty(),
    }
}

fn trimmed_text_at(item: &Json, key: &str) -> (r: String)
    ensures
        r@ == trim(text_or_default(item@, key@, Seq::empty())),
{
    match item.get_str(key) {
        Some(t) => trim_str(t.as_str()),
        None => {
            assert(trim(Seq::<char>::empty()) =~= Seq::<char>::empty());
            String::new()
        },
    }
}

/// The texts of a list of character vectors.
pub open spec fn char_views(v: Seq<Vec<char>>) -> Seq<Seq<char>> {
    v.map_values(|c: Vec<char>| c@)
}

/// The attributes to store.
pub fn normalize_attributes(input: Option<&Json>) -> (r: Json)
    ensures
        r@ == JsonV::Array(attributes_of(match input { Some(j) => Some(j@), None => None })),
{
    let items = match input {
        Some(j) => match j.as_array() {
            Some(a) => a,
            None => { return empty_array(); },
        },
        None => { return empty_array(); },
    };
    proof { lemma_array_view(*items); }
    let ghost iv = items_view(items@, items@.len());
    assert(attributes_of(match input { Some(j) => Some(j@), None => None }) == attrs_fold(iv, iv.len()).0);
    let mut seen: Vec<Vec<char>> = Vec::new();
    assert(char_views(seen@).to_set() =~= Set::<Seq<char>>::empty());
    let mut out: Vec<Json> = Vec::new();
    let mut i: usize = 0;
    while i < items.len()
        invariant
            i <= items@.len(),
            iv == items_view(items@, items@.len()),
            iv.len() == items@.len(),
            forall|k: int| 0 <= k < items@.len() ==> #[trigger] iv[k] == items@[k]@,
            out@.len() == attrs_fold(iv, i as nat).0.len(),
            forall|m: int| 0 <= m < out@.len() ==> (#[trigger] out@[m])@ == attrs_fold(iv, i as nat).0[m],
            char_views(seen@).to_set() == attrs_fold(iv, i as nat).1,
        decreases items.len() - i,
    {
        assert(iv[i as int] == items@[i as int]@);
        let k = trimmed_text_at(&items[i], "key");
        let v = trimmed_text_at(&items[i], "value");
        let kc = chars_of(k.as_str());
        let vc = chars_of(v.as_str());
        if kc.len() == 0 && vc.len() == 0 {
            i += 1;
            continue;
        }
        let mut d = kc.clone();
        append_str(&mut d, "::");
        append_chars_local(&mut d, &vc);
        let mut found = false;
        let mut j: usize = 0;
        while j < seen.len()
            invariant
                j <= seen@.len(),
                found ==> char_views(seen@).to_set().contains(d@),
                !found ==> forall|m: int| 0 <= m < j ==> seen@[m]@ != d@,
            decreases seen.len() - j,
        {
            if crate::text::chars_eq(&seen[j], &d) {
                assert(char_views(seen@)[j as int] == d@);
                found = true;
            }
            j += 1;
        }
        if !found {
            assert(!char_views(seen@).to_set().contains(d@)) by {
                if char_views(seen@).to_set().contains(d@) {
                    let m = choose|m: int| 0 <= m < seen@.len() && #[trigger] char_views(seen@)[m] == d@;
                    assert(seen@[m]@ == d@);
                }
            }
            let ghost before = char_views(seen@);
            seen.push(d);
            assert(char_views(seen@) =~= before.push(d@));
            proof {
                before.lemma_push_to_set_commute(d@);
            }
            out.push(obj2("key", Json::from_string(k), "value", Json::from_string(v)));
        }
        i += 1;
    }
    let ghost ov = out@;
    let r = array_of(out);
    assert(items_view(ov, ov.len()) =~= attrs_fold(iv, iv.len()).0);
    r
}

fn append_chars_local(a: &mut Vec<char>, b: &Vec<char>)
    ensures
        final(a)@ == old(a)@ + b@,
{
    crate::text::append_chars(a, b)
}

/// The image path of an image item: its `relativePath`, else its `name`,
/// trimmed, when not empty.
pub open spec fn image_item_path(img: JsonV) -> Option<Seq<char>> {
    match or_text(get_text(img, "relativePath"@), get_text(img, "name"@)) {
        Some(t) => non_empty(t),
        None => None,
    }
}

/// The image paths of the first `n` image items.
pub open spec fn image_paths_of(items: Seq<JsonV>, n: nat) -> Seq<Seq<char>>
    decreases n,
{
    if n == 0 || n > items.len() {
        Seq::empty()
    } else {
        let prev = image_paths_of(items, (n - 1) as nat);
        match image_item_path(items[n - 1]) {
            Some(p) => prev.push(p),
            None => prev,
        }
    }
}

/// The image paths a subject request gives.
pub open spec fn image_paths(images: Option<JsonV>) -> Seq<Seq<char>> {
    match images {
        Some(JsonV::Array(items)) => image_paths_of(items, items.len()),
        _ => Seq::empty(),
    }
}

/// The image paths a subject request gives (only paths are kept).
pub fn extract_image_paths(images: Option<&Json>) -> (r: Vec<String>)
    ensures
        views(r@) == image_paths(match images { Some(j) => Some(j@), None => None }),
{
    let mut out: Vec<String> = Vec::new();
    let items = match images {
        Some(j) => match j.as_array() {
            Some(a) => a,
            None => { return out; },
        },
        None => { return out; },
    };
    proof { lemma_array_view(*items); }
    let ghost iv = items_view(items@, items@.len());
    let mut i: usize = 0;
    while i < items.len()
        invariant
            i <= items@.len(),
            iv.len() == items@.len(),
            forall|k: int| 0 <= k < items@.len() ==> #[trigger] iv[k] == items@[k]@,
            views(out@) == image_paths_of(iv, i as nat),
        decreases items.len() - i,
    {
        assert(iv[i as int] == items@[i as int]@);
        let img = &items[i];
        let raw = match img.get_str("relativePath") {
            Some(t) => Some(t),
            None => img.get_str("name"),
        };
        match raw {
            Some(t) => match non_empty_str(t.as_str()) {
                Some(p) => {
                    let ghost before = views(out@);
                    out.push(p);
                    assert(views(out@) =~= before.push(image_item_path(iv[i as int])->0));
                },
                None => {},
            },
            None => {},
        }
        i += 1;
    }
    out
}

/// A stored subject or category row read back: its metadata object with
/// the kind, the row's id and times.
pub open spec fn row_record(row: JsonV, kind: Seq<char>) -> JsonV {
    let base = obj_entries(json_column(jget(row, "metadata_json"@), JsonV::Object(Seq::empty())));
    JsonV::Object(set_entry(set_entry(set_entry(set_entry(base,
        "kind"@, tstr(kind)),
        "id"@, value_or(row, "id"@, JsonV::Null)),
        "createdAt"@, JsonV::Int(int_or(row, "created_at"@, 0))),
        "updatedAt"@, JsonV::Int(int_or(row, "updated_at"@, 0))))
}

/// A stored subject or category row read back.
pub fn record_from_row(row: &Json, kind: &str) -> (r: Json)
    ensures
        r@ == row_record(row@, kind@),
{
    let meta = parse_json_col(row.get("metadata_json"), &empty_object());
    let mut e = entries_copy(&meta);
    set_entry_exec(&mut e, "kind", Json::text(kind));
    set_entry_exec(&mut e, "id", field_or(row, "id", Json::Null));
    set_entry_exec(&mut e, "createdAt", Json::Int(match row.get_i64("created_at") { Some(n) => n, None => 0 }));
    set_entry_exec(&mut e, "updatedAt", Json::Int(match row.get_i64("updated_at") { Some(n) => n, None => 0 }));
    object_of(e)
}

/// The voice object of a subject request, when it is an object.
pub open spec fn voice_of(p: JsonV) -> Option<JsonV> {
    match jget(p, "voice"@) {
        Some(v) => if v is Object { Some(v) } else { None },
        None => None,
    }
}

/// A text from the request, else from the stored record.
pub open spec fn picked_text(p: JsonV, existing: Option<JsonV>, key: Seq<char>) -> Option<Seq<char>> {
    or_text(get_text(p, key), match existing {
        Some(e) => get_text(e, key),
        None => None,
    })
}

/// The entries of a subject record, given its tags as stored.
pub open spec fn subject_entries(id: Seq<char>, p: JsonV, existing: Option<JsonV>, tags: Seq<Seq<char>>,
    created_at: i64, updated_at: i64) -> Seq<(Seq<char>, JsonV)> {
    let voice = voice_of(p);
    seq![
        ("id"@, tstr(id)),
        ("kind"@, tstr("subject"@)),
        ("name"@, tstr(match picked_text(p, existing, "name"@) { Some(n) => n, None => Seq::empty() })),
        ("categoryId"@, text_or_null(picked_text(p, existing, "categoryId"@))),
        ("description"@, text_or_null(picked_text(p, existing, "description"@))),
        ("tags"@, JsonV::Array(tags.map_values(|t: Seq<char>| tstr(t)))),
        ("attributes"@, JsonV::Array(attributes_of(jget(p, "attributes"@)))),
        ("imagePaths"@, JsonV::Array(image_paths(jget(p, "images"@)).map_values(|t: Seq<char>| tstr(t)))),
        ("voicePath"@, text_or_null(match voice {
            Some(v) => or_text(get_text(v, "relativePath"@), get_text(v, "name"@)),
            None => None,
        })),
        ("voiceScript"@, text_or_null(match voice {
            Some(v) => get_text(v, "scriptText"@),
            None => None,
        })),
        ("createdAt"@, JsonV::Int(created_at)),
        ("updatedAt"@, JsonV::Int(updated_at)),
    ]
}

fn strings_array(v: &Vec<String>) -> (r: Json)
    ensures
        r@ == JsonV::Array(views(v@).map_values(|t: Seq<char>| tstr(t))),
{
    let mut items: Vec<Json> = Vec::new();
    let mut k: usize = 0;
    while k < v.len()
        invariant
            k <= v@.len(),
            items@.len() == k,
            forall|m: int| 0 <= m < k ==> (#[trigger] items@[m])@ == tstr(v@[m]@),
        decreases v.len() - k,
    {
        items.push(Json::from_string(v[k].clone()));
        k += 1;
    }
    let ghost iv = items@;
    let r = array_of(items);
    assert(items_view(iv, iv.len()) =~= views(v@).map_values(|t: Seq<char>| tstr(t)));
    r
}

fn picked_text_exec(p: &Json, existing: Option<&Json>, key: &str) -> (r: Option<String>)
    ensures
        opt_view(r) == picked_text(p@, match existing { Some(e) => Some(e@), None => None }, key@),
{
    match text_at(p, key) {
        Some(t) => Some(t),
        None => match existing {
            Some(e) => text_at(e, key),
            None => None,
        },
    }
}

/// A subject record built from a request (over a stored record when it is
/// updated): name, category and description from the request or the stored
/// record, tags as a sorted set, attributes, image paths, and the voice.
pub fn build_subject_record(id: &str, payload: &Json, existing: Option<&Json>, created_at: i64, updated_at: i64) -> (r: Json)
    ensures
        exists|tags: Seq<Seq<char>>| #![auto]
            strictly_sorted(tags)
            && tags.to_set() == listed_candidates(
                jget(payload@, "tags"@),
                match existing { Some(e) => jget(e@, "tags"@), None => None },
            ).to_set()
            && r@ == JsonV::Object(subject_entries(id@, payload@, match existing { Some(e) => Some(e@), None => None },
                tags, created_at, updated_at)),
{
    let ghost ev = match existing { Some(e) => Some(e@), None => None };
    let name = match picked_text_exec(payload, existing, "name") { Some(n) => n, None => String::new() };
    let category = picked_text_exec(payload, existing, "categoryId");
    let description = picked_text_exec(payload, existing, "description");
    let fallback = match existing { Some(e) => e.get("tags"), None => None };
    let tags = normalize_str_list(payload.get("tags"), fallback);
    let ghost tv = views(tags@);
    let attributes = normalize_attributes(payload.get("attributes"));
    let images = extract_image_paths(payload.get("images"));
    let voice: Option<&Json> = match payload.get("voice") {
        Some(v) => if v.is_object() { Some(v) } else { None },
        None => None,
    };
    let voice_path: Option<String> = match voice {
        Some(v) => match text_at(v, "relativePath") {
            Some(t) => Some(t),
            None => text_at(v, "name"),
        },
        None => None,
    };
    let voice_script: Option<String> = match voice {
        Some(v) => text_at(v, "scriptText"),
        None => None,
    };
    let mut e: Vec<(String, Json)> = Vec::new();
    e.push((owned("id"), Json::text(id)));
    e.push((owned("kind"), Json::text("subject")));
    e.push((owned("name"), Json::from_string(name)));
    e.push((owned("categoryId"), text_or_null_exec(&category)));
    e.push((owned("description"), text_or_null_exec(&description)));
    e.push((owned("tags"), strings_array(&tags)));
    e.push((owned("attributes"), attributes));
    e.push((owned("imagePaths"), strings_array(&images)));
    e.push((owned("voicePath"), text_or_null_exec(&voice_path)));
    e.push((owned("voiceScript"), text_or_null_exec(&voice_script)));
    e.push((owned("createdAt"), Json::Int(created_at)));
    e.push((owned("updatedAt"), Json::Int(updated_at)));
    proof { lemma_entries_view(e@, e@.len()); }
    assert(entries_of(e) =~= subject_entries(id@, payload@, ev, tv, created_at, updated_at));
    object_of(e)
}

/// Whether a text, in lower case, contains the query.
pub open spec fn lower_contains(t: Seq<char>, q: Seq<char>) -> bool {
    contains_seq(unicode_lower(t), q)
}

fn lower_contains_exec(t: &str, q: &str) -> (r: bool)
    ensures
        r == lower_contains(t@, q@),
{
    let l = to_lowercase_str(t);
    crate::text::vec_contains(&chars_of(l.as_str()), &chars_of(q))
}

/// Whether an attribute item matches the query by key or value.
pub open spec fn attr_matches(a: JsonV, q: Seq<char>) -> bool {
    lower_contains(text_or_default(a, "key"@, Seq::empty()), q)
        || lower_contains(text_or_default(a, "value"@, Seq::empty()), q)
}

/// Whether a subject matches a (lower-case) query: by name, description, a
/// tag, or an attribute's key or value, compared in lower case.
pub open spec fn subject_matches(s: JsonV, q: Seq<char>) -> bool {
    ||| (match get_text(s, "name"@) { Some(n) => lower_contains(n, q), None => false })
    ||| (match get_text(s, "description"@) { Some(d) => lower_contains(d, q), None => false })
    ||| (match jget(s, "tags"@) {
        Some(JsonV::Array(tags)) => exists|i: int| 0 <= i < tags.len() && (match as_text(#[trigger] tags[i]) {
            Some(t) => lower_contains(t, q),
            None => false,
        }),
        _ => false,
    })
    ||| (match jget(s, "attributes"@) {
        Some(JsonV::Array(attrs)) => any_attr(attrs, q),
        _ => false,
    })
}

/// Whether any attribute item matches the query.
pub open spec fn any_attr(attrs: Seq<JsonV>, q: Seq<char>) -> bool {
    exists|i: int| 0 <= i < attrs.len() && attr_matches(#[trigger] attrs[i], q)
}

fn any_tag_matches(tags: &Vec<Json>, q: &str) -> (r: bool)
    ensures
        r == exists|i: int| 0 <= i < items_view(tags@, tags@.len()).len() && (match as_text(#[trigger] items_view(tags@, tags@.len())[i]) {
            Some(t) => lower_contains(t, q@),
            None => false,
        }),
{
    proof { lemma_array_view(*tags); }
    let ghost tv = items_view(tags@, tags@.len());
    let mut i: usize = 0;
    while i < tags.len()
        invariant
            i <= tags@.len(),
            tv == items_view(tags@, tags@.len()),
            tv.len() == tags@.len(),
            forall|k: int| 0 <= k < tags@.len() ==> #[trigger] tv[k] == tags@[k]@,
            forall|k: int| 0 <= k < i ==> !(match as_text(#[trigger] tv[k]) {
                Some(t) => lower_contains(t, q@),
                None => false,
            }),
        decreases tags.len() - i,
    {
        assert(tv[i as int] == tags@[i as int]@);
        match tags[i].as_str() {
            Some(t) => if lower_contains_exec(t.as_str(), q) {
                return true;
            },
            None => {},
        }
        i += 1;
    }
    false
}

/// Whether a subject matches a (lower-case) query.
pub fn subject_matches_query(s: &Json, query: &str) -> (r: bool)
    ensures
        r == subject_matches(s@, query@),
{
    match s.get_str("name") {
        Some(n) => if lower_contains_exec(n.as_str(), query) { return true; },
        None => {},
    }
    match s.get_str("description") {
        Some(d) => if lower_contains_exec(d.as_str(), query) { return true; },
        None => {},
    }
    let tag_hit: bool = match s.get("tags") {
        Some(t) => match t.as_array() {
            Some(a) => {
                proof { lemma_array_view(*a); }
                let h = any_tag_matches(a, query);
                assert(jget(s@, "tags"@) == Some(JsonV::Array(items_view(a@, a@.len()))));
                h
            },
            None => false,
        },
        None => false,
    };
    assert(tag_hit == (match jget(s@, "tags"@) {
        Some(JsonV::Array(tags)) => exists|i: int| 0 <= i < tags.len() && (match as_text(#[trigger] tags[i]) {
            Some(t) => lower_contains(t, query@),
            None => false,
        }),
        _ => false,
    }));
    if tag_hit {
        return true;
    }
    subject_attr_hit(s, query)
}

fn subject_attr_hit(s: &Json, query: &str) -> (r: bool)
    ensures
        r == (match jget(s@, "attributes"@) {
            Some(JsonV::Array(attrs)) => any_attr(attrs, query@),
            _ => false,
        }),
{
    let attrs = match s.get("attributes") {
        Some(t) => match t.as_array() {
            Some(a) => a,
            None => { return false; },
        },
        None => { return false; },
    };
    proof { lemma_array_view(*attrs); }
    let ghost av = items_view(attrs@, attrs@.len());
    assert(jget(s@, "attributes"@) == Some(JsonV::Array(av)));
    let mut i: usize = 0;
    while i < attrs.len()
        invariant
            jget(s@, "attributes"@) == Some(JsonV::Array(av)),
            i <= attrs@.len(),
            av == items_view(attrs@, attrs@.len()),
            av.len() == attrs@.len(),
            forall|k: int| 0 <= k < attrs@.len() ==> #[trigger] av[k] == attrs@[k]@,
            forall|k: int| 0 <= k < i ==> !attr_matches(#[trigger] av[k], query@),
        decreases attrs.len() - i,
    {
        assert(av[i as int] == attrs@[i as int]@);
        let k = match attrs[i].get_str("key") { Some(t) => t.clone(), None => String::new() };
        let v = match attrs[i].get_str("value") { Some(t) => t.clone(), None => String::new() };
        if lower_contains_exec(k.as_str(), query) || lower_contains_exec(v.as_str(), query) {
            assert(attr_matches(av[i as int], query@));
            assert(any_attr(av, query@));
            return true;
        }
        i += 1;
    }
    false
}

/// A subject category record.
pub fn category_record(id: &str, name: &str, created_at: i64, updated_at: i64) -> (r: Json)
    ensures
        r@ == JsonV::Object(seq![
            ("id"@, tstr(id@)),
            ("kind"@, tstr("subject-category"@)),
            ("name"@, tstr(name@)),
            ("createdAt"@, JsonV::Int(created_at)),
            ("updatedAt"@, JsonV::Int(updated_at)),
        ]),
{
    let mut e: Vec<(String, Json)> = Vec::new();
    e.push((owned("id"), Json::text(id)));
    e.push((owned("kind"), Json::text("subject-category")));
    e.push((owned("name"), Json::text(name)));
    e.push((owned("createdAt"), Json::Int(created_at)));
    e.push((owned("updatedAt"), Json::Int(updated_at)));
    proof { lemma_entries_view(e@, e@.len()); }
    assert(entries_of(e) =~= seq![
        ("id"@, tstr(id@)),
        ("kind"@, tstr("subject-category"@)),
        ("name"@, tstr(name@)),
        ("createdAt"@, JsonV::Int(created_at)),
        ("updatedAt"@, JsonV::Int(updated_at)),
    ]);
    object_of(e)
}

/// The id or name a subject request gives, when it is a non-empty text.
pub fn required_text(payload: &Json, key: &str) -> (r: Option<String>)
    ensures
        opt_view(r) == filled_text(payload@, key@),
{
    filled_text_exec(payload, key)
}

// ---------------------------------------------------------------------------
// Background tasks
// ---------------------------------------------------------------------------

/// The attempt after `n`, wrapping at the end of `i64`.
pub open spec fn next_attempt(n: i64) -> i64 {
    if n == i64::MAX {
        i64::MIN
    } else {
        (n + 1) as i64
    }
}

/// The in-process background task list.
pub struct BackgroundTasks {
    tasks: Vec<Json>,
}

/// The first task with an id, and where it is.
pub open spec fn task_index(tasks: Seq<JsonV>, id: Seq<char>) -> Option<int> {
    if exists|i: int| 0 <= i < tasks.len() && get_text(#[trigger] tasks[i], "id"@) == Some(id) {
        Some(choose|i: int| 0 <= i < tasks.len() && get_text(#[trigger] tasks[i], "id"@) == Some(id)
            && forall|k: int| 0 <= k < i ==> get_text(#[trigger] tasks[k], "id"@) != Some(id))
    } else {
        None
    }
}

impl BackgroundTasks {
    /// The tasks, in order.
    pub closed spec fn view(&self) -> Seq<JsonV> {
        items_view(self.tasks@, self.tasks@.len())
    }

    /// No background tasks.
    pub fn new() -> (r: BackgroundTasks)
        ensures
            r.view() == Seq::<JsonV>::empty(),
    {
        let tasks: Vec<Json> = Vec::new();
        proof { lemma_array_view(tasks); }
        BackgroundTasks { tasks }
    }

    /// Adds a task at the end.
    pub fn push(&mut self, task: Json)
        ensures
            final(self).view() == old(self).view().push(task@),
    {
        proof { lemma_array_view(self.tasks); }
        let ghost tv = task@;
        self.tasks.push(task);
        proof { lemma_array_view(self.tasks); }
        assert(self.view() =~= old(self).view().push(tv));
    }

    /// Copies of all tasks.
    pub fn list(&self) -> (r: Json)
        ensures
            r@ == JsonV::Array(self.view()),
    {
        let mut out: Vec<Json> = Vec::new();
        proof { lemma_array_view(self.tasks); }
        let mut i: usize = 0;
        while i < self.tasks.len()
            invariant
                i <= self.tasks@.len(),
                out@.len() == i,
                forall|k: int| 0 <= k < i ==> (#[trigger] out@[k])@ == self.tasks@[k]@,
            decreases self.tasks.len() - i,
        {
            out.push(copy_json(&self.tasks[i]));
            i += 1;
        }
        let ghost ov = out@;
        let r = array_of(out);
        assert(items_view(ov, ov.len()) =~= self.view());
        r
    }

    fn index_of(&self, id: &str) -> (r: Option<usize>)
        ensures
            match r {
                Some(i) => task_index(self.view(), id@) == Some(i as int) && i < self.tasks@.len(),
                None => task_index(self.view(), id@) is None,
            },
    {
        proof { lemma_array_view(self.tasks); }
        let ghost tv = self.view();
        let mut i: usize = 0;
        while i < self.tasks.len()
            invariant
                i <= self.tasks@.len(),
                tv == self.view(),
                tv.len() == self.tasks@.len(),
                forall|k: int| 0 <= k < self.tasks@.len() ==> #[trigger] tv[k] == self.tasks@[k]@,
                forall|k: int| 0 <= k < i ==> get_text(#[trigger] tv[k], "id"@) != Some(id@),
            decreases self.tasks.len() - i,
        {
            assert(tv[i as int] == self.tasks@[i as int]@);
            let hit = match self.tasks[i].get_str("id") {
                Some(t) => crate::text::str_eq(t.as_str(), id),
                None => false,
            };
            if hit {
                proof {
                    let c = choose|c: int| 0 <= c < tv.len() && get_text(#[trigger] tv[c], "id"@) == Some(id@)
                        && forall|k: int| 0 <= k < c ==> get_text(#[trigger] tv[k], "id"@) != Some(id@);
                    assert(c == i) by {
                        if c < i {
                        } else if c > i {
                            assert(get_text(tv[i as int], "id"@) == Some(id@));
                        }
                    }
                }
                return Some(i);
            }
            i += 1;
        }
        None
    }

    /// The task of an id, or `null`.
    pub fn get(&self, id: &str) -> (r: Json)
        ensures
            r@ == match task_index(self.view(), id@) {
                Some(i) => self.view()[i],
                None => JsonV::Null,
            },
    {
        proof { lemma_array_view(self.tasks); }
        match self.index_of(id) {
            Some(i) => copy_json(&self.tasks[i]),
            None => Json::Null,
        }
    }

    fn update_at(&mut self, i: usize, t: Json)
        requires
            i < old(self).tasks@.len(),
        ensures
            final(self).view() == old(self).view().update(i as int, t@),
    {
        proof { lemma_array_view(self.tasks); }
        let ghost tv = t@;
        self.tasks.set(i, t);
        proof { lemma_array_view(self.tasks); }
        assert(self.view() =~= old(self).view().update(i as int, tv));
    }

    /// Cancels the task of an id at `now` and answers it, or `null` when
    /// there is none.
    pub fn cancel(&mut self, id: &str, now: i64) -> (r: Json)
        ensures
            match task_index(old(self).view(), id@) {
                Some(i) => {
                    let t = with_field(with_field(with_field(with_field(old(self).view()[i],
                        "status"@, tstr("cancelled"@)), "phase"@, tstr("cancelled"@)),
                        "cancelReason"@, tstr("user-cancelled"@)), "updatedAt"@, JsonV::Int(now));
                    &&& final(self).view() == old(self).view().update(i, t)
                    &&& r@ == t
                },
                None => final(self).view() == old(self).view() && r@ == JsonV::Null,
            },
    {
        proof { lemma_array_view(self.tasks); }
        match self.index_of(id) {
            Some(i) => {
                let mut t = copy_json(&self.tasks[i]);
                set_field(&mut t, "status", Json::text("cancelled"));
                set_field(&mut t, "phase", Json::text("cancelled"));
                set_field(&mut t, "cancelReason", Json::text("user-cancelled"));
                set_field(&mut t, "updatedAt", Json::Int(now));
                let c = copy_json(&t);
                self.update_at(i, t);
                c
            },
            None => Json::Null,
        }
    }

    /// Restarts the task of an id at `now`, counting the attempt, and answers
    /// it, or `null` when there is none.
    pub fn retry(&mut self, id: &str, now: i64) -> (r: Json)
        ensures
            match task_index(old(self).view(), id@) {
                Some(i) => {
                    let t0 = old(self).view()[i];
                    let t = with_field(with_field(with_field(with_field(t0,
                        "status"@, tstr("running"@)), "phase"@, tstr("starting"@)),
                        "attemptCount"@, JsonV::Int(next_attempt(int_or(t0, "attemptCount"@, 0)))), "updatedAt"@, JsonV::Int(now));
                    &&& final(self).view() == old(self).view().update(i, t)
                    &&& r@ == t
                },
                None => final(self).view() == old(self).view() && r@ == JsonV::Null,
            },
    {
        proof { lemma_array_view(self.tasks); }
        match self.index_of(id) {
            Some(i) => {
                let n = match self.tasks[i].get_i64("attemptCount") { Some(n) => n, None => 0 };
                let attempt = if n == i64::MAX { i64::MIN } else { n + 1 };
                let mut t = copy_json(&self.tasks[i]);
                set_field(&mut t, "status", Json::text("running"));
                set_field(&mut t, "phase", Json::text("starting"));
                set_field(&mut t, "attemptCount", Json::Int(attempt));
                set_field(&mut t, "updatedAt", Json::Int(now));
                let c = copy_json(&t);
                self.update_at(i, t);
                c
            },
            None => Json::Null,
        }
    }

    /// Archives the task of an id at `now` and answers it, or `null` when
    /// there is none.
    pub fn archive(&mut self, id: &str, now: i64) -> (r: Json)
        ensures
            match task_index(old(self).view(), id@) {
                Some(i) => {
                    let t = with_field(with_field(old(self).view()[i], "archived"@, JsonV::Bool(true)),
                        "updatedAt"@, JsonV::Int(now));
                    &&& final(self).view() == old(self).view().update(i, t)
                    &&& r@ == t
                },
                None => final(self).view() == old(self).view() && r@ == JsonV::Null,
            },
    {
        proof { lemma_array_view(self.tasks); }
        match self.index_of(id) {
            Some(i) => {
                let mut t = copy_json(&self.tasks[i]);
                set_field(&mut t, "archived", Json::Bool(true));
                set_field(&mut t, "updatedAt", Json::Int(now));
                let c = copy_json(&t);
                self.update_at(i, t);
                c
            },
            None => Json::Null,
        }
    }
}

// ---------------------------------------------------------------------------
// Channels
// ---------------------------------------------------------------------------

/// The operations of the task, work, subject and background channels.
#[derive(Clone, Copy, Debug, PartialEq, Eq, Structural)]
pub enum TasksChannel {
    TasksCreate,
    TasksList,
    TasksGet,
    TasksResume,
    TasksCancel,
    TasksTrace,
    TasksResumeFromSession,
    WorkList,
    WorkGet,
    WorkReady,
    WorkUpdate,
    SubjectsList,
    SubjectsGet,
    SubjectsCreate,
    SubjectsUpdate,
    SubjectsDelete,
    SubjectsSearch,
    CategoriesList,
    CategoriesCreate,
    CategoriesUpdate,
    CategoriesDelete,
    BackgroundList,
    BackgroundGet,
    BackgroundCancel,
    BackgroundRetry,
    BackgroundArchive,
    WorkerPoolState,
}

/// The operation a channel name asks for.
pub open spec fn tasks_channel_of(ch: Seq<char>) -> Option<TasksChannel> {
    if ch == "tasks:create"@ {
        Some(TasksChannel::TasksCreate)
    } else if ch == "tasks:list"@ {
        Some(TasksChannel::TasksList)
    } else if ch == "tasks:get"@ {
        Some(TasksChannel::TasksGet)
    } else if ch == "tasks:resume"@ {
        Some(TasksChannel::TasksResume)
    } else if ch == "tasks:cancel"@ {
        Some(TasksChannel::TasksCancel)
    } else if ch == "tasks:trace"@ {
        Some(TasksChannel::TasksTrace)
    } else if ch == "tasks:resume-from-session"@ {
        Some(TasksChannel::TasksResumeFromSession)
    } else if ch == "work:list"@ {
        Some(TasksChannel::WorkList)
    } else if ch == "work:get"@ {
        Some(TasksChannel::WorkGet)
    } else if ch == "work:ready"@ {
        Some(TasksChannel::WorkReady)
    } else if ch == "work:update"@ {
        Some(TasksChannel::WorkUpdate)
    } else if ch == "subjects:list"@ {
        Some(TasksChannel::SubjectsList)
    } else if ch == "subjects:get"@ {
        Some(TasksChannel::SubjectsGet)
    } else if ch == "subjects:create"@ {
        Some(TasksChannel::SubjectsCreate)
    } else if ch == "subjects:update"@ {
        Some(TasksChannel::SubjectsUpdate)
    } else if ch == "subjects:delete"@ {
        Some(TasksChannel::SubjectsDelete)
    } else if ch == "subjects:search"@ {
        Some(TasksChannel::SubjectsSearch)
    } else if ch == "subjects:categories:list"@ {
        Some(TasksChannel::CategoriesList)
    } else if ch == "subjects:categories:create"@ {
        Some(TasksChannel::CategoriesCreate)
    } else if ch == "subjects:categories:update"@ {
        Some(TasksChannel::CategoriesUpdate)
    } else if ch == "subjects:categories:delete"@ {
        Some(TasksChannel::CategoriesDelete)
    } else if ch == "background-tasks:list"@ {
        Some(TasksChannel::BackgroundList)
    } else if ch == "background-tasks:get"@ {
        Some(TasksChannel::BackgroundGet)
    } else if ch == "background-tasks:cancel"@ {
        Some(TasksChannel::BackgroundCancel)
    } else if ch == "background-tasks:retry"@ {
        Some(TasksChannel::BackgroundRetry)
    } else if ch == "background-tasks:archive"@ {
        Some(TasksChannel::BackgroundArchive)
    } else if ch == "background-workers:get-pool-state"@ {
        Some(TasksChannel::WorkerPoolState)
    } else {
        None
    }
}

/// The operation a channel name asks for, or the error for an unknown one.
pub fn tasks_channel(channel: &str) -> (r: Result<TasksChannel, String>)
    ensures
        match tasks_channel_of(channel@) {
            Some(c) => r is Ok && r->Ok_0 == c,
            None => r is Err && r->Err_0@ == "tasks 命名空间未实现通道: "@ + channel@,
        },
{
    if crate::text::str_eq(channel, "tasks:create") {
        return Ok(TasksChannel::TasksCreate);
    }
    if crate::text::str_eq(channel, "tasks:list") {
        return Ok(TasksChannel::TasksList);
    }
    if crate::text::str_eq(channel, "tasks:get") {
        return Ok(TasksChannel::TasksGet);
    }
    if crate::text::str_eq(channel, "tasks:resume") {
        return Ok(TasksChannel::TasksResume);
    }
    if crate::text::str_eq(channel, "tasks:cancel") {
        return Ok(TasksChannel::TasksCancel);
    }
    if crate::text::str_eq(channel, "tasks:trace") {
        return Ok(TasksChannel::TasksTrace);
    }
    if crate::text::str_eq(channel, "tasks:resume-from-session") {
        return Ok(TasksChannel::TasksResumeFromSession);
    }
    if crate::text::str_eq(channel, "work:list") {
        return Ok(TasksChannel::WorkList);
    }
    if crate::text::str_eq(channel, "work:get") {
        return Ok(TasksChannel::WorkGet);
    }
    if crate::text::str_eq(channel, "work:ready") {
        return Ok(TasksChannel::WorkReady);
    }
    if crate::text::str_eq(channel, "work:update") {
        return Ok(TasksChannel::WorkUpdate);
    }
    if crate::text::str_eq(channel, "subjects:list") {
        return Ok(TasksChannel::SubjectsList);
    }
    if crate::text::str_eq(channel, "subjects:get") {
        return Ok(TasksChannel::SubjectsGet);
    }
    if crate::text::str_eq(channel, "subjects:create") {
        return Ok(TasksChannel::SubjectsCreate);
    }
    if crate::text::str_eq(channel, "subjects:update") {
        return Ok(TasksChannel::SubjectsUpdate);
    }
    if crate::text::str_eq(channel, "subjects:delete") {
        return Ok(TasksChannel::SubjectsDelete);
    }
    if crate::text::str_eq(channel, "subjects:search") {
        return Ok(TasksChannel::SubjectsSearch);
    }
    if crate::text::str_eq(channel, "subjects:categories:list") {
        return Ok(TasksChannel::CategoriesList);
    }
    if crate::text::str_eq(channel, "subjects:categories:create") {
        return Ok(TasksChannel::CategoriesCreate);
    }
    if crate::text::str_eq(channel, "subjects:categories:update") {
        return Ok(TasksChannel::CategoriesUpdate);
    }
    if crate::text::str_eq(channel, "subjects:categories:delete") {
        return Ok(TasksChannel::CategoriesDelete);
    }
    if crate::text::str_eq(channel, "background-tasks:list") {
        return Ok(TasksChannel::BackgroundList);
    }
    if crate::text::str_eq(channel, "background-tasks:get") {
        return Ok(TasksChannel::BackgroundGet);
    }
    if crate::text::str_eq(channel, "background-tasks:cancel") {
        return Ok(TasksChannel::BackgroundCancel);
    }
    if crate::text::str_eq(channel, "background-tasks:retry") {
        return Ok(TasksChannel::BackgroundRetry);
    }
    if crate::text::str_eq(channel, "background-tasks:archive") {
        return Ok(TasksChannel::BackgroundArchive);
    }
    if crate::text::str_eq(channel, "background-workers:get-pool-state") {
        return Ok(TasksChannel::WorkerPoolState);
    }
    let mut m = chars_of("tasks 命名空间未实现通道: ");
    append_str(&mut m, channel);
    Err(string_from_chars(&m))
}

} // verus!
