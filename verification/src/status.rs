//! The RedClaw scheduler's status report: its definitions, their execution
//! state, the lease, and what the scheduler can do.

use vstd::prelude::*;
use crate::text::{owned, clone_string, str_eq};
use crate::json::{
    Json, JsonV, get_text, get_int, jget, object_of, entries_of, lemma_entries_view, items_view,
    set_entry, set_entry_exec,
};
use crate::generation::{tstr, array_of};
use crate::login::opt_view;
use crate::strs::views;
use crate::schedule::{
    ScheduledTask, LongCycleTask, ScheduledTaskV, LongCycleTaskV, ProjectState, ProjectStateV,
    HeartbeatConfig, HeartbeatConfigV, RunnerConfig, RunnerConfigV, timestamp_json, timestamp_value,
    owns_lease_of, blocked_by_of, lease_view, project_views,
};

verus! {

// ---------------------------------------------------------------------------
// Values as JSON
// ---------------------------------------------------------------------------

/// An optional text as JSON: the string, or null.
pub open spec fn opt_text_json(o: Option<Seq<char>>) -> JsonV {
    match o {
        Some(t) => tstr(t),
        None => JsonV::Null,
    }
}

/// An optional integer as JSON: the number, or null.
pub open spec fn opt_int_json(o: Option<i64>) -> JsonV {
    match o {
        Some(n) => JsonV::Int(n),
        None => JsonV::Null,
    }
}

/// A list of texts as a JSON array.
pub open spec fn texts_json(s: Seq<Seq<char>>) -> JsonV {
    JsonV::Array(s.map_values(|t: Seq<char>| tstr(t)))
}

/// A list of integers as a JSON array.
pub open spec fn ints_json(s: Seq<i64>) -> JsonV {
    JsonV::Array(s.map_values(|n: i64| JsonV::Int(n)))
}

fn opt_text_exec(o: &Option<String>) -> (r: Json)
    ensures
        r@ == opt_text_json(opt_view(*o)),
{
    match o {
        Some(t) => Json::from_string(clone_string(t)),
        None => Json::Null,
    }
}

fn opt_int_exec(o: Option<i64>) -> (r: Json)
    ensures
        r@ == opt_int_json(o),
{
    match o {
        Some(n) => Json::Int(n),
        None => Json::Null,
    }
}

fn texts_exec(v: &Vec<String>) -> (r: Json)
    ensures
        r@ == texts_json(views(v@)),
{
    let mut items: Vec<Json> = Vec::new();
    let mut k: usize = 0;
    while k < v.len()
        invariant
            k <= v@.len(),
            items@.len() == k,
            forall|m: int| 0 <= m < k ==> (#[trigger] items@[m])@ == tstr(v@[m]@),
        decreases v.len() - k,
    {
        items.push(Json::from_string(clone_string(&v[k])));
        k += 1;
    }
    let ghost iv = items@;
    let r = array_of(items);
    assert(items_view(iv, iv.len()) =~= views(v@).map_values(|t: Seq<char>| tstr(t)));
    r
}

fn ints_exec(v: &Vec<i64>) -> (r: Json)
    ensures
        r@ == ints_json(v@),
{
    let mut items: Vec<Json> = Vec::new();
    let mut k: usize = 0;
    while k < v.len()
        invariant
            k <= v@.len(),
            items@.len() == k,
            forall|m: int| 0 <= m < k ==> (#[trigger] items@[m])@ == JsonV::Int(v@[m]),
        decreases v.len() - k,
    {
        items.push(Json::Int(v[k]));
        k += 1;
    }
    let ghost iv = items@;
    let r = array_of(items);
    assert(items_view(iv, iv.len()) =~= v@.map_values(|n: i64| JsonV::Int(n)));
    r
}

fn push_entry(e: &mut Vec<(String, Json)>, k: &str, v: Json)
    ensures
        entries_of(*final(e)) == entries_of(*old(e)).push((k@, v@)),
{
    let ghost vv = v@;
    proof { lemma_entries_view(e@, e@.len()); }
    e.push((owned(k), v));
    proof { lemma_entries_view(e@, e@.len()); }
    assert(entries_of(*e) =~= entries_of(*old(e)).push((k@, vv)));
}

// ---------------------------------------------------------------------------
// Definitions
// ---------------------------------------------------------------------------

/// A scheduled definition as the status reports it.
pub open spec fn scheduled_entries(t: ScheduledTaskV) -> Seq<(Seq<char>, JsonV)> {
    seq![
        ("id"@, tstr(t.id)),
        ("name"@, tstr(t.name)),
        ("enabled"@, JsonV::Bool(t.enabled)),
        ("mode"@, tstr(t.mode)),
        ("prompt"@, tstr(t.prompt)),
        ("projectId"@, opt_text_json(t.project_id)),
        ("workItemId"@, opt_text_json(t.work_item_id)),
        ("subagentRoles"@, texts_json(t.subagent_roles)),
        ("requiredTools"@, texts_json(t.required_tools)),
        ("allowedTools"@, texts_json(t.allowed_tools)),
        ("authorizedTools"@, texts_json(t.authorized_tools)),
        ("intervalMinutes"@, opt_int_json(t.interval_minutes)),
        ("time"@, opt_text_json(t.time)),
        ("weekdays"@, ints_json(t.weekdays)),
        ("runAt"@, timestamp_json(t.run_at)),
        ("createdAt"@, JsonV::Int(t.created_at)),
        ("updatedAt"@, JsonV::Int(t.updated_at)),
        ("lastRunAt"@, timestamp_json(t.last_run_at)),
        ("lastResult"@, opt_text_json(t.last_result)),
        ("lastOutput"@, opt_text_json(t.last_output)),
        ("lastError"@, opt_text_json(t.last_error)),
        ("nextRunAt"@, timestamp_json(t.next_run_at)),
        ("lastReceiptPath"@, opt_text_json(t.last_receipt_path)),
    ]
}

/// A scheduled definition as the status reports it.
pub fn scheduled_json(task: &ScheduledTask) -> (r: Json)
    ensures
        r@ == JsonV::Object(scheduled_entries(task@)),
{
    let mut e: Vec<(String, Json)> = Vec::new();
    proof { lemma_entries_view(e@, 0); }
    push_entry(&mut e, "id", Json::from_string(clone_string(&task.id)));
    push_entry(&mut e, "name", Json::from_string(clone_string(&task.name)));
    push_entry(&mut e, "enabled", Json::Bool(task.enabled));
    push_entry(&mut e, "mode", Json::from_string(clone_string(&task.mode)));
    push_entry(&mut e, "prompt", Json::from_string(clone_string(&task.prompt)));
    push_entry(&mut e, "projectId", opt_text_exec(&task.project_id));
    push_entry(&mut e, "workItemId", opt_text_exec(&task.work_item_id));
    push_entry(&mut e, "subagentRoles", texts_exec(&task.subagent_roles));
    push_entry(&mut e, "requiredTools", texts_exec(&task.required_tools));
    push_entry(&mut e, "allowedTools", texts_exec(&task.allowed_tools));
    push_entry(&mut e, "authorizedTools", texts_exec(&task.authorized_tools));
    push_entry(&mut e, "intervalMinutes", opt_int_exec(task.interval_minutes));
    push_entry(&mut e, "time", opt_text_exec(&task.time));
    push_entry(&mut e, "weekdays", ints_exec(&task.weekdays));
    push_entry(&mut e, "runAt", timestamp_value(task.run_at));
    push_entry(&mut e, "createdAt", Json::Int(task.created_at));
    push_entry(&mut e, "updatedAt", Json::Int(task.updated_at));
    push_entry(&mut e, "lastRunAt", timestamp_value(task.last_run_at));
    push_entry(&mut e, "lastResult", opt_text_exec(&task.last_result));
    push_entry(&mut e, "lastOutput", opt_text_exec(&task.last_output));
    push_entry(&mut e, "lastError", opt_text_exec(&task.last_error));
    push_entry(&mut e, "nextRunAt", timestamp_value(task.next_run_at));
    push_entry(&mut e, "lastReceiptPath", opt_text_exec(&task.last_receipt_path));
    assert(entries_of(e) =~= scheduled_entries(task@));
    object_of(e)
}

/// A long-cycle definition as the status reports it.
pub open spec fn long_cycle_entries(t: LongCycleTaskV) -> Seq<(Seq<char>, JsonV)> {
    seq![
        ("id"@, tstr(t.id)),
        ("name"@, tstr(t.name)),
        ("enabled"@, JsonV::Bool(t.enabled)),
        ("status"@, tstr(t.status)),
        ("objective"@, tstr(t.objective)),
        ("stepPrompt"@, tstr(t.step_prompt)),
        ("projectId"@, opt_text_json(t.project_id)),
        ("workItemId"@, opt_text_json(t.work_item_id)),
        ("subagentRoles"@, texts_json(t.subagent_roles)),
        ("requiredTools"@, texts_json(t.required_tools)),
        ("allowedTools"@, texts_json(t.allowed_tools)),
        ("authorizedTools"@, texts_json(t.authorized_tools)),
        ("intervalMinutes"@, JsonV::Int(t.interval_minutes)),
        ("totalRounds"@, JsonV::Int(t.total_rounds)),
        ("completedRounds"@, JsonV::Int(t.completed_rounds)),
        ("createdAt"@, JsonV::Int(t.created_at)),
        ("updatedAt"@, JsonV::Int(t.updated_at)),
        ("lastRunAt"@, timestamp_json(t.last_run_at)),
        ("lastResult"@, opt_text_json(t.last_result)),
        ("lastOutput"@, opt_text_json(t.last_output)),
        ("lastError"@, opt_text_json(t.last_error)),
        ("nextRunAt"@, timestamp_json(t.next_run_at)),
        ("lastReceiptPath"@, opt_text_json(t.last_receipt_path)),
    ]
}

/// A long-cycle definition as the status reports it.
pub fn long_cycle_json(task: &LongCycleTask) -> (r: Json)
    ensures
        r@ == JsonV::Object(long_cycle_entries(task@)),
{
    let mut e: Vec<(String, Json)> = Vec::new();
    proof { lemma_entries_view(e@, 0); }
    push_entry(&mut e, "id", Json::from_string(clone_string(&task.id)));
    push_entry(&mut e, "name", Json::from_string(clone_string(&task.name)));
    push_entry(&mut e, "enabled", Json::Bool(task.enabled));
    push_entry(&mut e, "status", Json::from_string(clone_string(&task.status)));
    push_entry(&mut e, "objective", Json::from_string(clone_string(&task.objective)));
    push_entry(&mut e, "stepPrompt", Json::from_string(clone_string(&task.step_prompt)));
    push_entry(&mut e, "projectId", opt_text_exec(&task.project_id));
    push_entry(&mut e, "workItemId", opt_text_exec(&task.work_item_id));
    push_entry(&mut e, "subagentRoles", texts_exec(&task.subagent_roles));
    push_entry(&mut e, "requiredTools", texts_exec(&task.required_tools));
    push_entry(&mut e, "allowedTools", texts_exec(&task.allowed_tools));
    push_entry(&mut e, "authorizedTools", texts_exec(&task.authorized_tools));
    push_entry(&mut e, "intervalMinutes", Json::Int(task.interval_minutes));
    push_entry(&mut e, "totalRounds", Json::Int(task.total_rounds));
    push_entry(&mut e, "completedRounds", Json::Int(task.completed_rounds));
    push_entry(&mut e, "createdAt", Json::Int(task.created_at));
    push_entry(&mut e, "updatedAt", Json::Int(task.updated_at));
    push_entry(&mut e, "lastRunAt", timestamp_value(task.last_run_at));
    push_entry(&mut e, "lastResult", opt_text_exec(&task.last_result));
    push_entry(&mut e, "lastOutput", opt_text_exec(&task.last_output));
    push_entry(&mut e, "lastError", opt_text_exec(&task.last_error));
    push_entry(&mut e, "nextRunAt", timestamp_value(task.next_run_at));
    push_entry(&mut e, "lastReceiptPath", opt_text_exec(&task.last_receipt_path));
    assert(entries_of(e) =~= long_cycle_entries(task@));
    object_of(e)
}

/// The execution state of a definition: its stored task's status and start.
pub struct RuntimeState {
    pub status: String,
    pub started_at: Option<i64>,
}

/// The value of a [`RuntimeState`].
pub struct RuntimeStateV {
    pub status: Seq<char>,
    pub started_at: Option<i64>,
}

impl View for RuntimeState {
    type V = RuntimeStateV;

    open spec fn view(&self) -> RuntimeStateV {
        RuntimeStateV { status: self.status@, started_at: self.started_at }
    }
}

/// The execution state a stored task row gives: its id and status (both
/// texts) and its start time when it is an integer.
pub open spec fn runtime_state_row(row: JsonV) -> Option<(Seq<char>, RuntimeStateV)> {
    match (get_text(row, "id"@), get_text(row, "status"@)) {
        (Some(id), Some(st)) => Some((id, RuntimeStateV { status: st, started_at: get_int(row, "started_at"@) })),
        _ => None,
    }
}

/// The execution state a stored task row gives.
pub fn runtime_state_of_row(row: &Json) -> (r: Option<(String, RuntimeState)>)
    ensures
        match r {
            Some((id, st)) => runtime_state_row(row@) == Some((id@, st@)),
            None => runtime_state_row(row@) is None,
        },
{
    let id = match row.get_str("id") {
        Some(t) => clone_string(t),
        None => { return None; },
    };
    let status = match row.get_str("status") {
        Some(t) => clone_string(t),
        None => { return None; },
    };
    Some((id, RuntimeState { status, started_at: row.get_i64("started_at") }))
}

/// A definition's report with its execution state: the next run is hidden
/// unless the stored task is waiting to run.
pub open spec fn with_runtime(task: JsonV, state: Option<RuntimeStateV>) -> JsonV {
    match task {
        JsonV::Object(e) => {
            let e1 = match state {
                Some(s) => if s.status != "scheduled"@ { set_entry(e, "nextRunAt"@, JsonV::Null) } else { e },
                None => e,
            };
            let e2 = set_entry(e1, "executionStatus"@, match state {
                Some(s) => tstr(s.status),
                None => JsonV::Null,
            });
            JsonV::Object(set_entry(e2, "startedAt"@, timestamp_json(match state {
                Some(s) => s.started_at,
                None => None,
            })))
        },
        _ => task,
    }
}

/// The view of an optional execution state.
pub open spec fn opt_state_view(o: Option<&RuntimeState>) -> Option<RuntimeStateV> {
    match o {
        Some(s) => Some(s@),
        None => None,
    }
}

/// A definition's report with its execution state.
pub fn task_json_with_runtime(task: Json, state: Option<&RuntimeState>) -> (r: Json)
    ensures
        r@ == with_runtime(task@, opt_state_view(state)),
{
    proof { reveal_strlit("scheduled"); }
    match task {
        Json::Object(mut e) => {
            proof { lemma_entries_view(e@, e@.len()); }
            match state {
                Some(s) => if !str_eq(s.status.as_str(), "scheduled") {
                    set_entry_exec(&mut e, "nextRunAt", Json::Null);
                },
                None => {},
            }
            let status = match state {
                Some(s) => Json::from_string(clone_string(&s.status)),
                None => Json::Null,
            };
            set_entry_exec(&mut e, "executionStatus", status);
            let started = match state {
                Some(s) => s.started_at,
                None => None,
            };
            set_entry_exec(&mut e, "startedAt", timestamp_value(started));
            object_of(e)
        },
        other => other,
    }
}

/// A project's patrol state as the status reports it.
pub open spec fn project_state_entries(p: ProjectStateV) -> Seq<(Seq<char>, JsonV)> {
    seq![
        ("projectId"@, tstr(p.project_id)),
        ("enabled"@, JsonV::Bool(p.enabled)),
        ("prompt"@, opt_text_json(p.prompt)),
        ("lastRunAt"@, timestamp_json(p.last_run_at)),
        ("lastResult"@, opt_text_json(p.last_result)),
        ("lastError"@, opt_text_json(p.last_error)),
    ]
}

/// A project's patrol state as the status reports it.
pub fn project_state_json(state: &ProjectState) -> (r: Json)
    ensures
        r@ == JsonV::Object(project_state_entries(state@)),
{
    let mut e: Vec<(String, Json)> = Vec::new();
    proof { lemma_entries_view(e@, 0); }
    push_entry(&mut e, "projectId", Json::from_string(clone_string(&state.project_id)));
    push_entry(&mut e, "enabled", Json::Bool(state.enabled));
    push_entry(&mut e, "prompt", opt_text_exec(&state.prompt));
    push_entry(&mut e, "lastRunAt", timestamp_value(state.last_run_at));
    push_entry(&mut e, "lastResult", opt_text_exec(&state.last_result));
    push_entry(&mut e, "lastError", opt_text_exec(&state.last_error));
    assert(entries_of(e) =~= project_state_entries(state@));
    object_of(e)
}

/// The heartbeat settings as the status reports them.
pub open spec fn heartbeat_entries(h: HeartbeatConfigV) -> Seq<(Seq<char>, JsonV)> {
    seq![
        ("enabled"@, JsonV::Bool(h.enabled)),
        ("intervalMinutes"@, JsonV::Int(h.interval_minutes)),
        ("suppressEmptyReport"@, JsonV::Bool(h.suppress_empty_report)),
        ("reportToMainSession"@, JsonV::Bool(h.report_to_main_session)),
        ("prompt"@, opt_text_json(h.prompt)),
        ("lastRunAt"@, timestamp_json(h.last_run_at)),
        ("nextRunAt"@, timestamp_json(h.next_run_at)),
        ("lastDigest"@, opt_text_json(h.last_digest)),
    ]
}

/// The heartbeat settings as the status reports them.
pub fn heartbeat_json(config: &HeartbeatConfig) -> (r: Json)
    ensures
        r@ == JsonV::Object(heartbeat_entries(config@)),
{
    let mut e: Vec<(String, Json)> = Vec::new();
    proof { lemma_entries_view(e@, 0); }
    push_entry(&mut e, "enabled", Json::Bool(config.enabled));
    push_entry(&mut e, "intervalMinutes", Json::Int(config.interval_minutes));
    push_entry(&mut e, "suppressEmptyReport", Json::Bool(config.suppress_empty_report));
    push_entry(&mut e, "reportToMainSession", Json::Bool(config.report_to_main_session));
    push_entry(&mut e, "prompt", opt_text_exec(&config.prompt));
    push_entry(&mut e, "lastRunAt", timestamp_value(config.last_run_at));
    push_entry(&mut e, "nextRunAt", timestamp_value(config.next_run_at));
    push_entry(&mut e, "lastDigest", opt_text_exec(&config.last_digest));
    assert(entries_of(e) =~= heartbeat_entries(config@));
    object_of(e)
}

// ---------------------------------------------------------------------------
// The status report
// ---------------------------------------------------------------------------

/// The views of stored execution states, by definition id.
pub open spec fn states_view(v: Seq<(String, RuntimeState)>) -> Seq<(Seq<char>, RuntimeStateV)> {
    v.map_values(|p: (String, RuntimeState)| (p.0@, p.1@))
}

/// The execution state of a definition: the last one stored under its id.
pub open spec fn state_for(states: Seq<(Seq<char>, RuntimeStateV)>, id: Seq<char>) -> Option<RuntimeStateV>
    decreases states.len(),
{
    if states.len() == 0 {
        None
    } else if states.last().0 == id {
        Some(states.last().1)
    } else {
        state_for(states.drop_last(), id)
    }
}

fn state_lookup<'a>(states: &'a Vec<(String, RuntimeState)>, id: &String) -> (r: Option<&'a RuntimeState>)
    ensures
        opt_state_view(r) == state_for(states_view(states@), id@),
{
    let ghost sv = states_view(states@);
    let mut i = states.len();
    assert(sv.subrange(0, sv.len() as int) =~= sv);
    while i > 0
        invariant
            i <= states@.len(),
            sv == states_view(states@),
            state_for(sv, id@) == state_for(sv.subrange(0, i as int), id@),
        decreases i,
    {
        let ghost sub = sv.subrange(0, i as int);
        assert(sub.drop_last() =~= sv.subrange(0, i - 1));
        if str_eq(states[i - 1].0.as_str(), id.as_str()) {
            return Some(&states[i - 1].1);
        }
        i -= 1;
    }
    assert(sv.subrange(0, 0) =~= Seq::<(Seq<char>, RuntimeStateV)>::empty());
    None
}

/// The scheduled definitions' reports by id, for the first `n`.
pub open spec fn scheduled_reports(ts: Seq<ScheduledTaskV>, states: Seq<(Seq<char>, RuntimeStateV)>, n: nat)
    -> Seq<(Seq<char>, JsonV)>
    decreases n,
{
    if n == 0 || n > ts.len() {
        Seq::empty()
    } else {
        let t = ts[n - 1];
        set_entry(scheduled_reports(ts, states, (n - 1) as nat), t.id,
            with_runtime(JsonV::Object(scheduled_entries(t)), state_for(states, t.id)))
    }
}

/// The long-cycle definitions' reports by id, for the first `n`.
pub open spec fn long_cycle_reports(ts: Seq<LongCycleTaskV>, states: Seq<(Seq<char>, RuntimeStateV)>, n: nat)
    -> Seq<(Seq<char>, JsonV)>
    decreases n,
{
    if n == 0 || n > ts.len() {
        Seq::empty()
    } else {
        let t = ts[n - 1];
        set_entry(long_cycle_reports(ts, states, (n - 1) as nat), t.id,
            with_runtime(JsonV::Object(long_cycle_entries(t)), state_for(states, t.id)))
    }
}

/// The views of scheduled definitions.
pub open spec fn scheduled_views(v: Seq<ScheduledTask>) -> Seq<ScheduledTaskV> {
    v.map_values(|t: ScheduledTask| t@)
}

/// The views of long-cycle definitions.
pub open spec fn long_cycle_views(v: Seq<LongCycleTask>) -> Seq<LongCycleTaskV> {
    v.map_values(|t: LongCycleTask| t@)
}

fn scheduled_reports_exec(tasks: &Vec<ScheduledTask>, states: &Vec<(String, RuntimeState)>) -> (r: Vec<(String, Json)>)
    ensures
        entries_of(r) == scheduled_reports(scheduled_views(tasks@), states_view(states@), tasks@.len()),
{
    let ghost tv = scheduled_views(tasks@);
    let mut e: Vec<(String, Json)> = Vec::new();
    proof { lemma_entries_view(e@, 0); }
    let mut i: usize = 0;
    while i < tasks.len()
        invariant
            i <= tasks@.len(),
            tv == scheduled_views(tasks@),
            entries_of(e) == scheduled_reports(tv, states_view(states@), i as nat),
        decreases tasks.len() - i,
    {
        let t = &tasks[i];
        assert(tv[i as int] == t@);
        let report = task_json_with_runtime(scheduled_json(t), state_lookup(states, &t.id));
        set_entry_exec(&mut e, t.id.as_str(), report);
        i += 1;
    }
    e
}

fn long_cycle_reports_exec(tasks: &Vec<LongCycleTask>, states: &Vec<(String, RuntimeState)>) -> (r: Vec<(String, Json)>)
    ensures
        entries_of(r) == long_cycle_reports(long_cycle_views(tasks@), states_view(states@), tasks@.len()),
{
    let ghost tv = long_cycle_views(tasks@);
    let mut e: Vec<(String, Json)> = Vec::new();
    proof { lemma_entries_view(e@, 0); }
    let mut i: usize = 0;
    while i < tasks.len()
        invariant
            i <= tasks@.len(),
            tv == long_cycle_views(tasks@),
            entries_of(e) == long_cycle_reports(tv, states_view(states@), i as nat),
        decreases tasks.len() - i,
    {
        let t = &tasks[i];
        assert(tv[i as int] == t@);
        let report = task_json_with_runtime(long_cycle_json(t), state_lookup(states, &t.id));
        set_entry_exec(&mut e, t.id.as_str(), report);
        i += 1;
    }
    e
}

/// The ids among the first `n` that are executing now, in order.
pub open spec fn in_flight(ids: Seq<Seq<char>>, active: Seq<Seq<char>>, n: nat) -> Seq<Seq<char>>
    decreases n,
{
    if n == 0 || n > ids.len() {
        Seq::empty()
    } else if active.contains(ids[n - 1]) {
        in_flight(ids, active, (n - 1) as nat).push(ids[n - 1])
    } else {
        in_flight(ids, active, (n - 1) as nat)
    }
}

/// The ids of scheduled definitions.
pub open spec fn scheduled_ids(ts: Seq<ScheduledTaskV>) -> Seq<Seq<char>> {
    ts.map_values(|t: ScheduledTaskV| t.id)
}

/// The ids of long-cycle definitions.
pub open spec fn long_cycle_ids(ts: Seq<LongCycleTaskV>) -> Seq<Seq<char>> {
    ts.map_values(|t: LongCycleTaskV| t.id)
}

fn in_flight_exec(ids: &Vec<String>, active: &Vec<String>) -> (r: Json)
    ensures
        r@ == texts_json(in_flight(views(ids@), views(active@), ids@.len())),
{
    let ghost iv = views(ids@);
    let mut out: Vec<String> = Vec::new();
    let mut i: usize = 0;
    while i < ids.len()
        invariant
            i <= ids@.len(),
            iv == views(ids@),
            views(out@) == in_flight(iv, views(active@), i as nat),
        decreases ids.len() - i,
    {
        let ghost before = views(out@);
        if crate::strs::contains_string(active, &crate::text::chars_of(ids[i].as_str())) {
            out.push(clone_string(&ids[i]));
            assert(views(out@) =~= before.push(iv[i as int]));
        }
        i += 1;
    }
    texts_exec(&out)
}

fn scheduled_id_list(tasks: &Vec<ScheduledTask>) -> (r: Vec<String>)
    ensures
        views(r@) == scheduled_ids(scheduled_views(tasks@)),
{
    let mut out: Vec<String> = Vec::new();
    let mut i: usize = 0;
    while i < tasks.len()
        invariant
            i <= tasks@.len(),
            views(out@) == scheduled_ids(scheduled_views(tasks@)).subrange(0, i as int),
        decreases tasks.len() - i,
    {
        let ghost before = views(out@);
        out.push(clone_string(&tasks[i].id));
        assert(scheduled_views(tasks@)[i as int] == tasks@[i as int]@);
        assert(views(out@) =~= before.push(tasks@[i as int].id@));
        assert(views(out@) =~= scheduled_ids(scheduled_views(tasks@)).subrange(0, i + 1));
        i += 1;
    }
    assert(scheduled_ids(scheduled_views(tasks@)).subrange(0, tasks@.len() as int) =~= scheduled_ids(scheduled_views(tasks@)));
    out
}

fn long_cycle_id_list(tasks: &Vec<LongCycleTask>) -> (r: Vec<String>)
    ensures
        views(r@) == long_cycle_ids(long_cycle_views(tasks@)),
{
    let mut out: Vec<String> = Vec::new();
    let mut i: usize = 0;
    while i < tasks.len()
        invariant
            i <= tasks@.len(),
            views(out@) == long_cycle_ids(long_cycle_views(tasks@)).subrange(0, i as int),
        decreases tasks.len() - i,
    {
        let ghost before = views(out@);
        out.push(clone_string(&tasks[i].id));
        assert(long_cycle_views(tasks@)[i as int] == tasks@[i as int]@);
        assert(views(out@) =~= before.push(tasks@[i as int].id@));
        assert(views(out@) =~= long_cycle_ids(long_cycle_views(tasks@)).subrange(0, i + 1));
        i += 1;
    }
    assert(long_cycle_ids(long_cycle_views(tasks@)).subrange(0, tasks@.len() as int) =~= long_cycle_ids(long_cycle_views(tasks@)));
    out
}

/// The earlier of two optional times.
pub open spec fn earliest(a: Option<i64>, b: Option<i64>) -> Option<i64> {
    match (a, b) {
        (Some(x), Some(y)) => Some(if x <= y { x } else { y }),
        (Some(x), None) => Some(x),
        (None, y) => y,
    }
}

/// Whether a definition waits to fire: enabled, and its stored task is
/// scheduled.
pub open spec fn waiting(enabled: bool, state: Option<RuntimeStateV>) -> bool {
    enabled && (state matches Some(s) && s.status == "scheduled"@)
}

/// The earliest next run of the first `n` scheduled definitions that wait.
pub open spec fn scheduled_fire(ts: Seq<ScheduledTaskV>, states: Seq<(Seq<char>, RuntimeStateV)>, n: nat) -> Option<i64>
    decreases n,
{
    if n == 0 || n > ts.len() {
        None
    } else {
        let t = ts[n - 1];
        earliest(scheduled_fire(ts, states, (n - 1) as nat),
            if waiting(t.enabled, state_for(states, t.id)) { t.next_run_at } else { None })
    }
}

/// The earliest next run of the first `n` long-cycle definitions that wait.
pub open spec fn long_cycle_fire(ts: Seq<LongCycleTaskV>, states: Seq<(Seq<char>, RuntimeStateV)>, n: nat) -> Option<i64>
    decreases n,
{
    if n == 0 || n > ts.len() {
        None
    } else {
        let t = ts[n - 1];
        earliest(long_cycle_fire(ts, states, (n - 1) as nat),
            if waiting(t.enabled, state_for(states, t.id)) { t.next_run_at } else { None })
    }
}

fn earliest_exec(a: Option<i64>, b: Option<i64>) -> (r: Option<i64>)
    ensures
        r == earliest(a, b),
{
    match (a, b) {
        (Some(x), Some(y)) => Some(if x <= y { x } else { y }),
        (Some(x), None) => Some(x),
        (None, y) => y,
    }
}

fn waiting_exec(enabled: bool, state: Option<&RuntimeState>) -> (r: bool)
    ensures
        r == waiting(enabled, opt_state_view(state)),
{
    proof { reveal_strlit("scheduled"); }
    enabled && match state {
        Some(s) => str_eq(s.status.as_str(), "scheduled"),
        None => false,
    }
}

fn scheduled_fire_exec(tasks: &Vec<ScheduledTask>, states: &Vec<(String, RuntimeState)>) -> (r: Option<i64>)
    ensures
        r == scheduled_fire(scheduled_views(tasks@), states_view(states@), tasks@.len()),
{
    let ghost tv = scheduled_views(tasks@);
    let mut best: Option<i64> = None;
    let mut i: usize = 0;
    while i < tasks.len()
        invariant
            i <= tasks@.len(),
            tv == scheduled_views(tasks@),
            best == scheduled_fire(tv, states_view(states@), i as nat),
        decreases tasks.len() - i,
    {
        let t = &tasks[i];
        assert(tv[i as int] == t@);
        let cand = if waiting_exec(t.enabled, state_lookup(states, &t.id)) { t.next_run_at } else { None };
        best = earliest_exec(best, cand);
        i += 1;
    }
    best
}

fn long_cycle_fire_exec(tasks: &Vec<LongCycleTask>, states: &Vec<(String, RuntimeState)>) -> (r: Option<i64>)
    ensures
        r == long_cycle_fire(long_cycle_views(tasks@), states_view(states@), tasks@.len()),
{
    let ghost tv = long_cycle_views(tasks@);
    let mut best: Option<i64> = None;
    let mut i: usize = 0;
    while i < tasks.len()
        invariant
            i <= tasks@.len(),
            tv == long_cycle_views(tasks@),
            best == long_cycle_fire(tv, states_view(states@), i as nat),
        decreases tasks.len() - i,
    {
        let t = &tasks[i];
        assert(tv[i as int] == t@);
        let cand = if waiting_exec(t.enabled, state_lookup(states, &t.id)) { t.next_run_at } else { None };
        best = earliest_exec(best, cand);
        i += 1;
    }
    best
}

/// The projects' patrol states by project id, for the first `n`.
pub open spec fn project_reports(ps: Seq<ProjectStateV>, n: nat) -> Seq<(Seq<char>, JsonV)>
    decreases n,
{
    if n == 0 || n > ps.len() {
        Seq::empty()
    } else {
        set_entry(project_reports(ps, (n - 1) as nat), ps[n - 1].project_id,
            JsonV::Object(project_state_entries(ps[n - 1])))
    }
}

fn project_reports_exec(states: &Vec<ProjectState>) -> (r: Vec<(String, Json)>)
    ensures
        entries_of(r) == project_reports(project_views(states@), states@.len()),
{
    let ghost pv = project_views(states@);
    let mut e: Vec<(String, Json)> = Vec::new();
    proof { lemma_entries_view(e@, 0); }
    let mut i: usize = 0;
    while i < states.len()
        invariant
            i <= states@.len(),
            pv == project_views(states@),
            entries_of(e) == project_reports(pv, i as nat),
        decreases states.len() - i,
    {
        assert(pv[i as int] == states@[i as int]@);
        set_entry_exec(&mut e, states[i].project_id.as_str(), project_state_json(&states[i]));
        i += 1;
    }
    e
}

/// What the scheduler can do: definitions persist and run automatically in
/// separate sessions with receipts, but nothing runs while the application is
/// closed, and neither heartbeats nor project patrols execute.
pub open spec fn capability_entries() -> Seq<(Seq<char>, JsonV)> {
    seq![
        ("scheduledDefinitions"@, JsonV::Bool(true)),
        ("longCycleDefinitions"@, JsonV::Bool(true)),
        ("automaticExecution"@, JsonV::Bool(true)),
        ("persistentDefinitions"@, JsonV::Bool(true)),
        ("survivesAppExit"@, JsonV::Bool(false)),
        ("cancellableExecution"@, JsonV::Bool(true)),
        ("executionReceipts"@, JsonV::Bool(true)),
        ("heartbeatExecution"@, JsonV::Bool(false)),
        ("projectTickExecution"@, JsonV::Bool(false)),
        ("statusText"@, tstr("任务由 Rust/Tokio 持久化调度，到点后使用独立 Goose 会话真实执行；结果写入 SQLite 轨迹和 JSON 回执"@)),
    ]
}

fn capabilities_exec() -> (r: Json)
    ensures
        r@ == JsonV::Object(capability_entries()),
{
    let mut e: Vec<(String, Json)> = Vec::new();
    proof { lemma_entries_view(e@, 0); }
    push_entry(&mut e, "scheduledDefinitions", Json::Bool(true));
    push_entry(&mut e, "longCycleDefinitions", Json::Bool(true));
    push_entry(&mut e, "automaticExecution", Json::Bool(true));
    push_entry(&mut e, "persistentDefinitions", Json::Bool(true));
    push_entry(&mut e, "survivesAppExit", Json::Bool(false));
    push_entry(&mut e, "cancellableExecution", Json::Bool(true));
    push_entry(&mut e, "executionReceipts", Json::Bool(true));
    push_entry(&mut e, "heartbeatExecution", Json::Bool(false));
    push_entry(&mut e, "projectTickExecution", Json::Bool(false));
    push_entry(&mut e, "statusText", Json::text("任务由 Rust/Tokio 持久化调度，到点后使用独立 Goose 会话真实执行；结果写入 SQLite 轨迹和 JSON 回执"));
    assert(entries_of(e) =~= capability_entries());
    object_of(e)
}

/// What the status reads: the settings, the lease, the definitions, their
/// stored execution states, and the ids executing now.
pub struct StatusInputs {
    pub config: RunnerConfig,
    /// The lease's owner and expiry, when there is one.
    pub lease: Option<(String, i64)>,
    /// This scheduler instance.
    pub instance: String,
    pub now: i64,
    pub scheduled: Vec<ScheduledTask>,
    pub long_cycle: Vec<LongCycleTask>,
    pub scheduled_states: Vec<(String, RuntimeState)>,
    pub long_cycle_states: Vec<(String, RuntimeState)>,
    /// The ids of the executions in progress, as the registry lists them.
    pub active: Vec<String>,
}

/// The lease as a value.
pub open spec fn lease_of(l: Option<(String, i64)>) -> Option<(Seq<char>, i64)> {
    match l {
        Some((o, e)) => Some((o@, e)),
        None => None,
    }
}

/// The scheduler's status report.
pub open spec fn status_entries(s: StatusInputs) -> Seq<(Seq<char>, JsonV)> {
    let c: RunnerConfigV = s.config@;
    let lease = lease_of(s.lease);
    let sv = scheduled_views(s.scheduled@);
    let lv = long_cycle_views(s.long_cycle@);
    let ss = states_view(s.scheduled_states@);
    let ls = states_view(s.long_cycle_states@);
    let active = views(s.active@);
    let next_fire = earliest(scheduled_fire(sv, ss, sv.len()), long_cycle_fire(lv, ls, lv.len()));
    seq![
        ("enabled"@, JsonV::Bool(c.enabled)),
        ("lockState"@, tstr(if owns_lease_of(lease, s.instance@, s.now as int) { "owner"@ } else { "passive"@ })),
        ("blockedBy"@, opt_text_json(blocked_by_of(lease, s.instance@, s.now as int))),
        ("leaseExpiresAt"@, match lease {
            Some((_, e)) => timestamp_json(Some(e)),
            None => JsonV::Null,
        }),
        ("intervalMinutes"@, JsonV::Int(c.interval_minutes)),
        ("keepAliveWhenNoWindow"@, JsonV::Bool(c.keep_alive_when_no_window)),
        ("maxProjectsPerTick"@, JsonV::Int(c.max_projects_per_tick)),
        ("maxAutomationPerTick"@, JsonV::Int(c.max_automation_per_tick)),
        ("isTicking"@, JsonV::Bool(active.len() > 0)),
        ("currentProjectId"@, JsonV::Null),
        ("currentAutomationTaskId"@, if active.len() > 0 { tstr(active[0]) } else { JsonV::Null }),
        ("nextAutomationFireAt"@, timestamp_json(next_fire)),
        ("inFlightTaskIds"@, texts_json(in_flight(scheduled_ids(sv), active, sv.len()))),
        ("inFlightLongCycleTaskIds"@, texts_json(in_flight(long_cycle_ids(lv), active, lv.len()))),
        ("heartbeatInFlight"@, JsonV::Bool(false)),
        ("lastTickAt"@, JsonV::Null),
        ("nextTickAt"@, timestamp_json(next_fire)),
        ("lastError"@, JsonV::Null),
        ("nextMaintenanceAt"@, JsonV::Null),
        ("projectStates"@, JsonV::Object(project_reports(c.project_states, c.project_states.len()))),
        ("heartbeat"@, JsonV::Object(heartbeat_entries(c.heartbeat))),
        ("scheduledTasks"@, JsonV::Object(scheduled_reports(sv, ss, sv.len()))),
        ("longCycleTasks"@, JsonV::Object(long_cycle_reports(lv, ls, lv.len()))),
        ("capabilities"@, JsonV::Object(capability_entries())),
    ]
}

/// The scheduler's status report: its settings, whether this instance holds
/// the lease, the next time a waiting definition fires, what is executing,
/// each definition with its execution state, and its capabilities.
#[verifier::rlimit(80)]
pub fn runner_status(s: &StatusInputs) -> (r: Json)
    ensures
        r@ == JsonV::Object(status_entries(*s)),
{
    proof {
        reveal_strlit("owner");
        reveal_strlit("passive");
    }
    let c = &s.config;
    let (owns, blocked) = lease_view(&s.lease, s.instance.as_str(), s.now);
    let lease_expires = match &s.lease {
        Some((_, e)) => timestamp_value(Some(*e)),
        None => Json::Null,
    };
    let next_fire = earliest_exec(
        scheduled_fire_exec(&s.scheduled, &s.scheduled_states),
        long_cycle_fire_exec(&s.long_cycle, &s.long_cycle_states),
    );
    let current = if s.active.len() > 0 { Json::from_string(clone_string(&s.active[0])) } else { Json::Null };
    let sched_ids = scheduled_id_list(&s.scheduled);
    let long_ids = long_cycle_id_list(&s.long_cycle);
    let mut e: Vec<(String, Json)> = Vec::new();
    proof { lemma_entries_view(e@, 0); }
    push_entry(&mut e, "enabled", Json::Bool(c.enabled));
    push_entry(&mut e, "lockState", Json::text(if owns { "owner" } else { "passive" }));
    push_entry(&mut e, "blockedBy", opt_text_exec(&blocked));
    push_entry(&mut e, "leaseExpiresAt", lease_expires);
    push_entry(&mut e, "intervalMinutes", Json::Int(c.interval_minutes));
    push_entry(&mut e, "keepAliveWhenNoWindow", Json::Bool(c.keep_alive_when_no_window));
    push_entry(&mut e, "maxProjectsPerTick", Json::Int(c.max_projects_per_tick));
    push_entry(&mut e, "maxAutomationPerTick", Json::Int(c.max_automation_per_tick));
    push_entry(&mut e, "isTicking", Json::Bool(s.active.len() > 0));
    push_entry(&mut e, "currentProjectId", Json::Null);
    push_entry(&mut e, "currentAutomationTaskId", current);
    push_entry(&mut e, "nextAutomationFireAt", timestamp_value(next_fire));
    push_entry(&mut e, "inFlightTaskIds", in_flight_exec(&sched_ids, &s.active));
    push_entry(&mut e, "inFlightLongCycleTaskIds", in_flight_exec(&long_ids, &s.active));
    push_entry(&mut e, "heartbeatInFlight", Json::Bool(false));
    push_entry(&mut e, "lastTickAt", Json::Null);
    push_entry(&mut e, "nextTickAt", timestamp_value(next_fire));
    push_entry(&mut e, "lastError", Json::Null);
    push_entry(&mut e, "nextMaintenanceAt", Json::Null);
    push_entry(&mut e, "projectStates", object_of(project_reports_exec(&c.project_states)));
    push_entry(&mut e, "heartbeat", heartbeat_json(&c.heartbeat));
    push_entry(&mut e, "scheduledTasks", object_of(scheduled_reports_exec(&s.scheduled, &s.scheduled_states)));
    push_entry(&mut e, "longCycleTasks", object_of(long_cycle_reports_exec(&s.long_cycle, &s.long_cycle_states)));
    push_entry(&mut e, "capabilities", capabilities_exec());
    proof {
        assert(scheduled_ids(scheduled_views(s.scheduled@)).len() == s.scheduled@.len());
        assert(long_cycle_ids(long_cycle_views(s.long_cycle@)).len() == s.long_cycle@.len());
    }
    assert(entries_of(e) =~= status_entries(*s));
    object_of(e)
}

} // verus!
