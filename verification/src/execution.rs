//! What a scheduled execution may do, and when its result counts as a
//! success: the tool calls it made are checked against the task's
//! authorization snapshot and against the evidence each tool returned.

use vstd::prelude::*;
use crate::text::{trim, take_chars, chars_of, trim_chars, take_chars_vec, string_from_chars, chars_eq};
use crate::json::{Json, JsonV};
use crate::strs::{views, join, join_strings};
use crate::redclaw_runner::{name_matches, high_risk, basename, name_matches_chars, high_risk_chars, basename_chars, uncovered, uncovered_names};
use crate::evidence::{
    asks_dry_run, reports_failure, holds_flag, has_nonempty_key, contains_disallowed_tool_input,
    contains_explicit_tool_failure, value_contains_bool, value_has_nonempty_key,
};

verus! {

/// Most characters of a response that an execution keeps.
pub const MAX_RESULT_CHARS: usize = 32000;

/// Most tool calls one execution may make.
pub const MAX_TOOL_CALLS_PER_EXECUTION: usize = 128;

/// One tool call of an execution and what it returned.
pub struct ToolEvidence {
    pub call_id: String,
    pub name: String,
    pub input: Json,
    pub output: Option<Json>,
}

/// A successful execution's response text and tool calls.
pub struct ExecutionOutput {
    pub response: String,
    pub tools: Vec<ToolEvidence>,
}

/// Why an execution did not succeed.
pub enum ExecutionFailure {
    Cancelled,
    Failed(String),
    ToolFailed { error: String, tools: Vec<ToolEvidence> },
}

/// The names of the tool calls.
pub open spec fn tool_names(t: Seq<ToolEvidence>) -> Seq<Seq<char>> {
    t.map_values(|e: ToolEvidence| e.name@)
}

/// The view of an optional tool output.
pub open spec fn out_view(o: Option<Json>) -> Option<JsonV> {
    match o {
        Some(j) => Some(j@),
        None => None,
    }
}

/// Whether the tool called `name` counts as one of `reqs`.
pub open spec fn matches_some(name: Seq<char>, reqs: Seq<Seq<char>>) -> bool {
    exists|j: int| 0 <= j < reqs.len() && name_matches(name, reqs[j])
}

/// The checks that each tool call must pass, in the order they are made.
#[derive(Clone, Copy, PartialEq, Eq)]
pub enum Check {
    /// The call is outside `allowedTools`.
    Unauthorized,
    /// A paid or publishing call without explicit authorization.
    UnauthorizedHighRisk,
    /// The call's input still asks for a dry run.
    DryRunInput,
    /// The call's output reports failure.
    ExplicitFailure,
    /// The call returned no output.
    NoOutput,
}

/// Whether a tool call fails `check`.
pub open spec fn flagged(check: Check, e: ToolEvidence, allowed: Seq<Seq<char>>, authorized: Seq<Seq<char>>) -> bool {
    match check {
        Check::Unauthorized => !matches_some(e.name@, allowed),
        Check::UnauthorizedHighRisk => high_risk(e.name@) && !matches_some(e.name@, authorized),
        Check::DryRunInput => asks_dry_run(e.input@),
        Check::ExplicitFailure => match out_view(e.output) {
            Some(o) => reports_failure(o),
            None => false,
        },
        Check::NoOutput => e.output is None,
    }
}

/// The names of the calls that fail `check`, in call order.
pub open spec fn flagged_names(
    check: Check,
    t: Seq<ToolEvidence>,
    allowed: Seq<Seq<char>>,
    authorized: Seq<Seq<char>>,
) -> Seq<Seq<char>> {
    tool_names(t.filter(|e: ToolEvidence| flagged(check, e, allowed, authorized)))
}

/// Whether the output of a required tool proves that it really did its work.
pub open spec fn proves_work(required: Seq<char>, o: JsonV) -> bool {
    let b = basename(required);
    if b == "create_note"@ {
        holds_flag(o, "persisted"@, true)
    } else if b == "generate_image"@ {
        holds_flag(o, "executed"@, true) && has_nonempty_key(o, seq!["assets"@])
    } else if b == "seedance_video"@ {
        (holds_flag(o, "success"@, true) || holds_flag(o, "ok"@, true)) && has_nonempty_key(
            o,
            seq!["artifacts"@, "output"@, "output_path"@, "path"@, "file"@],
        )
    } else {
        holds_flag(o, "success"@, true) || holds_flag(o, "ok"@, true) || holds_flag(o, "executed"@, true)
            || holds_flag(o, "persisted"@, true)
    }
}

/// The position of the first call that counts as the tool `r`.
pub open spec fn first_call(t: Seq<ToolEvidence>, r: Seq<char>) -> Option<int> {
    if exists|i: int| 0 <= i < t.len() && name_matches(t[i].name@, r) {
        Some(choose|i: int| 0 <= i < t.len() && name_matches(t[i].name@, r) && forall|k: int|
            0 <= k < i ==> !name_matches(t[k].name@, r))
    } else {
        None
    }
}

/// Whether the required tool `r` lacks a proving output: no call counts as
/// it, or the first such call returned nothing or nothing that proves work.
pub open spec fn unverified(t: Seq<ToolEvidence>, r: Seq<char>) -> bool {
    match first_call(t, r) {
        None => true,
        Some(i) => match out_view(t[i].output) {
            None => true,
            Some(o) => !proves_work(r, o),
        },
    }
}

/// The required tools without proving output, in the order required.
pub open spec fn unverified_names(required: Seq<Seq<char>>, t: Seq<ToolEvidence>) -> Seq<Seq<char>> {
    required.filter(|r: Seq<char>| unverified(t, r))
}

/// What the checks of a finished stream find, in the order they are made.
pub enum Verdict {
    StreamErrors,
    Flagged(Check, Seq<Seq<char>>),
    MissingRequired(Seq<Seq<char>>),
    Unverified(Seq<Seq<char>>),
    NothingProduced,
    Success,
}

/// The verdict on a finished stream: the errors it reported, the tool calls
/// it made and the text it returned.
pub open spec fn verdict(
    allowed: Seq<Seq<char>>,
    required: Seq<Seq<char>>,
    authorized: Seq<Seq<char>>,
    response: Seq<char>,
    t: Seq<ToolEvidence>,
    errors: Seq<Seq<char>>,
) -> Verdict {
    if errors.len() > 0 {
        Verdict::StreamErrors
    } else if flagged_names(Check::Unauthorized, t, allowed, authorized).len() > 0 {
        Verdict::Flagged(Check::Unauthorized, flagged_names(Check::Unauthorized, t, allowed, authorized))
    } else if flagged_names(Check::UnauthorizedHighRisk, t, allowed, authorized).len() > 0 {
        Verdict::Flagged(Check::UnauthorizedHighRisk, flagged_names(Check::UnauthorizedHighRisk, t, allowed, authorized))
    } else if flagged_names(Check::DryRunInput, t, allowed, authorized).len() > 0 {
        Verdict::Flagged(Check::DryRunInput, flagged_names(Check::DryRunInput, t, allowed, authorized))
    } else if flagged_names(Check::ExplicitFailure, t, allowed, authorized).len() > 0 {
        Verdict::Flagged(Check::ExplicitFailure, flagged_names(Check::ExplicitFailure, t, allowed, authorized))
    } else if flagged_names(Check::NoOutput, t, allowed, authorized).len() > 0 {
        Verdict::Flagged(Check::NoOutput, flagged_names(Check::NoOutput, t, allowed, authorized))
    } else if uncovered(required, tool_names(t)).len() > 0 {
        Verdict::MissingRequired(uncovered(required, tool_names(t)))
    } else if unverified_names(required, t).len() > 0 {
        Verdict::Unverified(unverified_names(required, t))
    } else if trim(response).len() == 0 && t.len() == 0 {
        Verdict::NothingProduced
    } else {
        Verdict::Success
    }
}

/// The text that explains a check's finding.
pub open spec fn check_prefix(c: Check) -> Seq<char> {
    match c {
        Check::Unauthorized => "Agent 尝试调用 allowedTools 之外的工具："@,
        Check::UnauthorizedHighRisk => "付费或发布工具缺少任务级显式授权："@,
        Check::DryRunInput => "工具输入仍是 dry-run，拒绝把任务记录为成功："@,
        Check::ExplicitFailure => "工具明确返回失败，拒绝把任务记录为成功："@,
        Check::NoOutput => "工具调用没有返回结果，拒绝把任务记录为成功："@,
    }
}

/// The error text of a failing verdict.
pub open spec fn verdict_message(v: Verdict, errors: Seq<Seq<char>>) -> Seq<char> {
    match v {
        Verdict::StreamErrors => join(errors, "\n"@),
        Verdict::Flagged(c, names) => check_prefix(c) + join(names, ", "@),
        Verdict::MissingRequired(names) => "任务要求的工具没有被真实调用，拒绝记录为成功："@ + join(names, ", "@),
        Verdict::Unverified(names) => "必需工具缺少真实产物证明，拒绝记录为成功："@ + join(names, ", "@),
        Verdict::NothingProduced => "Agent 执行结束但没有文本或工具结果，拒绝记录为成功"@,
        Verdict::Success => Seq::empty(),
    }
}

/// The names of the calls.
pub fn tool_name_list(tools: &Vec<ToolEvidence>) -> (r: Vec<String>)
    ensures
        views(r@) == tool_names(tools@),
{
    let mut out: Vec<String> = Vec::new();
    let mut i: usize = 0;
    while i < tools.len()
        invariant
            i <= tools@.len(),
            views(out@) == tool_names(tools@).take(i as int),
        decreases tools.len() - i,
    {
        let ghost before = views(out@);
        out.push(tools[i].name.clone());
        assert(views(out@) =~= before.push(tools@[i as int].name@));
        assert(tool_names(tools@).take(i + 1) =~= tool_names(tools@).take(i as int).push(tools@[i as int].name@));
        i += 1;
    }
    assert(tool_names(tools@).take(i as int) =~= tool_names(tools@));
    out
}

/// Whether the call named `name` counts as one of `reqs`.
pub fn matches_any(name: &Vec<char>, reqs: &Vec<String>) -> (r: bool)
    ensures
        r == matches_some(name@, views(reqs@)),
{
    let mut j: usize = 0;
    while j < reqs.len()
        invariant
            j <= reqs@.len(),
            forall|m: int| 0 <= m < j ==> !name_matches(name@, #[trigger] reqs@[m]@),
        decreases reqs.len() - j,
    {
        let c = chars_of(reqs[j].as_str());
        if name_matches_chars(name, &c) {
            assert(views(reqs@)[j as int] == reqs@[j as int]@);
            return true;
        }
        j += 1;
    }
    proof {
        if matches_some(name@, views(reqs@)) {
            let m = choose|m: int| 0 <= m < views(reqs@).len() && name_matches(name@, views(reqs@)[m]);
            assert(views(reqs@)[m] == reqs@[m]@);
        }
    }
    false
}

/// Whether a tool call fails `check`.
pub fn is_flagged(check: Check, e: &ToolEvidence, allowed: &Vec<String>, authorized: &Vec<String>) -> (r: bool)
    ensures
        r == flagged(check, *e, views(allowed@), views(authorized@)),
{
    let name = chars_of(e.name.as_str());
    match check {
        Check::Unauthorized => !matches_any(&name, allowed),
        Check::UnauthorizedHighRisk => high_risk_chars(&name) && !matches_any(&name, authorized),
        Check::DryRunInput => contains_disallowed_tool_input(&e.input),
        Check::ExplicitFailure => match &e.output {
            Some(o) => contains_explicit_tool_failure(o),
            None => false,
        },
        Check::NoOutput => e.output.is_none(),
    }
}

/// The names of the calls that fail `check`, in call order.
pub fn flagged_name_list(
    check: Check,
    tools: &Vec<ToolEvidence>,
    allowed: &Vec<String>,
    authorized: &Vec<String>,
) -> (r: Vec<String>)
    ensures
        views(r@) == flagged_names(check, tools@, views(allowed@), views(authorized@)),
{
    let ghost p = |e: ToolEvidence| flagged(check, e, views(allowed@), views(authorized@));
    let mut out: Vec<String> = Vec::new();
    let mut i: usize = 0;
    while i < tools.len()
        invariant
            i <= tools@.len(),
            p == (|e: ToolEvidence| flagged(check, e, views(allowed@), views(authorized@))),
            views(out@) == tool_names(tools@.take(i as int).filter(p)),
        decreases tools.len() - i,
    {
        let ghost before = views(out@);
        proof {
            assert(tools@.take(i + 1) =~= tools@.take(i as int).push(tools@[i as int]));
            tools@.take(i as int).lemma_filter_push(tools@[i as int], p);
        }
        if is_flagged(check, &tools[i], allowed, authorized) {
            out.push(tools[i].name.clone());
            assert(views(out@) =~= before.push(tools@[i as int].name@));
            assert(tool_names(tools@.take(i as int).filter(p).push(tools@[i as int])) =~= tool_names(
                tools@.take(i as int).filter(p),
            ).push(tools@[i as int].name@));
        }
        i += 1;
    }
    assert(tools@.take(i as int) =~= tools@);
    out
}

fn is_lit(v: &Vec<char>, lit: &str) -> (r: bool)
    ensures
        r == (v@ == lit@),
{
    let l = chars_of(lit);
    chars_eq(v, &l)
}

fn strings_of(a: &str) -> (r: Vec<String>)
    ensures
        views(r@) == seq![a@],
{
    let mut v: Vec<String> = Vec::new();
    v.push(crate::text::owned(a));
    assert(views(v@) =~= seq![a@]);
    v
}

/// Whether the output of the required tool `required` proves its work.
pub fn output_proves_work(required: &Vec<char>, o: &Json) -> (r: bool)
    ensures
        r == proves_work(required@, o@),
{
    let b = basename_chars(required);
    if is_lit(&b, "create_note") {
        value_contains_bool(o, "persisted", true)
    } else if is_lit(&b, "generate_image") {
        let keys = strings_of("assets");
        value_contains_bool(o, "executed", true) && value_has_nonempty_key(o, &keys)
    } else if is_lit(&b, "seedance_video") {
        let mut keys: Vec<String> = Vec::new();
        keys.push(crate::text::owned("artifacts"));
        keys.push(crate::text::owned("output"));
        keys.push(crate::text::owned("output_path"));
        keys.push(crate::text::owned("path"));
        keys.push(crate::text::owned("file"));
        assert(views(keys@) =~= seq!["artifacts"@, "output"@, "output_path"@, "path"@, "file"@]);
        (value_contains_bool(o, "success", true) || value_contains_bool(o, "ok", true))
            && value_has_nonempty_key(o, &keys)
    } else {
        value_contains_bool(o, "success", true) || value_contains_bool(o, "ok", true)
            || value_contains_bool(o, "executed", true) || value_contains_bool(o, "persisted", true)
    }
}

/// Whether the required tool `r` lacks a proving output.
pub fn is_unverified(tools: &Vec<ToolEvidence>, r: &Vec<char>) -> (res: bool)
    ensures
        res == unverified(tools@, r@),
{
    let mut i: usize = 0;
    while i < tools.len()
        invariant
            i <= tools@.len(),
            forall|k: int| 0 <= k < i ==> !name_matches(#[trigger] tools@[k].name@, r@),
        decreases tools.len() - i,
    {
        let name = chars_of(tools[i].name.as_str());
        if name_matches_chars(&name, r) {
            proof {
                let w = choose|w: int|
                    0 <= w < tools@.len() && name_matches(tools@[w].name@, r@) && forall|k: int|
                        0 <= k < w ==> !name_matches(tools@[k].name@, r@);
                assert(w == i) by {
                    if w < i {
                        assert(!name_matches(tools@[w].name@, r@));
                    } else if w > i {
                        assert(!name_matches(tools@[i as int].name@, r@));
                    }
                }
            }
            return match &tools[i].output {
                None => true,
                Some(o) => !output_proves_work(r, o),
            };
        }
        i += 1;
    }
    true
}

/// `unverified_required_tools`: the required tools without proving output.
pub fn unverified_required_tools(required: &Vec<String>, tools: &Vec<ToolEvidence>) -> (r: Vec<String>)
    ensures
        views(r@) == unverified_names(views(required@), tools@),
{
    let ghost p = |x: Seq<char>| unverified(tools@, x);
    let mut out: Vec<String> = Vec::new();
    let mut i: usize = 0;
    while i < required.len()
        invariant
            i <= required@.len(),
            p == (|x: Seq<char>| unverified(tools@, x)),
            views(out@) == views(required@).take(i as int).filter(p),
        decreases required.len() - i,
    {
        let c = chars_of(required[i].as_str());
        let ghost before = views(out@);
        proof {
            assert(views(required@).take(i + 1) =~= views(required@).take(i as int).push(required@[i as int]@));
            views(required@).take(i as int).lemma_filter_push(required@[i as int]@, p);
        }
        if is_unverified(tools, &c) {
            out.push(required[i].clone());
            assert(views(out@) =~= before.push(required@[i as int]@));
        }
        i += 1;
    }
    assert(views(required@).take(i as int) =~= views(required@));
    out
}

/// `missing_required_tools`: the required tools that no call counts as.
pub fn missing_required_tools(required: &Vec<String>, tools: &Vec<ToolEvidence>) -> (r: Vec<String>)
    ensures
        views(r@) == uncovered(views(required@), tool_names(tools@)),
{
    let names = tool_name_list(tools);
    uncovered_names(required, &names, false)
}

fn prefixed(prefix: &str, names: &Vec<String>) -> (r: String)
    ensures
        r@ == prefix@ + join(views(names@), ", "@),
{
    let mut out = chars_of(prefix);
    let joined = join_strings(names, ", ");
    crate::text::append_str(&mut out, joined.as_str());
    string_from_chars(&out)
}

/// Judges a finished execution stream. The stream's errors, calls outside
/// `allowedTools`, paid or publishing calls without authorization, dry-run
/// inputs, outputs that report failure, calls without output, required
/// tools never called and required tools without proving output each make
/// it fail, in that order; so does a stream that produced neither text nor
/// tool calls. Otherwise it succeeds with its trimmed response, cut to
/// `MAX_RESULT_CHARS` characters, and its calls.
pub fn evaluate_execution(
    allowed: &Vec<String>,
    required: &Vec<String>,
    authorized: &Vec<String>,
    response: &String,
    tools: Vec<ToolEvidence>,
    errors: &Vec<String>,
) -> (r: Result<ExecutionOutput, ExecutionFailure>)
    ensures
        ({
            let v = verdict(views(allowed@), views(required@), views(authorized@), response@, tools@, views(errors@));
            match r {
                Ok(out) => v == Verdict::Success && out.tools@ == tools@ && out.response@ == take_chars(
                    trim(response@),
                    MAX_RESULT_CHARS as nat,
                ),
                Err(ExecutionFailure::ToolFailed { error, tools: t }) => v != Verdict::Success
                    && v != Verdict::NothingProduced && t@ == tools@ && error@ == verdict_message(v, views(errors@)),
                Err(ExecutionFailure::Failed(msg)) => v == Verdict::NothingProduced && msg@ == verdict_message(
                    v,
                    views(errors@),
                ),
                Err(ExecutionFailure::Cancelled) => false,
            }
        }),
{
    let ghost v = verdict(views(allowed@), views(required@), views(authorized@), response@, tools@, views(errors@));
    if errors.len() > 0 {
        let error = join_strings(errors, "\n");
        return Err(ExecutionFailure::ToolFailed { error, tools });
    }

    let names = flagged_name_list(Check::Unauthorized, &tools, allowed, authorized);
    if names.len() > 0 {
        let error = prefixed("Agent 尝试调用 allowedTools 之外的工具：", &names);
        return Err(ExecutionFailure::ToolFailed { error, tools });
    }
    let names = flagged_name_list(Check::UnauthorizedHighRisk, &tools, allowed, authorized);
    if names.len() > 0 {
        let error = prefixed("付费或发布工具缺少任务级显式授权：", &names);
        return Err(ExecutionFailure::ToolFailed { error, tools });
    }
    let names = flagged_name_list(Check::DryRunInput, &tools, allowed, authorized);
    if names.len() > 0 {
        let error = prefixed("工具输入仍是 dry-run，拒绝把任务记录为成功：", &names);
        return Err(ExecutionFailure::ToolFailed { error, tools });
    }
    let names = flagged_name_list(Check::ExplicitFailure, &tools, allowed, authorized);
    if names.len() > 0 {
        let error = prefixed("工具明确返回失败，拒绝把任务记录为成功：", &names);
        return Err(ExecutionFailure::ToolFailed { error, tools });
    }
    let names = flagged_name_list(Check::NoOutput, &tools, allowed, authorized);
    if names.len() > 0 {
        let error = prefixed("工具调用没有返回结果，拒绝把任务记录为成功：", &names);
        return Err(ExecutionFailure::ToolFailed { error, tools });
    }
    let missing = missing_required_tools(required, &tools);
    if missing.len() > 0 {
        let error = prefixed("任务要求的工具没有被真实调用，拒绝记录为成功：", &missing);
        return Err(ExecutionFailure::ToolFailed { error, tools });
    }
    let unverified_list = unverified_required_tools(required, &tools);
    if unverified_list.len() > 0 {
        let error = prefixed("必需工具缺少真实产物证明，拒绝记录为成功：", &unverified_list);
        return Err(ExecutionFailure::ToolFailed { error, tools });
    }
    let rc = chars_of(response.as_str());
    let trimmed = trim_chars(&rc);
    if trimmed.len() == 0 && tools.len() == 0 {
        return Err(ExecutionFailure::Failed(crate::text::owned("Agent 执行结束但没有文本或工具结果，拒绝记录为成功")));
    }
    let kept = take_chars_vec(&trimmed, MAX_RESULT_CHARS);
    Ok(ExecutionOutput { response: string_from_chars(&kept), tools })
}

} // verus!

verus! {

/// The calls of `required` that `allowed` does not cover, checked before an
/// execution starts: an empty `allowedTools` denies everything.
pub fn pre_execution_check(allowed: &Vec<String>, required: &Vec<String>) -> (r: Result<(), String>)
    ensures
        match r {
            Ok(()) => allowed@.len() > 0 && uncovered(views(required@), views(allowed@)).len() == 0,
            Err(msg) => if allowed@.len() == 0 {
                msg@ == "任务缺少 allowedTools 授权快照；默认拒绝全部工具"@
            } else {
                uncovered(views(required@), views(allowed@)).len() > 0 && msg@ == "requiredTools 不在 allowedTools 授权中："@
                    + join(uncovered(views(required@), views(allowed@)), ", "@)
            },
        },
{
    if allowed.len() == 0 {
        return Err(crate::text::owned("任务缺少 allowedTools 授权快照；默认拒绝全部工具"));
    }
    let missing = uncovered_names(required, allowed, false);
    if missing.len() > 0 {
        return Err(prefixed("requiredTools 不在 allowedTools 授权中：", &missing));
    }
    Ok(())
}

/// Whether some call is named `name`.
pub open spec fn has_call_named(t: Seq<ToolEvidence>, name: Seq<char>) -> bool {
    exists|i: int| 0 <= i < t.len() && t[i].name@ == name
}

/// Records the start of a tool call. A second call of the same tool, or a
/// call beyond `MAX_TOOL_CALLS_PER_EXECUTION`, is refused and recorded
/// nowhere; the execution is then stopped.
pub fn record_tool_start(tools: &mut Vec<ToolEvidence>, call_id: String, name: String, input: Json) -> (r: Result<(), String>)
    ensures
        match r {
            Ok(()) => !has_call_named(old(tools)@, name@) && old(tools)@.len() < MAX_TOOL_CALLS_PER_EXECUTION
                && final(tools)@.len() == old(tools)@.len() + 1
                && final(tools)@.drop_last() == old(tools)@
                && final(tools)@.last().name@ == name@ && final(tools)@.last().call_id@ == call_id@
                && final(tools)@.last().input@ == input@ && final(tools)@.last().output is None,
            Err(msg) => final(tools)@ == old(tools)@ && if has_call_named(old(tools)@, name@) {
                msg@ == "同一工具每次执行最多调用一次，已拒绝重复调用："@ + name@
            } else {
                old(tools)@.len() >= MAX_TOOL_CALLS_PER_EXECUTION && msg@
                    == "单次任务工具调用超过 128 次，已停止以限制费用与回执大小"@
            },
        },
{
    let n = chars_of(name.as_str());
    let mut i: usize = 0;
    while i < tools.len()
        invariant
            i <= tools@.len(),
            tools@ == old(tools)@,
            n@ == name@,
            forall|k: int| 0 <= k < i ==> tools@[k].name@ != name@,
        decreases tools.len() - i,
    {
        let c = chars_of(tools[i].name.as_str());
        if chars_eq(&c, &n) {
            let mut msg = chars_of("同一工具每次执行最多调用一次，已拒绝重复调用：");
            crate::text::append_chars(&mut msg, &n);
            return Err(string_from_chars(&msg));
        }
        i += 1;
    }
    if tools.len() >= MAX_TOOL_CALLS_PER_EXECUTION {
        return Err(crate::text::owned("单次任务工具调用超过 128 次，已停止以限制费用与回执大小"));
    }
    tools.push(ToolEvidence { call_id, name, input, output: None });
    assert(tools@.drop_last() =~= old(tools)@);
    Ok(())
}

/// The position of the last call with this id.
pub open spec fn last_call_with_id(t: Seq<ToolEvidence>, id: Seq<char>) -> Option<int> {
    if exists|i: int| 0 <= i < t.len() && t[i].call_id@ == id {
        Some(choose|i: int| 0 <= i < t.len() && t[i].call_id@ == id && forall|k: int| i < k < t.len() ==> t[k].call_id@ != id)
    } else {
        None
    }
}

/// Records the end of a tool call: the latest call with this id gets the
/// output, or a call without input is added when none has it.
pub fn record_tool_end(tools: &mut Vec<ToolEvidence>, call_id: String, name: String, output: Json)
    ensures
        match last_call_with_id(old(tools)@, call_id@) {
            Some(i) => final(tools)@.len() == old(tools)@.len() && (forall|k: int|
                0 <= k < old(tools)@.len() && k != i ==> final(tools)@[k] == old(tools)@[k])
                && final(tools)@[i].call_id == old(tools)@[i].call_id && final(tools)@[i].name == old(tools)@[i].name
                && final(tools)@[i].input == old(tools)@[i].input && out_view(final(tools)@[i].output) == Some(output@),
            None => final(tools)@.len() == old(tools)@.len() + 1 && final(tools)@.drop_last() == old(tools)@
                && final(tools)@.last().call_id@ == call_id@ && final(tools)@.last().name@ == name@
                && final(tools)@.last().input@ == JsonV::Null && out_view(final(tools)@.last().output) == Some(output@),
        },
{
    let id = chars_of(call_id.as_str());
    let mut i: usize = tools.len();
    while i > 0
        invariant
            i <= tools@.len(),
            tools@ == old(tools)@,
            id@ == call_id@,
            forall|k: int| i <= k < tools@.len() ==> tools@[k].call_id@ != call_id@,
        decreases i,
    {
        let c = chars_of(tools[i - 1].call_id.as_str());
        if chars_eq(&c, &id) {
            let k = i - 1;
            proof {
                let w = choose|w: int|
                    0 <= w < old(tools)@.len() && old(tools)@[w].call_id@ == call_id@ && forall|m: int|
                        w < m < old(tools)@.len() ==> old(tools)@[m].call_id@ != call_id@;
                assert(w == k) by {
                    if w < k {
                        assert(old(tools)@[k as int].call_id@ != call_id@);
                    } else if w > k {
                        assert(old(tools)@[w].call_id@ != call_id@);
                    }
                }
            }
            let ghost old_entry = tools@[k as int];
            let mut entry = tools.remove(k);
            entry.output = Some(output);
            tools.insert(k, entry);
            return;
        }
        i -= 1;
    }
    tools.push(ToolEvidence { call_id, name, input: Json::Null, output: Some(output) });
    assert(tools@.drop_last() =~= old(tools)@);
}

} // verus!
