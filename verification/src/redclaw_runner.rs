//! RedClaw scheduling rules: tool authorization snapshots, schedule
//! computation, due-task selection, execution evidence checks and the state
//! transitions that a finished execution makes.

use vstd::prelude::*;
use crate::text::{
    rfind_seq, contains_seq, lower_seq, has_prefix, has_suffix, is_ascii_alnum, chars_of,
    chars_eq, after_last, vec_contains, lower_chars, vec_has_prefix, vec_has_suffix,
    char_is_ascii_alnum,
};
use crate::json::{Json, JsonV, jget};
use crate::strs::{views, string_array, string_array_exec, join, join_strings};

verus! {

// ===========================================================================
// Task kinds
// ===========================================================================

/// The two kinds of scheduler definitions.
#[derive(Clone, Copy, PartialEq, Eq, Debug)]
pub enum TaskKind {
    Scheduled,
    LongCycle,
}

impl TaskKind {
    /// The `task_type` column value of this kind.
    pub fn task_type(self) -> (r: &'static str)
        ensures
            r@ == match self {
                TaskKind::Scheduled => "redclaw-scheduled"@,
                TaskKind::LongCycle => "redclaw-long-cycle"@,
            },
    {
        match self {
            TaskKind::Scheduled => "redclaw-scheduled",
            TaskKind::LongCycle => "redclaw-long-cycle",
        }
    }

    /// The label used in receipts and change events.
    pub fn receipt_label(self) -> (r: &'static str)
        ensures
            r@ == match self {
                TaskKind::Scheduled => "scheduled"@,
                TaskKind::LongCycle => "long-cycle"@,
            },
    {
        match self {
            TaskKind::Scheduled => "scheduled",
            TaskKind::LongCycle => "long-cycle",
        }
    }
}

// ===========================================================================
// Tool names
// ===========================================================================

/// The tool name without its `server__` namespace: the text after the last
/// `__`, or the whole name.
pub open spec fn basename(s: Seq<char>) -> Seq<char> {
    match rfind_seq(s, "__"@) {
        Some(i) => s.subrange(i + 2, s.len() as int),
        None => s,
    }
}

/// Whether a tool called `actual` counts as the tool `required`: the same
/// name, or (for an un-namespaced `required`) the same basename.
pub open spec fn name_matches(actual: Seq<char>, required: Seq<char>) -> bool {
    actual == required || (!contains_seq(required, "__"@) && basename(actual) == required)
}

/// Whether a tool generates paid content or publishes, so that a task must
/// name it in `authorizedTools` before it may run.
pub open spec fn high_risk(name: Seq<char>) -> bool {
    let b = lower_seq(basename(name));
    ||| b == "generate_image"@
    ||| b == "image_gen"@
    ||| b == "image_selector"@
    ||| b == "google_imagen"@
    ||| b == "seedance_video"@
    ||| b == "video_selector"@
    ||| b == "video_stitch"@
    ||| b == "talking_head"@
    ||| b == "lip_sync"@
    ||| b == "tts_selector"@
    ||| b == "music_gen"@
    ||| b == "upload_video"@
    ||| b == "upload_note"@
    ||| has_prefix(b, "publish_"@)
    ||| has_suffix(b, "_publish"@)
    ||| has_prefix(b, "upload_"@)
    ||| has_prefix(b, "generate_"@)
    ||| has_suffix(b, "_image"@)
    ||| has_suffix(b, "_video"@)
    ||| has_suffix(b, "_tts"@)
    ||| has_suffix(b, "_music"@)
}

/// Whether some name in `by` counts as the tool `x`.
pub open spec fn covered(by: Seq<Seq<char>>, x: Seq<char>) -> bool {
    exists|j: int| 0 <= j < by.len() && name_matches(by[j], x)
}

/// The names of `xs` that no name in `by` covers.
pub open spec fn uncovered(xs: Seq<Seq<char>>, by: Seq<Seq<char>>) -> Seq<Seq<char>> {
    xs.filter(|x: Seq<char>| !covered(by, x))
}

/// The high-risk names of `xs` that no name in `by` covers.
pub open spec fn unconsented(xs: Seq<Seq<char>>, by: Seq<Seq<char>>) -> Seq<Seq<char>> {
    xs.filter(|x: Seq<char>| high_risk(x) && !covered(by, x))
}

/// A tool name of an authorization snapshot: at most 128 characters of
/// ASCII letters, digits, `_` and `-`.
pub open spec fn valid_tool_name(n: Seq<char>) -> bool {
    n.len() <= 128 && forall|i: int|
        0 <= i < n.len() ==> is_ascii_alnum(#[trigger] n[i]) || n[i] == '_' || n[i] == '-'
}

/// Whether a literal equals the characters.
pub fn eq_lit(v: &Vec<char>, lit: &str) -> (r: bool)
    ensures
        r == (v@ == lit@),
{
    let l = chars_of(lit);
    chars_eq(v, &l)
}

/// The tool name without its namespace.
pub fn basename_chars(name: &Vec<char>) -> (r: Vec<char>)
    ensures
        r@ == basename(name@),
{
    let sep = chars_of("__");
    proof {
        reveal_strlit("__");
    }
    after_last(name, &sep)
}

/// Whether a tool called `actual` counts as the tool `required`.
pub fn name_matches_chars(actual: &Vec<char>, required: &Vec<char>) -> (r: bool)
    ensures
        r == name_matches(actual@, required@),
{
    if chars_eq(actual, required) {
        return true;
    }
    let sep = chars_of("__");
    if vec_contains(required, &sep) {
        return false;
    }
    let b = basename_chars(actual);
    chars_eq(&b, required)
}

/// Whether a tool needs an explicit, task-level authorization.
pub fn high_risk_chars(name: &Vec<char>) -> (r: bool)
    ensures
        r == high_risk(name@),
{
    let base = basename_chars(name);
    let b = lower_chars(&base);
    eq_lit(&b, "generate_image") || eq_lit(&b, "image_gen") || eq_lit(&b, "image_selector")
        || eq_lit(&b, "google_imagen") || eq_lit(&b, "seedance_video") || eq_lit(
        &b,
        "video_selector",
    ) || eq_lit(&b, "video_stitch") || eq_lit(&b, "talking_head") || eq_lit(&b, "lip_sync")
        || eq_lit(&b, "tts_selector") || eq_lit(&b, "music_gen") || eq_lit(&b, "upload_video")
        || eq_lit(&b, "upload_note") || vec_has_prefix(&b, &chars_of("publish_"))
        || vec_has_suffix(&b, &chars_of("_publish")) || vec_has_prefix(&b, &chars_of("upload_"))
        || vec_has_prefix(&b, &chars_of("generate_")) || vec_has_suffix(&b, &chars_of("_image"))
        || vec_has_suffix(&b, &chars_of("_video")) || vec_has_suffix(&b, &chars_of("_tts"))
        || vec_has_suffix(&b, &chars_of("_music"))
}

/// Whether some name of `by` counts as the tool `x`.
pub fn is_covered(by: &Vec<String>, x: &Vec<char>) -> (r: bool)
    ensures
        r == covered(views(by@), x@),
{
    let mut j: usize = 0;
    while j < by.len()
        invariant
            j <= by@.len(),
            forall|m: int| 0 <= m < j ==> !name_matches(#[trigger] by@[m]@, x@),
        decreases by.len() - j,
    {
        let c = chars_of(by[j].as_str());
        if name_matches_chars(&c, x) {
            assert(views(by@)[j as int] == by@[j as int]@);
            return true;
        }
        j += 1;
    }
    proof {
        if covered(views(by@), x@) {
            let m = choose|m: int| 0 <= m < views(by@).len() && name_matches(views(by@)[m], x@);
            assert(views(by@)[m] == by@[m]@);
        }
    }
    false
}

/// The names of `xs` that no name of `by` covers.
pub fn uncovered_names(xs: &Vec<String>, by: &Vec<String>, only_high_risk: bool) -> (r: Vec<String>)
    ensures
        views(r@) == if only_high_risk {
            unconsented(views(xs@), views(by@))
        } else {
            uncovered(views(xs@), views(by@))
        },
{
    let ghost p = if only_high_risk {
        |x: Seq<char>| high_risk(x) && !covered(views(by@), x)
    } else {
        |x: Seq<char>| !covered(views(by@), x)
    };
    let mut out: Vec<String> = Vec::new();
    let mut i: usize = 0;
    while i < xs.len()
        invariant
            i <= xs@.len(),
            p == (if only_high_risk {
                |x: Seq<char>| high_risk(x) && !covered(views(by@), x)
            } else {
                |x: Seq<char>| !covered(views(by@), x)
            }),
            views(out@) == views(xs@).take(i as int).filter(p),
        decreases xs.len() - i,
    {
        let c = chars_of(xs[i].as_str());
        let keep = if only_high_risk {
            high_risk_chars(&c) && !is_covered(by, &c)
        } else {
            !is_covered(by, &c)
        };
        let ghost before = views(out@);
        proof {
            assert(views(xs@).take(i + 1) =~= views(xs@).take(i as int).push(xs@[i as int]@));
            views(xs@).take(i as int).lemma_filter_push(xs@[i as int]@, p);
        }
        if keep {
            out.push(xs[i].clone());
            assert(views(out@) =~= before.push(xs@[i as int]@));
        }
        i += 1;
    }
    assert(views(xs@).take(i as int) =~= views(xs@));
    out
}

/// Whether every character of a tool name is allowed and it is short enough.
pub fn is_valid_tool_name(n: &Vec<char>) -> (r: bool)
    ensures
        r == valid_tool_name(n@),
{
    if n.len() > 128 {
        return false;
    }
    let mut i: usize = 0;
    while i < n.len()
        invariant
            i <= n@.len(),
            forall|k: int| 0 <= k < i ==> is_ascii_alnum(#[trigger] n@[k]) || n@[k] == '_' || n@[k] == '-',
        decreases n.len() - i,
    {
        let c = n[i];
        if !(char_is_ascii_alnum(c) || c == '_' || c == '-') {
            return false;
        }
        i += 1;
    }
    true
}

/// The first name of `v` that is not a valid tool name.
pub open spec fn first_invalid(v: Seq<Seq<char>>) -> Option<Seq<char>>
    decreases v.len(),
{
    if v.len() == 0 {
        None
    } else if !valid_tool_name(v[0]) {
        Some(v[0])
    } else {
        first_invalid(v.subrange(1, v.len() as int))
    }
}

proof fn lemma_first_invalid_skip(v: Seq<Seq<char>>, i: int)
    requires
        0 <= i <= v.len(),
        forall|k: int| 0 <= k < i ==> valid_tool_name(#[trigger] v[k]),
    ensures
        first_invalid(v) == first_invalid(v.subrange(i, v.len() as int)),
    decreases i,
{
    if i > 0 {
        let t = v.subrange(1, v.len() as int);
        assert forall|k: int| 0 <= k < i - 1 implies valid_tool_name(#[trigger] t[k]) by {
            assert(t[k] == v[k + 1]);
        }
        lemma_first_invalid_skip(t, i - 1);
        assert(t.subrange(i - 1, t.len() as int) =~= v.subrange(i, v.len() as int));
    } else {
        assert(v.subrange(0, v.len() as int) =~= v);
    }
}

/// The first invalid tool name of a list, if any.
pub fn find_invalid_name(v: &Vec<String>) -> (r: Option<String>)
    ensures
        match r {
            Some(n) => first_invalid(views(v@)) == Some(n@),
            None => first_invalid(views(v@)) is None,
        },
{
    let ghost vv = views(v@);
    let mut i: usize = 0;
    while i < v.len()
        invariant
            i <= v@.len(),
            vv == views(v@),
            forall|k: int| 0 <= k < i ==> valid_tool_name(#[trigger] vv[k]),
        decreases v.len() - i,
    {
        let c = chars_of(v[i].as_str());
        if !is_valid_tool_name(&c) {
            proof {
                lemma_first_invalid_skip(vv, i as int);
                assert(vv.subrange(i as int, vv.len() as int)[0] == vv[i as int]);
            }
            return Some(v[i].clone());
        }
        assert(vv[i as int] == v@[i as int]@);
        i += 1;
    }
    proof {
        lemma_first_invalid_skip(vv, i as int);
    }
    None
}

/// Why a task's tool authorization snapshot was refused.
pub enum PolicyError {
    /// `requiredTools` names no tool.
    RequiredToolsEmpty,
    /// `allowedTools` names no tool.
    AllowedToolsEmpty,
    /// A name is not a valid tool name.
    InvalidToolName(String),
    /// Required tools that `allowedTools` does not cover.
    RequiredNotAllowed(Vec<String>),
    /// Authorized tools that `allowedTools` does not cover.
    AuthorizedNotAllowed(Vec<String>),
    /// Paid or publishing tools allowed without explicit authorization.
    ConsentMissing(Vec<String>),
}

/// A task's tool authorization snapshot.
pub struct ToolPolicy {
    pub required: Vec<String>,
    pub allowed: Vec<String>,
    pub authorized: Vec<String>,
}

/// The outcome of `task_tool_policy` on the three requested lists.
pub open spec fn policy_outcome(
    required: Seq<Seq<char>>,
    allowed: Seq<Seq<char>>,
    authorized: Seq<Seq<char>>,
) -> PolicyOutcome {
    if required.len() == 0 {
        PolicyOutcome::RequiredToolsEmpty
    } else if allowed.len() == 0 {
        PolicyOutcome::AllowedToolsEmpty
    } else if first_invalid(required + allowed + authorized) is Some {
        PolicyOutcome::InvalidToolName(first_invalid(required + allowed + authorized)->0)
    } else if uncovered(required, allowed).len() > 0 {
        PolicyOutcome::RequiredNotAllowed(uncovered(required, allowed))
    } else if uncovered(authorized, allowed).len() > 0 {
        PolicyOutcome::AuthorizedNotAllowed(uncovered(authorized, allowed))
    } else if unconsented(allowed, authorized).len() > 0 {
        PolicyOutcome::ConsentMissing(unconsented(allowed, authorized))
    } else {
        PolicyOutcome::Accepted
    }
}

/// The mathematical outcome of the policy check.
pub enum PolicyOutcome {
    RequiredToolsEmpty,
    AllowedToolsEmpty,
    InvalidToolName(Seq<char>),
    RequiredNotAllowed(Seq<Seq<char>>),
    AuthorizedNotAllowed(Seq<Seq<char>>),
    ConsentMissing(Seq<Seq<char>>),
    Accepted,
}

/// The view of a policy check's result.
pub open spec fn policy_result_view(r: Result<ToolPolicy, PolicyError>) -> PolicyOutcome {
    match r {
        Ok(_) => PolicyOutcome::Accepted,
        Err(PolicyError::RequiredToolsEmpty) => PolicyOutcome::RequiredToolsEmpty,
        Err(PolicyError::AllowedToolsEmpty) => PolicyOutcome::AllowedToolsEmpty,
        Err(PolicyError::InvalidToolName(n)) => PolicyOutcome::InvalidToolName(n@),
        Err(PolicyError::RequiredNotAllowed(v)) => PolicyOutcome::RequiredNotAllowed(views(v@)),
        Err(PolicyError::AuthorizedNotAllowed(v)) => PolicyOutcome::AuthorizedNotAllowed(views(v@)),
        Err(PolicyError::ConsentMissing(v)) => PolicyOutcome::ConsentMissing(views(v@)),
    }
}

/// The tool lists a payload requests.
pub open spec fn requested(payload: JsonV, key: Seq<char>) -> Seq<Seq<char>> {
    string_array(jget(payload, key))
}

/// Reads and checks a task's tool authorization snapshot: `requiredTools`,
/// `allowedTools` and `authorizedTools`, each the distinct non-empty names
/// of its array. Required tools must be allowed, authorized tools must be
/// allowed, and every allowed paid or publishing tool must be authorized.
pub fn task_tool_policy(payload: &Json) -> (r: Result<ToolPolicy, PolicyError>)
    ensures
        policy_result_view(r) == policy_outcome(
            requested(payload@, "requiredTools"@),
            requested(payload@, "allowedTools"@),
            requested(payload@, "authorizedTools"@),
        ),
        r matches Ok(p) ==> views(p.required@) == requested(payload@, "requiredTools"@) && views(
            p.allowed@,
        ) == requested(payload@, "allowedTools"@) && views(p.authorized@) == requested(
            payload@,
            "authorizedTools"@,
        ),
{
    let required = string_array_exec(payload.get("requiredTools"));
    let allowed = string_array_exec(payload.get("allowedTools"));
    let authorized = string_array_exec(payload.get("authorizedTools"));
    if required.len() == 0 {
        return Err(PolicyError::RequiredToolsEmpty);
    }
    if allowed.len() == 0 {
        return Err(PolicyError::AllowedToolsEmpty);
    }
    let mut all: Vec<String> = Vec::new();
    let mut i: usize = 0;
    while i < required.len()
        invariant
            i <= required@.len(),
            views(all@) == views(required@).take(i as int),
        decreases required.len() - i,
    {
        let ghost before = views(all@);
        all.push(required[i].clone());
        assert(views(all@) =~= before.push(required@[i as int]@));
        assert(views(required@).take(i + 1) =~= views(required@).take(i as int).push(required@[i as int]@));
        assert(views(all@) =~= views(required@).take(i + 1));
        i += 1;
    }
    let mut i: usize = 0;
    while i < allowed.len()
        invariant
            i <= allowed@.len(),
            views(all@) == views(required@) + views(allowed@).take(i as int),
        decreases allowed.len() - i,
    {
        let ghost before = views(all@);
        all.push(allowed[i].clone());
        assert(views(all@) =~= before.push(allowed@[i as int]@));
        assert(views(allowed@).take(i + 1) =~= views(allowed@).take(i as int).push(allowed@[i as int]@));
        assert(views(all@) =~= views(required@) + views(allowed@).take(i + 1));
        i += 1;
    }
    let mut i: usize = 0;
    while i < authorized.len()
        invariant
            i <= authorized@.len(),
            views(all@) == views(required@) + views(allowed@) + views(authorized@).take(i as int),
        decreases authorized.len() - i,
    {
        let ghost before = views(all@);
        all.push(authorized[i].clone());
        assert(views(all@) =~= before.push(authorized@[i as int]@));
        assert(views(authorized@).take(i + 1) =~= views(authorized@).take(i as int).push(authorized@[i as int]@));
        assert(views(all@) =~= views(required@) + views(allowed@) + views(authorized@).take(i + 1));
        i += 1;
    }
    assert(views(required@).take(required@.len() as int) =~= views(required@));
    assert(views(allowed@).take(allowed@.len() as int) =~= views(allowed@));
    assert(views(authorized@).take(authorized@.len() as int) =~= views(authorized@));
    match find_invalid_name(&all) {
        Some(n) => {
            return Err(PolicyError::InvalidToolName(n));
        },
        None => {},
    }
    let missing_allowed = uncovered_names(&required, &allowed, false);
    if missing_allowed.len() > 0 {
        return Err(PolicyError::RequiredNotAllowed(missing_allowed));
    }
    let unauthorized = uncovered_names(&authorized, &allowed, false);
    if unauthorized.len() > 0 {
        return Err(PolicyError::AuthorizedNotAllowed(unauthorized));
    }
    let missing_consent = uncovered_names(&allowed, &authorized, true);
    if missing_consent.len() > 0 {
        return Err(PolicyError::ConsentMissing(missing_consent));
    }
    Ok(ToolPolicy { required, allowed, authorized })
}

/// The message of a refused authorization snapshot; `None` when accepted.
pub open spec fn policy_message(o: PolicyOutcome) -> Option<Seq<char>> {
    match o {
        PolicyOutcome::RequiredToolsEmpty => Some("requiredTools must contain at least one verifiable tool"@),
        PolicyOutcome::AllowedToolsEmpty => Some("allowedTools must be explicit and non-empty; default policy denies all tools"@),
        PolicyOutcome::InvalidToolName(n) => Some("Invalid tool name in authorization snapshot: "@ + n),
        PolicyOutcome::RequiredNotAllowed(v) => Some("requiredTools must be a subset of allowedTools: "@ + join(v, ", "@)),
        PolicyOutcome::AuthorizedNotAllowed(v) => Some("authorizedTools must be a subset of allowedTools: "@ + join(v, ", "@)),
        PolicyOutcome::ConsentMissing(v) => Some("付费生成或发布工具必须在 authorizedTools 中显式确认："@ + join(v, ", "@)),
        PolicyOutcome::Accepted => None,
    }
}

fn prefixed(prefix: &str, rest: &String) -> (r: String)
    ensures
        r@ == prefix@ + rest@,
{
    let mut v = chars_of(prefix);
    let w = chars_of(rest.as_str());
    crate::text::append_chars(&mut v, &w);
    crate::text::string_from_chars(&v)
}

impl PolicyError {
    /// The message of this refusal.
    pub fn message(&self) -> (r: String)
        ensures
            policy_message(policy_result_view(Err::<ToolPolicy, PolicyError>(*self))) == Some(r@),
    {
        match self {
            PolicyError::RequiredToolsEmpty => crate::text::owned("requiredTools must contain at least one verifiable tool"),
            PolicyError::AllowedToolsEmpty => crate::text::owned("allowedTools must be explicit and non-empty; default policy denies all tools"),
            PolicyError::InvalidToolName(n) => prefixed("Invalid tool name in authorization snapshot: ", n),
            PolicyError::RequiredNotAllowed(v) => prefixed("requiredTools must be a subset of allowedTools: ", &join_strings(v, ", ")),
            PolicyError::AuthorizedNotAllowed(v) => prefixed("authorizedTools must be a subset of allowedTools: ", &join_strings(v, ", ")),
            PolicyError::ConsentMissing(v) => prefixed("付费生成或发布工具必须在 authorizedTools 中显式确认：", &join_strings(v, ", ")),
        }
    }
}

/// The tool name without its `server__` namespace.
pub fn tool_basename(name: &str) -> (r: String)
    ensures
        r@ == basename(name@),
{
    let v = chars_of(name);
    let b = basename_chars(&v);
    crate::text::string_from_chars(&b)
}

/// Whether a tool called `actual` counts as the tool `required`.
pub fn tool_name_matches(actual: &str, required: &str) -> (r: bool)
    ensures
        r == name_matches(actual@, required@),
{
    let a = chars_of(actual);
    let q = chars_of(required);
    name_matches_chars(&a, &q)
}

/// Whether a tool generates paid content or publishes, so that a task must
/// name it in `authorizedTools`.
pub fn requires_explicit_authorization(name: &str) -> (r: bool)
    ensures
        r == high_risk(name@),
{
    let v = chars_of(name);
    high_risk_chars(&v)
}

} // verus!
