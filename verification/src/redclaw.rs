//! The redclaw namespace: the creator profile and its five-step onboarding
//! conversation, profile documents, project ids, and the draft, confirmed,
//! scheduled and cancelled life of a redclaw task.

use vstd::prelude::*;
use crate::text::{
    chars_of, string_from_chars, owned, clone_string, append_str, append_chars, trim, trim_str,
    trim_chars, has_prefix, sub_chars, is_ws, char_is_ws, unicode_lower, to_lowercase_str,
    starts_with_str, find_seq, vec_find, str_eq,
};
use crate::json::{
    Json, JsonV, jget, get_text, get_flag, get_int, get_entry, has_key, set_entry, set_entry_exec,
    entries_of, entries_get, object_entries, entries_or_empty, object_of, lemma_entries_view,
    copy_json, as_text, as_int, as_flag,
};
use crate::num::{dec_i64, dec_int, parse_i64, parse_i64_text};
use crate::strs::views;
use crate::order::{rank_sorted, sort_by_rank, ranked_view, map_items, items_of, first_n, lemma_rank_sorted_map, take_items};

verus! {

// ---------------------------------------------------------------------------
// Write gate, time values and project ids
// ---------------------------------------------------------------------------

/// The channels that need a real system window: only opening a project.
pub open spec fn stub_channel_list() -> Seq<Seq<char>> {
    seq!["redclaw:open-project"@]
}

/// The redclaw channels that need a real system window.
pub fn stub_channels() -> (r: Vec<String>)
    ensures
        views(r@) == stub_channel_list(),
{
    let mut v: Vec<String> = Vec::new();
    v.push(owned("redclaw:open-project"));
    assert(views(v@) =~= stub_channel_list());
    v
}

/// Whether a redclaw or task write is only previewed: unless `dryRun` is
/// explicitly false or `confirm` is true, it is.
pub open spec fn previews_only(p: JsonV) -> bool {
    !(get_flag(p, "dryRun"@) == Some(false) || get_flag(p, "confirm"@) == Some(true))
}

/// Whether a write is only previewed.
pub fn dry_run(payload: &Json) -> (r: bool)
    ensures
        r == previews_only(payload@),
{
    match payload.get_bool("dryRun") {
        Some(false) => {
            return false;
        },
        _ => {},
    }
    match payload.get_bool("confirm") {
        Some(true) => false,
        _ => true,
    }
}

/// A request without `dryRun` or `confirm` only previews its write.
pub proof fn lemma_writes_default_to_dry_run(p: JsonV)
    requires
        get_flag(p, "dryRun"@) is None,
        get_flag(p, "confirm"@) is None,
    ensures
        previews_only(p),
{
}

/// An instant given as an RFC 3339 date-time, or as epoch seconds (at most
/// ten characters) or milliseconds, trimmed; `None` when empty or unreadable.
pub open spec fn iso_ms_of(v: Seq<char>) -> Option<i64> {
    let t = trim(v);
    if t.len() == 0 {
        None
    } else {
        match crate::schedule::rfc3339_millis(t) {
            Some(ms) => Some(ms),
            None => match parse_i64_text(t) {
                Some(n) => Some(if t.len() <= 10 { saturating_mul_1000(n) } else { n }),
                None => None,
            },
        }
    }
}

/// `n * 1000`, saturating at the bounds of `i64`.
pub open spec fn saturating_mul_1000(n: i64) -> i64 {
    if n * 1000 > i64::MAX {
        i64::MAX
    } else if n * 1000 < i64::MIN {
        i64::MIN
    } else {
        (n * 1000) as i64
    }
}

/// Reads an instant given as an RFC 3339 date-time or as epoch seconds or
/// milliseconds.
pub fn parse_iso_ms(v: &str) -> (r: Option<i64>)
    ensures
        r == iso_ms_of(v@),
{
    let t = trim_str(v);
    let n = chars_of(t.as_str()).len();
    if n == 0 {
        return None;
    }
    match crate::schedule::parse_rfc3339_ms(t.as_str()) {
        Some(ms) => Some(ms),
        None => match parse_i64(t.as_str()) {
            Some(x) => {
                if n <= 10 {
                    let wide: i128 = (x as i128) * 1000;
                    if wide > i64::MAX as i128 {
                        Some(i64::MAX)
                    } else if wide < i64::MIN as i128 {
                        Some(i64::MIN)
                    } else {
                        Some(wide as i64)
                    }
                } else {
                    Some(x)
                }
            },
            None => None,
        },
    }
}

/// A project id as given: from the first `rc_` on, up to whitespace or a
/// path separator, or the whole trimmed text when it holds no `rc_`.
pub open spec fn project_id_of(input: Seq<char>) -> Seq<char> {
    let raw = trim(input);
    match crate::text::find_seq(raw, "rc_"@) {
        Some(i) => {
            let tail = raw.subrange(i, raw.len() as int);
            trim(tail.subrange(0, id_end(tail)))
        },
        None => raw,
    }
}

/// Where a project id ends in `tail`: at the first whitespace, `/` or `\`.
pub open spec fn id_end(tail: Seq<char>) -> int {
    if exists|k: int| 0 <= k < tail.len() && id_stop(tail[k]) {
        choose|k: int| 0 <= k < tail.len() && id_stop(tail[k]) && forall|m: int| 0 <= m < k ==> !id_stop(tail[m])
    } else {
        tail.len() as int
    }
}

/// Whether a character ends a project id.
pub open spec fn id_stop(c: char) -> bool {
    is_ws(c) || c == '/' || c == '\\'
}

/// The rank of a project in a listing: the most recently updated first (an
/// unreadable or missing `updatedAt` counts as 0).
pub open spec fn project_rank(p: JsonV) -> Seq<i128> {
    seq![(-(match get_text(p, "updatedAt"@) {
        Some(t) => match iso_ms_of(t) {
            Some(ms) => ms,
            None => 0,
        },
        None => 0,
    } as int)) as i128]
}

/// The projects listed: the most recently updated first (equal times keep
/// their order), at most `limit` of them and at least one.
pub open spec fn arranged_projects(projects: Seq<JsonV>, limit: usize) -> Seq<JsonV> {
    first_n(items_of(rank_sorted(projects.map_values(|x: JsonV| (project_rank(x), x)), projects.len())),
        if limit < 1 { 1 } else { limit as int })
}

/// Orders and limits the projects read from the projects folder.
pub fn arrange_projects(projects: Vec<Json>, limit: usize) -> (r: Vec<Json>)
    ensures
        crate::tasks::json_views(r@) == arranged_projects(crate::tasks::json_views(projects@), limit),
{
    let ghost pv = crate::tasks::json_views(projects@);
    let n0 = projects.len();
    let ghost n = n0 as nat;
    let mut rest = projects;
    let mut ranked: Vec<(Vec<i128>, Json)> = Vec::new();
    let mut k: usize = 0;
    while rest.len() > 0
        invariant
            k + rest@.len() == n,
            n <= usize::MAX,
            pv.len() == n,
            crate::tasks::json_views(rest@) == pv.subrange(k as int, n as int),
            map_items(ranked_view(ranked@), |j: Json| j@)
                == pv.subrange(0, k as int).map_values(|x: JsonV| (project_rank(x), x)),
        decreases rest.len(),
    {
        let ghost old_rest = rest@;
        let p = rest.remove(0);
        assert(crate::tasks::json_views(old_rest)[0] == pv[k as int]);
        assert(crate::tasks::json_views(rest@) =~= crate::tasks::json_views(old_rest).subrange(1, old_rest.len() as int));
        assert(crate::tasks::json_views(rest@) =~= pv.subrange(k + 1, n as int));
        let ms: i64 = match p.get_str("updatedAt") {
            Some(t) => match parse_iso_ms(t.as_str()) {
                Some(v) => v,
                None => 0,
            },
            None => 0,
        };
        let mut key: Vec<i128> = Vec::new();
        key.push(-(ms as i128));
        assert(key@ =~= project_rank(p@));
        let ghost before = map_items(ranked_view(ranked@), |j: Json| j@);
        let ghost pw = p@;
        ranked.push((key, p));
        assert(map_items(ranked_view(ranked@), |j: Json| j@) =~= before.push((project_rank(pw), pw)));
        assert(pv.subrange(0, k + 1) =~= pv.subrange(0, k as int).push(pw));
        k += 1;
    }
    assert(pv.subrange(0, n as int) =~= pv);
    let ghost rk = ranked_view(ranked@);
    let m = ranked.len();
    let sorted = sort_by_rank(ranked);
    proof {
        lemma_rank_sorted_map(rk, m as nat, |j: Json| j@);
    }
    let lim: usize = if limit < 1 { 1 } else { limit };
    let out = take_items(sorted, lim);
    proof {
        let sv = ranked_view(sorted@);
        assert(crate::tasks::json_views(items_of(sv)) =~= items_of(map_items(sv, |j: Json| j@)));
        assert(crate::tasks::json_views(out@) =~= first_n(crate::tasks::json_views(items_of(sv)), lim as int));
    }
    out
}

/// The project id a text names.
pub fn normalize_project_id(input: &str) -> (r: String)
    ensures
        r@ == project_id_of(input@),
{
    let raw = trim_chars(&chars_of(input));
    let pat = chars_of("rc_");
    match vec_find(&raw, &pat) {
        Some(i) => {
            let tail = sub_chars(&raw, i, raw.len());
            let n = tail.len();
            let mut k: usize = 0;
            while k < n && !(char_is_ws(tail[k]) || tail[k] == '/' || tail[k] == '\\')
                invariant
                    n == tail@.len(),
                    k <= n,
                    forall|m: int| 0 <= m < k ==> !id_stop(#[trigger] tail@[m]),
                decreases n - k,
            {
                k += 1;
            }
            proof {
                if k < n {
                    assert(id_stop(tail@[k as int]));
                    let c = choose|c: int| 0 <= c < tail@.len() && id_stop(tail@[c]) && forall|m: int| 0 <= m < c ==> !id_stop(tail@[m]);
                    if c < k {
                        assert(!id_stop(tail@[c]));
                    } else if c > k {
                        assert(!id_stop(tail@[k as int]));
                    }
                    assert(id_end(tail@) == k);
                } else {
                    assert(id_end(tail@) == n);
                }
            }
            let head = sub_chars(&tail, 0, k);
            string_from_chars(&trim_chars(&head))
        },
        None => string_from_chars(&raw),
    }
}

// ---------------------------------------------------------------------------
// Profile documents
// ---------------------------------------------------------------------------

/// A profile document as stored: trimmed, with a `# <title>` heading added
/// when it does not start with one.
pub open spec fn doc_markdown(title: Seq<char>, markdown: Seq<char>) -> Seq<char> {
    let t = trim(markdown);
    if t.len() == 0 {
        "# "@ + title + "\n"@
    } else if t[0] == '#' {
        t
    } else {
        "# "@ + title + "\n\n"@ + t
    }
}

/// A profile document as stored.
pub fn normalize_doc_markdown(title: &str, markdown: &str) -> (r: String)
    ensures
        r@ == doc_markdown(title@, markdown@),
{
    let t = trim_chars(&chars_of(markdown));
    if t.len() == 0 {
        let mut v = chars_of("# ");
        append_str(&mut v, title);
        append_str(&mut v, "\n");
        return string_from_chars(&v);
    }
    if t[0] == '#' {
        return string_from_chars(&t);
    }
    let mut v = chars_of("# ");
    append_str(&mut v, title);
    append_str(&mut v, "\n\n");
    append_chars(&mut v, &t);
    string_from_chars(&v)
}

/// The profile key, file name and title of an editable document type.
pub open spec fn doc_target(doc_type: Seq<char>) -> Option<(Seq<char>, Seq<char>, Seq<char>)> {
    if doc_type == "agent"@ {
        Some(("agent"@, "Agent.md"@, "Agent.md"@))
    } else if doc_type == "soul"@ {
        Some(("soul"@, "Soul.md"@, "Soul.md"@))
    } else if doc_type == "user"@ {
        Some(("user"@, "user.md"@, "user.md"@))
    } else if doc_type == "creator_profile"@ {
        Some(("creatorProfile"@, "CreatorProfile.md"@, "CreatorProfile.md"@))
    } else {
        None
    }
}

/// An edit of a profile document: its type, the profile key and file name,
/// and the stored content.
pub struct ProfileDocEdit {
    pub doc_type: String,
    pub key: String,
    pub file_name: String,
    pub content: String,
}

/// Reads a profile document edit: the trimmed `docType` and the `markdown`
/// are required, and only the agent, soul, user and creator profile
/// documents can be edited.
pub fn profile_doc_edit(payload: &Json) -> (r: Result<ProfileDocEdit, String>)
    ensures
        ({
            let dt = match get_text(payload@, "docType"@) { Some(s) => trim(s), None => Seq::empty() };
            let md = match get_text(payload@, "markdown"@) { Some(s) => s, None => Seq::empty() };
            if dt.len() == 0 {
                r is Err && r->Err_0@ == "docType is required"@
            } else if trim(md).len() == 0 {
                r is Err && r->Err_0@ == "markdown is required"@
            } else {
                match doc_target(dt) {
                    None => r is Err && r->Err_0@ == "Unsupported profile doc type: "@ + dt,
                    Some((key, file, title)) => r is Ok && r->Ok_0.doc_type@ == dt && r->Ok_0.key@ == key
                        && r->Ok_0.file_name@ == file && r->Ok_0.content@ == doc_markdown(title, md),
                }
            }
        }),
{
    let doc_type = match payload.get_str("docType") {
        Some(s) => trim_str(s.as_str()),
        None => String::new(),
    };
    let markdown = match payload.get_str("markdown") {
        Some(s) => clone_string(s),
        None => String::new(),
    };
    if chars_of(doc_type.as_str()).len() == 0 {
        return Err(owned("docType is required"));
    }
    if chars_of(trim_str(markdown.as_str()).as_str()).len() == 0 {
        return Err(owned("markdown is required"));
    }
    let (key, file_name, title) = if str_eq(doc_type.as_str(), "agent") {
        ("agent", "Agent.md", "Agent.md")
    } else if str_eq(doc_type.as_str(), "soul") {
        ("soul", "Soul.md", "Soul.md")
    } else if str_eq(doc_type.as_str(), "user") {
        ("user", "user.md", "user.md")
    } else if str_eq(doc_type.as_str(), "creator_profile") {
        ("creatorProfile", "CreatorProfile.md", "CreatorProfile.md")
    } else {
        let mut m = chars_of("Unsupported profile doc type: ");
        append_str(&mut m, doc_type.as_str());
        return Err(string_from_chars(&m));
    };
    let content = normalize_doc_markdown(title, markdown.as_str());
    Ok(ProfileDocEdit { doc_type, key: owned(key), file_name: owned(file_name), content })
}

// ---------------------------------------------------------------------------
// Onboarding
// ---------------------------------------------------------------------------

/// The number of onboarding steps.
pub const ONBOARDING_STEP_COUNT: usize = 5;

/// The answer key of onboarding step `i`.
pub open spec fn step_key(i: int) -> Seq<char> {
    if i == 0 { "assistant_style"@ }
    else if i == 1 { "creator_goal"@ }
    else if i == 2 { "target_audience"@ }
    else if i == 3 { "content_lane"@ }
    else { "tone_and_constraints"@ }
}

/// The question of onboarding step `i`.
pub open spec fn step_question(i: int) -> Seq<char> {
    if i == 0 { "1/5 先定一下我的协作风格。你希望商媒运营助手在对话里更偏向哪种风格？"@ }
    else if i == 1 { "2/5 你的核心创作目标是什么？"@ }
    else if i == 2 { "3/5 你的目标用户是谁？请描述人群画像。"@ }
    else if i == 3 { "4/5 你主要做哪些内容赛道？以及偏好的笔记结构。"@ }
    else { "5/5 最后确认表达风格和边界。"@ }
}

/// The default answer of onboarding step `i`.
pub open spec fn step_default(i: int) -> Seq<char> {
    if i == 0 { "高执行 + 强结构 + 直接反馈"@ }
    else if i == 1 { "主目标：稳定涨粉；次目标：建立可信个人品牌"@ }
    else if i == 2 { "25-35岁的一线和新一线职场人，关注效率、成长和副业机会"@ }
    else if i == 3 { "AI效率工具 + 职场成长；偏好教程体和复盘体"@ }
    else { "语气真实克制；避免夸张承诺；每周3-5篇；成功指标看收藏率与私信转化"@ }
}

fn key_of_step(i: usize) -> (r: &'static str)
    ensures
        r@ == step_key(i as int),
{
    if i == 0 { "assistant_style" }
    else if i == 1 { "creator_goal" }
    else if i == 2 { "target_audience" }
    else if i == 3 { "content_lane" }
    else { "tone_and_constraints" }
}

fn question_of_step(i: usize) -> (r: &'static str)
    ensures
        r@ == step_question(i as int),
{
    if i == 0 { "1/5 先定一下我的协作风格。你希望商媒运营助手在对话里更偏向哪种风格？" }
    else if i == 1 { "2/5 你的核心创作目标是什么？" }
    else if i == 2 { "3/5 你的目标用户是谁？请描述人群画像。" }
    else if i == 3 { "4/5 你主要做哪些内容赛道？以及偏好的笔记结构。" }
    else { "5/5 最后确认表达风格和边界。" }
}

fn default_of_step(i: usize) -> (r: &'static str)
    ensures
        r@ == step_default(i as int),
{
    if i == 0 { "高执行 + 强结构 + 直接反馈" }
    else if i == 1 { "主目标：稳定涨粉；次目标：建立可信个人品牌" }
    else if i == 2 { "25-35岁的一线和新一线职场人，关注效率、成长和副业机会" }
    else if i == 3 { "AI效率工具 + 职场成长；偏好教程体和复盘体" }
    else { "语气真实克制；避免夸张承诺；每周3-5篇；成功指标看收藏率与私信转化" }
}

/// What a turn of the onboarding conversation did.
#[derive(Clone, Copy, Debug, PartialEq, Eq, Structural)]
pub enum TurnKind {
    /// Onboarding was already completed: nothing changes.
    AlreadyCompleted,
    /// The first question was asked.
    Started,
    /// The input was empty: the current question is asked again.
    Reprompt,
    /// The user skipped: defaults fill the missing answers and onboarding
    /// is finalized.
    Skipped,
    /// The last answer was given: onboarding is finalized.
    Finished,
    /// An answer was recorded and the next question asked.
    Advanced,
}

/// One turn of the onboarding conversation.
pub struct OnboardingTurn {
    pub kind: TurnKind,
    /// The onboarding state's entries after the turn (before finalization
    /// when the turn finalizes).
    pub state: Vec<(String, Json)>,
    pub response: Option<String>,
    pub completed: bool,
}

/// The current step from the state: `stepIndex` (0 when absent) taken as an
/// index and capped at the last step.
pub open spec fn current_step(e: Seq<(Seq<char>, JsonV)>) -> int {
    let i: i64 = match get_entry(e, "stepIndex"@) {
        Some(v) => match as_int(v) { Some(n) => n, None => 0 },
        None => 0,
    };
    if (i as usize) < 4 { (i as usize) as int } else { 4 }
}

/// Whether an input asks to skip onboarding.
pub open spec fn asks_skip(input: Seq<char>) -> bool {
    let l = unicode_lower(input);
    l == "跳过"@ || l == "先跳过"@ || l == "使用默认"@ || l == "默认"@ || l == "/skip"@ || l == "skip"@
}

/// The answers recorded so far.
pub open spec fn answers_of(e: Seq<(Seq<char>, JsonV)>) -> Seq<(Seq<char>, JsonV)> {
    match get_entry(e, "answers"@) {
        Some(a) => object_entries(a),
        None => Seq::empty(),
    }
}

/// The answers with the defaults of steps `0..n` added where missing.
pub open spec fn with_defaults(a: Seq<(Seq<char>, JsonV)>, n: nat) -> Seq<(Seq<char>, JsonV)>
    decreases n,
{
    if n == 0 {
        a
    } else {
        let prev = with_defaults(a, (n - 1) as nat);
        if has_key(prev, step_key(n - 1)) {
            prev
        } else {
            set_entry(prev, step_key(n - 1), JsonV::Str(step_default(n - 1), None))
        }
    }
}

/// The first message of onboarding.
pub open spec fn intro_text() -> Seq<char> {
    "在开始创作前，我们先做一次商媒运营助手个性化设定（只需 1-2 分钟）。\n"@ + step_question(0)
        + "\n\n你也可以回复“跳过”使用默认配置，后续随时可再改。"@
}

/// The message that asks the current question again.
pub open spec fn reprompt_text(i: int) -> Seq<char> {
    "我需要你先回答这个设定问题：\n"@ + step_question(i)
}

/// The message after a recorded answer, with the next question.
pub open spec fn advanced_text(n: int) -> Seq<char> {
    "已记录（"@ + dec_int(n) + "/"@ + dec_int(5) + "）。\n"@ + step_question(n)
        + "\n\n如果你想快速完成，也可以回复“跳过”。"@
}

/// The message after onboarding was skipped.
pub open spec fn skipped_text() -> Seq<char> {
    "已按默认配置完成商媒运营助手设定，并写入当前空间档案与长期记忆。现在可以直接给我创作目标。"@
}

/// The message after the last answer.
pub open spec fn finished_text() -> Seq<char> {
    "设定完成。我已经更新了 Agent/Soul/identity/user 档案。接下来直接告诉我你的创作目标即可。"@
}

/// One turn of the onboarding conversation on the stored state: its kind,
/// the new state entries, the reply and whether onboarding is complete.
pub open spec fn turn_of(state: JsonV, input: Seq<char>, now: i64)
    -> (TurnKind, Seq<(Seq<char>, JsonV)>, Option<Seq<char>>, bool)
{
    let e = object_entries(state);
    let inp = trim(input);
    if has_key(e, "completedAt"@) {
        (TurnKind::AlreadyCompleted, e, None, true)
    } else if !(match get_entry(e, "askedFirstQuestion"@) { Some(v) => as_flag(v) == Some(true), None => false }) {
        let e1 = set_entry(e, "askedFirstQuestion"@, JsonV::Bool(true));
        let e2 = if has_key(e1, "startedAt"@) { e1 } else { set_entry(e1, "startedAt"@, JsonV::Int(now)) };
        let e3 = set_entry(set_entry(e2, "stepIndex"@, JsonV::Int(0)), "updatedAt"@, JsonV::Int(now));
        (TurnKind::Started, e3, Some(intro_text()), false)
    } else if inp.len() == 0 {
        (TurnKind::Reprompt, e, Some(reprompt_text(current_step(e))), false)
    } else if asks_skip(inp) {
        let answers = with_defaults(answers_of(e), 5);
        let e1 = set_entry(set_entry(e, "answers"@, JsonV::Object(answers)), "stepIndex"@, JsonV::Int(5));
        (TurnKind::Skipped, e1, Some(skipped_text()), true)
    } else {
        let i = current_step(e);
        let answers = set_entry(answers_of(e), step_key(i), JsonV::Str(inp, None));
        let e1 = set_entry(set_entry(e, "answers"@, JsonV::Object(answers)), "stepIndex"@, JsonV::Int((i + 1) as i64));
        if i + 1 >= 5 {
            (TurnKind::Finished, e1, Some(finished_text()), true)
        } else {
            (TurnKind::Advanced, set_entry(e1, "updatedAt"@, JsonV::Int(now)), Some(advanced_text(i + 1)), false)
        }
    }
}

fn step_index_of(e: &Vec<(String, Json)>) -> (r: usize)
    ensures
        r as int == current_step(entries_of(*e)),
        r < 5,
{
    let i: i64 = match entries_get(e, "stepIndex") {
        Some(v) => match v.as_i64() { Some(n) => n, None => 0 },
        None => 0,
    };
    let u = i as usize;
    if u < 4 { u } else { 4 }
}

fn answers_entries(e: &Vec<(String, Json)>) -> (r: Vec<(String, Json)>)
    ensures
        entries_of(r) == answers_of(entries_of(*e)),
{
    match entries_get(e, "answers") {
        Some(a) => entries_or_empty(a),
        None => {
            let v: Vec<(String, Json)> = Vec::new();
            proof { assert(crate::json::entries_view(v@, 0) =~= Seq::<(Seq<char>, JsonV)>::empty()); }
            v
        },
    }
}

fn entries_has(e: &Vec<(String, Json)>, key: &str) -> (r: bool)
    ensures
        r == has_key(entries_of(*e), key@),
{
    match entries_get(e, key) {
        Some(_) => {
            proof { lemma_get_some_has_key(entries_of(*e), key@); }
            true
        },
        None => false,
    }
}

proof fn lemma_get_some_has_key(e: Seq<(Seq<char>, JsonV)>, key: Seq<char>)
    requires
        get_entry(e, key) is Some,
    ensures
        has_key(e, key),
    decreases e.len(),
{
    if e.len() > 0 && e[0].0 != key {
        lemma_get_some_has_key(e.subrange(1, e.len() as int), key);
        let t = e.subrange(1, e.len() as int);
        let k = choose|k: int| 0 <= k < t.len() && (#[trigger] t[k]).0 == key;
        assert(e[k + 1] == t[k]);
    } else if e.len() > 0 {
        assert(e[0].0 == key);
    }
}

fn fill_defaults(answers: &mut Vec<(String, Json)>)
    ensures
        entries_of(*final(answers)) == with_defaults(entries_of(*old(answers)), 5),
{
    let ghost a0 = entries_of(*answers);
    let mut i: usize = 0;
    while i < 5
        invariant
            i <= 5,
            entries_of(*answers) == with_defaults(a0, i as nat),
        decreases 5 - i,
    {
        let key = key_of_step(i);
        if !entries_has(answers, key) {
            set_entry_exec(answers, key, Json::text(default_of_step(i)));
        }
        i += 1;
    }
}

/// Plays one turn of the onboarding conversation on the stored state.
#[verifier::rlimit(60)]
pub fn onboarding_turn(state: &Json, input: &str, now: i64) -> (r: OnboardingTurn)
    ensures
        ({
            let (kind, e, resp, completed) = turn_of(state@, input@, now);
            &&& r.kind == kind
            &&& entries_of(r.state) == e
            &&& crate::login::opt_view(r.response) == resp
            &&& r.completed == completed
        }),
{
    let mut e = entries_or_empty(state);
    let inp = trim_str(input);
    if entries_has(&e, "completedAt") {
        return OnboardingTurn { kind: TurnKind::AlreadyCompleted, state: e, response: None, completed: true };
    }
    let asked = match entries_get(&e, "askedFirstQuestion") {
        Some(v) => v.as_bool() == Some(true),
        None => false,
    };
    if !asked {
        set_entry_exec(&mut e, "askedFirstQuestion", Json::Bool(true));
        if !entries_has(&e, "startedAt") {
            set_entry_exec(&mut e, "startedAt", Json::Int(now));
        }
        set_entry_exec(&mut e, "stepIndex", Json::Int(0));
        set_entry_exec(&mut e, "updatedAt", Json::Int(now));
        let mut text = chars_of("在开始创作前，我们先做一次商媒运营助手个性化设定（只需 1-2 分钟）。\n");
        append_str(&mut text, question_of_step(0));
        append_str(&mut text, "\n\n你也可以回复“跳过”使用默认配置，后续随时可再改。");
        return OnboardingTurn {
            kind: TurnKind::Started,
            state: e,
            response: Some(string_from_chars(&text)),
            completed: false,
        };
    }
    if chars_of(inp.as_str()).len() == 0 {
        let i = step_index_of(&e);
        let mut text = chars_of("我需要你先回答这个设定问题：\n");
        append_str(&mut text, question_of_step(i));
        return OnboardingTurn {
            kind: TurnKind::Reprompt,
            state: e,
            response: Some(string_from_chars(&text)),
            completed: false,
        };
    }
    let lowered = to_lowercase_str(inp.as_str());
    let l = lowered.as_str();
    if str_eq(l, "跳过") || str_eq(l, "先跳过") || str_eq(l, "使用默认") || str_eq(l, "默认")
        || str_eq(l, "/skip") || str_eq(l, "skip") {
        let mut answers = answers_entries(&e);
        fill_defaults(&mut answers);
        set_entry_exec(&mut e, "answers", object_of(answers));
        set_entry_exec(&mut e, "stepIndex", Json::Int(5));
        return OnboardingTurn {
            kind: TurnKind::Skipped,
            state: e,
            response: Some(owned("已按默认配置完成商媒运营助手设定，并写入当前空间档案与长期记忆。现在可以直接给我创作目标。")),
            completed: true,
        };
    }
    let i = step_index_of(&e);
    let mut answers = answers_entries(&e);
    set_entry_exec(&mut answers, key_of_step(i), Json::from_string(clone_string(&inp)));
    set_entry_exec(&mut e, "answers", object_of(answers));
    let next = i + 1;
    set_entry_exec(&mut e, "stepIndex", Json::Int(next as i64));
    if next >= 5 {
        return OnboardingTurn {
            kind: TurnKind::Finished,
            state: e,
            response: Some(owned("设定完成。我已经更新了 Agent/Soul/identity/user 档案。接下来直接告诉我你的创作目标即可。")),
            completed: true,
        };
    }
    set_entry_exec(&mut e, "updatedAt", Json::Int(now));
    let mut text = chars_of("已记录（");
    append_chars(&mut text, &dec_i64(next as i64));
    append_str(&mut text, "/");
    append_chars(&mut text, &dec_i64(5));
    append_str(&mut text, "）。\n");
    append_str(&mut text, question_of_step(next));
    append_str(&mut text, "\n\n如果你想快速完成，也可以回复“跳过”。");
    OnboardingTurn {
        kind: TurnKind::Advanced,
        state: e,
        response: Some(string_from_chars(&text)),
        completed: false,
    }
}

/// Onboarding moves forward one step per answer and stops at the fifth:
/// an answer to step `i` records it under that step's key and sets the
/// next step, and a completed onboarding is never changed by a turn.
pub proof fn lemma_onboarding_progress(state: JsonV, input: Seq<char>, now: i64)
    ensures
        ({
            let e = object_entries(state);
            let (kind, e2, resp, completed) = turn_of(state, input, now);
            &&& has_key(e, "completedAt"@) ==> kind == TurnKind::AlreadyCompleted && e2 == e && completed
            &&& kind == TurnKind::Advanced ==> !completed && current_step(e) + 1 < 5
            &&& (kind == TurnKind::Skipped || kind == TurnKind::Finished) ==> completed
            &&& (kind == TurnKind::Advanced || kind == TurnKind::Finished) ==>
                get_entry(e2, "stepIndex"@) == Some(JsonV::Int((current_step(e) + 1) as i64))
        }),
{
    let e = object_entries(state);
    let (kind, e2, resp, completed) = turn_of(state, input, now);
    if kind == TurnKind::Finished {
        let i = current_step(e);
        let answers = set_entry(answers_of(e), step_key(i), JsonV::Str(trim(input), None));
        let e1 = set_entry(e, "answers"@, JsonV::Object(answers));
        lemma_set_entry_get(e1, "stepIndex"@, JsonV::Int((i + 1) as i64));
    } else if kind == TurnKind::Advanced {
        let i = current_step(e);
        let answers = set_entry(answers_of(e), step_key(i), JsonV::Str(trim(input), None));
        let e1 = set_entry(set_entry(e, "answers"@, JsonV::Object(answers)), "stepIndex"@, JsonV::Int((i + 1) as i64));
        lemma_set_entry_get(set_entry(e, "answers"@, JsonV::Object(answers)), "stepIndex"@, JsonV::Int((i + 1) as i64));
        reveal_strlit("stepIndex");
        reveal_strlit("updatedAt");
        assert("stepIndex"@[0] != "updatedAt"@[0]);
        lemma_set_entry_get_other(e1, "updatedAt"@, JsonV::Int(now), "stepIndex"@);
    }
}

/// After `set_entry`, the key holds the new value.
pub proof fn lemma_set_entry_get(e: Seq<(Seq<char>, JsonV)>, key: Seq<char>, v: JsonV)
    ensures
        get_entry(set_entry(e, key, v), key) == Some(v),
{
    if has_key(e, key) {
        let i = choose|i: int| 0 <= i < e.len() && e[i].0 == key && forall|m: int| 0 <= m < i ==> e[m].0 != key;
        lemma_first_key_exists(e, key);
        assert(0 <= i < e.len() && e[i].0 == key);
        let e2 = e.update(i, (key, v));
        assert(set_entry(e, key, v) == e2);
        assert forall|k: int| 0 <= k < i implies (#[trigger] e2[k]).0 != key by {
            assert(e2[k] == e[k]);
        }
        crate::json::lemma_get_entry_first(e2, key, i);
    } else {
        let e2 = e.push((key, v));
        assert forall|k: int| 0 <= k < e.len() implies (#[trigger] e2[k]).0 != key by {
            assert(e2[k] == e[k]);
            if e[k].0 == key {
                assert(has_key(e, key));
            }
        }
        crate::json::lemma_get_entry_first(e2, key, e.len() as int);
    }
}

pub(crate) proof fn lemma_first_key_exists(e: Seq<(Seq<char>, JsonV)>, key: Seq<char>)
    requires
        has_key(e, key),
    ensures
        exists|i: int| 0 <= i < e.len() && e[i].0 == key && forall|m: int| 0 <= m < i ==> e[m].0 != key,
    decreases e.len(),
{
    if e[0].0 == key {
        assert(forall|m: int| 0 <= m < 0 ==> e[m].0 != key);
    } else {
        let t = e.subrange(1, e.len() as int);
        let w = choose|k: int| 0 <= k < e.len() && (#[trigger] e[k]).0 == key;
        assert(t[w - 1] == e[w]);
        assert(has_key(t, key));
        lemma_first_key_exists(t, key);
        let j = choose|j: int| 0 <= j < t.len() && t[j].0 == key && forall|m: int| 0 <= m < j ==> t[m].0 != key;
        assert(e[j + 1] == t[j]);
        assert forall|m: int| 0 <= m < j + 1 implies e[m].0 != key by {
            if m > 0 {
                assert(e[m] == t[m - 1]);
            }
        }
    }
}

/// `set_entry` leaves the other keys' values alone.
pub proof fn lemma_set_entry_get_other(e: Seq<(Seq<char>, JsonV)>, key: Seq<char>, v: JsonV, other: Seq<char>)
    requires
        other != key,
    ensures
        get_entry(set_entry(e, key, v), other) == get_entry(e, other),
{
    let e2 = set_entry(e, key, v);
    if has_key(e, key) {
        lemma_first_key_exists(e, key);
        let i = choose|i: int| 0 <= i < e.len() && e[i].0 == key && forall|m: int| 0 <= m < i ==> e[m].0 != key;
        assert(e2 == e.update(i, (key, v)));
        lemma_get_entry_pointwise(e, e2, other);
    } else {
        assert(e2 == e.push((key, v)));
        lemma_get_entry_pointwise(e, e2, other);
    }
}

proof fn lemma_get_entry_pointwise(e: Seq<(Seq<char>, JsonV)>, e2: Seq<(Seq<char>, JsonV)>, key: Seq<char>)
    requires
        e2.len() >= e.len(),
        forall|k: int| 0 <= k < e.len() ==> ((#[trigger] e2[k]).0 == key <==> e[k].0 == key),
        forall|k: int| 0 <= k < e.len() && e[k].0 == key ==> #[trigger] e2[k] == e[k],
        forall|k: int| e.len() <= k < e2.len() ==> (#[trigger] e2[k]).0 != key,
    ensures
        get_entry(e2, key) == get_entry(e, key),
    decreases e.len(),
{
    if e.len() == 0 {
        assert forall|k: int| 0 <= k < e2.len() implies (#[trigger] e2[k]).0 != key by {}
        crate::json::lemma_get_entry_none(e2, key);
    } else if e[0].0 == key {
        assert(e2[0] == e[0]);
    } else {
        let t = e.subrange(1, e.len() as int);
        let t2 = e2.subrange(1, e2.len() as int);
        assert forall|k: int| 0 <= k < t.len() implies ((#[trigger] t2[k]).0 == key <==> t[k].0 == key) by {
            assert(t2[k] == e2[k + 1] && t[k] == e[k + 1]);
        }
        assert forall|k: int| 0 <= k < t.len() && t[k].0 == key implies #[trigger] t2[k] == t[k] by {
            assert(t2[k] == e2[k + 1] && t[k] == e[k + 1]);
        }
        assert forall|k: int| t.len() <= k < t2.len() implies (#[trigger] t2[k]).0 != key by {
            assert(t2[k] == e2[k + 1]);
        }
        lemma_get_entry_pointwise(t, t2, key);
    }
}

// ---------------------------------------------------------------------------
// Finishing onboarding
// ---------------------------------------------------------------------------

/// A recorded answer, trimmed, or the fallback when it is missing or blank.
pub open spec fn answer_or(a: Seq<(Seq<char>, JsonV)>, key: Seq<char>, fallback: Seq<char>) -> Seq<char> {
    match get_entry(a, key) {
        Some(v) => match as_text(v) {
            Some(s) => if trim(s).len() > 0 { trim(s) } else { fallback },
            None => fallback,
        },
        None => fallback,
    }
}

/// The five canonical answers of a finished onboarding state, each with
/// its step's default.
pub open spec fn final_answers(state: Seq<(Seq<char>, JsonV)>) -> (Seq<char>, Seq<char>, Seq<char>, Seq<char>, Seq<char>) {
    let a = answers_of(state);
    (
        answer_or(a, step_key(0), step_default(0)),
        answer_or(a, step_key(1), step_default(1)),
        answer_or(a, step_key(2), step_default(2)),
        answer_or(a, step_key(3), step_default(3)),
        answer_or(a, step_key(4), step_default(4)),
    )
}

/// The identity document written by onboarding.
pub open spec fn identity_doc(style: Seq<char>, now: int) -> Seq<char> {
    "# identity.md\n\n- Name: 商媒运营助手\n- Role: 多平台内容创作自动化 Agent\n- Vibe: "@ + style
        + "\n- Signature: 🦀\n- UpdatedAt: "@ + dec_int(now)
}

/// The user document written by onboarding.
pub open spec fn user_doc(goal: Seq<char>, audience: Seq<char>, lane: Seq<char>, constraints: Seq<char>) -> Seq<char> {
    "# user.md\n\n## 用户创作档案\n- 核心创作目标: "@ + goal + "\n- 目标用户画像: "@ + audience
        + "\n- 内容赛道与结构偏好: "@ + lane + "\n- 语气/边界/节奏/指标: "@ + constraints
}

/// The soul document written by onboarding.
pub open spec fn soul_doc(style: Seq<char>) -> Seq<char> {
    "# Soul.md\n\n## 当前人格与协作偏好（来自首次设定）\n- 协作风格: "@ + style
        + "\n\n## 执行原则\n- 先明确目标，再拆解步骤。\n- 每一步要有产物和下一步动作。"@
}

/// The creator profile document written by onboarding.
pub open spec fn creator_doc(style: Seq<char>, goal: Seq<char>, audience: Seq<char>, lane: Seq<char>, constraints: Seq<char>, now: int) -> Seq<char> {
    "# CreatorProfile.md\n\n## 定位总览\n- 自媒体定位: 小红书创作与增长\n- 核心目标: "@ + goal
        + "\n## 目标群体\n- 核心受众: "@ + audience + "\n## 内容风格\n- 内容赛道: "@ + lane
        + "\n- 文案风格: "@ + style + "\n- 执行边界: "@ + constraints + "\n- UpdatedAt: "@ + dec_int(now)
}

/// The profile after onboarding finishes: the identity, user, soul and
/// creator profile documents written from the answers, the bootstrap
/// document removed, the version bumped, and the state marked completed.
pub open spec fn finalized_profile(meta: JsonV, state: Seq<(Seq<char>, JsonV)>, now: i64) -> JsonV {
    let (style, goal, audience, lane, constraints) = final_answers(state);
    match meta {
        JsonV::Object(m) => {
            let version = match get_entry(m, "version"@) {
                Some(v) => match as_int(v) { Some(n) => n, None => 1 },
                None => 1,
            };
            let m1 = set_entry(m, "identity"@, JsonV::Str(identity_doc(style, now as int), None));
            let m2 = set_entry(m1, "user"@, JsonV::Str(user_doc(goal, audience, lane, constraints), None));
            let m3 = set_entry(m2, "soul"@, JsonV::Str(soul_doc(style), None));
            let m4 = set_entry(m3, "creatorProfile"@, JsonV::Str(creator_doc(style, goal, audience, lane, constraints, now as int), None));
            let m5 = set_entry(m4, "bootstrap"@, JsonV::Null);
            let m6 = set_entry(set_entry(m5, "version"@, JsonV::Int((version + 1) as i64)), "updatedAt"@, JsonV::Int(now));
            let s2 = set_entry(set_entry(state, "completedAt"@, JsonV::Int(now)), "updatedAt"@, JsonV::Int(now));
            JsonV::Object(set_entry(m6, "onboardingState"@, JsonV::Object(s2)))
        },
        _ => meta,
    }
}

fn answer_text(a: &Vec<(String, Json)>, step: usize) -> (r: String)
    requires
        step < 5,
    ensures
        r@ == answer_or(entries_of(*a), step_key(step as int), step_default(step as int)),
{
    match entries_get(a, key_of_step(step)) {
        Some(v) => match v.as_str() {
            Some(s) => {
                let t = trim_str(s.as_str());
                if chars_of(t.as_str()).len() > 0 { t } else { owned(default_of_step(step)) }
            },
            None => owned(default_of_step(step)),
        },
        None => owned(default_of_step(step)),
    }
}

fn profile_docs(state: &Vec<(String, Json)>, now: i64) -> (r: (String, String, String, String))
    ensures
        ({
            let (style, goal, audience, lane, constraints) = final_answers(entries_of(*state));
            &&& r.0@ == identity_doc(style, now as int)
            &&& r.1@ == user_doc(goal, audience, lane, constraints)
            &&& r.2@ == soul_doc(style)
            &&& r.3@ == creator_doc(style, goal, audience, lane, constraints, now as int)
        }),
{
    let a = answers_entries(state);
    let style = answer_text(&a, 0);
    let goal = answer_text(&a, 1);
    let audience = answer_text(&a, 2);
    let lane = answer_text(&a, 3);
    let constraints = answer_text(&a, 4);
    let now_text = dec_i64(now);
    let mut identity = chars_of("# identity.md\n\n- Name: 商媒运营助手\n- Role: 多平台内容创作自动化 Agent\n- Vibe: ");
    append_str(&mut identity, style.as_str());
    append_str(&mut identity, "\n- Signature: 🦀\n- UpdatedAt: ");
    append_chars(&mut identity, &now_text);
    let mut user = chars_of("# user.md\n\n## 用户创作档案\n- 核心创作目标: ");
    append_str(&mut user, goal.as_str());
    append_str(&mut user, "\n- 目标用户画像: ");
    append_str(&mut user, audience.as_str());
    append_str(&mut user, "\n- 内容赛道与结构偏好: ");
    append_str(&mut user, lane.as_str());
    append_str(&mut user, "\n- 语气/边界/节奏/指标: ");
    append_str(&mut user, constraints.as_str());
    let mut soul = chars_of("# Soul.md\n\n## 当前人格与协作偏好（来自首次设定）\n- 协作风格: ");
    append_str(&mut soul, style.as_str());
    append_str(&mut soul, "\n\n## 执行原则\n- 先明确目标，再拆解步骤。\n- 每一步要有产物和下一步动作。");
    let mut creator = chars_of("# CreatorProfile.md\n\n## 定位总览\n- 自媒体定位: 小红书创作与增长\n- 核心目标: ");
    append_str(&mut creator, goal.as_str());
    append_str(&mut creator, "\n## 目标群体\n- 核心受众: ");
    append_str(&mut creator, audience.as_str());
    append_str(&mut creator, "\n## 内容风格\n- 内容赛道: ");
    append_str(&mut creator, lane.as_str());
    append_str(&mut creator, "\n- 文案风格: ");
    append_str(&mut creator, style.as_str());
    append_str(&mut creator, "\n- 执行边界: ");
    append_str(&mut creator, constraints.as_str());
    append_str(&mut creator, "\n- UpdatedAt: ");
    append_chars(&mut creator, &now_text);
    (string_from_chars(&identity), string_from_chars(&user), string_from_chars(&soul), string_from_chars(&creator))
}

/// Finishes onboarding: writes the profile documents from the answers and
/// marks the state completed at `now`.
#[verifier::rlimit(80)]
pub fn finalize_onboarding(meta: Json, state: Vec<(String, Json)>, now: i64) -> (r: Json)
    requires
        match meta@ {
            JsonV::Object(m) => match get_entry(m, "version"@) {
                Some(v) => as_int(v) != Some(i64::MAX),
                None => true,
            },
            _ => true,
        },
    ensures
        r@ == finalized_profile(meta@, entries_of(state), now),
{
    let (identity, user, soul, creator) = profile_docs(&state, now);
    match meta {
        Json::Object(mut m) => {
            proof { crate::json::lemma_object_view(m); }
            let version: i64 = match entries_get(&m, "version") {
                Some(v) => match v.as_i64() { Some(n) => n, None => 1 },
                None => 1,
            };
            set_entry_exec(&mut m, "identity", Json::from_string(identity));
            set_entry_exec(&mut m, "user", Json::from_string(user));
            set_entry_exec(&mut m, "soul", Json::from_string(soul));
            set_entry_exec(&mut m, "creatorProfile", Json::from_string(creator));
            set_entry_exec(&mut m, "bootstrap", Json::Null);
            set_entry_exec(&mut m, "version", Json::Int(version + 1));
            set_entry_exec(&mut m, "updatedAt", Json::Int(now));
            let mut st = state;
            set_entry_exec(&mut st, "completedAt", Json::Int(now));
            set_entry_exec(&mut st, "updatedAt", Json::Int(now));
            set_entry_exec(&mut m, "onboardingState", object_of(st));
            object_of(m)
        },
        other => other,
    }
}

// ---------------------------------------------------------------------------
// Onboarding answers from the form
// ---------------------------------------------------------------------------

/// The form's slider answers, each rounded to a whole percentage; `None`
/// where the form gave no number.
pub struct UiPercents {
    pub content_vs_commerce: Option<i64>,
    pub persona_vs_brand: Option<i64>,
    pub consistency_vs_virality: Option<i64>,
    pub authority_posture: Option<i64>,
    pub emotional_temperature: Option<i64>,
    pub sales_explicitness: Option<i64>,
    pub structure_value: Option<i64>,
}

/// A percentage from the form: clamped to 0..=100, or the fallback.
pub open spec fn pct_of(v: Option<i64>, fallback: i64) -> int {
    match v {
        Some(n) => if n < 0 { 0 } else if n > 100 { 100 } else { n as int },
        None => fallback as int,
    }
}

fn read_pct(v: Option<i64>, fallback: i64) -> (r: i64)
    requires
        0 <= fallback <= 100,
    ensures
        r as int == pct_of(v, fallback),
        0 <= r <= 100,
{
    match v {
        Some(n) => if n < 0 { 0 } else if n > 100 { 100 } else { n },
        None => fallback,
    }
}

/// A choice from the form: the trimmed answer under `key` when it is one of
/// `allowed`, the fallback otherwise.
pub open spec fn choice_of(answers: JsonV, key: Seq<char>, allowed: Seq<Seq<char>>, fallback: Seq<char>) -> Seq<char> {
    let v = trim(match get_text(answers, key) { Some(s) => s, None => Seq::empty() });
    if allowed.contains(v) { v } else { fallback }
}

/// A choice from the form.
pub fn read_choice(answers: &Json, key: &str, allowed: &[&str], fallback: &str) -> (r: String)
    ensures
        r@ == choice_of(answers@, key@, crate::media::str_views(allowed@), fallback@),
{
    let v = match answers.get_str(key) {
        Some(s) => trim_str(s.as_str()),
        None => {
            let e = String::new();
            assert(trim(Seq::<char>::empty()) =~= Seq::<char>::empty());
            e
        },
    };
    assert(v@ == trim(match get_text(answers@, key@) { Some(s) => s, None => Seq::empty() }));
    let ghost al = crate::media::str_views(allowed@);
    let n = allowed.len();
    let mut i: usize = 0;
    while i < n
        invariant
            n == allowed@.len(),
            al == crate::media::str_views(allowed@),
            v@ == trim(match get_text(answers@, key@) { Some(s) => s, None => Seq::empty() }),
            i <= n,
            forall|k: int| 0 <= k < i ==> al[k] != v@,
        decreases n - i,
    {
        if str_eq(allowed[i], v.as_str()) {
            assert(al[i as int] == v@);
            assert(al.contains(v@));
            return v;
        }
        i += 1;
    }
    owned(fallback)
}

/// The display name of a business model choice.
pub open spec fn primary_label(c: Seq<char>) -> Seq<char> {
    if c == "persona-commerce"@ { "人设带货"@ }
    else if c == "brand-commerce"@ { "品牌带货"@ }
    else if c == "service-conversion"@ { "高客单服务转化"@ }
    else if c == "content-account"@ { "纯内容账号"@ }
    else { c }
}

/// The display name of a role choice.
pub open spec fn role_label(c: Seq<char>) -> Seq<char> {
    if c == "advisor"@ { "专业顾问"@ }
    else if c == "experienced"@ { "有经验的过来人"@ }
    else if c == "experimenter"@ { "真实试错者"@ }
    else if c == "founder"@ { "品牌主理人"@ }
    else { c }
}

/// The display name of an opening choice.
pub open spec fn opening_label(c: Seq<char>) -> Seq<char> {
    if c == "hook"@ { "强判断钩子"@ }
    else if c == "observational"@ { "观察式开头"@ }
    else { c }
}

fn label_of(c: &String, keys: [&'static str; 4], labels: [&'static str; 4]) -> (r: String)
    ensures
        r@ == (if c@ == keys[0]@ { labels[0]@ } else if c@ == keys[1]@ { labels[1]@ }
            else if c@ == keys[2]@ { labels[2]@ } else if c@ == keys[3]@ { labels[3]@ } else { c@ }),
{
    if str_eq(c.as_str(), keys[0]) { owned(labels[0]) }
    else if str_eq(c.as_str(), keys[1]) { owned(labels[1]) }
    else if str_eq(c.as_str(), keys[2]) { owned(labels[2]) }
    else if str_eq(c.as_str(), keys[3]) { owned(labels[3]) }
    else { clone_string(c) }
}

/// The five canonical answers from the form: percentages with their
/// complements and the chosen business model, role and opening, in words.
pub open spec fn summarized_answers(p: UiPercents, answers: JsonV) -> Seq<(Seq<char>, JsonV)> {
    let cvc = pct_of(p.content_vs_commerce, 50);
    let pvb = pct_of(p.persona_vs_brand, 50);
    let cvv = pct_of(p.consistency_vs_virality, 50);
    let auth = pct_of(p.authority_posture, 55);
    let emo = pct_of(p.emotional_temperature, 45);
    let sales = pct_of(p.sales_explicitness, 45);
    let st = pct_of(p.structure_value, 60);
    let primary = choice_of(answers, "primaryModel"@,
        seq!["persona-commerce"@, "brand-commerce"@, "service-conversion"@, "content-account"@], "brand-commerce"@);
    let role = choice_of(answers, "rolePosition"@,
        seq!["advisor"@, "experienced"@, "experimenter"@, "founder"@], "advisor"@);
    let opening = choice_of(answers, "openingPreference"@, seq!["hook"@, "observational"@], "observational"@);
    seq![
        ("assistant_style"@, JsonV::Str("专业判断 "@ + dec_int(auth) + "% / 亲近自然 "@ + dec_int(100 - auth)
            + "; 情绪感染 "@ + dec_int(emo) + "% / 冷静克制 "@ + dec_int(100 - emo)
            + "; 框架拆解 "@ + dec_int(st) + "% / 故事表达 "@ + dec_int(100 - st), None)),
        ("creator_goal"@, JsonV::Str("经营方式："@ + primary_label(primary) + "；内容导向 "@ + dec_int(100 - cvc)
            + "% / 商业导向 "@ + dec_int(cvc) + "%；一致性 "@ + dec_int(100 - cvv) + "% / 爆发力 "@ + dec_int(cvv) + "%"@, None)),
        ("target_audience"@, JsonV::Str("受众主要把账号视为："@ + role_label(role), None)),
        ("content_lane"@, JsonV::Str("品牌驱动 "@ + dec_int(100 - pvb) + "% / 人设驱动 "@ + dec_int(pvb)
            + "%；长期默认采用"@ + opening_label(opening), None)),
        ("tone_and_constraints"@, JsonV::Str("转化表达强度 "@ + dec_int(sales) + "%；保持真实、清晰、合规，不使用夸张承诺"@, None)),
    ]
}

fn push_num(out: &mut Vec<char>, n: i64)
    ensures
        final(out)@ == old(out)@ + dec_int(n as int),
{
    let d = dec_i64(n);
    append_chars(out, &d);
}

/// The five canonical answers from the onboarding form.
pub fn summarize_ui_answers(p: &UiPercents, answers: &Json) -> (r: Json)
    ensures
        r@ == JsonV::Object(summarized_answers(*p, answers@)),
{
    let cvc = read_pct(p.content_vs_commerce, 50);
    let pvb = read_pct(p.persona_vs_brand, 50);
    let cvv = read_pct(p.consistency_vs_virality, 50);
    let auth = read_pct(p.authority_posture, 55);
    let emo = read_pct(p.emotional_temperature, 45);
    let sales = read_pct(p.sales_explicitness, 45);
    let st = read_pct(p.structure_value, 60);
    let pk: [&str; 4] = ["persona-commerce", "brand-commerce", "service-conversion", "content-account"];
    let rk: [&str; 4] = ["advisor", "experienced", "experimenter", "founder"];
    let ok: [&str; 2] = ["hook", "observational"];
    assert(crate::media::str_views(pk@) =~= seq!["persona-commerce"@, "brand-commerce"@, "service-conversion"@, "content-account"@]);
    assert(crate::media::str_views(rk@) =~= seq!["advisor"@, "experienced"@, "experimenter"@, "founder"@]);
    assert(crate::media::str_views(ok@) =~= seq!["hook"@, "observational"@]);
    let primary = read_choice(answers, "primaryModel", pk.as_slice(), "brand-commerce");
    let role = read_choice(answers, "rolePosition", rk.as_slice(), "advisor");
    let opening = read_choice(answers, "openingPreference", ok.as_slice(), "observational");
    let pl = label_of(&primary, pk, ["人设带货", "品牌带货", "高客单服务转化", "纯内容账号"]);
    let rl = label_of(&role, rk, ["专业顾问", "有经验的过来人", "真实试错者", "品牌主理人"]);
    let ol = label_of(&opening, ["hook", "observational", "hook", "observational"], ["强判断钩子", "观察式开头", "强判断钩子", "观察式开头"]);
    let mut s1 = chars_of("专业判断 ");
    push_num(&mut s1, auth);
    append_str(&mut s1, "% / 亲近自然 ");
    push_num(&mut s1, 100 - auth);
    append_str(&mut s1, "; 情绪感染 ");
    push_num(&mut s1, emo);
    append_str(&mut s1, "% / 冷静克制 ");
    push_num(&mut s1, 100 - emo);
    append_str(&mut s1, "; 框架拆解 ");
    push_num(&mut s1, st);
    append_str(&mut s1, "% / 故事表达 ");
    push_num(&mut s1, 100 - st);
    let mut s2 = chars_of("经营方式：");
    append_str(&mut s2, pl.as_str());
    append_str(&mut s2, "；内容导向 ");
    push_num(&mut s2, 100 - cvc);
    append_str(&mut s2, "% / 商业导向 ");
    push_num(&mut s2, cvc);
    append_str(&mut s2, "%；一致性 ");
    push_num(&mut s2, 100 - cvv);
    append_str(&mut s2, "% / 爆发力 ");
    push_num(&mut s2, cvv);
    append_str(&mut s2, "%");
    let mut s3 = chars_of("受众主要把账号视为：");
    append_str(&mut s3, rl.as_str());
    let mut s4 = chars_of("品牌驱动 ");
    push_num(&mut s4, 100 - pvb);
    append_str(&mut s4, "% / 人设驱动 ");
    push_num(&mut s4, pvb);
    append_str(&mut s4, "%；长期默认采用");
    append_str(&mut s4, ol.as_str());
    let mut s5 = chars_of("转化表达强度 ");
    push_num(&mut s5, sales);
    append_str(&mut s5, "%；保持真实、清晰、合规，不使用夸张承诺");
    let mut e: Vec<(String, Json)> = Vec::new();
    e.push((owned("assistant_style"), Json::from_string(string_from_chars(&s1))));
    e.push((owned("creator_goal"), Json::from_string(string_from_chars(&s2))));
    e.push((owned("target_audience"), Json::from_string(string_from_chars(&s3))));
    e.push((owned("content_lane"), Json::from_string(string_from_chars(&s4))));
    e.push((owned("tone_and_constraints"), Json::from_string(string_from_chars(&s5))));
    proof {
        lemma_entries_view(e@, e@.len());
        assert(entries_of(e) =~= summarized_answers(*p, answers@));
    }
    object_of(e)
}

// ---------------------------------------------------------------------------
// Redclaw tasks
// ---------------------------------------------------------------------------

/// The metadata fields a task request may set, in order.
pub open spec fn task_field(i: int) -> Seq<char> {
    if i == 0 { "title"@ }
    else if i == 1 { "goal"@ }
    else if i == 2 { "platform"@ }
    else if i == 3 { "taskType"@ }
    else if i == 4 { "projectId"@ }
    else if i == 5 { "prompt"@ }
    else { "source"@ }
}

fn task_field_name(i: usize) -> (r: &'static str)
    ensures
        r@ == task_field(i as int),
{
    if i == 0 { "title" }
    else if i == 1 { "goal" }
    else if i == 2 { "platform" }
    else if i == 3 { "taskType" }
    else if i == 4 { "projectId" }
    else if i == 5 { "prompt" }
    else { "source" }
}

/// The metadata with the request's values of the first `n` task fields set.
pub open spec fn with_task_fields(m: Seq<(Seq<char>, JsonV)>, p: JsonV, n: nat) -> Seq<(Seq<char>, JsonV)>
    decreases n,
{
    if n == 0 {
        m
    } else {
        let prev = with_task_fields(m, p, (n - 1) as nat);
        match jget(p, task_field(n - 1)) {
            Some(v) => set_entry(prev, task_field(n - 1), v),
            None => prev,
        }
    }
}

fn set_task_fields(m: &mut Vec<(String, Json)>, payload: &Json)
    ensures
        entries_of(*final(m)) == with_task_fields(entries_of(*old(m)), payload@, 7),
{
    let ghost m0 = entries_of(*m);
    let mut i: usize = 0;
    while i < 7
        invariant
            i <= 7,
            entries_of(*m) == with_task_fields(m0, payload@, i as nat),
        decreases 7 - i,
    {
        let k = task_field_name(i);
        match payload.get(k) {
            Some(v) => set_entry_exec(m, k, copy_json(v)),
            None => {},
        }
        i += 1;
    }
}

/// The metadata of a task snapshot: the request's `metadata` object, its
/// task fields, and a title from the goal (or a default) when it has none.
pub open spec fn snapshot_metadata(p: JsonV) -> Seq<(Seq<char>, JsonV)> {
    let m0 = match jget(p, "metadata"@) { Some(v) => object_entries(v), None => Seq::empty() };
    let m1 = with_task_fields(m0, p, 7);
    if has_key(m1, "title"@) {
        m1
    } else {
        set_entry(m1, "title"@, JsonV::Str(match get_text(p, "goal"@) { Some(g) => g, None => "RedClaw Task"@ }, None))
    }
}

/// An optional text as JSON: the string, or null.
pub open spec fn text_or_null(o: Option<Seq<char>>) -> JsonV {
    match o {
        Some(s) => JsonV::Str(s, None),
        None => JsonV::Null,
    }
}

/// The snapshot of a new draft task.
pub open spec fn task_snapshot(id: Seq<char>, p: JsonV, dry: bool, now: i64) -> JsonV {
    JsonV::Object(seq![
        ("id"@, JsonV::Str(id, None)),
        ("taskType"@, JsonV::Str("redclaw-task"@, None)),
        ("status"@, JsonV::Str("draft"@, None)),
        ("runtimeMode"@, JsonV::Str("redclaw"@, None)),
        ("ownerSessionId"@, text_or_null(get_text(p, "sessionId"@))),
        ("goal"@, text_or_null(get_text(p, "goal"@))),
        ("metadata"@, JsonV::Object(snapshot_metadata(p))),
        ("createdAt"@, JsonV::Int(now)),
        ("updatedAt"@, JsonV::Int(now)),
        ("dryRun"@, JsonV::Bool(dry)),
    ])
}

fn text_json(o: Option<&String>) -> (r: Json)
    ensures
        r@ == text_or_null(match o { Some(s) => Some(s@), None => None }),
{
    match o {
        Some(s) => Json::from_string(clone_string(s)),
        None => Json::Null,
    }
}

/// The snapshot of a new draft task with id `id`, created at `now`.
pub fn build_task_snapshot(id: &str, payload: &Json, dry: bool, now: i64) -> (r: Json)
    ensures
        r@ == task_snapshot(id@, payload@, dry, now),
{
    let mut m = match payload.get("metadata") {
        Some(v) => entries_or_empty(v),
        None => {
            let v: Vec<(String, Json)> = Vec::new();
            proof { assert(crate::json::entries_view(v@, 0) =~= Seq::<(Seq<char>, JsonV)>::empty()); }
            v
        },
    };
    set_task_fields(&mut m, payload);
    if !entries_has(&m, "title") {
        let title = match payload.get_str("goal") {
            Some(g) => clone_string(g),
            None => owned("RedClaw Task"),
        };
        set_entry_exec(&mut m, "title", Json::from_string(title));
    }
    let mut e: Vec<(String, Json)> = Vec::new();
    e.push((owned("id"), Json::text(id)));
    e.push((owned("taskType"), Json::text("redclaw-task")));
    e.push((owned("status"), Json::text("draft")));
    e.push((owned("runtimeMode"), Json::text("redclaw")));
    e.push((owned("ownerSessionId"), text_json(payload.get_str("sessionId"))));
    e.push((owned("goal"), text_json(payload.get_str("goal"))));
    e.push((owned("metadata"), object_of(m)));
    e.push((owned("createdAt"), Json::Int(now)));
    e.push((owned("updatedAt"), Json::Int(now)));
    e.push((owned("dryRun"), Json::Bool(dry)));
    proof {
        lemma_entries_view(e@, e@.len());
        assert(entries_of(e) =~= seq![
            ("id"@, JsonV::Str(id@, None)),
            ("taskType"@, JsonV::Str("redclaw-task"@, None)),
            ("status"@, JsonV::Str("draft"@, None)),
            ("runtimeMode"@, JsonV::Str("redclaw"@, None)),
            ("ownerSessionId"@, text_or_null(get_text(payload@, "sessionId"@))),
            ("goal"@, text_or_null(get_text(payload@, "goal"@))),
            ("metadata"@, JsonV::Object(snapshot_metadata(payload@))),
            ("createdAt"@, JsonV::Int(now)),
            ("updatedAt"@, JsonV::Int(now)),
            ("dryRun"@, JsonV::Bool(dry)),
        ]);
    }
    object_of(e)
}

/// The metadata after a task update: the request's task fields set on the
/// stored object.
pub open spec fn updated_metadata(meta: JsonV, p: JsonV) -> JsonV {
    match meta {
        JsonV::Object(m) => JsonV::Object(with_task_fields(m, p, 7)),
        _ => meta,
    }
}

/// Sets the request's task fields on stored metadata.
pub fn merge_task_fields(meta: Json, payload: &Json) -> (r: Json)
    ensures
        r@ == updated_metadata(meta@, payload@),
{
    match meta {
        Json::Object(mut m) => {
            proof { crate::json::lemma_object_view(m); }
            set_task_fields(&mut m, payload);
            object_of(m)
        },
        other => other,
    }
}

/// A stored JSON text column read back: the document a non-empty text
/// parses to, or the fallback.
pub open spec fn json_column(v: Option<JsonV>, fallback: JsonV) -> JsonV {
    match v {
        Some(JsonV::Str(s, doc)) => if s.len() > 0 {
            match doc { Some(d) => *d, None => fallback }
        } else {
            fallback
        },
        _ => fallback,
    }
}

/// The profile after an edit of one of its documents: the document set,
/// the version one more than before (1 when it had none), and the time of
/// the edit; a profile that is not an object is left as it is.
pub open spec fn profile_with_doc(meta: JsonV, key: Seq<char>, content: Seq<char>, now: i64) -> JsonV {
    let m1 = crate::generation::with_field(meta, key, JsonV::Str(content, None));
    let v = match get_int(m1, "version"@) { Some(v) => v as int, None => 1 };
    crate::generation::with_field(crate::generation::with_field(m1, "version"@, JsonV::Int((v + 1) as i64)),
        "updatedAt"@, JsonV::Int(now))
}

/// Applies a profile document edit made at `now`.
pub fn apply_profile_doc(meta: Json, edit: &ProfileDocEdit, now: i64) -> (r: Json)
    requires
        get_int(crate::generation::with_field(meta@, edit.key@, JsonV::Str(edit.content@, None)), "version"@)
            != Some(i64::MAX),
    ensures
        r@ == profile_with_doc(meta@, edit.key@, edit.content@, now),
{
    let mut m = meta;
    crate::generation::set_field(&mut m, edit.key.as_str(), Json::from_string(clone_string(&edit.content)));
    let v: i64 = match m.get_i64("version") {
        Some(v) => v,
        None => 1,
    };
    crate::generation::set_field(&mut m, "version", Json::Int(v + 1));
    crate::generation::set_field(&mut m, "updatedAt", Json::Int(now));
    m
}

/// The answer to a profile document edit: the document type, its file and
/// path under `redclaw/profile/`, the stored content and the request's
/// `reason` (null when it gives none); a preview is marked `dryRun`.
pub open spec fn profile_doc_reply_entries(dt: Seq<char>, file: Seq<char>, content: Seq<char>, reason: Option<Seq<char>>, dry: bool)
    -> Seq<(Seq<char>, JsonV)>
{
    let head: Seq<(Seq<char>, JsonV)> = if dry {
        seq![("success"@, JsonV::Bool(true)), ("dryRun"@, JsonV::Bool(true))]
    } else {
        seq![("success"@, JsonV::Bool(true))]
    };
    head + seq![
        ("docType"@, JsonV::Str(dt, None)),
        ("fileName"@, JsonV::Str(file, None)),
        ("path"@, JsonV::Str("redclaw/profile/"@ + file, None)),
        ("content"@, JsonV::Str(content, None)),
        ("reason"@, match reason { Some(t) => JsonV::Str(t, None), None => JsonV::Null }),
    ]
}

/// The answer to a profile document edit.
pub fn profile_doc_reply(edit: &ProfileDocEdit, payload: &Json, dry: bool) -> (r: Json)
    ensures
        r@ == JsonV::Object(profile_doc_reply_entries(edit.doc_type@, edit.file_name@, edit.content@,
            get_text(payload@, "reason"@), dry)),
{
    let mut e: Vec<(String, Json)> = Vec::new();
    proof { lemma_entries_view(e@, 0); }
    push_field(&mut e, "success", Json::Bool(true));
    if dry {
        push_field(&mut e, "dryRun", Json::Bool(true));
    }
    push_field(&mut e, "docType", Json::from_string(clone_string(&edit.doc_type)));
    push_field(&mut e, "fileName", Json::from_string(clone_string(&edit.file_name)));
    let mut path: Vec<char> = Vec::new();
    append_str(&mut path, "redclaw/profile/");
    append_str(&mut path, edit.file_name.as_str());
    proof { reveal_strlit("redclaw/profile/"); }
    push_field(&mut e, "path", Json::from_string(string_from_chars(&path)));
    push_field(&mut e, "content", Json::from_string(clone_string(&edit.content)));
    let reason = match payload.get_str("reason") {
        Some(t) => Json::from_string(clone_string(t)),
        None => Json::Null,
    };
    push_field(&mut e, "reason", reason);
    assert(entries_of(e) =~= profile_doc_reply_entries(edit.doc_type@, edit.file_name@, edit.content@,
        get_text(payload@, "reason"@), dry));
    object_of(e)
}

/// A stored JSON text column read back.
pub fn parse_json_col(v: Option<&Json>, fallback: &Json) -> (r: Json)
    ensures
        r@ == json_column(match v { Some(j) => Some(j@), None => None }, fallback@),
{
    match v {
        Some(Json::Str(s, doc)) => {
            if chars_of(s.as_str()).len() > 0 {
                match doc {
                    Some(d) => copy_json(&**d),
                    None => copy_json(fallback),
                }
            } else {
                copy_json(fallback)
            }
        },
        _ => copy_json(fallback),
    }
}

fn push_field(e: &mut Vec<(String, Json)>, k: &str, v: Json)
    ensures
        entries_of(*final(e)) == entries_of(*old(e)).push((k@, v@)),
{
    let ghost vv = v@;
    proof { lemma_entries_view(e@, e@.len()); }
    e.push((owned(k), v));
    proof { lemma_entries_view(e@, e@.len()); }
    assert(entries_of(*e) =~= entries_of(*old(e)).push((k@, vv)));
}

/// The onboarding state of a new profile: nothing asked, no answers.
pub open spec fn fresh_onboarding(now: i64) -> Seq<(Seq<char>, JsonV)> {
    seq![
        ("version"@, JsonV::Int(1)),
        ("updatedAt"@, JsonV::Int(now)),
        ("askedFirstQuestion"@, JsonV::Bool(false)),
        ("stepIndex"@, JsonV::Int(0)),
        ("answers"@, JsonV::Object(Seq::empty())),
    ]
}

/// The onboarding state of a new profile, made at `now`.
pub fn default_onboarding_state(now: i64) -> (r: Json)
    ensures
        r@ == JsonV::Object(fresh_onboarding(now)),
{
    let mut e: Vec<(String, Json)> = Vec::new();
    proof { lemma_entries_view(e@, 0); }
    push_field(&mut e, "version", Json::Int(1));
    push_field(&mut e, "updatedAt", Json::Int(now));
    push_field(&mut e, "askedFirstQuestion", Json::Bool(false));
    push_field(&mut e, "stepIndex", Json::Int(0));
    let answers: Vec<(String, Json)> = Vec::new();
    proof { lemma_entries_view(answers@, 0); }
    push_field(&mut e, "answers", object_of(answers));
    assert(entries_of(e) =~= fresh_onboarding(now));
    object_of(e)
}

/// The documents of a new profile.
pub open spec fn fresh_profile(now: i64) -> Seq<(Seq<char>, JsonV)> {
    seq![
        ("agent"@, JsonV::Str("# Agent.md\n\n你是商媒运营助手，多平台内容创作执行 Agent。先执行再解释，优先给可落地动作。"@, None)),
        ("soul"@, JsonV::Str("# Soul.md\n\n行动导向，不空谈；对结果负责；务实、直接、尊重用户时间。"@, None)),
        ("identity"@, JsonV::Str("# identity.md\n\n- Name: 商媒运营助手\n- Role: 多平台内容创作自动化 Agent\n- Vibe: 执行型、结构化、结果导向"@, None)),
        ("user"@, JsonV::Str("# user.md\n\n## 用户创作档案（待首次设定补全）"@, None)),
        ("creatorProfile"@, JsonV::Str("# CreatorProfile.md\n\n## 定位总览（待首次设定补全）"@, None)),
        ("bootstrap"@, JsonV::Str("# BOOTSTRAP.md\n\n首次设定引导：通过聊天收集偏好后删除本文件。"@, None)),
        ("version"@, JsonV::Int(1)),
        ("updatedAt"@, JsonV::Int(now)),
        ("onboardingState"@, JsonV::Object(fresh_onboarding(now))),
    ]
}

/// The profile of a new space, made at `now`: the default documents,
/// version 1, and a fresh onboarding state.
pub fn default_profile_meta(now: i64) -> (r: Json)
    ensures
        r@ == JsonV::Object(fresh_profile(now)),
{
    let mut e: Vec<(String, Json)> = Vec::new();
    proof { lemma_entries_view(e@, 0); }
    push_field(&mut e, "agent", Json::text("# Agent.md\n\n你是商媒运营助手，多平台内容创作执行 Agent。先执行再解释，优先给可落地动作。"));
    push_field(&mut e, "soul", Json::text("# Soul.md\n\n行动导向，不空谈；对结果负责；务实、直接、尊重用户时间。"));
    push_field(&mut e, "identity", Json::text("# identity.md\n\n- Name: 商媒运营助手\n- Role: 多平台内容创作自动化 Agent\n- Vibe: 执行型、结构化、结果导向"));
    push_field(&mut e, "user", Json::text("# user.md\n\n## 用户创作档案（待首次设定补全）"));
    push_field(&mut e, "creatorProfile", Json::text("# CreatorProfile.md\n\n## 定位总览（待首次设定补全）"));
    push_field(&mut e, "bootstrap", Json::text("# BOOTSTRAP.md\n\n首次设定引导：通过聊天收集偏好后删除本文件。"));
    push_field(&mut e, "version", Json::Int(1));
    push_field(&mut e, "updatedAt", Json::Int(now));
    push_field(&mut e, "onboardingState", default_onboarding_state(now));
    assert(entries_of(e) =~= fresh_profile(now));
    object_of(e)
}

/// A stored redclaw task as the renderer reads it.
pub open spec fn hydrated_redclaw_task(row: JsonV) -> Seq<(Seq<char>, JsonV)> {
    seq![
        ("id"@, match jget(row, "id"@) { Some(v) => v, None => JsonV::Null }),
        ("taskType"@, JsonV::Str("redclaw-task"@, None)),
        ("status"@, match jget(row, "status"@) { Some(v) => v, None => JsonV::Null }),
        ("runtimeMode"@, match jget(row, "runtime_mode"@) { Some(v) => v, None => JsonV::Null }),
        ("ownerSessionId"@, match jget(row, "owner_session_id"@) { Some(v) => v, None => JsonV::Null }),
        ("goal"@, match jget(row, "goal"@) { Some(v) => v, None => JsonV::Null }),
        ("metadata"@, json_column(jget(row, "metadata_json"@), JsonV::Object(Seq::empty()))),
        ("createdAt"@, match jget(row, "created_at"@) { Some(v) => v, None => JsonV::Int(0) }),
        ("updatedAt"@, match jget(row, "updated_at"@) { Some(v) => v, None => JsonV::Int(0) }),
    ]
}

fn field_copy(row: &Json, key: &str, d: Json) -> (r: Json)
    ensures
        r@ == match jget(row@, key@) { Some(v) => v, None => d@ },
{
    match row.get(key) {
        Some(v) => copy_json(v),
        None => d,
    }
}

/// A stored redclaw task as the renderer reads it.
pub fn hydrate_redclaw_task(row: &Json) -> (r: Json)
    ensures
        r@ == JsonV::Object(hydrated_redclaw_task(row@)),
{
    let empty: Vec<(String, Json)> = Vec::new();
    proof { lemma_entries_view(empty@, 0); }
    let empty_obj = object_of(empty);
    let mut e: Vec<(String, Json)> = Vec::new();
    proof { lemma_entries_view(e@, 0); }
    push_field(&mut e, "id", field_copy(row, "id", Json::Null));
    push_field(&mut e, "taskType", Json::text("redclaw-task"));
    push_field(&mut e, "status", field_copy(row, "status", Json::Null));
    push_field(&mut e, "runtimeMode", field_copy(row, "runtime_mode", Json::Null));
    push_field(&mut e, "ownerSessionId", field_copy(row, "owner_session_id", Json::Null));
    push_field(&mut e, "goal", field_copy(row, "goal", Json::Null));
    push_field(&mut e, "metadata", parse_json_col(row.get("metadata_json"), &empty_obj));
    push_field(&mut e, "createdAt", field_copy(row, "created_at", Json::Int(0)));
    push_field(&mut e, "updatedAt", field_copy(row, "updated_at", Json::Int(0)));
    assert(entries_of(e) =~= hydrated_redclaw_task(row@));
    object_of(e)
}

/// The status a count row is for (`unknown` when it names none).
pub open spec fn counted_status(row: JsonV) -> Seq<char> {
    match get_text(row, "status"@) {
        Some(t) => t,
        None => "unknown"@,
    }
}

/// The count a count row gives (0 when it has none).
pub open spec fn row_count(row: JsonV) -> i64 {
    match get_int(row, "n"@) {
        Some(n) => n,
        None => 0,
    }
}

/// The counts of the first `n` rows by status (a later row of a status
/// replaces an earlier one), and their sum.
pub open spec fn status_counts(rows: Seq<JsonV>, n: nat) -> (Seq<(Seq<char>, JsonV)>, int)
    decreases n,
{
    if n == 0 || n > rows.len() {
        (Seq::empty(), 0)
    } else {
        let (e, t) = status_counts(rows, (n - 1) as nat);
        (set_entry(e, counted_status(rows[n - 1]), JsonV::Int(row_count(rows[n - 1]))), t + row_count(rows[n - 1]))
    }
}

/// Whether the count rows can be added up: each count at most 2^40 in size,
/// at most 2^20 rows.
pub open spec fn counts_addable(rows: Seq<JsonV>) -> bool {
    &&& rows.len() <= 0x10_0000
    &&& forall|i: int| 0 <= i < rows.len() ==> -0x100_0000_0000 <= #[trigger] row_count(rows[i]) <= 0x100_0000_0000
}

/// The redclaw task statistics: the count of each status, and the total.
pub fn task_stats(rows: &Vec<Json>) -> (r: Json)
    requires
        counts_addable(crate::tasks::json_views(rows@)),
    ensures
        ({
            let (e, t) = status_counts(crate::tasks::json_views(rows@), rows@.len());
            r@ == JsonV::Object(set_entry(e, "total"@, JsonV::Int(t as i64)))
        }),
{
    proof { reveal_strlit("unknown"); }
    let ghost rv = crate::tasks::json_views(rows@);
    let mut e: Vec<(String, Json)> = Vec::new();
    proof { lemma_entries_view(e@, 0); }
    let mut total: i64 = 0;
    let mut i: usize = 0;
    while i < rows.len()
        invariant
            i <= rows@.len(),
            rv == crate::tasks::json_views(rows@),
            counts_addable(rv),
            -(0x100_0000_0000 * i) <= total <= 0x100_0000_0000 * i,
            (entries_of(e), total as int) == status_counts(rv, i as nat),
        decreases rows.len() - i,
    {
        assert(rv[i as int] == rows@[i as int]@);
        assert(-0x100_0000_0000 <= row_count(rv[i as int]) <= 0x100_0000_0000);
        assert(0x100_0000_0000 * i + 0x100_0000_0000 == 0x100_0000_0000 * (i + 1)) by (nonlinear_arith);
        assert(0x100_0000_0000 * i <= 0x100_0000_0000 * 0x10_0000) by (nonlinear_arith)
            requires i < 0x10_0000;
        let row = &rows[i];
        let status: String = match row.get_str("status") {
            Some(t) => clone_string(t),
            None => owned("unknown"),
        };
        let n: i64 = match row.get_i64("n") {
            Some(v) => v,
            None => 0,
        };
        total = total + n;
        set_entry_exec(&mut e, status.as_str(), Json::Int(n));
        i += 1;
    }
    set_entry_exec(&mut e, "total", Json::Int(total));
    object_of(e)
}

/// What can happen to a redclaw task.
#[derive(Clone, Copy, Debug, PartialEq, Eq, Structural)]
pub enum TaskAction {
    /// draft → confirmed
    Confirm,
    /// draft, confirmed or scheduled → cancelled
    Cancel,
}

/// The status an action leads to.
pub open spec fn action_target(a: TaskAction) -> Seq<char> {
    match a {
        TaskAction::Confirm => "confirmed"@,
        TaskAction::Cancel => "cancelled"@,
    }
}

/// Whether an action may start from a status.
pub open spec fn action_allowed_from(a: TaskAction, current: Seq<char>) -> bool {
    match a {
        TaskAction::Confirm => current == "draft"@,
        TaskAction::Cancel => current == "draft"@ || current == "confirmed"@ || current == "scheduled"@,
    }
}

/// Checks a task's status change and returns the new status, or why it is
/// refused.
pub fn task_transition(id: &str, current: &str, action: TaskAction) -> (r: Result<&'static str, String>)
    ensures
        action_allowed_from(action, current@) ==> r is Ok && r->Ok_0@ == action_target(action),
        !action_allowed_from(action, current@) ==> r is Err && r->Err_0@ == "task "@ + id@ + " 状态 "@
            + current@ + " 不允许转到 "@ + action_target(action),
{
    let (target, allowed) = match action {
        TaskAction::Confirm => ("confirmed", str_eq(current, "draft")),
        TaskAction::Cancel => ("cancelled", str_eq(current, "draft") || str_eq(current, "confirmed") || str_eq(current, "scheduled")),
    };
    if allowed {
        return Ok(target);
    }
    let mut m = chars_of("task ");
    append_str(&mut m, id);
    append_str(&mut m, " 状态 ");
    append_str(&mut m, current);
    append_str(&mut m, " 不允许转到 ");
    append_str(&mut m, target);
    Err(string_from_chars(&m))
}

/// A cancelled task stays cancelled, and only a draft can be confirmed.
pub proof fn lemma_cancelled_is_final(a: TaskAction)
    ensures
        !action_allowed_from(a, "cancelled"@),
        action_allowed_from(TaskAction::Confirm, "draft"@),
        forall|s: Seq<char>| action_allowed_from(TaskAction::Confirm, s) ==> s == "draft"@,
{
    reveal_strlit("cancelled");
    reveal_strlit("draft");
    reveal_strlit("confirmed");
    reveal_strlit("scheduled");
    assert("cancelled"@.len() != "draft"@.len());
    assert("cancelled"@[1] != "confirmed"@[1]);
    assert("cancelled"@[0] != "scheduled"@[0]);
}

} // verus!
