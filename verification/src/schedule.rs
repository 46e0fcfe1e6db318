//! RedClaw task definitions and their schedule: reading definitions from a
//! request, when a definition next runs, and how a finished, interrupted or
//! resumed execution changes it.

use vstd::prelude::*;
use crate::text::{
    chars_of, string_from_chars, owned, clone_string, append_str, append_chars, sub_chars,
    vec_has_char, has_char, first_index_of, find_char, trim, non_empty, non_empty_str, take_chars,
    take_chars_vec, contains_seq, contains_str, is_ascii_alnum, char_is_ascii_alnum, str_eq,
    lower_seq, unicode_lower,
};
use crate::num::{parse_u32, parse_u32_text, parse_i64, parse_i64_text, pad2, two_digits, dec_i64, dec_int};
use crate::json::{Json, JsonV, get_text, get_flag, get_int, jget};
use crate::strs::{views, string_array, string_array_exec, join, join_strings};
use crate::execution::{ToolEvidence, ExecutionOutput, ExecutionFailure};
use crate::redclaw_runner::{task_tool_policy, policy_message, policy_outcome, requested};
use crate::login::opt_view;
use crate::calendar::{valid_date, days_from_civil};
use crate::redclaw_runner::TaskKind;

verus! {

// ===========================================================================
// Request fields
// ===========================================================================

/// The non-empty trimmed text under `key` (`optional_str`).
pub open spec fn field_text(p: JsonV, key: Seq<char>) -> Option<Seq<char>> {
    match get_text(p, key) {
        Some(t) => non_empty(t),
        None => None,
    }
}

/// The non-empty trimmed text under `key`, if any.
pub fn optional_str(payload: &Json, key: &str) -> (r: Option<String>)
    ensures
        match r {
            Some(s) => field_text(payload@, key@) == Some(s@),
            None => field_text(payload@, key@) is None,
        },
{
    match payload.get_str(key) {
        Some(s) => non_empty_str(s.as_str()),
        None => None,
    }
}

/// The message for a missing required field: `<key> is required`.
pub open spec fn required_message(key: Seq<char>) -> Seq<char> {
    key + " is required"@
}

/// The non-empty trimmed text under `key`, or the error that names it.
pub fn required_str(payload: &Json, key: &str) -> (r: Result<String, String>)
    ensures
        match field_text(payload@, key@) {
            Some(t) => r is Ok && r->Ok_0@ == t,
            None => r is Err && r->Err_0@ == required_message(key@),
        },
{
    match optional_str(payload, key) {
        Some(s) => Ok(s),
        None => {
            let mut m = chars_of(key);
            append_str(&mut m, " is required");
            Err(string_from_chars(&m))
        },
    }
}

// ===========================================================================
// Times of day and weekdays
// ===========================================================================

/// `HH:mm` read as `split(':')` into exactly two parts that parse as `u32`,
/// an hour up to 23 and a minute up to 59.
pub open spec fn parse_hhmm_text(s: Seq<char>) -> Option<(u32, u32)> {
    match first_index_of(s, ':') {
        None => None,
        Some(i) => {
            let rest = s.subrange(i + 1, s.len() as int);
            if has_char(rest, ':') {
                None
            } else {
                match (parse_u32_text(s.subrange(0, i)), parse_u32_text(rest)) {
                    (Some(h), Some(m)) => if h <= 23 && m <= 59 { Some((h, m)) } else { None },
                    _ => None,
                }
            }
        },
    }
}

/// Reads a 24-hour `HH:mm` time.
pub fn parse_hhmm(value: &str) -> (r: Option<(u32, u32)>)
    ensures
        r == parse_hhmm_text(value@),
{
    let v = chars_of(value);
    let i = match find_char(&v, ':') {
        Some(i) => i,
        None => {
            return None;
        },
    };
    let head = sub_chars(&v, 0, i);
    let rest = sub_chars(&v, i + 1, v.len());
    if vec_has_char(&rest, ':') {
        return None;
    }
    let hs = string_from_chars(&head);
    let ms = string_from_chars(&rest);
    let h = match parse_u32(hs.as_str()) {
        Some(h) => h,
        None => {
            return None;
        },
    };
    let m = match parse_u32(ms.as_str()) {
        Some(m) => m,
        None => {
            return None;
        },
    };
    if h > 23 || m > 59 {
        return None;
    }
    Some((h, m))
}

/// The result of checking a daily or weekly task's time: the time in
/// `HH:mm` with two digits each, or why it was refused.
pub open spec fn hhmm_outcome(value: Option<Seq<char>>) -> Result<Seq<char>, Seq<char>> {
    let t = match value {
        Some(v) => non_empty(v),
        None => None,
    };
    match t {
        None => Err("time is required for daily/weekly task"@),
        Some(t) => match parse_hhmm_text(t) {
            None => Err("time must use 24-hour HH:mm format"@),
            Some((h, m)) => Ok(two_digits(h as nat) + ":"@ + two_digits(m as nat)),
        },
    }
}

/// The view of a `Result<String, String>`.
pub open spec fn text_result(r: Result<String, String>) -> Result<Seq<char>, Seq<char>> {
    match r {
        Ok(s) => Ok(s@),
        Err(e) => Err(e@),
    }
}

/// Checks and normalizes a daily or weekly task's time to `HH:mm`.
pub fn sanitize_hhmm(value: Option<&str>) -> (r: Result<String, String>)
    ensures
        text_result(r) == hhmm_outcome(match value {
            Some(v) => Some(v@),
            None => None,
        }),
{
    let t = match value {
        Some(v) => non_empty_str(v),
        None => None,
    };
    let t = match t {
        Some(t) => t,
        None => {
            return Err(owned("time is required for daily/weekly task"));
        },
    };
    match parse_hhmm(t.as_str()) {
        None => Err(owned("time must use 24-hour HH:mm format")),
        Some((h, m)) => {
            let mut out = pad2(h);
            out.push(':');
            let mm = pad2(m);
            append_chars(&mut out, &mm);
            assert(out@ =~= two_digits(h as nat) + ":"@ + two_digits(m as nat)) by {
                reveal_strlit(":");
            }
            Ok(string_from_chars(&out))
        },
    }
}

/// Whether the item list holds the integer `d`.
pub open spec fn lists_day(items: Seq<JsonV>, d: int) -> bool {
    exists|i: int| 0 <= i < items.len() && items[i] == JsonV::Int(d as i64)
}

/// The days among `0..n` that the item list holds, in increasing order.
pub open spec fn listed_days(items: Seq<JsonV>, n: nat) -> Seq<i64>
    decreases n,
{
    if n == 0 {
        Seq::empty()
    } else {
        let prev = listed_days(items, (n - 1) as nat);
        if lists_day(items, n - 1) {
            prev.push((n - 1) as i64)
        } else {
            prev
        }
    }
}

/// The weekdays (0 = Sunday) of a weekly task: the distinct integers from 0
/// to 6 of the array, in increasing order, or Monday alone when it has none.
pub open spec fn weekdays_of(v: Option<JsonV>) -> Seq<i64> {
    let items = match v {
        Some(JsonV::Array(items)) => items,
        _ => Seq::empty(),
    };
    if listed_days(items, 7).len() == 0 {
        seq![1i64]
    } else {
        listed_days(items, 7)
    }
}

fn holds_day(items: &Vec<Json>, d: i64) -> (r: bool)
    ensures
        r == lists_day(crate::json::items_view(items@, items@.len()), d as int),
{
    proof {
        crate::json::lemma_items_view(items@, items@.len());
    }
    let ghost iv = crate::json::items_view(items@, items@.len());
    let n = items.len();
    let mut i: usize = 0;
    while i < n
        invariant
            n == items@.len(),
            iv == crate::json::items_view(items@, items@.len()),
            iv.len() == n,
            forall|k: int| 0 <= k < n ==> #[trigger] iv[k] == items@[k]@,
            i <= n,
            forall|k: int| 0 <= k < i ==> iv[k] != JsonV::Int(d),
        decreases n - i,
    {
        match &items[i] {
            Json::Int(x) => {
                if *x == d {
                    assert(iv[i as int] == JsonV::Int(d));
                    return true;
                }
            },
            _ => {},
        }
        assert(iv[i as int] == items@[i as int]@);
        i += 1;
    }
    false
}

/// The weekdays of a weekly task.
pub fn sanitize_weekdays(value: Option<&Json>) -> (r: Vec<i64>)
    ensures
        r@ == weekdays_of(match value {
            Some(j) => Some(j@),
            None => None,
        }),
{
    let empty: Vec<Json> = Vec::new();
    let items: &Vec<Json> = match value {
        Some(j) => match j.as_array() {
            Some(a) => a,
            None => &empty,
        },
        None => &empty,
    };
    let ghost iv = crate::json::items_view(items@, items@.len());
    proof {
        crate::json::lemma_items_view(items@, items@.len());
        match value {
            Some(j) => {
                if j@ is Array {
                    crate::json::lemma_array_view(*items);
                }
            },
            None => {},
        }
        assert(iv == (match (match value { Some(j) => Some(j@), None => None }) {
            Some(JsonV::Array(items)) => items,
            _ => Seq::empty(),
        }));
    }
    let mut out: Vec<i64> = Vec::new();
    let mut d: i64 = 0;
    while d < 7
        invariant
            0 <= d <= 7,
            out@ == listed_days(iv, d as nat),
            iv == crate::json::items_view(items@, items@.len()),
        decreases 7 - d,
    {
        if holds_day(items, d) {
            out.push(d);
        }
        d += 1;
    }
    if out.len() == 0 {
        out.push(1);
        assert(out@ =~= seq![1i64]);
    }
    out
}

// ===========================================================================
// Instruction text
// ===========================================================================

/// Why a task instruction is refused, if it is: it still holds a
/// `〔...请填写...〕` placeholder, or it is longer than 64000 characters.
pub open spec fn instruction_problem(value: Seq<char>, field: Seq<char>) -> Option<Seq<char>> {
    if has_char(value, '〔') && contains_seq(value, "请填写"@) {
        Some(field + " contains unfilled placeholders"@)
    } else if value.len() > 64000 {
        Some(field + " exceeds 64000 character limit"@)
    } else {
        None
    }
}

/// Refuses a task instruction that still holds a placeholder or is too long.
pub fn validate_task_instruction(value: &str, field: &str) -> (r: Result<(), String>)
    ensures
        match instruction_problem(value@, field@) {
            Some(m) => r is Err && r->Err_0@ == m,
            None => r is Ok,
        },
{
    let v = chars_of(value);
    if vec_has_char(&v, '〔') && contains_str(&v, "请填写") {
        let mut m = chars_of(field);
        append_str(&mut m, " contains unfilled placeholders");
        return Err(string_from_chars(&m));
    }
    if v.len() > 64000 {
        let mut m = chars_of(field);
        append_str(&mut m, " exceeds 64000 character limit");
        return Err(string_from_chars(&m));
    }
    Ok(())
}

/// At most the first `max` characters of a text.
pub fn truncate_chars(value: &str, max: usize) -> (r: String)
    ensures
        r@ == take_chars(value@, max as nat),
{
    let v = chars_of(value);
    let t = take_chars_vec(&v, max);
    string_from_chars(&t)
}

/// A text made safe as a file name component: ASCII letters, digits, `-`
/// and `_` are kept, anything else becomes `_`.
pub open spec fn safe_component_of(s: Seq<char>) -> Seq<char> {
    s.map_values(|c: char| if is_ascii_alnum(c) || c == '-' || c == '_' { c } else { '_' })
}

/// A text made safe as a file name component.
pub fn safe_component(value: &str) -> (r: String)
    ensures
        r@ == safe_component_of(value@),
{
    let v = chars_of(value);
    let mut out: Vec<char> = Vec::new();
    let n = v.len();
    let mut i: usize = 0;
    while i < n
        invariant
            n == v@.len(),
            i <= n,
            out@ == safe_component_of(v@.take(i as int)),
        decreases n - i,
    {
        let c = v[i];
        let k = if char_is_ascii_alnum(c) || c == '-' || c == '_' { c } else { '_' };
        out.push(k);
        assert(v@.take(i + 1) =~= v@.take(i as int).push(c));
        assert(safe_component_of(v@.take(i + 1)) =~= safe_component_of(v@.take(i as int)).push(k));
        i += 1;
    }
    assert(v@.take(n as int) =~= v@);
    string_from_chars(&out)
}

/// A timestamp as the status reports it: its decimal text, or null.
pub open spec fn timestamp_json(value: Option<i64>) -> JsonV {
    match value {
        Some(v) => JsonV::Str(dec_int(v as int), None),
        None => JsonV::Null,
    }
}

/// A timestamp as the status reports it.
pub fn timestamp_value(value: Option<i64>) -> (r: Json)
    ensures
        r@ == timestamp_json(value),
{
    match value {
        Some(v) => {
            let d = dec_i64(v);
            Json::from_string(string_from_chars(&d))
        },
        None => Json::Null,
    }
}

// ===========================================================================
// Definitions
// ===========================================================================

/// The longest interval a definition may have: thirty days, in minutes.
pub const MAX_TASK_INTERVAL_MINUTES: i64 = 43200;

/// A one-off or recurring scheduled task.
#[derive(Clone, Debug)]
pub struct ScheduledTask {
    pub id: String,
    pub name: String,
    pub enabled: bool,
    /// `interval`, `daily`, `weekly` or `once`.
    pub mode: String,
    pub prompt: String,
    pub project_id: Option<String>,
    pub work_item_id: Option<String>,
    pub subagent_roles: Vec<String>,
    pub required_tools: Vec<String>,
    pub allowed_tools: Vec<String>,
    pub authorized_tools: Vec<String>,
    pub interval_minutes: Option<i64>,
    /// `HH:mm`, for daily and weekly tasks.
    pub time: Option<String>,
    /// Days of the week (0 = Sunday), for weekly tasks.
    pub weekdays: Vec<i64>,
    /// When a one-off task runs, in milliseconds since the epoch.
    pub run_at: Option<i64>,
    pub created_at: i64,
    pub updated_at: i64,
    pub last_run_at: Option<i64>,
    pub last_result: Option<String>,
    pub last_output: Option<String>,
    pub last_error: Option<String>,
    pub next_run_at: Option<i64>,
    pub last_receipt_path: Option<String>,
}

/// A task that runs a step prompt for a fixed number of rounds.
#[derive(Clone, Debug)]
pub struct LongCycleTask {
    pub id: String,
    pub name: String,
    pub enabled: bool,
    /// `running`, `paused` or `completed`.
    pub status: String,
    pub objective: String,
    pub step_prompt: String,
    pub project_id: Option<String>,
    pub work_item_id: Option<String>,
    pub subagent_roles: Vec<String>,
    pub required_tools: Vec<String>,
    pub allowed_tools: Vec<String>,
    pub authorized_tools: Vec<String>,
    pub interval_minutes: i64,
    pub total_rounds: i64,
    pub completed_rounds: i64,
    pub created_at: i64,
    pub updated_at: i64,
    pub last_run_at: Option<i64>,
    pub last_result: Option<String>,
    pub last_output: Option<String>,
    pub last_error: Option<String>,
    pub next_run_at: Option<i64>,
    pub last_receipt_path: Option<String>,
}

/// The mathematical value of a [`ScheduledTask`].
pub struct ScheduledTaskV {
    pub id: Seq<char>,
    pub name: Seq<char>,
    pub enabled: bool,
    pub mode: Seq<char>,
    pub prompt: Seq<char>,
    pub project_id: Option<Seq<char>>,
    pub work_item_id: Option<Seq<char>>,
    pub subagent_roles: Seq<Seq<char>>,
    pub required_tools: Seq<Seq<char>>,
    pub allowed_tools: Seq<Seq<char>>,
    pub authorized_tools: Seq<Seq<char>>,
    pub interval_minutes: Option<i64>,
    pub time: Option<Seq<char>>,
    pub weekdays: Seq<i64>,
    pub run_at: Option<i64>,
    pub created_at: i64,
    pub updated_at: i64,
    pub last_run_at: Option<i64>,
    pub last_result: Option<Seq<char>>,
    pub last_output: Option<Seq<char>>,
    pub last_error: Option<Seq<char>>,
    pub next_run_at: Option<i64>,
    pub last_receipt_path: Option<Seq<char>>,
}

/// The mathematical value of a [`LongCycleTask`].
pub struct LongCycleTaskV {
    pub id: Seq<char>,
    pub name: Seq<char>,
    pub enabled: bool,
    pub status: Seq<char>,
    pub objective: Seq<char>,
    pub step_prompt: Seq<char>,
    pub project_id: Option<Seq<char>>,
    pub work_item_id: Option<Seq<char>>,
    pub subagent_roles: Seq<Seq<char>>,
    pub required_tools: Seq<Seq<char>>,
    pub allowed_tools: Seq<Seq<char>>,
    pub authorized_tools: Seq<Seq<char>>,
    pub interval_minutes: i64,
    pub total_rounds: i64,
    pub completed_rounds: i64,
    pub created_at: i64,
    pub updated_at: i64,
    pub last_run_at: Option<i64>,
    pub last_result: Option<Seq<char>>,
    pub last_output: Option<Seq<char>>,
    pub last_error: Option<Seq<char>>,
    pub next_run_at: Option<i64>,
    pub last_receipt_path: Option<Seq<char>>,
}

impl View for ScheduledTask {
    type V = ScheduledTaskV;

    open spec fn view(&self) -> ScheduledTaskV {
        ScheduledTaskV {
            id: self.id@,
            name: self.name@,
            enabled: self.enabled,
            mode: self.mode@,
            prompt: self.prompt@,
            project_id: opt_view(self.project_id),
            work_item_id: opt_view(self.work_item_id),
            subagent_roles: views(self.subagent_roles@),
            required_tools: views(self.required_tools@),
            allowed_tools: views(self.allowed_tools@),
            authorized_tools: views(self.authorized_tools@),
            interval_minutes: self.interval_minutes,
            time: opt_view(self.time),
            weekdays: self.weekdays@,
            run_at: self.run_at,
            created_at: self.created_at,
            updated_at: self.updated_at,
            last_run_at: self.last_run_at,
            last_result: opt_view(self.last_result),
            last_output: opt_view(self.last_output),
            last_error: opt_view(self.last_error),
            next_run_at: self.next_run_at,
            last_receipt_path: opt_view(self.last_receipt_path),
        }
    }
}

impl View for LongCycleTask {
    type V = LongCycleTaskV;

    open spec fn view(&self) -> LongCycleTaskV {
        LongCycleTaskV {
            id: self.id@,
            name: self.name@,
            enabled: self.enabled,
            status: self.status@,
            objective: self.objective@,
            step_prompt: self.step_prompt@,
            project_id: opt_view(self.project_id),
            work_item_id: opt_view(self.work_item_id),
            subagent_roles: views(self.subagent_roles@),
            required_tools: views(self.required_tools@),
            allowed_tools: views(self.allowed_tools@),
            authorized_tools: views(self.authorized_tools@),
            interval_minutes: self.interval_minutes,
            total_rounds: self.total_rounds,
            completed_rounds: self.completed_rounds,
            created_at: self.created_at,
            updated_at: self.updated_at,
            last_run_at: self.last_run_at,
            last_result: opt_view(self.last_result),
            last_output: opt_view(self.last_output),
            last_error: opt_view(self.last_error),
            next_run_at: self.next_run_at,
            last_receipt_path: opt_view(self.last_receipt_path),
        }
    }
}

// ===========================================================================
// Local calendar, from chrono
// ===========================================================================

/// A calendar date as `(year, month, day)`.
pub open spec fn date_valid(date: (i32, u32, u32)) -> bool {
    valid_date(date.0 as int, date.1 as int, date.2 as int)
}

/// The day number of a date: days since 1970-01-01.
pub open spec fn day_number(date: (i32, u32, u32)) -> int {
    days_from_civil(date.0 as int, date.1 as int, date.2 as int)
}

/// Whether a date is well inside the calendar's range (years -262143 to
/// 262142), so that the next days exist too.
pub open spec fn date_in_range(date: (i32, u32, u32)) -> bool {
    date_valid(date) && -262_000 <= date.0 <= 262_000
}

/// The milliseconds of a day.
pub open spec fn day_ms() -> int {
    86_400_000
}

/// The local clock time `hour:minute:00` on day number `day`, in
/// milliseconds, as if it were UTC.
pub open spec fn wall_ms(day: int, hour: int, minute: int) -> int {
    day * day_ms() + hour * 3_600_000 + minute * 60_000
}

/// The day of the week of a day number, counted from Sunday (1970-01-01 was
/// a Thursday).
pub open spec fn weekday_of_day(day: int) -> int {
    (day + 4) % 7
}

/// The local calendar date at `ms` milliseconds since the epoch: the UTC
/// time of `Local.timestamp_millis_opt(ms)` shifted by its offset with
/// `NaiveDateTime::checked_add_offset`, which gives none instead of leaving
/// the calendar. The offset, a `FixedOffset`, is less than a day, so the
/// date is within a day of the UTC date; chrono's timestamps reach past
/// ±2^52 ms, so there is a date for every `ms` within that. Which date it is
/// depends on the machine's time zone. chrono panics only on zone data that
/// gives no offset, or one of a day or more, which no real zone does.
#[verifier::external_body]
fn local_date(ms: i64) -> (r: Option<(i32, u32, u32)>)
    ensures
        r matches Some(d) ==> date_valid(d) && (ms as int) / day_ms() - 1 <= day_number(d) <= (ms as int) / day_ms() + 1,
        -0x10_0000_0000_0000 <= ms <= 0x10_0000_0000_0000 ==> r is Some,
{
    match chrono::TimeZone::timestamp_millis_opt(&chrono::Local, ms) {
        chrono::LocalResult::Single(t) => {
            let offset = chrono::Offset::fix(t.offset());
            match t.naive_utc().checked_add_offset(offset) {
                Some(local) => Some((
                    chrono::Datelike::year(&local),
                    chrono::Datelike::month(&local),
                    chrono::Datelike::day(&local),
                )),
                None => None,
            }
        },
        _ => None,
    }
}

/// `NaiveDate::checked_add_days`: the date `days` after `date` in the
/// proleptic Gregorian calendar, or none when `date` is not a date or the
/// result leaves the calendar's range.
#[verifier::external_body]
fn add_days(date: (i32, u32, u32), days: u64) -> (r: Option<(i32, u32, u32)>)
    ensures
        r matches Some(d) ==> date_valid(d) && day_number(d) == day_number(date) + days,
        date_in_range(date) && days <= 8 ==> r is Some,
{
    match chrono::NaiveDate::from_ymd_opt(date.0, date.1, date.2) {
        Some(start) => match start.checked_add_days(chrono::Days::new(days)) {
            Some(d) => Some((chrono::Datelike::year(&d), chrono::Datelike::month(&d), chrono::Datelike::day(&d))),
            None => None,
        },
        None => None,
    }
}

/// The day of the week of a date, counted from Sunday
/// (`Weekday::num_days_from_sunday`), or none when it is not a date of the
/// calendar.
#[verifier::external_body]
fn weekday_from_sunday(date: (i32, u32, u32)) -> (r: Option<u32>)
    ensures
        r matches Some(w) ==> w as int == weekday_of_day(day_number(date)),
        date_in_range(date) ==> r is Some,
{
    match chrono::NaiveDate::from_ymd_opt(date.0, date.1, date.2) {
        Some(d) => Some(chrono::Datelike::weekday(&d).num_days_from_sunday()),
        None => None,
    }
}

/// The instant, in milliseconds since the epoch, of `hour:minute:00` local
/// time on `date` (`Local.with_ymd_and_hms`): the earlier instant when the
/// clock is turned back, none when that time is skipped. The local offset, a
/// `FixedOffset`, is less than a day, so the instant is within a day of that
/// clock time read as UTC; which instant it is depends on the machine's
/// time zone. chrono panics only on zone data that gives no offset.
#[verifier::external_body]
fn local_time_ms(date: (i32, u32, u32), hour: u32, minute: u32) -> (r: Option<i64>)
    ensures
        r matches Some(t) ==> wall_ms(day_number(date), hour as int, minute as int) - day_ms() < t
            < wall_ms(day_number(date), hour as int, minute as int) + day_ms(),
{
    match chrono::TimeZone::with_ymd_and_hms(&chrono::Local, date.0, date.1, date.2, hour, minute, 0) {
        chrono::LocalResult::Single(value) => Some(value.timestamp_millis()),
        chrono::LocalResult::Ambiguous(first, _) => Some(first.timestamp_millis()),
        chrono::LocalResult::None => None,
    }
}

/// Whether `days` lists the weekday `w`.
pub open spec fn lists_weekday(days: Seq<i64>, w: int) -> bool {
    exists|i: int| 0 <= i < days.len() && days[i] as int == w
}

fn has_weekday(days: &Vec<i64>, w: u32) -> (r: bool)
    ensures
        r == lists_weekday(days@, w as int),
{
    let n = days.len();
    let mut i: usize = 0;
    assert(days@.subrange(0, n as int) =~= days@);
    while i < n
        invariant
            n == days@.len(),
            i <= n,
            forall|k: int| 0 <= k < i ==> days@[k] as int != w as int,
        decreases n - i,
    {
        if days[i] == w as i64 {
            return true;
        }
        i += 1;
    }
    false
}

/// Whether a weekday list names no day of the week (0 to 6, from Sunday).
pub open spec fn names_no_weekday(days: Seq<i64>) -> bool {
    forall|w: int| 0 <= w <= 6 ==> !lists_weekday(days, w)
}

/// The instant one looked-at day offers: the day is `(weekday, instant)`,
/// its weekday counted from Sunday and the local instant of the wanted time
/// on it, when that time exists. It offers the instant when the day is on a
/// listed weekday (any day when no list is given) and the instant is after
/// `from_ms`.
pub open spec fn day_offer(day: (u32, Option<i64>), weekdays: Option<Seq<i64>>, from_ms: i64) -> Option<i64> {
    let wanted = match weekdays {
        Some(d) => lists_weekday(d, day.0 as int),
        None => true,
    };
    match day.1 {
        Some(t) => if wanted && t > from_ms { Some(t) } else { None },
        None => None,
    }
}

/// The first instant that the looked-at days offer, in their order.
pub open spec fn first_local(days: Seq<(u32, Option<i64>)>, weekdays: Option<Seq<i64>>, from_ms: i64) -> Option<i64>
    decreases days.len(),
{
    if days.len() == 0 {
        None
    } else {
        match day_offer(days[0], weekdays, from_ms) {
            Some(t) => Some(t),
            None => first_local(days.drop_first(), weekdays, from_ms),
        }
    }
}

proof fn lemma_first_local_step(days: Seq<(u32, Option<i64>)>, weekdays: Option<Seq<i64>>, from_ms: i64, i: int)
    requires
        0 <= i < days.len(),
        day_offer(days[i], weekdays, from_ms) is None,
    ensures
        first_local(days.subrange(i, days.len() as int), weekdays, from_ms)
            == first_local(days.subrange(i + 1, days.len() as int), weekdays, from_ms),
{
    let tail = days.subrange(i, days.len() as int);
    assert(tail.drop_first() =~= days.subrange(i + 1, days.len() as int));
}

proof fn lemma_first_local_later(days: Seq<(u32, Option<i64>)>, weekdays: Option<Seq<i64>>, from_ms: i64)
    ensures
        first_local(days, weekdays, from_ms) matches Some(t) ==> t > from_ms,
        (local_days_ok(days) && (weekdays matches Some(d) && names_no_weekday(d)))
            ==> first_local(days, weekdays, from_ms) is None,
    decreases days.len(),
{
    if days.len() > 0 {
        lemma_first_local_later(days.drop_first(), weekdays, from_ms);
        if local_days_ok(days) {
            assert(local_days_ok(days.drop_first())) by {
                assert forall|i: int| 0 <= i < days.drop_first().len() implies
                    (#[trigger] days.drop_first()[i]).0 <= 6 by {
                    assert(days.drop_first()[i] == days[i + 1]);
                }
            }
            assert(days[0].0 <= 6);
        }
    }
}

/// The first instant that the looked-at days offer: the instant of the first
/// day that is on a listed weekday (any day when no list is given) and whose
/// local time exists and is after `from_ms`.
pub fn first_local_instant(days: &Vec<(u32, Option<i64>)>, weekdays: Option<&Vec<i64>>, from_ms: i64) -> (r: Option<i64>)
    ensures
        r == first_local(days@, match weekdays { Some(d) => Some(d@), None => None }, from_ms),
{
    let ghost wd = match weekdays { Some(d) => Some(d@), None => None };
    let n = days.len();
    let mut i: usize = 0;
    assert(days@.subrange(0, n as int) =~= days@);
    while i < n
        invariant
            n == days@.len(),
            i <= n,
            wd == match weekdays { Some(d) => Some(d@), None => None::<Seq<i64>> },
            first_local(days@, wd, from_ms) == first_local(days@.subrange(i as int, n as int), wd, from_ms),
        decreases n - i,
    {
        let (w, instant) = days[i];
        let wanted = match weekdays {
            Some(d) => has_weekday(d, w),
            None => true,
        };
        match instant {
            Some(t) => {
                if wanted && t > from_ms {
                    let ghost tail = days@.subrange(i as int, n as int);
                    assert(tail[0] == days@[i as int]);
                    return Some(t);
                }
            },
            None => {},
        }
        proof { lemma_first_local_step(days@, wd, from_ms, i as int); }
        i += 1;
    }
    assert(days@.subrange(n as int, n as int).len() == 0);
    None
}

/// Whether the looked-at days are at most nine, with weekdays from 0 to 6.
pub open spec fn local_days_ok(days: Seq<(u32, Option<i64>)>) -> bool {
    days.len() <= 9 && forall|i: int| 0 <= i < days.len() ==> (#[trigger] days[i]).0 <= 6
}

/// The days looked at from `today` for the local time `hour:minute`: nine
/// of them (fewer only when `today` is near the end of the calendar's
/// range), the `i`-th being `today` plus `i` days, with its weekday and,
/// when that local time exists on it, its instant, which lies within a day
/// of that clock time read as UTC.
pub open spec fn local_days_of(days: Seq<(u32, Option<i64>)>, today: (i32, u32, u32), hour: u32, minute: u32) -> bool {
    &&& days.len() <= 9
    &&& date_in_range(today) ==> days.len() == 9
    &&& forall|i: int| 0 <= i < days.len() ==> {
        &&& (#[trigger] days[i]).0 as int == weekday_of_day(day_number(today) + i)
        &&& (days[i].1 matches Some(t) ==> wall_ms(day_number(today) + i, hour as int, minute as int) - day_ms() < t
            < wall_ms(day_number(today) + i, hour as int, minute as int) + day_ms())
    }
}

/// What the next local `hour:minute` after `from_ms` on `weekdays` is: the
/// first instant offered by the days looked at from the local date of
/// `from_ms`, a date within a day of its UTC date.
pub open spec fn local_pick(r: Option<i64>, from_ms: i64, hour: u32, minute: u32, weekdays: Option<Seq<i64>>) -> bool {
    exists|today: (i32, u32, u32), days: Seq<(u32, Option<i64>)>| #![auto]
        date_valid(today) && (from_ms as int) / day_ms() - 1 <= day_number(today) <= (from_ms as int) / day_ms() + 1
            && local_days_of(days, today, hour, minute) && r == first_local(days, weekdays, from_ms)
}

proof fn lemma_local_days_ok(days: Seq<(u32, Option<i64>)>, today: (i32, u32, u32), hour: u32, minute: u32)
    requires
        local_days_of(days, today, hour, minute),
    ensures
        local_days_ok(days),
{
    assert forall|i: int| 0 <= i < days.len() implies (#[trigger] days[i]).0 <= 6 by {
        assert(days[i].0 as int == weekday_of_day(day_number(today) + i));
    }
}

proof fn lemma_first_local_from(days: Seq<(u32, Option<i64>)>, weekdays: Option<Seq<i64>>, from_ms: i64)
    ensures
        first_local(days, weekdays, from_ms) matches Some(t) ==>
            exists|i: int| 0 <= i < days.len() && (#[trigger] days[i]).1 == Some(t),
    decreases days.len(),
{
    if days.len() > 0 {
        lemma_first_local_from(days.drop_first(), weekdays, from_ms);
        match first_local(days, weekdays, from_ms) {
            Some(t) => {
                if day_offer(days[0], weekdays, from_ms) is Some {
                    assert(days[0].1 == Some(t));
                } else {
                    let j = choose|j: int| 0 <= j < days.drop_first().len() && (#[trigger] days.drop_first()[j]).1 == Some(t);
                    assert(days[j + 1].1 == Some(t));
                }
            },
            None => {},
        }
    }
}

/// A day number within 2^26 days of 1970 is a date of a year from -262000
/// to 262000.
proof fn lemma_year_of_day_number(date: (i32, u32, u32))
    requires
        date_valid(date),
        -0x400_0000 <= day_number(date) <= 0x400_0000,
    ensures
        -262_000 <= date.0 <= 262_000,
{
    let y = date.0 as int;
    assert(0 <= crate::calendar::days_before_month(y, date.1 as int) <= 335);
    if y > 262_000 {
        assert(crate::calendar::leap_years_before(y) >= 0);
    }
    if y < -262_000 {
        assert(crate::calendar::leap_years_before(y) <= 0);
    }
}

proof fn lemma_weekday_step(day: int, w0: int, k: int)
    requires
        w0 == weekday_of_day(day),
        0 <= k,
    ensures
        (w0 + k) % 7 == weekday_of_day(day + k),
{
    vstd::arithmetic::div_mod::lemma_add_mod_noop(day + 4, k, 7);
    vstd::arithmetic::div_mod::lemma_add_mod_noop(w0, k, 7);
}

/// The days looked at from `today` for the local time `hour:minute`, each
/// with its weekday and the instant the local calendar gives.
fn local_days(today: (i32, u32, u32), hour: u32, minute: u32) -> (r: Vec<(u32, Option<i64>)>)
    ensures
        local_days_of(r@, today, hour, minute),
{
    let mut out: Vec<(u32, Option<i64>)> = Vec::new();
    let w0 = match weekday_from_sunday(today) {
        Some(w) => w,
        None => {
            return out;
        },
    };
    assert(w0 < 7);
    let ghost dn = day_number(today);
    let mut offset: u64 = 0;
    while offset <= 8
        invariant
            offset <= 9,
            out@.len() == offset,
            w0 < 7,
            w0 as int == weekday_of_day(dn),
            dn == day_number(today),
            forall|i: int| 0 <= i < out@.len() ==> {
                &&& (#[trigger] out@[i]).0 as int == weekday_of_day(dn + i)
                &&& (out@[i].1 matches Some(t) ==> wall_ms(dn + i, hour as int, minute as int) - day_ms() < t
                    < wall_ms(dn + i, hour as int, minute as int) + day_ms())
            },
        decreases 9 - offset,
    {
        let date = match add_days(today, offset) {
            Some(d) => d,
            None => {
                return out;
            },
        };
        proof { lemma_weekday_step(dn, w0 as int, offset as int); }
        let w: u32 = ((w0 as u64 + offset) % 7) as u32;
        let instant = local_time_ms(date, hour, minute);
        out.push((w, instant));
        offset += 1;
    }
    out
}

/// The first local `HH:mm` after `from_ms`, on one of `weekdays` when given:
/// the first instant offered by the nine days from the local date of
/// `from_ms` on. Which instants those days offer depends on the machine's
/// time zone; whatever they are, a time returned is strictly later than
/// `from_ms` and less than eleven days after it, and there is none when the
/// time is not a valid `HH:mm` or the weekday list names no day of the week.
pub fn next_local_time(from_ms: i64, hhmm: &str, weekdays: Option<&Vec<i64>>) -> (r: Option<i64>)
    ensures
        parse_hhmm_text(hhmm@) is None ==> r is None,
        match parse_hhmm_text(hhmm@) {
            Some((h, mi)) => -0x10_0000_0000_0000 <= from_ms <= 0x10_0000_0000_0000
                ==> local_pick(r, from_ms, h, mi, match weekdays { Some(d) => Some(d@), None => None }),
            None => true,
        },
        (weekdays matches Some(d) && names_no_weekday(d@)) ==> r is None,
        r matches Some(t) ==> from_ms < t < from_ms + 11 * day_ms(),
{
    let ghost wd = match weekdays { Some(d) => Some(d@), None => None::<Seq<i64>> };
    let (hour, minute) = match parse_hhmm(hhmm) {
        Some(hm) => hm,
        None => {
            return None;
        },
    };
    let today = match local_date(from_ms) {
        Some(d) => d,
        None => {
            return None;
        },
    };
    let days = local_days(today, hour, minute);
    let r = first_local_instant(&days, weekdays, from_ms);
    proof {
        lemma_local_days_ok(days@, today, hour, minute);
        lemma_first_local_later(days@, wd, from_ms);
        lemma_first_local_from(days@, wd, from_ms);
        if -0x10_0000_0000_0000 <= from_ms <= 0x10_0000_0000_0000 {
            lemma_year_of_day_number(today);
        }
        assert(local_pick(r, from_ms, hour, minute, wd)) by {
            assert(date_valid(today) && (from_ms as int) / day_ms() - 1 <= day_number(today) <= (from_ms as int) / day_ms() + 1
                && local_days_of(days@, today, hour, minute) && r == first_local(days@, wd, from_ms));
        }
        if let Some(t) = r {
            let i = choose|i: int| 0 <= i < days@.len() && (#[trigger] days@[i]).1 == Some(t);
            assert(i <= 8);
            assert(t < wall_ms(day_number(today) + i, hour as int, minute as int) + day_ms());
            assert(((from_ms as int) / day_ms()) * day_ms() <= from_ms);
        }
    }
    r
}

proof fn lemma_first_local_offer(days: Seq<(u32, Option<i64>)>, weekdays: Option<Seq<i64>>, from_ms: i64)
    ensures
        first_local(days, weekdays, from_ms) matches Some(t) ==>
            exists|i: int| 0 <= i < days.len() && day_offer(#[trigger] days[i], weekdays, from_ms) == Some(t),
    decreases days.len(),
{
    if days.len() > 0 {
        lemma_first_local_offer(days.drop_first(), weekdays, from_ms);
        if let Some(t) = first_local(days, weekdays, from_ms) {
            if day_offer(days[0], weekdays, from_ms) is None {
                let j = choose|j: int| 0 <= j < days.drop_first().len()
                    && day_offer(#[trigger] days.drop_first()[j], weekdays, from_ms) == Some(t);
                assert(days[j + 1] == days.drop_first()[j]);
            }
        }
    }
}

/// A weekly task runs only on its weekdays: its next run, when there is one,
/// is the local time of the task on a day whose weekday the task lists (the
/// instant within a day of that clock time read as UTC, and later than
/// `from_ms`); and when its list names no day of the week it has no next run.
pub proof fn lemma_weekly_runs_on_listed_weekdays(t: ScheduledTaskV, from_ms: i64, r: Option<i64>)
    requires
        t.mode == "weekly"@,
        next_run_ok(t, from_ms as int, r),
        -0x10_0000_0000_0000 <= from_ms <= 0x10_0000_0000_0000,
    ensures
        r matches Some(x) ==> (t.time matches Some(time) && (parse_hhmm_text(time) matches Some((h, mi))
            && exists|day: int| #![auto] lists_weekday(t.weekdays, weekday_of_day(day))
                && wall_ms(day, h as int, mi as int) - day_ms() < x < wall_ms(day, h as int, mi as int) + day_ms())),
        names_no_weekday(t.weekdays) ==> r is None,
{
    reveal_strlit("interval");
    reveal_strlit("weekly");
    assert("interval"@ != "weekly"@) by { assert("interval"@[0] != "weekly"@[0]); }
    assert(run_weekdays(t) == Some(t.weekdays));
    match t.time {
        Some(time) => match parse_hhmm_text(time) {
            Some((h, mi)) => {
                assert(local_pick(r, from_ms, h, mi, run_weekdays(t)));
                let (today, days) = choose|today: (i32, u32, u32), days: Seq<(u32, Option<i64>)>| #![auto]
                    date_valid(today) && (from_ms as int) / day_ms() - 1 <= day_number(today) <= (from_ms as int) / day_ms() + 1
                        && local_days_of(days, today, h, mi) && r == first_local(days, run_weekdays(t), from_ms);
                lemma_local_days_ok(days, today, h, mi);
                lemma_first_local_later(days, Some(t.weekdays), from_ms);
                lemma_first_local_offer(days, Some(t.weekdays), from_ms);
                if let Some(x) = r {
                    let i = choose|i: int| 0 <= i < days.len() && day_offer(#[trigger] days[i], Some(t.weekdays), from_ms) == Some(x);
                    let day = day_number(today) + i;
                    assert(days[i].0 as int == weekday_of_day(day));
                    assert(days[i].1 == Some(x));
                    assert(lists_weekday(t.weekdays, weekday_of_day(day)));
                    assert(wall_ms(day, h as int, mi as int) - day_ms() < x < wall_ms(day, h as int, mi as int) + day_ms());
                }
            },
            None => {},
        },
        None => {},
    }
}

/// Whether `from_ms` plus `minutes` whole minutes stays within `i64`.
pub open spec fn fits_after(from_ms: int, minutes: int) -> bool {
    i64::MIN <= minutes * 60000 <= i64::MAX && i64::MIN <= from_ms + minutes * 60000 <= i64::MAX
}

/// The interval of a scheduled task, in minutes: its own, or 60.
pub open spec fn interval_of(t: ScheduledTaskV) -> int {
    match t.interval_minutes {
        Some(m) => m as int,
        None => 60,
    }
}

/// The weekdays a scheduled task runs on: its list for weekly tasks, any day
/// otherwise.
pub open spec fn run_weekdays(t: ScheduledTaskV) -> Option<Seq<i64>> {
    if t.mode == "weekly"@ { Some(t.weekdays) } else { None }
}

/// What is known of a scheduled task's next run after `from_ms`: exact for
/// interval and one-off tasks and for unknown modes; for daily and weekly
/// tasks, none without a valid time, and otherwise the first instant that
/// the nine days from the local date of `from_ms` on offer at the task's
/// time on its weekdays (which instants those are depends on the time
/// zone), always later than `from_ms` and less than eleven days after it.
pub open spec fn next_run_ok(t: ScheduledTaskV, from_ms: int, r: Option<i64>) -> bool {
    if t.mode == "interval"@ {
        r == Some((from_ms + interval_of(t) * 60000) as i64)
    } else if t.mode == "daily"@ || t.mode == "weekly"@ {
        &&& (match t.time {
            Some(time) => match parse_hhmm_text(time) {
                Some((h, mi)) => -0x10_0000_0000_0000 <= from_ms <= 0x10_0000_0000_0000
                    ==> local_pick(r, from_ms as i64, h, mi, run_weekdays(t)),
                None => r is None,
            },
            None => r is None,
        })
        &&& (r matches Some(x) ==> from_ms < x < from_ms + 11 * day_ms())
    } else if t.mode == "once"@ {
        r == (match t.run_at {
            Some(at) => if at > from_ms { Some(at) } else { None },
            None => None,
        })
    } else {
        r is None
    }
}

/// When a scheduled task next runs after `from_ms`.
pub fn compute_next_scheduled(task: &ScheduledTask, from_ms: i64) -> (r: Option<i64>)
    requires
        task@.mode == "interval"@ ==> fits_after(from_ms as int, interval_of(task@)),
    ensures
        next_run_ok(task@, from_ms as int, r),
{
    let mode = task.mode.as_str();
    if str_eq(mode, "interval") {
        let minutes = match task.interval_minutes {
            Some(m) => m,
            None => 60,
        };
        Some(from_ms + minutes * 60000)
    } else if str_eq(mode, "daily") {
        proof { reveal_strlit("daily"); reveal_strlit("weekly"); }
        assert("daily"@ != "weekly"@) by { assert("daily"@[0] != "weekly"@[0]); }
        assert(run_weekdays(task@) is None);
        match &task.time {
            Some(t) => next_local_time(from_ms, t.as_str(), None),
            None => None,
        }
    } else if str_eq(mode, "weekly") {
        assert(run_weekdays(task@) == Some(task.weekdays@));
        match &task.time {
            Some(t) => next_local_time(from_ms, t.as_str(), Some(&task.weekdays)),
            None => None,
        }
    } else if str_eq(mode, "once") {
        match task.run_at {
            Some(at) => if at > from_ms { Some(at) } else { None },
            None => None,
        }
    } else {
        None
    }
}

// ===========================================================================
// Finishing an execution
// ===========================================================================

/// The status of a definition's row.
#[derive(Clone, Copy, Debug, PartialEq, Eq, Structural)]
pub enum RowStatus {
    Scheduled,
    Paused,
    Running,
    Completed,
    Failed,
}

impl RowStatus {
    /// The row's status text.
    pub fn as_str(self) -> (r: &'static str)
        ensures
            r@ == row_status_text(self),
    {
        match self {
            RowStatus::Scheduled => "scheduled",
            RowStatus::Paused => "paused",
            RowStatus::Running => "running",
            RowStatus::Completed => "completed",
            RowStatus::Failed => "failed",
        }
    }
}

/// The status text of a row status.
pub open spec fn row_status_text(s: RowStatus) -> Seq<char> {
    match s {
        RowStatus::Scheduled => "scheduled"@,
        RowStatus::Paused => "paused"@,
        RowStatus::Running => "running"@,
        RowStatus::Completed => "completed"@,
        RowStatus::Failed => "failed"@,
    }
}

/// The `lastResult` an execution status records.
pub open spec fn result_label(status: Seq<char>) -> Seq<char> {
    if status == "succeeded"@ {
        "success"@
    } else if status == "cancelled"@ {
        "skipped"@
    } else {
        "error"@
    }
}

/// The `lastOutput` a response records: none when it is empty.
pub open spec fn output_of(response: Seq<char>) -> Option<Seq<char>> {
    if response.len() == 0 {
        None
    } else {
        Some(response)
    }
}

/// A scheduled task with the record of an execution that finished at `at`.
pub open spec fn recorded_scheduled(
    t: ScheduledTaskV,
    status: Seq<char>,
    response: Seq<char>,
    error: Option<Seq<char>>,
    receipt: Option<Seq<char>>,
    at: i64,
) -> ScheduledTaskV {
    ScheduledTaskV {
        last_run_at: Some(at),
        last_result: Some(result_label(status)),
        last_output: output_of(response),
        last_error: error,
        last_receipt_path: receipt,
        updated_at: at,
        ..t
    }
}

/// Whether a scheduled task stays enabled after an execution with `status`,
/// and its row's new status. Only a successful run of an enabled recurring
/// task is scheduled again; a failed run pauses the task for review, and a
/// one-off task is never replayed.
pub open spec fn scheduled_after(t: ScheduledTaskV, status: Seq<char>) -> (bool, RowStatus) {
    if status == "succeeded"@ {
        if t.mode == "once"@ {
            (false, RowStatus::Completed)
        } else if t.enabled {
            (true, RowStatus::Scheduled)
        } else {
            (t.enabled, RowStatus::Paused)
        }
    } else if status == "cancelled"@ && t.mode == "once"@ {
        (false, RowStatus::Failed)
    } else if status == "cancelled"@ || !t.enabled {
        (t.enabled, RowStatus::Paused)
    } else {
        (false, RowStatus::Failed)
    }
}

fn opt_len_zero(s: &String) -> (r: bool)
    ensures
        r == (s@.len() == 0),
{
    chars_of(s.as_str()).len() == 0
}

/// Records a finished execution of a scheduled task and decides what comes
/// next: the task's new definition and its row's status.
pub fn complete_scheduled(
    task: ScheduledTask,
    execution_status: &str,
    response: String,
    error_text: Option<String>,
    receipt_path: Option<String>,
    completed_at: i64,
) -> (r: (ScheduledTask, RowStatus))
    requires
        execution_status@ == "succeeded"@ && task@.mode == "interval"@
            ==> fits_after(completed_at as int, interval_of(task@)),
    ensures
        ({
            let rec = recorded_scheduled(task@, execution_status@, response@, opt_view(error_text),
                opt_view(receipt_path), completed_at);
            let (enabled, row) = scheduled_after(task@, execution_status@);
            &&& r.0@ == ScheduledTaskV { enabled: enabled, next_run_at: r.0@.next_run_at, ..rec }
            &&& r.1 == row
            &&& row == RowStatus::Scheduled ==> next_run_ok(rec, completed_at as int, r.0@.next_run_at)
            &&& row != RowStatus::Scheduled ==> r.0@.next_run_at is None
        }),
{
    let mut t = task;
    let ghost before = t@;
    t.last_run_at = Some(completed_at);
    let label = if str_eq(execution_status, "succeeded") {
        "success"
    } else if str_eq(execution_status, "cancelled") {
        "skipped"
    } else {
        "error"
    };
    t.last_result = Some(owned(label));
    t.last_output = if opt_len_zero(&response) { None } else { Some(response) };
    t.last_error = error_text;
    t.last_receipt_path = receipt_path;
    t.updated_at = completed_at;
    let succeeded = str_eq(execution_status, "succeeded");
    let cancelled = str_eq(execution_status, "cancelled");
    let once = str_eq(t.mode.as_str(), "once");
    let row = if succeeded {
        if once {
            t.enabled = false;
            t.next_run_at = None;
            RowStatus::Completed
        } else if t.enabled {
            t.next_run_at = compute_next_scheduled(&t, completed_at);
            RowStatus::Scheduled
        } else {
            t.next_run_at = None;
            RowStatus::Paused
        }
    } else if cancelled && once {
        t.enabled = false;
        t.next_run_at = None;
        RowStatus::Failed
    } else if cancelled || !t.enabled {
        t.next_run_at = None;
        RowStatus::Paused
    } else {
        t.enabled = false;
        t.next_run_at = None;
        RowStatus::Failed
    };
    (t, row)
}

/// A long-cycle task with the record of an execution that finished at `at`;
/// a successful execution completes one more round.
pub open spec fn recorded_long(
    t: LongCycleTaskV,
    status: Seq<char>,
    response: Seq<char>,
    error: Option<Seq<char>>,
    receipt: Option<Seq<char>>,
    at: i64,
) -> LongCycleTaskV {
    LongCycleTaskV {
        last_run_at: Some(at),
        last_result: Some(result_label(status)),
        last_output: output_of(response),
        last_error: error,
        last_receipt_path: receipt,
        updated_at: at,
        completed_rounds: if status == "succeeded"@ { (t.completed_rounds + 1) as i64 } else { t.completed_rounds },
        ..t
    }
}

/// A long-cycle task's state after an execution: whether it stays enabled,
/// its status text, its next run and its row's status.
pub open spec fn long_after(rec: LongCycleTaskV, status: Seq<char>, at: int) -> (bool, Seq<char>, Option<i64>, RowStatus) {
    if rec.completed_rounds >= rec.total_rounds {
        (false, "completed"@, None, RowStatus::Completed)
    } else if status == "cancelled"@ || !rec.enabled {
        (rec.enabled, "paused"@, None, RowStatus::Paused)
    } else if status != "succeeded"@ {
        (false, "paused"@, None, RowStatus::Failed)
    } else {
        (rec.enabled, "running"@, Some((at + rec.interval_minutes * 60000) as i64), RowStatus::Scheduled)
    }
}

/// Records a finished execution of a long-cycle task and decides what comes
/// next: the task's new definition and its row's status.
pub fn complete_long_cycle(
    task: LongCycleTask,
    execution_status: &str,
    response: String,
    error_text: Option<String>,
    receipt_path: Option<String>,
    completed_at: i64,
) -> (r: (LongCycleTask, RowStatus))
    requires
        execution_status@ == "succeeded"@ ==> task.completed_rounds < i64::MAX,
        execution_status@ == "succeeded"@ ==> fits_after(completed_at as int, task.interval_minutes as int),
    ensures
        ({
            let rec = recorded_long(task@, execution_status@, response@, opt_view(error_text),
                opt_view(receipt_path), completed_at);
            let (enabled, status, next, row) = long_after(rec, execution_status@, completed_at as int);
            &&& r.0@ == LongCycleTaskV { enabled: enabled, status: status, next_run_at: next, ..rec }
            &&& r.1 == row
        }),
{
    let mut t = task;
    t.last_run_at = Some(completed_at);
    let succeeded = str_eq(execution_status, "succeeded");
    let cancelled = str_eq(execution_status, "cancelled");
    let label = if succeeded {
        "success"
    } else if cancelled {
        "skipped"
    } else {
        "error"
    };
    t.last_result = Some(owned(label));
    t.last_output = if opt_len_zero(&response) { None } else { Some(response) };
    t.last_error = error_text;
    t.last_receipt_path = receipt_path;
    t.updated_at = completed_at;
    if succeeded {
        t.completed_rounds = t.completed_rounds + 1;
    }
    let row = if t.completed_rounds >= t.total_rounds {
        t.enabled = false;
        t.status = owned("completed");
        t.next_run_at = None;
        RowStatus::Completed
    } else if cancelled || !t.enabled {
        t.status = owned("paused");
        t.next_run_at = None;
        RowStatus::Paused
    } else if !succeeded {
        t.enabled = false;
        t.status = owned("paused");
        t.next_run_at = None;
        RowStatus::Failed
    } else {
        t.status = owned("running");
        t.next_run_at = Some(completed_at + t.interval_minutes * 60000);
        RowStatus::Scheduled
    };
    (t, row)
}

/// A failed or cancelled execution never leaves a scheduled task scheduled
/// to run again, and a one-off task never stays enabled after it ran.
pub proof fn lemma_scheduled_failure_is_not_rescheduled(t: ScheduledTaskV, status: Seq<char>)
    ensures
        status != "succeeded"@ ==> scheduled_after(t, status).1 != RowStatus::Scheduled,
        t.mode == "once"@ ==> !scheduled_after(t, status).0,
        scheduled_after(t, status).1 == RowStatus::Scheduled
            <==> (status == "succeeded"@ && t.mode != "once"@ && t.enabled),
        scheduled_after(t, status).0 ==> t.enabled,
{
}

/// A one-off task runs at most once: after an execution of it is recorded
/// (as `complete_scheduled` records it, whatever the outcome), it is due at
/// no time and its row can no longer be claimed without force.
pub proof fn lemma_once_runs_at_most_once(t: ScheduledTaskV, status: Seq<char>, done: ScheduledTaskV, row: RowStatus, now: int)
    requires
        t.mode == "once"@,
        done.enabled == scheduled_after(t, status).0,
        row == scheduled_after(t, status).1,
    ensures
        !scheduled_due(done, now),
        row != RowStatus::Scheduled,
        !claimable(row_status_text(row), false),
{
    reveal_strlit("scheduled");
    reveal_strlit("paused");
    reveal_strlit("completed");
    reveal_strlit("failed");
    assert("paused"@[0] != "scheduled"@[0]);
    assert("completed"@[0] != "scheduled"@[0]);
    assert("failed"@[0] != "scheduled"@[0]);
}

proof fn lemma_sched_candidates_due(s: Seq<ScheduledTaskV>, now: int, n: nat, c: (i64, int))
    requires
        sched_candidates(s, now, n).contains(c),
    ensures
        0 <= c.1 < n,
        c.1 < s.len(),
        scheduled_due(s[c.1], now),
    decreases n,
{
    if n > 0 && n <= s.len() {
        let prev = sched_candidates(s, now, (n - 1) as nat);
        if prev.contains(c) {
            lemma_sched_candidates_due(s, now, (n - 1) as nat, c);
        } else {
            assert(scheduled_due(s[n - 1], now));
            let pushed = prev.push((s[n - 1].next_run_at->0, n - 1));
            assert(pushed.contains(c));
            let j = choose|j: int| 0 <= j < pushed.len() && #[trigger] pushed[j] == c;
            if j < prev.len() {
                assert(prev[j] == c);
                assert(prev.contains(c));
            }
        }
    }
}

/// A due one-off task runs once: once its execution is recorded (as
/// `complete_scheduled` records it, whatever the outcome), no later due
/// check selects it again, at any time.
pub proof fn lemma_once_not_due_again(s: Seq<ScheduledTaskV>, k: int, status: Seq<char>, done: ScheduledTaskV, now: int)
    requires
        0 <= k < s.len(),
        s[k].mode == "once"@,
        done.enabled == scheduled_after(s[k], status).0,
    ensures
        forall|c: (i64, int)| #[trigger] sched_candidates(s.update(k, done), now, s.len()).contains(c) ==> c.1 != k,
{
    let s2 = s.update(k, done);
    assert forall|c: (i64, int)| #[trigger] sched_candidates(s2, now, s.len()).contains(c) implies c.1 != k by {
        lemma_sched_candidates_due(s2, now, s.len(), c);
        if c.1 == k {
            assert(s2[k] == done);
            assert(!done.enabled);
        }
    }
}

/// A long-cycle execution completes a round only when it succeeded; the task
/// is completed, and disabled, exactly when its rounds are done; and only a
/// successful round of an enabled task schedules the next one.
pub proof fn lemma_long_cycle_rounds(
    t: LongCycleTaskV,
    status: Seq<char>,
    response: Seq<char>,
    error: Option<Seq<char>>,
    receipt: Option<Seq<char>>,
    at: i64,
)
    requires
        t.completed_rounds < i64::MAX,
    ensures
        ({
            let rec = recorded_long(t, status, response, error, receipt, at);
            let (enabled, text, next, row) = long_after(rec, status, at as int);
            &&& status == "succeeded"@ ==> rec.completed_rounds == t.completed_rounds + 1
            &&& status != "succeeded"@ ==> rec.completed_rounds == t.completed_rounds
            &&& (row == RowStatus::Completed <==> rec.completed_rounds >= rec.total_rounds)
            &&& row == RowStatus::Completed ==> !enabled && text == "completed"@
            &&& (row == RowStatus::Scheduled ==> status == "succeeded"@ && t.enabled && next is Some)
            &&& (row != RowStatus::Scheduled ==> next is None)
        }),
{
}

// ===========================================================================
// Interrupted and resumed definitions
// ===========================================================================

/// The error an interrupted execution leaves on its task.
pub open spec fn interrupted_message() -> Seq<char> {
    "上次执行因应用退出、租约丢失或完成记录持久化失败而中断；为避免重复外部副作用，未自动重放，已暂停并需人工确认后再启用"@
}

fn interrupted_text() -> (r: String)
    ensures
        r@ == interrupted_message(),
{
    owned("上次执行因应用退出、租约丢失或完成记录持久化失败而中断；为避免重复外部副作用，未自动重放，已暂停并需人工确认后再启用")
}

/// A scheduled task whose execution was interrupted: disabled, with no next
/// run and an error that asks for a manual check (its row becomes failed).
pub fn recover_scheduled(task: ScheduledTask, now: i64) -> (r: ScheduledTask)
    ensures
        r@ == (ScheduledTaskV {
            last_error: Some(interrupted_message()),
            last_result: Some("error"@),
            updated_at: now,
            enabled: false,
            next_run_at: None,
            ..task@
        }),
{
    let mut t = task;
    t.last_error = Some(interrupted_text());
    t.last_result = Some(owned("error"));
    t.updated_at = now;
    t.enabled = false;
    t.next_run_at = None;
    t
}

/// A long-cycle task whose execution was interrupted: disabled and paused,
/// with no next run and an error that asks for a manual check (its row
/// becomes failed). No round is counted.
pub fn recover_long_cycle(task: LongCycleTask, now: i64) -> (r: LongCycleTask)
    ensures
        r@ == (LongCycleTaskV {
            last_error: Some(interrupted_message()),
            last_result: Some("error"@),
            updated_at: now,
            enabled: false,
            status: "paused"@,
            next_run_at: None,
            ..task@
        }),
{
    let mut t = task;
    t.last_error = Some(interrupted_text());
    t.last_result = Some(owned("error"));
    t.updated_at = now;
    t.enabled = false;
    t.status = owned("paused");
    t.next_run_at = None;
    t
}

/// Whether a runtime status is the given text.
pub open spec fn status_is(s: Option<Seq<char>>, text: Seq<char>) -> bool {
    s == Some(text)
}

/// Whether resuming leaves a scheduled task alone: it is disabled, running,
/// or already scheduled with a next run.
pub open spec fn resume_skips(enabled: bool, runtime: Option<Seq<char>>, next: Option<i64>) -> bool {
    !enabled || status_is(runtime, "running"@) || (status_is(runtime, "scheduled"@) && next is Some)
}

/// What resuming the scheduler does with a scheduled task, given its row's
/// status: `None` to leave it, or the definition to save as scheduled. A
/// missing next run of a recurring task is computed from `now`; a one-off
/// task without a next run is left alone.
pub fn resume_scheduled(task: ScheduledTask, runtime_status: Option<&str>, now: i64) -> (r: Option<ScheduledTask>)
    requires
        task@.mode == "interval"@ ==> fits_after(now as int, interval_of(task@)),
    ensures
        ({
            let rt = match runtime_status { Some(s) => Some(s@), None => None };
            if resume_skips(task.enabled, rt, task.next_run_at) {
                r is None
            } else if task.next_run_at is Some {
                r matches Some(t) && t@ == ScheduledTaskV { updated_at: now, ..task@ }
            } else if task@.mode == "once"@ {
                r is None
            } else {
                match r {
                    Some(t) => t@ == ScheduledTaskV { updated_at: now, next_run_at: t@.next_run_at, ..task@ }
                        && t@.next_run_at is Some && next_run_ok(task@, now as int, t@.next_run_at),
                    None => next_run_ok(task@, now as int, None),
                }
            }
        }),
{
    if !task.enabled {
        return None;
    }
    let (running, scheduled) = match runtime_status {
        Some(s) => (str_eq(s, "running"), str_eq(s, "scheduled")),
        None => (false, false),
    };
    if running {
        return None;
    }
    if scheduled && task.next_run_at.is_some() {
        return None;
    }
    let mut t = task;
    if t.next_run_at.is_none() && !str_eq(t.mode.as_str(), "once") {
        t.next_run_at = compute_next_scheduled(&t, now);
    }
    if t.next_run_at.is_none() {
        return None;
    }
    t.updated_at = now;
    Some(t)
}

/// What resuming the scheduler does with a long-cycle task, given its row's
/// status: `None` to leave it (disabled, done, running, or already
/// scheduled), or the definition to save as scheduled and running, with a
/// next run one interval from `now` when it had none.
pub fn resume_long_cycle(task: LongCycleTask, runtime_status: Option<&str>, now: i64) -> (r: Option<LongCycleTask>)
    requires
        fits_after(now as int, task.interval_minutes as int),
    ensures
        ({
            let rt = match runtime_status { Some(s) => Some(s@), None => None };
            if task.completed_rounds >= task.total_rounds || resume_skips(task.enabled, rt, task.next_run_at) {
                r is None
            } else {
                r matches Some(t) && t@ == LongCycleTaskV {
                    next_run_at: match task.next_run_at {
                        Some(x) => Some(x),
                        None => Some((now + task.interval_minutes * 60000) as i64),
                    },
                    status: "running"@,
                    updated_at: now,
                    ..task@
                }
            }
        }),
{
    if !task.enabled || task.completed_rounds >= task.total_rounds {
        return None;
    }
    let (running, scheduled) = match runtime_status {
        Some(s) => (str_eq(s, "running"), str_eq(s, "scheduled")),
        None => (false, false),
    };
    if running {
        return None;
    }
    if scheduled && task.next_run_at.is_some() {
        return None;
    }
    let mut t = task;
    if t.next_run_at.is_none() {
        t.next_run_at = Some(now + t.interval_minutes * 60000);
    }
    t.status = owned("running");
    t.updated_at = now;
    Some(t)
}

// ===========================================================================
// Choosing the due definitions
// ===========================================================================

/// A definition whose next run has come.
pub struct DueTask {
    pub id: String,
    pub kind: TaskKind,
}

/// Whether a scheduled task is due at `now`.
pub open spec fn scheduled_due(t: ScheduledTaskV, now: int) -> bool {
    t.enabled && (t.next_run_at matches Some(at) && at <= now)
}

/// Whether a long-cycle task is due at `now`: enabled, rounds left, and its
/// next run has come.
pub open spec fn long_due(t: LongCycleTaskV, now: int) -> bool {
    t.enabled && t.completed_rounds < t.total_rounds && (t.next_run_at matches Some(at) && at <= now)
}

/// The views of a list of scheduled tasks.
pub open spec fn sched_views(s: Seq<ScheduledTask>) -> Seq<ScheduledTaskV> {
    s.map_values(|t: ScheduledTask| t@)
}

/// The views of a list of long-cycle tasks.
pub open spec fn long_views(s: Seq<LongCycleTask>) -> Seq<LongCycleTaskV> {
    s.map_values(|t: LongCycleTask| t@)
}

/// The due scheduled tasks among the first `n`, as (next run, position).
pub open spec fn sched_candidates(s: Seq<ScheduledTaskV>, now: int, n: nat) -> Seq<(i64, int)>
    decreases n,
{
    if n == 0 || n > s.len() {
        Seq::empty()
    } else {
        let prev = sched_candidates(s, now, (n - 1) as nat);
        if scheduled_due(s[n - 1], now) {
            prev.push((s[n - 1].next_run_at->0, n - 1))
        } else {
            prev
        }
    }
}

/// The due long-cycle tasks among the first `n`, as (next run, `base` +
/// position).
pub open spec fn long_candidates(l: Seq<LongCycleTaskV>, now: int, base: int, n: nat) -> Seq<(i64, int)>
    decreases n,
{
    if n == 0 || n > l.len() {
        Seq::empty()
    } else {
        let prev = long_candidates(l, now, base, (n - 1) as nat);
        if long_due(l[n - 1], now) {
            prev.push((l[n - 1].next_run_at->0, base + n - 1))
        } else {
            prev
        }
    }
}

/// All due definitions, scheduled tasks first, each by position: a
/// scheduled task by its index, a long-cycle task by the number of
/// scheduled tasks plus its index.
pub open spec fn due_candidates(s: Seq<ScheduledTaskV>, l: Seq<LongCycleTaskV>, now: int) -> Seq<(i64, int)> {
    sched_candidates(s, now, s.len()) + long_candidates(l, now, s.len() as int, l.len())
}

/// Order by next run, then by position.
pub open spec fn lex_lt(a: (i64, int), b: (i64, int)) -> bool {
    a.0 < b.0 || (a.0 == b.0 && a.1 < b.1)
}

/// Strictly increasing by next run, then by position.
pub open spec fn lex_sorted(o: Seq<(i64, int)>) -> bool {
    forall|i: int, j: int| 0 <= i < j < o.len() ==> lex_lt(#[trigger] o[i], #[trigger] o[j])
}

/// Whether two lists hold the same entries.
pub open spec fn same_entries(a: Seq<(i64, int)>, b: Seq<(i64, int)>) -> bool {
    forall|x: (i64, int)| a.contains(x) <==> b.contains(x)
}

/// The definition at a position, as a due task: its id and kind.
pub open spec fn due_at(s: Seq<ScheduledTaskV>, l: Seq<LongCycleTaskV>, pos: int) -> (Seq<char>, TaskKind) {
    if pos < s.len() {
        (s[pos].id, TaskKind::Scheduled)
    } else {
        (l[pos - s.len()].id, TaskKind::LongCycle)
    }
}

proof fn lemma_sched_candidates_bounds(s: Seq<ScheduledTaskV>, now: int, n: nat)
    requires
        n <= s.len(),
    ensures
        forall|k: int| 0 <= k < sched_candidates(s, now, n).len() ==> {
            let c = #[trigger] sched_candidates(s, now, n)[k];
            0 <= c.1 < n && scheduled_due(s[c.1], now) && c.0 == s[c.1].next_run_at->0
        },
        forall|k: int, m: int| 0 <= k < m < sched_candidates(s, now, n).len()
            ==> (#[trigger] sched_candidates(s, now, n)[k]).1 < (#[trigger] sched_candidates(s, now, n)[m]).1,
    decreases n,
{
    if n > 0 {
        lemma_sched_candidates_bounds(s, now, (n - 1) as nat);
    }
}

proof fn lemma_long_candidates_bounds(l: Seq<LongCycleTaskV>, now: int, base: int, n: nat)
    requires
        n <= l.len(),
    ensures
        forall|k: int| 0 <= k < long_candidates(l, now, base, n).len() ==> {
            let c = #[trigger] long_candidates(l, now, base, n)[k];
            base <= c.1 < base + n && long_due(l[c.1 - base], now) && c.0 == l[c.1 - base].next_run_at->0
        },
        forall|k: int, m: int| 0 <= k < m < long_candidates(l, now, base, n).len()
            ==> (#[trigger] long_candidates(l, now, base, n)[k]).1 < (#[trigger] long_candidates(l, now, base, n)[m]).1,
    decreases n,
{
    if n > 0 {
        lemma_long_candidates_bounds(l, now, base, (n - 1) as nat);
    }
}

fn collect_candidates(scheduled: &Vec<ScheduledTask>, long: &Vec<LongCycleTask>, now: i64) -> (r: Vec<(i64, usize)>)
    requires
        scheduled@.len() + long@.len() <= usize::MAX,
    ensures
        r@.len() == due_candidates(sched_views(scheduled@), long_views(long@), now as int).len(),
        forall|k: int| 0 <= k < r@.len() ==> (#[trigger] r@[k]).0 == due_candidates(
            sched_views(scheduled@), long_views(long@), now as int)[k].0
            && r@[k].1 as int == due_candidates(sched_views(scheduled@), long_views(long@), now as int)[k].1,
{
    let ghost s = sched_views(scheduled@);
    let ghost l = long_views(long@);
    let mut out: Vec<(i64, usize)> = Vec::new();
    let ns = scheduled.len();
    let mut i: usize = 0;
    while i < ns
        invariant
            ns == scheduled@.len(),
            s == sched_views(scheduled@),
            i <= ns,
            out@.len() == sched_candidates(s, now as int, i as nat).len(),
            forall|k: int| 0 <= k < out@.len() ==> (#[trigger] out@[k]).0 == sched_candidates(s, now as int, i as nat)[k].0
                && out@[k].1 as int == sched_candidates(s, now as int, i as nat)[k].1,
        decreases ns - i,
    {
        let t = &scheduled[i];
        assert(s[i as int] == t@);
        if t.enabled {
            match t.next_run_at {
                Some(at) => {
                    if at <= now {
                        out.push((at, i));
                    }
                },
                None => {},
            }
        }
        i += 1;
    }
    let nl = long.len();
    let mut j: usize = 0;
    let ghost sc = sched_candidates(s, now as int, s.len());
    while j < nl
        invariant
            nl == long@.len(),
            ns == scheduled@.len(),
            ns == s.len(),
            ns + nl <= usize::MAX,
            l == long_views(long@),
            j <= nl,
            sc == sched_candidates(s, now as int, s.len()),
            out@.len() == sc.len() + long_candidates(l, now as int, ns as int, j as nat).len(),
            forall|k: int| 0 <= k < out@.len() ==> (#[trigger] out@[k]).0 == (sc + long_candidates(l, now as int, ns as int, j as nat))[k].0
                && out@[k].1 as int == (sc + long_candidates(l, now as int, ns as int, j as nat))[k].1,
        decreases nl - j,
    {
        let t = &long[j];
        assert(l[j as int] == t@);
        if t.enabled && t.completed_rounds < t.total_rounds {
            match t.next_run_at {
                Some(at) => {
                    if at <= now {
                        out.push((at, ns + j));
                    }
                },
                None => {},
            }
        }
        j += 1;
    }
    out
}

/// A list of (next run, position) pairs with positions as integers.
pub open spec fn int_pairs(v: Seq<(i64, usize)>) -> Seq<(i64, int)> {
    v.map_values(|p: (i64, usize)| (p.0, p.1 as int))
}

fn sort_candidates(c: &Vec<(i64, usize)>) -> (r: Vec<(i64, usize)>)
    requires
        forall|k: int, m: int| 0 <= k < m < c@.len() ==> (#[trigger] c@[k]).1 < (#[trigger] c@[m]).1,
    ensures
        lex_sorted(int_pairs(r@)),
        same_entries(int_pairs(r@), int_pairs(c@)),
        r@.len() == c@.len(),
{
    let mut out: Vec<(i64, usize)> = Vec::new();
    let n = c.len();
    let mut i: usize = 0;
    while i < n
        invariant
            n == c@.len(),
            i <= n,
            forall|k: int, m: int| 0 <= k < m < c@.len() ==> (#[trigger] c@[k]).1 < (#[trigger] c@[m]).1,
            out@.len() == i,
            lex_sorted(int_pairs(out@)),
            same_entries(int_pairs(out@), int_pairs(c@.take(i as int))),
            forall|k: int| 0 <= k < out@.len() ==> exists|m: int| 0 <= m < i && #[trigger] out@[k] == c@[m],
        decreases n - i,
    {
        let x = c[i];
        let mut k: usize = 0;
        while k < out.len() && out[k].0 <= x.0
            invariant
                k <= out@.len(),
                forall|j: int| 0 <= j < k ==> (#[trigger] out@[j]).0 <= x.0,
            decreases out@.len() - k,
        {
            k += 1;
        }
        let ghost o = out@;
        proof {
            assert forall|j: int| 0 <= j < o.len() implies (#[trigger] o[j]).1 < x.1 by {
                let m = choose|m: int| 0 <= m < i && o[j] == c@[m];
                assert(c@[m].1 < c@[i as int].1);
            }
        }
        out.insert(k, x);
        proof {
            let o2 = out@;
            assert(o2 == o.insert(k as int, x));
            assert forall|a: int, b: int| 0 <= a < b < o2.len() implies lex_lt(#[trigger] int_pairs(o2)[a], #[trigger] int_pairs(o2)[b]) by {
                assert(int_pairs(o2)[a] == (o2[a].0, o2[a].1 as int));
                assert(int_pairs(o2)[b] == (o2[b].0, o2[b].1 as int));
                if b < k {
                    assert(int_pairs(o)[a] == (o[a].0, o[a].1 as int));
                    assert(int_pairs(o)[b] == (o[b].0, o[b].1 as int));
                    assert(lex_lt(int_pairs(o)[a], int_pairs(o)[b]));
                } else if b == k {
                    assert(o2[a] == o[a]);
                } else if a < k {
                    assert(o2[b] == o[b - 1]);
                    if k < o.len() {
                        assert(int_pairs(o)[a] == (o[a].0, o[a].1 as int));
                        assert(int_pairs(o)[b - 1] == (o[b - 1].0, o[b - 1].1 as int));
                        if a < b - 1 {
                            assert(lex_lt(int_pairs(o)[a], int_pairs(o)[b - 1]));
                        }
                    }
                } else if a == k {
                    assert(o2[b] == o[b - 1]);
                    assert(!(o[k as int].0 <= x.0));
                    if b - 1 > k {
                        assert(int_pairs(o)[k as int] == (o[k as int].0, o[k as int].1 as int));
                        assert(int_pairs(o)[b - 1] == (o[b - 1].0, o[b - 1].1 as int));
                        assert(lex_lt(int_pairs(o)[k as int], int_pairs(o)[b - 1]));
                    }
                } else {
                    assert(o2[a] == o[a - 1]);
                    assert(o2[b] == o[b - 1]);
                    assert(int_pairs(o)[a - 1] == (o[a - 1].0, o[a - 1].1 as int));
                    assert(int_pairs(o)[b - 1] == (o[b - 1].0, o[b - 1].1 as int));
                    assert(lex_lt(int_pairs(o)[a - 1], int_pairs(o)[b - 1]));
                }
            }
            assert(c@.take(i + 1) =~= c@.take(i as int).push(x));
            assert forall|y: (i64, int)| int_pairs(o2).contains(y) <==> int_pairs(c@.take(i + 1)).contains(y) by {
                if int_pairs(o2).contains(y) {
                    let j = choose|j: int| 0 <= j < int_pairs(o2).len() && #[trigger] int_pairs(o2)[j] == y;
                    if j < k {
                        assert(int_pairs(o)[j] == y);
                        assert(int_pairs(o).contains(y));
                        let q = choose|q: int| 0 <= q < int_pairs(c@.take(i as int)).len() && #[trigger] int_pairs(c@.take(i as int))[q] == y;
                        assert(int_pairs(c@.take(i + 1))[q] == y);
                    } else if j == k {
                        assert(int_pairs(c@.take(i + 1))[i as int] == y);
                    } else {
                        assert(int_pairs(o)[j - 1] == y);
                        assert(int_pairs(o).contains(y));
                        let q = choose|q: int| 0 <= q < int_pairs(c@.take(i as int)).len() && #[trigger] int_pairs(c@.take(i as int))[q] == y;
                        assert(int_pairs(c@.take(i + 1))[q] == y);
                    }
                }
                if int_pairs(c@.take(i + 1)).contains(y) {
                    let q = choose|q: int| 0 <= q < int_pairs(c@.take(i + 1)).len() && #[trigger] int_pairs(c@.take(i + 1))[q] == y;
                    if q < i {
                        assert(int_pairs(c@.take(i as int))[q] == y);
                        assert(int_pairs(c@.take(i as int)).contains(y));
                        let j = choose|j: int| 0 <= j < int_pairs(o).len() && #[trigger] int_pairs(o)[j] == y;
                        if j < k {
                            assert(int_pairs(o2)[j] == y);
                        } else {
                            assert(int_pairs(o2)[j + 1] == y);
                        }
                    } else {
                        assert(int_pairs(o2)[k as int] == y);
                    }
                }
            }
            assert forall|a: int| 0 <= a < o2.len() implies exists|m: int| 0 <= m < i + 1 && #[trigger] o2[a] == c@[m] by {
                if a < k {
                    assert(o2[a] == o[a]);
                } else if a == k {
                    assert(o2[a] == c@[i as int]);
                } else {
                    assert(o2[a] == o[a - 1]);
                }
            }
        }
        i += 1;
    }
    assert(c@.take(n as int) =~= c@);
    out
}

/// The due definitions to start at `now`, at most `capacity` of them: the
/// earliest next runs first, scheduled tasks before long-cycle tasks and
/// earlier positions first when next runs are equal.
pub fn select_due(scheduled: &Vec<ScheduledTask>, long: &Vec<LongCycleTask>, now: i64, capacity: usize) -> (r: Vec<DueTask>)
    requires
        scheduled@.len() + long@.len() <= usize::MAX,
    ensures
        exists|order: Seq<(i64, int)>| {
            &&& lex_sorted(order)
            &&& same_entries(order, due_candidates(sched_views(scheduled@), long_views(long@), now as int))
            &&& r@.len() == (if capacity < order.len() { capacity as int } else { order.len() as int })
            &&& forall|k: int| 0 <= k < r@.len() ==> ((#[trigger] r@[k]).id@, r@[k].kind)
                == due_at(sched_views(scheduled@), long_views(long@), order[k].1)
        },
{
    let ghost s = sched_views(scheduled@);
    let ghost l = long_views(long@);
    let ghost cands = due_candidates(s, l, now as int);
    let c = collect_candidates(scheduled, long, now);
    proof {
        lemma_sched_candidates_bounds(s, now as int, s.len());
        lemma_long_candidates_bounds(l, now as int, s.len() as int, l.len());
        let sc = sched_candidates(s, now as int, s.len());
        let lc = long_candidates(l, now as int, s.len() as int, l.len());
        assert(cands == sc + lc);
        assert forall|k: int, m: int| 0 <= k < m < c@.len() implies (#[trigger] c@[k]).1 < (#[trigger] c@[m]).1 by {
            if m < sc.len() {
                assert(cands[k] == sc[k] && cands[m] == sc[m]);
            } else if k >= sc.len() {
                assert(cands[k] == lc[k - sc.len()] && cands[m] == lc[m - sc.len()]);
            } else {
                assert(cands[k] == sc[k] && cands[m] == lc[m - sc.len()]);
            }
        }
        assert(int_pairs(c@) =~= cands);
    }
    let sorted = sort_candidates(&c);
    let ghost order = int_pairs(sorted@);
    let limit = if capacity < sorted.len() { capacity } else { sorted.len() };
    let mut out: Vec<DueTask> = Vec::new();
    let mut k: usize = 0;
    proof {
        lemma_sched_candidates_bounds(s, now as int, s.len());
        lemma_long_candidates_bounds(l, now as int, s.len() as int, l.len());
    }
    while k < limit
        invariant
            limit <= sorted@.len(),
            k <= limit,
            out@.len() == k,
            order == int_pairs(sorted@),
            same_entries(order, cands),
            cands == due_candidates(s, l, now as int),
            s == sched_views(scheduled@),
            l == long_views(long@),
            s.len() == scheduled@.len(),
            l.len() == long@.len(),
            forall|q: int| 0 <= q < cands.len() ==> 0 <= (#[trigger] cands[q]).1 < s.len() + l.len(),
            forall|q: int| 0 <= q < k ==> ((#[trigger] out@[q]).id@, out@[q].kind) == due_at(s, l, order[q].1),
        decreases limit - k,
    {
        let pos = sorted[k].1;
        proof {
            assert(order[k as int] == (sorted@[k as int].0, pos as int));
            assert(order.contains(order[k as int]));
            assert(cands.contains(order[k as int]));
            let q = choose|q: int| 0 <= q < cands.len() && cands[q] == order[k as int];
            assert(0 <= cands[q].1 < s.len() + l.len());
        }
        let task = if pos < scheduled.len() {
            assert(s[pos as int] == scheduled@[pos as int]@);
            DueTask { id: clone_string(&scheduled[pos].id), kind: TaskKind::Scheduled }
        } else {
            let j = pos - scheduled.len();
            assert(l[j as int] == long@[j as int]@);
            DueTask { id: clone_string(&long[j].id), kind: TaskKind::LongCycle }
        };
        out.push(task);
        k += 1;
    }
    out
}

// ===========================================================================
// Starting executions
// ===========================================================================

/// How many due definitions a tick may start: the per-tick limit (at least
/// one) less the executions already running.
pub open spec fn capacity_of(max_per_tick: i64, active: usize) -> int {
    let limit = (if max_per_tick < 1 { 1 } else { max_per_tick }) as usize;
    if limit >= active { (limit - active) as int } else { 0 }
}

/// How many due definitions a tick may start.
pub fn due_capacity(max_automation_per_tick: i64, active: usize) -> (r: usize)
    ensures
        r as int == capacity_of(max_automation_per_tick, active),
{
    let limit = (if max_automation_per_tick < 1 { 1 } else { max_automation_per_tick }) as usize;
    if limit >= active { limit - active } else { 0 }
}

/// Why a manual run of a definition is refused before it is claimed, if it
/// is: the scheduler is paused, the task is running, or the concurrency
/// limit is reached.
pub open spec fn trigger_problem(enabled: bool, running: bool, active: usize, max_per_tick: i64) -> Option<Seq<char>> {
    if !enabled {
        Some("自动调度器已暂停；请先启动调度器再执行任务"@)
    } else if running {
        Some("Task is already running"@)
    } else if active as int >= capacity_of(max_per_tick, 0) {
        Some("已达到自动任务并发上限，请等待在途任务完成"@)
    } else {
        None
    }
}

/// Checks that a manual run may start.
pub fn check_trigger(scheduler_enabled: bool, task_running: bool, active: usize, max_automation_per_tick: i64) -> (r: Result<(), String>)
    ensures
        match trigger_problem(scheduler_enabled, task_running, active, max_automation_per_tick) {
            Some(m) => r is Err && r->Err_0@ == m,
            None => r is Ok,
        },
{
    if !scheduler_enabled {
        return Err(owned("自动调度器已暂停；请先启动调度器再执行任务"));
    }
    if task_running {
        return Err(owned("Task is already running"));
    }
    if active >= due_capacity(max_automation_per_tick, 0) {
        return Err(owned("已达到自动任务并发上限，请等待在途任务完成"));
    }
    Ok(())
}

/// Checks that a scheduled task may be run by hand: it must be enabled.
pub fn check_scheduled_runnable(task: &ScheduledTask) -> (r: Result<(), String>)
    ensures
        task.enabled ==> r is Ok,
        !task.enabled ==> r is Err && r->Err_0@ == "Task is disabled"@,
{
    if !task.enabled {
        return Err(owned("Task is disabled"));
    }
    Ok(())
}

/// Checks that a long-cycle task may be run by hand: enabled, with rounds
/// left.
pub fn check_long_cycle_runnable(task: &LongCycleTask) -> (r: Result<(), String>)
    ensures
        !task.enabled ==> r is Err && r->Err_0@ == "Task is disabled"@,
        task.enabled && task.completed_rounds >= task.total_rounds
            ==> r is Err && r->Err_0@ == "Long cycle task is already completed"@,
        task.enabled && task.completed_rounds < task.total_rounds ==> r is Ok,
{
    if !task.enabled {
        return Err(owned("Task is disabled"));
    }
    if task.completed_rounds >= task.total_rounds {
        return Err(owned("Long cycle task is already completed"));
    }
    Ok(())
}

/// Whether a definition may be claimed from its row's status: never while
/// running, and, unless forced, only when scheduled.
pub open spec fn claimable(previous: Seq<char>, force: bool) -> bool {
    !(previous == "running"@ || (!force && previous != "scheduled"@))
}

/// A definition is claimed at most once at a time: a claim turns its row to
/// `running`, and a running row can be claimed by no one, forced or not;
/// without force only a `scheduled` row can be claimed.
pub proof fn lemma_claim_at_most_once(previous: Seq<char>, force: bool)
    ensures
        !claimable(row_status_text(RowStatus::Running), force),
        claimable(previous, false) ==> previous == row_status_text(RowStatus::Scheduled),
{
}

/// Whether a definition may be claimed from its row's status.
pub fn claim_allowed(previous_status: &str, force: bool) -> (r: bool)
    ensures
        r == claimable(previous_status@, force),
{
    !(str_eq(previous_status, "running") || (!force && !str_eq(previous_status, "scheduled")))
}

// ===========================================================================
// The scheduler lease
// ===========================================================================

/// How long a lease lasts, in milliseconds.
pub const LEASE_TTL_MS: i64 = 60000;

/// How long before expiry a lease is renewed, in milliseconds.
pub const LEASE_RENEW_MARGIN_MS: i64 = 20000;

/// Whether a lease this instance holds is still good without renewal.
pub fn lease_fresh(owned: bool, valid_until: i64, now: i64) -> (r: bool)
    requires
        valid_until >= i64::MIN + LEASE_RENEW_MARGIN_MS,
    ensures
        r == (owned && valid_until - LEASE_RENEW_MARGIN_MS > now),
{
    owned && valid_until - LEASE_RENEW_MARGIN_MS > now
}

/// Whether an instance may take the lease: nobody holds it, it holds it
/// already, or the holder's lease has run out.
pub open spec fn lease_takeable(owner: Option<Seq<char>>, expires_at: Option<i64>, instance: Seq<char>, now: int) -> bool {
    owner is None || owner == Some(instance) || expires_at is None || (expires_at matches Some(e) && e <= now)
}

/// Whether an instance may take the lease.
pub fn lease_available(owner: Option<&str>, expires_at: Option<i64>, instance: &str, now: i64) -> (r: bool)
    ensures
        r == lease_takeable(match owner { Some(o) => Some(o@), None => None }, expires_at, instance@, now as int),
{
    match owner {
        None => true,
        Some(o) => {
            if str_eq(o, instance) {
                true
            } else {
                match expires_at {
                    None => true,
                    Some(e) => e <= now,
                }
            }
        },
    }
}

/// What a lease check leads to.
#[derive(Clone, Copy, Debug, PartialEq, Eq, Structural)]
pub enum LeaseAction {
    /// The lease was newly taken from another instance: interrupted
    /// executions are recovered.
    RecoverInterrupted,
    /// The lease was lost: running executions are cancelled.
    CancelActive,
    Nothing,
}

/// What follows a lease attempt.
pub open spec fn lease_action_of(acquired: bool, previously_owned: bool, lease_was_ours: bool) -> LeaseAction {
    if acquired && !previously_owned && !lease_was_ours {
        LeaseAction::RecoverInterrupted
    } else if !acquired && previously_owned {
        LeaseAction::CancelActive
    } else {
        LeaseAction::Nothing
    }
}

/// What follows a lease attempt.
pub fn lease_action(acquired: bool, previously_owned: bool, lease_was_ours: bool) -> (r: LeaseAction)
    ensures
        r == lease_action_of(acquired, previously_owned, lease_was_ours),
{
    if acquired && !previously_owned && !lease_was_ours {
        LeaseAction::RecoverInterrupted
    } else if !acquired && previously_owned {
        LeaseAction::CancelActive
    } else {
        LeaseAction::Nothing
    }
}

/// Whether the status shows this instance as the lease owner.
pub open spec fn owns_lease_of(lease: Option<(Seq<char>, i64)>, instance: Seq<char>, now: int) -> bool {
    lease matches Some((owner, expires)) && owner == instance && expires > now
}

/// The instance that blocks this one, as the status reports it.
pub open spec fn blocked_by_of(lease: Option<(Seq<char>, i64)>, instance: Seq<char>, now: int) -> Option<Seq<char>> {
    match lease {
        Some((owner, expires)) => if owner != instance && expires > now { Some(owner) } else { None },
        None => None,
    }
}

/// The lease as the status reports it: whether this instance owns it, and
/// which other instance blocks it.
pub fn lease_view(lease: &Option<(String, i64)>, instance: &str, now: i64) -> (r: (bool, Option<String>))
    ensures
        ({
            let l = match lease { Some((o, e)) => Some((o@, *e)), None => None };
            &&& r.0 == owns_lease_of(l, instance@, now as int)
            &&& opt_view(r.1) == blocked_by_of(l, instance@, now as int)
        }),
{
    match lease {
        Some((owner, expires)) => {
            let mine = str_eq(owner.as_str(), instance);
            let owns = mine && *expires > now;
            let blocked = if !mine && *expires > now { Some(clone_string(owner)) } else { None };
            (owns, blocked)
        },
        None => (false, None),
    }
}

// ===========================================================================
// Runner settings
// ===========================================================================

/// The patrol state of one project.
#[derive(Clone, Debug)]
pub struct ProjectState {
    pub project_id: String,
    pub enabled: bool,
    pub prompt: Option<String>,
    pub last_run_at: Option<i64>,
    pub last_result: Option<String>,
    pub last_error: Option<String>,
}

/// The heartbeat settings.
#[derive(Clone, Debug)]
pub struct HeartbeatConfig {
    pub enabled: bool,
    pub interval_minutes: i64,
    pub suppress_empty_report: bool,
    pub report_to_main_session: bool,
    pub prompt: Option<String>,
    pub last_run_at: Option<i64>,
    pub next_run_at: Option<i64>,
    pub last_digest: Option<String>,
}

/// The scheduler's settings.
#[derive(Clone, Debug)]
pub struct RunnerConfig {
    pub enabled: bool,
    pub interval_minutes: i64,
    pub keep_alive_when_no_window: bool,
    pub max_projects_per_tick: i64,
    pub max_automation_per_tick: i64,
    /// At most one state per project id.
    pub project_states: Vec<ProjectState>,
    pub heartbeat: HeartbeatConfig,
}

/// The mathematical value of a [`ProjectState`].
pub struct ProjectStateV {
    pub project_id: Seq<char>,
    pub enabled: bool,
    pub prompt: Option<Seq<char>>,
    pub last_run_at: Option<i64>,
    pub last_result: Option<Seq<char>>,
    pub last_error: Option<Seq<char>>,
}

/// The mathematical value of a [`HeartbeatConfig`].
pub struct HeartbeatConfigV {
    pub enabled: bool,
    pub interval_minutes: i64,
    pub suppress_empty_report: bool,
    pub report_to_main_session: bool,
    pub prompt: Option<Seq<char>>,
    pub last_run_at: Option<i64>,
    pub next_run_at: Option<i64>,
    pub last_digest: Option<Seq<char>>,
}

/// The mathematical value of a [`RunnerConfig`].
pub struct RunnerConfigV {
    pub enabled: bool,
    pub interval_minutes: i64,
    pub keep_alive_when_no_window: bool,
    pub max_projects_per_tick: i64,
    pub max_automation_per_tick: i64,
    pub project_states: Seq<ProjectStateV>,
    pub heartbeat: HeartbeatConfigV,
}

impl View for ProjectState {
    type V = ProjectStateV;

    open spec fn view(&self) -> ProjectStateV {
        ProjectStateV {
            project_id: self.project_id@,
            enabled: self.enabled,
            prompt: opt_view(self.prompt),
            last_run_at: self.last_run_at,
            last_result: opt_view(self.last_result),
            last_error: opt_view(self.last_error),
        }
    }
}

impl View for HeartbeatConfig {
    type V = HeartbeatConfigV;

    open spec fn view(&self) -> HeartbeatConfigV {
        HeartbeatConfigV {
            enabled: self.enabled,
            interval_minutes: self.interval_minutes,
            suppress_empty_report: self.suppress_empty_report,
            report_to_main_session: self.report_to_main_session,
            prompt: opt_view(self.prompt),
            last_run_at: self.last_run_at,
            next_run_at: self.next_run_at,
            last_digest: opt_view(self.last_digest),
        }
    }
}

/// The views of a list of project states.
pub open spec fn project_views(s: Seq<ProjectState>) -> Seq<ProjectStateV> {
    s.map_values(|p: ProjectState| p@)
}

impl View for RunnerConfig {
    type V = RunnerConfigV;

    open spec fn view(&self) -> RunnerConfigV {
        RunnerConfigV {
            enabled: self.enabled,
            interval_minutes: self.interval_minutes,
            keep_alive_when_no_window: self.keep_alive_when_no_window,
            max_projects_per_tick: self.max_projects_per_tick,
            max_automation_per_tick: self.max_automation_per_tick,
            project_states: project_views(self.project_states@),
            heartbeat: self.heartbeat@,
        }
    }
}

impl Default for HeartbeatConfig {
    fn default() -> (r: HeartbeatConfig)
        ensures
            r@ == (HeartbeatConfigV {
                enabled: false,
                interval_minutes: 30,
                suppress_empty_report: true,
                report_to_main_session: true,
                prompt: None,
                last_run_at: None,
                next_run_at: None,
                last_digest: None,
            }),
    {
        HeartbeatConfig {
            enabled: false,
            interval_minutes: 30,
            suppress_empty_report: true,
            report_to_main_session: true,
            prompt: None,
            last_run_at: None,
            next_run_at: None,
            last_digest: None,
        }
    }
}

impl Default for RunnerConfig {
    /// Scheduling on, every 20 minutes, two projects and two automations per
    /// tick, no project state and the default heartbeat.
    fn default() -> (r: RunnerConfig)
        ensures
            r@ == (RunnerConfigV {
                enabled: true,
                interval_minutes: 20,
                keep_alive_when_no_window: false,
                max_projects_per_tick: 2,
                max_automation_per_tick: 2,
                project_states: Seq::empty(),
                heartbeat: HeartbeatConfigV {
                    enabled: false,
                    interval_minutes: 30,
                    suppress_empty_report: true,
                    report_to_main_session: true,
                    prompt: None,
                    last_run_at: None,
                    next_run_at: None,
                    last_digest: None,
                },
            }),
    {
        let r = RunnerConfig {
            enabled: true,
            interval_minutes: 20,
            keep_alive_when_no_window: false,
            max_projects_per_tick: 2,
            max_automation_per_tick: 2,
            project_states: Vec::new(),
            heartbeat: HeartbeatConfig::default(),
        };
        assert(project_views(r.project_states@) =~= Seq::<ProjectStateV>::empty());
        r
    }
}

/// A configuration as it is loaded: whatever was stored, keep-alive, the
/// heartbeat and every project patrol are off, since no executor runs them.
pub open spec fn loaded_config(c: RunnerConfigV) -> RunnerConfigV {
    RunnerConfigV {
        keep_alive_when_no_window: false,
        heartbeat: HeartbeatConfigV { enabled: false, ..c.heartbeat },
        project_states: c.project_states.map_values(|p: ProjectStateV| ProjectStateV { enabled: false, ..p }),
        ..c
    }
}

/// Turns off, in a stored configuration, what no executor can run.
pub fn normalize_loaded_config(config: RunnerConfig) -> (r: RunnerConfig)
    ensures
        r@ == loaded_config(config@),
{
    let mut c = config;
    c.keep_alive_when_no_window = false;
    c.heartbeat.enabled = false;
    let old_states = c.project_states;
    let mut states: Vec<ProjectState> = Vec::new();
    let n = old_states.len();
    let mut i: usize = 0;
    let ghost target = project_views(old_states@).map_values(|p: ProjectStateV| ProjectStateV { enabled: false, ..p });
    while i < n
        invariant
            n == old_states@.len(),
            i <= n,
            target == project_views(old_states@).map_values(|p: ProjectStateV| ProjectStateV { enabled: false, ..p }),
            project_views(states@) =~= target.take(i as int),
        decreases n - i,
    {
        let p = &old_states[i];
        let q = ProjectState {
            project_id: clone_string(&p.project_id),
            enabled: false,
            prompt: copy_opt_string(&p.prompt),
            last_run_at: p.last_run_at,
            last_result: copy_opt_string(&p.last_result),
            last_error: copy_opt_string(&p.last_error),
        };
        let ghost before = project_views(states@);
        let ghost qv = q@;
        states.push(q);
        assert(project_views(states@) =~= before.push(qv));
        assert(qv == target[i as int]);
        assert(target.take(i + 1) =~= target.take(i as int).push(target[i as int]));
        i += 1;
    }
    c.project_states = states;
    assert(target.take(n as int) =~= target);
    c
}

fn copy_opt_string(o: &Option<String>) -> (r: Option<String>)
    ensures
        opt_view(r) == opt_view(*o),
{
    match o {
        Some(s) => Some(clone_string(s)),
        None => None,
    }
}

/// A heartbeat, keep-alive or patrol flag is never on in a loaded
/// configuration.
pub proof fn lemma_loaded_config_claims_no_unimplemented_execution(c: RunnerConfigV)
    ensures
        !loaded_config(c).keep_alive_when_no_window,
        !loaded_config(c).heartbeat.enabled,
        forall|i: int| 0 <= i < loaded_config(c).project_states.len()
            ==> !(#[trigger] loaded_config(c).project_states[i]).enabled,
{
}

/// `v` clamped into `lo..=hi`.
pub open spec fn clamp(v: i64, lo: i64, hi: i64) -> i64 {
    if v < lo { lo } else if v > hi { hi } else { v }
}

fn clamp_i64(v: i64, lo: i64, hi: i64) -> (r: i64)
    ensures
        r == clamp(v, lo, hi),
{
    if v < lo { lo } else if v > hi { hi } else { v }
}

/// Why a settings request is refused before anything is read, if it is:
/// keeping the runner alive without a window, or enabling the heartbeat,
/// which nothing executes.
pub open spec fn settings_refusal(p: JsonV) -> Option<Seq<char>> {
    if get_flag(p, "keepAliveWhenNoWindow"@) == Some(true) {
        Some("应用进程退出后无法继续调度；请保持桌面应用运行"@)
    } else if get_flag(p, "heartbeatEnabled"@) == Some(true) {
        Some("心跳巡检执行器尚未接入；未保存 enabled=true，避免显示假运行状态"@)
    } else {
        None
    }
}

/// Refuses settings that ask for what nothing can execute.
pub fn check_runner_settings(payload: &Json) -> (r: Result<(), String>)
    ensures
        match settings_refusal(payload@) {
            Some(m) => r is Err && r->Err_0@ == m,
            None => r is Ok,
        },
{
    if payload.get_bool("keepAliveWhenNoWindow") == Some(true) {
        return Err(owned("应用进程退出后无法继续调度；请保持桌面应用运行"));
    }
    if payload.get_bool("heartbeatEnabled") == Some(true) {
        return Err(owned("心跳巡检执行器尚未接入；未保存 enabled=true，避免显示假运行状态"));
    }
    Ok(())
}

/// An integer setting: the request's value clamped, or the old value.
pub open spec fn int_setting(p: JsonV, key: Seq<char>, old: i64, lo: i64, hi: i64) -> i64 {
    match get_int(p, key) {
        Some(v) => clamp(v, lo, hi),
        None => old,
    }
}

/// A flag setting: the request's value, or the old value.
pub open spec fn flag_setting(p: JsonV, key: Seq<char>, old: bool) -> bool {
    match get_flag(p, key) {
        Some(v) => v,
        None => old,
    }
}

/// The settings after a request: intervals and limits clamped (runner
/// interval 1 to 180 minutes, 1 to 10 projects and automations per tick,
/// heartbeat interval 5 to 360 minutes), flags and the heartbeat prompt as
/// given, the rest kept.
pub open spec fn settings_applied(c: RunnerConfigV, p: JsonV) -> RunnerConfigV {
    RunnerConfigV {
        enabled: flag_setting(p, "enabled"@, c.enabled),
        interval_minutes: int_setting(p, "intervalMinutes"@, c.interval_minutes, 1, 180),
        keep_alive_when_no_window: flag_setting(p, "keepAliveWhenNoWindow"@, c.keep_alive_when_no_window),
        max_projects_per_tick: int_setting(p, "maxProjectsPerTick"@, c.max_projects_per_tick, 1, 10),
        max_automation_per_tick: int_setting(p, "maxAutomationPerTick"@, c.max_automation_per_tick, 1, 10),
        heartbeat: HeartbeatConfigV {
            enabled: flag_setting(p, "heartbeatEnabled"@, c.heartbeat.enabled),
            interval_minutes: int_setting(p, "heartbeatIntervalMinutes"@, c.heartbeat.interval_minutes, 5, 360),
            suppress_empty_report: flag_setting(p, "heartbeatSuppressEmptyReport"@, c.heartbeat.suppress_empty_report),
            report_to_main_session: flag_setting(p, "heartbeatReportToMainSession"@, c.heartbeat.report_to_main_session),
            prompt: match get_text(p, "heartbeatPrompt"@) {
                Some(t) => non_empty(t),
                None => c.heartbeat.prompt,
            },
            ..c.heartbeat
        },
        ..c
    }
}

fn int_or(payload: &Json, key: &str, old: i64, lo: i64, hi: i64) -> (r: i64)
    ensures
        r == int_setting(payload@, key@, old, lo, hi),
{
    match payload.get_i64(key) {
        Some(v) => clamp_i64(v, lo, hi),
        None => old,
    }
}

fn flag_or(payload: &Json, key: &str, old: bool) -> (r: bool)
    ensures
        r == flag_setting(payload@, key@, old),
{
    match payload.get_bool(key) {
        Some(v) => v,
        None => old,
    }
}

/// Applies a settings request to the loaded settings. Starting the
/// scheduler again is refused while executions are still stopping.
pub fn apply_runner_settings(config: RunnerConfig, payload: &Json, has_active: bool) -> (r: Result<RunnerConfig, String>)
    ensures
        (get_flag(payload@, "enabled"@) == Some(true) && !config.enabled && has_active)
            ==> r is Err && r->Err_0@ == "仍有任务正在停止，请等待执行状态结束后再启动调度器"@,
        !(get_flag(payload@, "enabled"@) == Some(true) && !config.enabled && has_active)
            ==> r is Ok && r->Ok_0@ == settings_applied(config@, payload@),
{
    let previous_enabled = config.enabled;
    let requested = payload.get_bool("enabled");
    match requested {
        Some(v) => {
            if v && !previous_enabled && has_active {
                return Err(owned("仍有任务正在停止，请等待执行状态结束后再启动调度器"));
            }
        },
        None => {},
    }
    let heartbeat = HeartbeatConfig {
        enabled: flag_or(payload, "heartbeatEnabled", config.heartbeat.enabled),
        interval_minutes: int_or(payload, "heartbeatIntervalMinutes", config.heartbeat.interval_minutes, 5, 360),
        suppress_empty_report: flag_or(payload, "heartbeatSuppressEmptyReport", config.heartbeat.suppress_empty_report),
        report_to_main_session: flag_or(payload, "heartbeatReportToMainSession", config.heartbeat.report_to_main_session),
        prompt: match payload.get_str("heartbeatPrompt") {
            Some(v) => non_empty_str(v.as_str()),
            None => config.heartbeat.prompt,
        },
        last_run_at: config.heartbeat.last_run_at,
        next_run_at: config.heartbeat.next_run_at,
        last_digest: config.heartbeat.last_digest,
    };
    let c = RunnerConfig {
        enabled: flag_or(payload, "enabled", config.enabled),
        interval_minutes: int_or(payload, "intervalMinutes", config.interval_minutes, 1, 180),
        keep_alive_when_no_window: flag_or(payload, "keepAliveWhenNoWindow", config.keep_alive_when_no_window),
        max_projects_per_tick: int_or(payload, "maxProjectsPerTick", config.max_projects_per_tick, 1, 10),
        max_automation_per_tick: int_or(payload, "maxAutomationPerTick", config.max_automation_per_tick, 1, 10),
        project_states: config.project_states,
        heartbeat: heartbeat,
    };
    Ok(c)
}

/// What saving settings leads to: resuming the enabled definitions when the
/// scheduler is switched on, cancelling every execution when it is switched
/// off.
pub fn settings_effect(previous_enabled: bool, requested_enabled: Option<bool>) -> (r: (bool, bool))
    ensures
        r.0 == (requested_enabled == Some(true) && !previous_enabled),
        r.1 == (requested_enabled == Some(false)),
{
    let resume = match requested_enabled { Some(true) => !previous_enabled, _ => false };
    let cancel = match requested_enabled { Some(false) => true, _ => false };
    (resume, cancel)
}

/// The state of project `id`, if there is one.
pub open spec fn project_state_of(s: Seq<ProjectStateV>, id: Seq<char>) -> Option<ProjectStateV> {
    if exists|i: int| 0 <= i < s.len() && s[i].project_id == id {
        Some(s[choose|i: int| 0 <= i < s.len() && s[i].project_id == id])
    } else {
        None
    }
}

/// Whether no project id occurs twice.
pub open spec fn distinct_projects(s: Seq<ProjectStateV>) -> bool {
    forall|i: int, j: int| 0 <= i < j < s.len() ==> (#[trigger] s[i]).project_id != (#[trigger] s[j]).project_id
}

/// The project states with `ps` stored under its id (`HashMap::insert`).
pub open spec fn put_project(s: Seq<ProjectStateV>, ps: ProjectStateV) -> Seq<ProjectStateV> {
    if exists|i: int| 0 <= i < s.len() && s[i].project_id == ps.project_id {
        s.update(choose|i: int| 0 <= i < s.len() && s[i].project_id == ps.project_id, ps)
    } else {
        s.push(ps)
    }
}

/// The state a project request stores: patrol off unless asked, the new
/// prompt or the old one, and the old run record.
pub open spec fn requested_project(p: JsonV, id: Seq<char>, previous: Option<ProjectStateV>) -> ProjectStateV {
    ProjectStateV {
        project_id: id,
        enabled: match get_flag(p, "enabled"@) { Some(v) => v, None => false },
        prompt: match field_text(p, "prompt"@) {
            Some(t) => Some(t),
            None => match previous { Some(q) => q.prompt, None => None },
        },
        last_run_at: match previous { Some(q) => q.last_run_at, None => None },
        last_result: match previous { Some(q) => q.last_result, None => None },
        last_error: match previous { Some(q) => q.last_error, None => None },
    }
}

/// The message for a request to turn on a project patrol.
pub open spec fn patrol_refusal() -> Seq<char> {
    "项目巡检执行器尚未接入；未保存 enabled=true，避免显示假运行状态"@
}

/// Applies a project request: the project id is required and a patrol
/// cannot be turned on; the project's state is then replaced.
pub fn apply_project_settings(config: RunnerConfig, payload: &Json) -> (r: Result<RunnerConfig, String>)
    requires
        distinct_projects(config@.project_states),
    ensures
        match field_text(payload@, "projectId"@) {
            None => r is Err && r->Err_0@ == required_message("projectId"@),
            Some(id) => if get_flag(payload@, "enabled"@) == Some(true) {
                r is Err && r->Err_0@ == patrol_refusal()
            } else {
                r is Ok && r->Ok_0@ == RunnerConfigV {
                    project_states: put_project(config@.project_states, requested_project(
                        payload@, id, project_state_of(config@.project_states, id))),
                    ..config@
                } && distinct_projects(r->Ok_0@.project_states)
            },
        },
{
    let project_id = match required_str(payload, "projectId") {
        Ok(id) => id,
        Err(e) => {
            return Err(e);
        },
    };
    if payload.get_bool("enabled") == Some(true) {
        return Err(owned("项目巡检执行器尚未接入；未保存 enabled=true，避免显示假运行状态"));
    }
    let mut c = config;
    let ghost old_states = project_views(c.project_states@);
    let n = c.project_states.len();
    let mut found: Option<usize> = None;
    let mut i: usize = 0;
    while i < n
        invariant_except_break
            found is None,
        invariant
            n == c.project_states@.len(),
            old_states == project_views(c.project_states@),
            i <= n,
            forall|k: int| 0 <= k < i ==> (#[trigger] old_states[k]).project_id != project_id@,
        ensures
            found matches Some(k) ==> k < n && old_states[k as int].project_id == project_id@,
            found is None ==> forall|k: int| 0 <= k < n ==> (#[trigger] old_states[k]).project_id != project_id@,
        decreases n - i,
    {
        if str_eq(c.project_states[i].project_id.as_str(), project_id.as_str()) {
            found = Some(i);
            assert(old_states[i as int].project_id == project_id@);
            break;
        }
        i += 1;
    }
    let enabled = match payload.get_bool("enabled") { Some(v) => v, None => false };
    let new_prompt = optional_str(payload, "prompt");
    let ghost prev = project_state_of(old_states, project_id@);
    match found {
        Some(k) => {
            proof {
                assert(old_states[k as int].project_id == project_id@);
                let w = choose|w: int| 0 <= w < old_states.len() && old_states[w].project_id == project_id@;
                if w != k {
                    if w < k {
                        assert(old_states[w].project_id != old_states[k as int].project_id);
                    } else {
                        assert(old_states[k as int].project_id != old_states[w].project_id);
                    }
                }
                assert(prev == Some(old_states[k as int]));
            }
            let q = &c.project_states[k];
            let prompt = match new_prompt {
                Some(t) => Some(t),
                None => copy_opt_string(&q.prompt),
            };
            let ps = ProjectState {
                project_id: clone_string(&project_id),
                enabled: enabled,
                prompt: prompt,
                last_run_at: q.last_run_at,
                last_result: copy_opt_string(&q.last_result),
                last_error: copy_opt_string(&q.last_error),
            };
            let ghost psv = ps@;
            c.project_states.set(k, ps);
            proof {
                assert(project_views(c.project_states@) =~= old_states.update(k as int, psv));
                assert(put_project(old_states, psv) == old_states.update(k as int, psv));
            }
        },
        None => {
            assert(prev is None);
            let ps = ProjectState {
                project_id: clone_string(&project_id),
                enabled: enabled,
                prompt: new_prompt,
                last_run_at: None,
                last_result: None,
                last_error: None,
            };
            let ghost psv = ps@;
            c.project_states.push(ps);
            proof {
                assert(project_views(c.project_states@) =~= old_states.push(psv));
            }
        },
    }
    Ok(c)
}

// ===========================================================================
// Enabling and disabling definitions
// ===========================================================================

/// What enabling or disabling a definition leads to.
pub enum EnableDecision<T> {
    /// The task is already running and enabled: nothing to save.
    Unchanged(T),
    /// Save the definition with this row status.
    Save(T, RowStatus),
    /// Save the definition while it runs, cancel the execution, and pause
    /// the task once the execution has stopped.
    CancelRunning(T),
}

/// The message for enabling a task whose execution is still stopping.
pub open spec fn still_stopping() -> Seq<char> {
    "任务仍在停止中，请稍后再启用"@
}

/// Decides how to enable or disable a scheduled task at `now`, given
/// whether it is running. A one-off task whose time has passed cannot be
/// enabled again.
pub fn scheduled_enable_decision(task: ScheduledTask, enabled: bool, active: bool, now: i64)
    -> (r: Result<EnableDecision<ScheduledTask>, String>)
    requires
        enabled && task@.mode == "interval"@ ==> fits_after(now as int, interval_of(task@)),
    ensures
        enabled && active && task.enabled ==> (r matches Ok(EnableDecision::Unchanged(t)) && t@ == task@),
        enabled && active && !task.enabled ==> r is Err && r->Err_0@ == still_stopping(),
        enabled && !active && task@.mode == "once"@ && (match task.run_at { Some(at) => at <= now, None => true })
            ==> r is Err && r->Err_0@ == "一次性任务时间已经过去，请新建任务并选择未来时间"@,
        !(enabled && active) && !(enabled && task@.mode == "once"@ && (match task.run_at { Some(at) => at <= now, None => true }))
            ==> match r {
                Ok(EnableDecision::Save(t, row)) => !(!enabled && active)
                    && t@ == ScheduledTaskV { enabled: enabled, updated_at: now, next_run_at: t@.next_run_at, ..task@ }
                    && row == (if enabled { RowStatus::Scheduled } else { RowStatus::Paused })
                    && (enabled ==> next_run_ok(task@, now as int, t@.next_run_at))
                    && (!enabled ==> t@.next_run_at is None),
                Ok(EnableDecision::CancelRunning(t)) => !enabled && active
                    && t@ == ScheduledTaskV { enabled: false, updated_at: now, next_run_at: None, ..task@ },
                _ => false,
            },
{
    if enabled && active {
        if task.enabled {
            return Ok(EnableDecision::Unchanged(task));
        }
        return Err(owned("任务仍在停止中，请稍后再启用"));
    }
    if enabled && str_eq(task.mode.as_str(), "once") {
        let passed = match task.run_at {
            Some(at) => at <= now,
            None => true,
        };
        if passed {
            return Err(owned("一次性任务时间已经过去，请新建任务并选择未来时间"));
        }
    }
    let mut t = task;
    t.enabled = enabled;
    t.updated_at = now;
    t.next_run_at = if enabled { compute_next_scheduled(&t, now) } else { None };
    if !enabled && active {
        return Ok(EnableDecision::CancelRunning(t));
    }
    let row = if enabled { RowStatus::Scheduled } else { RowStatus::Paused };
    Ok(EnableDecision::Save(t, row))
}

/// Decides how to enable or disable a long-cycle task at `now`, given
/// whether it is running. A task whose rounds are done cannot be enabled.
pub fn long_cycle_enable_decision(task: LongCycleTask, enabled: bool, active: bool, now: i64)
    -> (r: Result<EnableDecision<LongCycleTask>, String>)
    requires
        enabled ==> fits_after(now as int, task.interval_minutes as int),
    ensures
        enabled && task.completed_rounds >= task.total_rounds
            ==> r is Err && r->Err_0@ == "Long cycle task is already completed"@,
        !(enabled && task.completed_rounds >= task.total_rounds) && enabled && active && task.enabled
            ==> (r matches Ok(EnableDecision::Unchanged(t)) && t@ == task@),
        !(enabled && task.completed_rounds >= task.total_rounds) && enabled && active && !task.enabled
            ==> r is Err && r->Err_0@ == still_stopping(),
        !(enabled && task.completed_rounds >= task.total_rounds) && !(enabled && active) ==> ({
            let t2 = LongCycleTaskV {
                enabled: enabled,
                status: if enabled { "running"@ } else { "paused"@ },
                updated_at: now,
                next_run_at: if enabled { Some((now + task.interval_minutes * 60000) as i64) } else { None },
                ..task@
            };
            if !enabled && active {
                r matches Ok(EnableDecision::CancelRunning(t)) && t@ == t2
            } else {
                r matches Ok(EnableDecision::Save(t, row)) && t@ == t2
                    && row == (if enabled { RowStatus::Scheduled } else { RowStatus::Paused })
            }
        }),
{
    if task.completed_rounds >= task.total_rounds && enabled {
        return Err(owned("Long cycle task is already completed"));
    }
    if enabled && active {
        if task.enabled {
            return Ok(EnableDecision::Unchanged(task));
        }
        return Err(owned("任务仍在停止中，请稍后再启用"));
    }
    let mut t = task;
    t.enabled = enabled;
    t.status = if enabled { owned("running") } else { owned("paused") };
    t.updated_at = now;
    t.next_run_at = if enabled { Some(now + t.interval_minutes * 60000) } else { None };
    if !enabled && active {
        return Ok(EnableDecision::CancelRunning(t));
    }
    let row = if enabled { RowStatus::Scheduled } else { RowStatus::Paused };
    Ok(EnableDecision::Save(t, row))
}

/// A scheduled task paused once its cancelled execution stopped.
pub fn pause_stopped_scheduled(latest: ScheduledTask, now: i64) -> (r: ScheduledTask)
    ensures
        r@ == (ScheduledTaskV { enabled: false, next_run_at: None, updated_at: now, ..latest@ }),
{
    let mut t = latest;
    t.enabled = false;
    t.next_run_at = None;
    t.updated_at = now;
    t
}

/// A long-cycle task paused once its cancelled execution stopped.
pub fn pause_stopped_long_cycle(latest: LongCycleTask, now: i64) -> (r: LongCycleTask)
    ensures
        r@ == (LongCycleTaskV { enabled: false, status: "paused"@, next_run_at: None, updated_at: now, ..latest@ }),
{
    let mut t = latest;
    t.enabled = false;
    t.status = owned("paused");
    t.next_run_at = None;
    t.updated_at = now;
    t
}

// ===========================================================================
// New definitions from a request
// ===========================================================================

/// What `DateTime::parse_from_rfc3339(s)` then `timestamp_millis` gives:
/// the instant an RFC 3339 date-time names, in milliseconds since the epoch.
pub uninterp spec fn rfc3339_millis(s: Seq<char>) -> Option<i64>;

/// Reads an RFC 3339 date-time as milliseconds since the epoch
/// (`chrono::DateTime::parse_from_rfc3339`, then `timestamp_millis`). The
/// result is named, not stated: it is chrono's parser.
#[verifier::external_body]
pub(crate) fn parse_rfc3339_ms(s: &str) -> (r: Option<i64>)
    ensures
        r == rfc3339_millis(s@),
{
    match chrono::DateTime::parse_from_rfc3339(s) {
        Ok(v) => Some(v.timestamp_millis()),
        Err(_) => None,
    }
}

/// A fresh random identifier (`uuid::Uuid::new_v4`, hyphenated). Nothing is
/// stated of it: it is random.
#[verifier::external_body]
fn random_uuid() -> (r: String) {
    uuid::Uuid::new_v4().to_string()
}

/// An instant given as an RFC 3339 date-time or as integer milliseconds.
pub open spec fn time_ms_of(v: Seq<char>) -> Option<i64> {
    match rfc3339_millis(v) {
        Some(t) => Some(t),
        None => parse_i64_text(trim(v)),
    }
}

/// Reads an instant given as an RFC 3339 date-time or as integer
/// milliseconds.
pub fn parse_time_ms(value: &str) -> (r: Option<i64>)
    ensures
        r == time_ms_of(value@),
{
    match parse_rfc3339_ms(value) {
        Some(t) => Some(t),
        None => {
            let t = crate::text::trim_str(value);
            parse_i64(t.as_str())
        },
    }
}

/// The requested mode of a scheduled task, trimmed and in lower case;
/// `interval` when none is given.
pub open spec fn requested_mode(p: JsonV) -> Seq<char> {
    unicode_lower(trim(match get_text(p, "mode"@) {
        Some(t) => t,
        None => "interval"@,
    }))
}

/// Whether a mode is one the scheduler knows.
pub open spec fn known_mode(m: Seq<char>) -> bool {
    m == "interval"@ || m == "daily"@ || m == "weekly"@ || m == "once"@
}

/// The run time of a one-off task, or why it is refused: missing,
/// unreadable, or not in the future.
pub open spec fn run_at_outcome(p: JsonV, now: int) -> Result<i64, Seq<char>> {
    match get_text(p, "runAt"@) {
        None => Err("runAt is required for once task"@),
        Some(v) => match time_ms_of(v) {
            None => Err("runAt must be an ISO-8601 datetime"@),
            Some(t) => if t <= now { Err("runAt must be in the future"@) } else { Ok(t) },
        },
    }
}

/// The text under `key`, or a default.
pub open spec fn text_or(p: JsonV, key: Seq<char>, default: Seq<char>) -> Seq<char> {
    match field_text(p, key) {
        Some(t) => t,
        None => default,
    }
}

/// The view of the tool lists a request asks for.
pub open spec fn requested_tools(p: JsonV) -> (Seq<Seq<char>>, Seq<Seq<char>>, Seq<Seq<char>>) {
    (requested(p, "requiredTools"@), requested(p, "allowedTools"@), requested(p, "authorizedTools"@))
}

/// Why a request's tool lists are refused, if they are.
pub open spec fn tools_problem(p: JsonV) -> Option<Seq<char>> {
    let (req, all, auth) = requested_tools(p);
    policy_message(policy_outcome(req, all, auth))
}

/// The scheduled task a request defines, with `id`, at `now`, before its
/// next run is computed; or the first problem with the request.
pub open spec fn scheduled_outcome(p: JsonV, now: int, id: Seq<char>) -> Result<ScheduledTaskV, Seq<char>> {
    let mode = requested_mode(p);
    if !known_mode(mode) {
        Err("mode must be one of interval/daily/weekly/once"@)
    } else {
        match field_text(p, "prompt"@) {
            None => Err(required_message("prompt"@)),
            Some(prompt) => match instruction_problem(prompt, "prompt"@) {
                Some(m) => Err(m),
                None => match tools_problem(p) {
                    Some(m) => Err(m),
                    None => {
                        let time = if mode == "daily"@ || mode == "weekly"@ {
                            hhmm_outcome(get_text(p, "time"@))
                        } else {
                            Ok(Seq::empty())
                        };
                        match time {
                            Err(m) => Err(m),
                            Ok(hhmm) => {
                                let run_at = if mode == "once"@ { run_at_outcome(p, now) } else { Ok(0i64) };
                                match run_at {
                                    Err(m) => Err(m),
                                    Ok(at) => {
                                        let (req, all, auth) = requested_tools(p);
                                        Ok(ScheduledTaskV {
                                            id: id,
                                            name: text_or(p, "name"@, "定时任务"@),
                                            enabled: flag_setting(p, "enabled"@, true),
                                            mode: mode,
                                            prompt: prompt,
                                            project_id: field_text(p, "projectId"@),
                                            work_item_id: field_text(p, "workItemId"@),
                                            subagent_roles: string_array(jget(p, "subagentRoles"@)),
                                            required_tools: req,
                                            allowed_tools: all,
                                            authorized_tools: auth,
                                            interval_minutes: if mode == "interval"@ {
                                                Some(int_setting(p, "intervalMinutes"@, 60, 1, MAX_TASK_INTERVAL_MINUTES))
                                            } else {
                                                None
                                            },
                                            time: if mode == "daily"@ || mode == "weekly"@ { Some(hhmm) } else { None },
                                            weekdays: if mode == "weekly"@ { weekdays_of(jget(p, "weekdays"@)) } else { Seq::empty() },
                                            run_at: if mode == "once"@ { Some(at) } else { None },
                                            created_at: now as i64,
                                            updated_at: now as i64,
                                            last_run_at: None,
                                            last_result: None,
                                            last_output: None,
                                            last_error: None,
                                            next_run_at: None,
                                            last_receipt_path: None,
                                        })
                                    },
                                }
                            },
                        }
                    },
                },
            },
        }
    }
}

/// The view of a `Result<String, String>` error message, if any.
pub open spec fn err_text<T>(r: Result<T, String>) -> Option<Seq<char>> {
    match r {
        Ok(_) => None,
        Err(e) => Some(e@),
    }
}

fn opt_str_ref<'a>(j: &'a Json, key: &str) -> (r: Option<&'a str>)
    ensures
        match r {
            Some(s) => get_text(j@, key@) == Some(s@),
            None => get_text(j@, key@) is None,
        },
{
    match j.get_str(key) {
        Some(s) => Some(s.as_str()),
        None => None,
    }
}

/// Reads the scheduled task a request defines, with `id`, at `now`. An
/// enabled task gets its first next run computed from `now`.
pub fn scheduled_definition(payload: &Json, now: i64, id: String) -> (r: Result<ScheduledTask, String>)
    requires
        now as int + MAX_TASK_INTERVAL_MINUTES * 60000 <= i64::MAX,
        now as int >= 0,
    ensures
        match scheduled_outcome(payload@, now as int, id@) {
            Err(m) => r is Err && r->Err_0@ == m,
            Ok(v) => r is Ok && r->Ok_0@ == ScheduledTaskV { next_run_at: r->Ok_0@.next_run_at, ..v }
                && (v.enabled ==> next_run_ok(v, now as int, r->Ok_0@.next_run_at))
                && (!v.enabled ==> r->Ok_0@.next_run_at is None),
        },
{
    let mode_src: String = match payload.get_str("mode") {
        Some(m) => crate::text::trim_str(m.as_str()),
        None => crate::text::trim_str("interval"),
    };
    let mode = crate::text::to_lowercase_str(mode_src.as_str());
    let is_interval = str_eq(mode.as_str(), "interval");
    let is_daily = str_eq(mode.as_str(), "daily");
    let is_weekly = str_eq(mode.as_str(), "weekly");
    let is_once = str_eq(mode.as_str(), "once");
    if !(is_interval || is_daily || is_weekly || is_once) {
        return Err(owned("mode must be one of interval/daily/weekly/once"));
    }
    let prompt = match required_str(payload, "prompt") {
        Ok(p) => p,
        Err(e) => {
            return Err(e);
        },
    };
    match validate_task_instruction(prompt.as_str(), "prompt") {
        Ok(()) => {},
        Err(e) => {
            return Err(e);
        },
    }
    let policy = match task_tool_policy(payload) {
        Ok(p) => p,
        Err(e) => {
            return Err(e.message());
        },
    };
    let interval_minutes = if is_interval {
        Some(int_or(payload, "intervalMinutes", 60, 1, MAX_TASK_INTERVAL_MINUTES))
    } else {
        None
    };
    let time = if is_daily || is_weekly {
        match sanitize_hhmm(opt_str_ref(payload, "time")) {
            Ok(t) => Some(t),
            Err(e) => {
                return Err(e);
            },
        }
    } else {
        None
    };
    let weekdays = if is_weekly { sanitize_weekdays(payload.get("weekdays")) } else { Vec::new() };
    let run_at = if is_once {
        let value = match opt_str_ref(payload, "runAt") {
            Some(v) => v,
            None => {
                return Err(owned("runAt is required for once task"));
            },
        };
        let parsed = match parse_time_ms(value) {
            Some(t) => t,
            None => {
                return Err(owned("runAt must be an ISO-8601 datetime"));
            },
        };
        if parsed <= now {
            return Err(owned("runAt must be in the future"));
        }
        Some(parsed)
    } else {
        None
    };
    let name = match optional_str(payload, "name") {
        Some(n) => n,
        None => owned("定时任务"),
    };
    let mut task = ScheduledTask {
        id: id,
        name: name,
        enabled: flag_or(payload, "enabled", true),
        mode: mode,
        prompt: prompt,
        project_id: optional_str(payload, "projectId"),
        work_item_id: optional_str(payload, "workItemId"),
        subagent_roles: string_array_exec(payload.get("subagentRoles")),
        required_tools: policy.required,
        allowed_tools: policy.allowed,
        authorized_tools: policy.authorized,
        interval_minutes: interval_minutes,
        time: time,
        weekdays: weekdays,
        run_at: run_at,
        created_at: now,
        updated_at: now,
        last_run_at: None,
        last_result: None,
        last_output: None,
        last_error: None,
        next_run_at: None,
        last_receipt_path: None,
    };
    proof {
        assert(weekdays@ =~= (if is_weekly { weekdays_of(jget(payload@, "weekdays"@)) } else { Seq::<i64>::empty() }));
    }
    if task.enabled {
        task.next_run_at = compute_next_scheduled(&task, now);
    }
    Ok(task)
}

/// The long-cycle task a request defines, with `id`, at `now`; or the first
/// problem with the request. Its first round comes one whole interval after
/// it is created.
pub open spec fn long_cycle_outcome(p: JsonV, now: int, id: Seq<char>) -> Result<LongCycleTaskV, Seq<char>> {
    match field_text(p, "objective"@) {
        None => Err(required_message("objective"@)),
        Some(objective) => match field_text(p, "stepPrompt"@) {
            None => Err(required_message("stepPrompt"@)),
            Some(step) => match instruction_problem(objective, "objective"@) {
                Some(m) => Err(m),
                None => match instruction_problem(step, "stepPrompt"@) {
                    Some(m) => Err(m),
                    None => match tools_problem(p) {
                        Some(m) => Err(m),
                        None => {
                            let (req, all, auth) = requested_tools(p);
                            let interval = int_setting(p, "intervalMinutes"@, 60, 1, MAX_TASK_INTERVAL_MINUTES);
                            let enabled = flag_setting(p, "enabled"@, true);
                            Ok(LongCycleTaskV {
                                id: id,
                                name: text_or(p, "name"@, "长周期任务"@),
                                enabled: enabled,
                                status: if enabled { "running"@ } else { "paused"@ },
                                objective: objective,
                                step_prompt: step,
                                project_id: field_text(p, "projectId"@),
                                work_item_id: field_text(p, "workItemId"@),
                                subagent_roles: string_array(jget(p, "subagentRoles"@)),
                                required_tools: req,
                                allowed_tools: all,
                                authorized_tools: auth,
                                interval_minutes: interval,
                                total_rounds: int_setting(p, "totalRounds"@, 8, 1, 200),
                                completed_rounds: 0,
                                created_at: now as i64,
                                updated_at: now as i64,
                                last_run_at: None,
                                last_result: None,
                                last_output: None,
                                last_error: None,
                                next_run_at: if enabled { Some((now + interval * 60000) as i64) } else { None },
                                last_receipt_path: None,
                            })
                        },
                    },
                },
            },
        },
    }
}

/// Reads the long-cycle task a request defines, with `id`, at `now`.
pub fn long_cycle_definition(payload: &Json, now: i64, id: String) -> (r: Result<LongCycleTask, String>)
    requires
        now as int + MAX_TASK_INTERVAL_MINUTES * 60000 <= i64::MAX,
        now as int >= 0,
    ensures
        match long_cycle_outcome(payload@, now as int, id@) {
            Err(m) => r is Err && r->Err_0@ == m,
            Ok(v) => r is Ok && r->Ok_0@ == v,
        },
{
    let objective = match required_str(payload, "objective") {
        Ok(p) => p,
        Err(e) => {
            return Err(e);
        },
    };
    let step_prompt = match required_str(payload, "stepPrompt") {
        Ok(p) => p,
        Err(e) => {
            return Err(e);
        },
    };
    match validate_task_instruction(objective.as_str(), "objective") {
        Ok(()) => {},
        Err(e) => {
            return Err(e);
        },
    }
    match validate_task_instruction(step_prompt.as_str(), "stepPrompt") {
        Ok(()) => {},
        Err(e) => {
            return Err(e);
        },
    }
    let policy = match task_tool_policy(payload) {
        Ok(p) => p,
        Err(e) => {
            return Err(e.message());
        },
    };
    let interval_minutes = int_or(payload, "intervalMinutes", 60, 1, MAX_TASK_INTERVAL_MINUTES);
    let total_rounds = int_or(payload, "totalRounds", 8, 1, 200);
    let enabled = flag_or(payload, "enabled", true);
    let name = match optional_str(payload, "name") {
        Some(n) => n,
        None => owned("长周期任务"),
    };
    Ok(LongCycleTask {
        id: id,
        name: name,
        enabled: enabled,
        status: if enabled { owned("running") } else { owned("paused") },
        objective: objective,
        step_prompt: step_prompt,
        project_id: optional_str(payload, "projectId"),
        work_item_id: optional_str(payload, "workItemId"),
        subagent_roles: string_array_exec(payload.get("subagentRoles")),
        required_tools: policy.required,
        allowed_tools: policy.allowed,
        authorized_tools: policy.authorized,
        interval_minutes: interval_minutes,
        total_rounds: total_rounds,
        completed_rounds: 0,
        created_at: now,
        updated_at: now,
        last_run_at: None,
        last_result: None,
        last_output: None,
        last_error: None,
        next_run_at: if enabled { Some(now + interval_minutes * 60000) } else { None },
        last_receipt_path: None,
    })
}

/// A fresh identifier with a prefix: the prefix, then a random UUID.
fn fresh_id(prefix: &str) -> (r: String)
    ensures
        crate::text::has_prefix(r@, prefix@),
{
    let u = random_uuid();
    let mut v = chars_of(prefix);
    let w = chars_of(u.as_str());
    append_chars(&mut v, &w);
    assert(v@.subrange(0, prefix@.len() as int) =~= prefix@);
    string_from_chars(&v)
}

/// Reads a new scheduled task from a request at `now`, with a fresh
/// `sched_` identifier.
pub fn new_scheduled_task(payload: &Json, now: i64) -> (r: Result<ScheduledTask, String>)
    requires
        now as int + MAX_TASK_INTERVAL_MINUTES * 60000 <= i64::MAX,
        now as int >= 0,
    ensures
        match r {
            Ok(t) => crate::text::has_prefix(t.id@, "sched_"@)
                && scheduled_outcome(payload@, now as int, t.id@) == Ok::<ScheduledTaskV, Seq<char>>(
                    ScheduledTaskV { next_run_at: None, ..t@ })
                && (t@.enabled ==> next_run_ok(t@, now as int, t@.next_run_at))
                && (!t@.enabled ==> t@.next_run_at is None),
            Err(m) => scheduled_outcome(payload@, now as int, Seq::empty()) == Err::<ScheduledTaskV, Seq<char>>(m@),
        },
{
    let id = fresh_id("sched_");
    let r = scheduled_definition(payload, now, id);
    proof {
        lemma_scheduled_outcome_error_independent_of_id(payload@, now as int, id@);
    }
    r
}

/// Reads a new long-cycle task from a request at `now`, with a fresh
/// `long_` identifier.
pub fn new_long_cycle_task(payload: &Json, now: i64) -> (r: Result<LongCycleTask, String>)
    requires
        now as int + MAX_TASK_INTERVAL_MINUTES * 60000 <= i64::MAX,
        now as int >= 0,
    ensures
        match r {
            Ok(t) => crate::text::has_prefix(t.id@, "long_"@)
                && long_cycle_outcome(payload@, now as int, t.id@) == Ok::<LongCycleTaskV, Seq<char>>(t@),
            Err(m) => long_cycle_outcome(payload@, now as int, Seq::empty()) == Err::<LongCycleTaskV, Seq<char>>(m@),
        },
{
    let id = fresh_id("long_");
    let r = long_cycle_definition(payload, now, id);
    proof {
        lemma_long_cycle_outcome_error_independent_of_id(payload@, now as int, id@);
    }
    r
}

proof fn lemma_scheduled_outcome_error_independent_of_id(p: JsonV, now: int, id: Seq<char>)
    ensures
        scheduled_outcome(p, now, id) is Err <==> scheduled_outcome(p, now, Seq::empty()) is Err,
        scheduled_outcome(p, now, id) matches Err(m)
            ==> scheduled_outcome(p, now, Seq::empty()) == Err::<ScheduledTaskV, Seq<char>>(m),
{
}

proof fn lemma_long_cycle_outcome_error_independent_of_id(p: JsonV, now: int, id: Seq<char>)
    ensures
        long_cycle_outcome(p, now, id) is Err <==> long_cycle_outcome(p, now, Seq::empty()) is Err,
        long_cycle_outcome(p, now, id) matches Err(m)
            ==> long_cycle_outcome(p, now, Seq::empty()) == Err::<LongCycleTaskV, Seq<char>>(m),
{
}

// ===========================================================================
// Claimed executions
// ===========================================================================

/// A definition claimed for one execution.
pub struct ClaimedTask {
    pub id: String,
    pub kind: TaskKind,
    pub execution_id: String,
    /// The full prompt the execution runs.
    pub prompt: String,
    pub required_tools: Vec<String>,
    pub allowed_tools: Vec<String>,
    pub authorized_tools: Vec<String>,
    pub started_at: i64,
}

/// The text shown for a missing value: `（无）`.
pub open spec fn none_text() -> Seq<char> {
    "（无）"@
}

/// An optional text, or `（无）`.
pub open spec fn or_none(o: Option<Seq<char>>) -> Seq<char> {
    match o {
        Some(t) => t,
        None => none_text(),
    }
}

/// The prompt of one execution: the execution id (also the idempotency key
/// for tools), the project and work item, the allowed, required and
/// authorized tools, the rules on tool use, then the task's own instruction.
pub open spec fn execution_prompt_text(
    execution_id: Seq<char>,
    project_id: Option<Seq<char>>,
    work_item_id: Option<Seq<char>>,
    allowed: Seq<Seq<char>>,
    required: Seq<Seq<char>>,
    authorized: Seq<Seq<char>>,
    base: Seq<char>,
) -> Seq<char> {
    "调度执行 ID（也是工具支持时必须传入的 idempotency key）："@ + execution_id
        + "\n项目 ID："@ + or_none(project_id)
        + "\n工作项 ID："@ + or_none(work_item_id)
        + "\n本次只允许调用："@ + join(allowed, ", "@)
        + "\n其中必须调用："@ + join(required, ", "@)
        + "\n已显式授权的付费/发布工具："@ + (if authorized.len() == 0 { none_text() } else { join(authorized, ", "@) })
        + "\n禁止调用授权列表外的任何工具；每次工具调用必须等待真实结果，不得用文字冒充产物。\n\n不可变任务指令：\n"@
        + base
}

fn push_opt(out: &mut Vec<char>, o: &Option<String>)
    ensures
        final(out)@ == old(out)@ + or_none(opt_view(*o)),
{
    match o {
        Some(t) => append_str(out, t.as_str()),
        None => append_str(out, "（无）"),
    }
}

fn push_joined(out: &mut Vec<char>, list: &Vec<String>)
    ensures
        final(out)@ == old(out)@ + join(views(list@), ", "@),
{
    let j = join_strings(list, ", ");
    append_str(out, j.as_str());
}

/// The prompt of one execution.
pub fn execution_prompt(
    execution_id: &str,
    project_id: &Option<String>,
    work_item_id: &Option<String>,
    allowed: &Vec<String>,
    required: &Vec<String>,
    authorized: &Vec<String>,
    base_prompt: &str,
) -> (r: String)
    ensures
        r@ == execution_prompt_text(execution_id@, opt_view(*project_id), opt_view(*work_item_id),
            views(allowed@), views(required@), views(authorized@), base_prompt@),
{
    let mut out = chars_of("调度执行 ID（也是工具支持时必须传入的 idempotency key）：");
    append_str(&mut out, execution_id);
    append_str(&mut out, "\n项目 ID：");
    push_opt(&mut out, project_id);
    append_str(&mut out, "\n工作项 ID：");
    push_opt(&mut out, work_item_id);
    append_str(&mut out, "\n本次只允许调用：");
    push_joined(&mut out, allowed);
    append_str(&mut out, "\n其中必须调用：");
    push_joined(&mut out, required);
    append_str(&mut out, "\n已显式授权的付费/发布工具：");
    if authorized.len() == 0 {
        append_str(&mut out, "（无）");
    } else {
        push_joined(&mut out, authorized);
    }
    append_str(&mut out, "\n禁止调用授权列表外的任何工具；每次工具调用必须等待真实结果，不得用文字冒充产物。\n\n不可变任务指令：\n");
    append_str(&mut out, base_prompt);
    string_from_chars(&out)
}

/// The instruction of a long-cycle round: the objective, the round number,
/// the previous round's result (at most 8000 characters, or a note that
/// this is the first round) and the step prompt.
pub open spec fn round_prompt_text(t: LongCycleTaskV) -> Seq<char> {
    "长周期目标："@ + t.objective
        + "\n当前轮次："@ + dec_int(t.completed_rounds + 1) + "/"@ + dec_int(t.total_rounds as int)
        + "\n上一轮结果："@ + (match t.last_output {
            Some(o) => take_chars(o, 8000),
            None => "（首轮，无上一轮结果）"@,
        })
        + "\n本轮执行指令："@ + t.step_prompt
        + "\n\n必须真实完成本轮工作；若调用工具，请等待工具返回后再总结产物。"@
}

/// The instruction of a long-cycle task's next round.
pub fn round_prompt(task: &LongCycleTask) -> (r: String)
    requires
        task.completed_rounds < i64::MAX,
    ensures
        r@ == round_prompt_text(task@),
{
    let mut out = chars_of("长周期目标：");
    append_str(&mut out, task.objective.as_str());
    append_str(&mut out, "\n当前轮次：");
    append_chars(&mut out, &dec_i64(task.completed_rounds + 1));
    append_str(&mut out, "/");
    append_chars(&mut out, &dec_i64(task.total_rounds));
    append_str(&mut out, "\n上一轮结果：");
    match &task.last_output {
        Some(o) => {
            let t = truncate_chars(o.as_str(), 8000);
            append_str(&mut out, t.as_str());
        },
        None => append_str(&mut out, "（首轮，无上一轮结果）"),
    }
    append_str(&mut out, "\n本轮执行指令：");
    append_str(&mut out, task.step_prompt.as_str());
    append_str(&mut out, "\n\n必须真实完成本轮工作；若调用工具，请等待工具返回后再总结产物。");
    string_from_chars(&out)
}

fn copy_strings(v: &Vec<String>) -> (r: Vec<String>)
    ensures
        views(r@) == views(v@),
{
    let mut out: Vec<String> = Vec::new();
    let mut i: usize = 0;
    while i < v.len()
        invariant
            i <= v@.len(),
            views(out@) =~= views(v@).take(i as int),
        decreases v.len() - i,
    {
        let ghost before = views(out@);
        out.push(clone_string(&v[i]));
        assert(views(out@) =~= before.push(v@[i as int]@));
        assert(views(v@).take(i + 1) =~= views(v@).take(i as int).push(v@[i as int]@));
        i += 1;
    }
    assert(views(v@).take(v@.len() as int) =~= views(v@));
    out
}

/// The execution a claimed scheduled task runs, started at `now`.
pub fn claim_scheduled(task: &ScheduledTask, execution_id: &str, now: i64) -> (r: ClaimedTask)
    ensures
        r.id@ == task.id@,
        r.kind == TaskKind::Scheduled,
        r.execution_id@ == execution_id@,
        r.prompt@ == execution_prompt_text(execution_id@, task@.project_id, task@.work_item_id,
            task@.allowed_tools, task@.required_tools, task@.authorized_tools, task@.prompt),
        views(r.required_tools@) == task@.required_tools,
        views(r.allowed_tools@) == task@.allowed_tools,
        views(r.authorized_tools@) == task@.authorized_tools,
        r.started_at == now,
{
    let prompt = execution_prompt(execution_id, &task.project_id, &task.work_item_id, &task.allowed_tools,
        &task.required_tools, &task.authorized_tools, task.prompt.as_str());
    ClaimedTask {
        id: clone_string(&task.id),
        kind: TaskKind::Scheduled,
        execution_id: owned(execution_id),
        prompt: prompt,
        required_tools: copy_strings(&task.required_tools),
        allowed_tools: copy_strings(&task.allowed_tools),
        authorized_tools: copy_strings(&task.authorized_tools),
        started_at: now,
    }
}

/// The execution a claimed long-cycle task runs for its next round,
/// started at `now`.
pub fn claim_long_cycle(task: &LongCycleTask, execution_id: &str, now: i64) -> (r: ClaimedTask)
    requires
        task.completed_rounds < i64::MAX,
    ensures
        r.id@ == task.id@,
        r.kind == TaskKind::LongCycle,
        r.execution_id@ == execution_id@,
        r.prompt@ == execution_prompt_text(execution_id@, task@.project_id, task@.work_item_id,
            task@.allowed_tools, task@.required_tools, task@.authorized_tools, round_prompt_text(task@)),
        views(r.required_tools@) == task@.required_tools,
        views(r.allowed_tools@) == task@.allowed_tools,
        views(r.authorized_tools@) == task@.authorized_tools,
        r.started_at == now,
{
    let base = round_prompt(task);
    let prompt = execution_prompt(execution_id, &task.project_id, &task.work_item_id, &task.allowed_tools,
        &task.required_tools, &task.authorized_tools, base.as_str());
    ClaimedTask {
        id: clone_string(&task.id),
        kind: TaskKind::LongCycle,
        execution_id: owned(execution_id),
        prompt: prompt,
        required_tools: copy_strings(&task.required_tools),
        allowed_tools: copy_strings(&task.allowed_tools),
        authorized_tools: copy_strings(&task.authorized_tools),
        started_at: now,
    }
}

/// What an execution's result records: its status, response, tool calls
/// and error.
pub struct ExecutionRecord {
    pub status: String,
    pub response: String,
    pub tools: Vec<ToolEvidence>,
    pub error: Option<String>,
}

/// The status a result records: succeeded, cancelled or failed.
pub open spec fn result_status(r: Result<ExecutionOutput, ExecutionFailure>) -> Seq<char> {
    match r {
        Ok(_) => "succeeded"@,
        Err(ExecutionFailure::Cancelled) => "cancelled"@,
        Err(_) => "failed"@,
    }
}

/// The message a cancelled execution records.
pub open spec fn cancelled_message() -> Seq<char> {
    "任务已取消；未记录为成功"@
}

/// Records an execution's result. Only a successful execution keeps its
/// response; a cancelled one is never recorded as a success.
pub fn execution_record(result: Result<ExecutionOutput, ExecutionFailure>) -> (r: ExecutionRecord)
    ensures
        r.status@ == result_status(result),
        match result {
            Ok(o) => r.response@ == o.response@ && r.tools@ == o.tools@ && r.error is None,
            Err(ExecutionFailure::Cancelled) => r.response@.len() == 0 && r.tools@.len() == 0
                && opt_view(r.error) == Some(cancelled_message()),
            Err(ExecutionFailure::Failed(e)) => r.response@.len() == 0 && r.tools@.len() == 0
                && opt_view(r.error) == Some(e@),
            Err(ExecutionFailure::ToolFailed { error, tools }) => r.response@.len() == 0 && r.tools@ == tools@
                && opt_view(r.error) == Some(error@),
        },
{
    match result {
        Ok(output) => ExecutionRecord {
            status: owned("succeeded"),
            response: output.response,
            tools: output.tools,
            error: None,
        },
        Err(ExecutionFailure::Cancelled) => ExecutionRecord {
            status: owned("cancelled"),
            response: String::new(),
            tools: Vec::new(),
            error: Some(owned("任务已取消；未记录为成功")),
        },
        Err(ExecutionFailure::Failed(error)) => ExecutionRecord {
            status: owned("failed"),
            response: String::new(),
            tools: Vec::new(),
            error: Some(error),
        },
        Err(ExecutionFailure::ToolFailed { error, tools }) => ExecutionRecord {
            status: owned("failed"),
            response: String::new(),
            tools: tools,
            error: Some(error),
        },
    }
}

/// The record of an execution whose receipt could not be written: failed,
/// without response, with an error that says why; never a success.
pub fn receipt_failed(record: ExecutionRecord, io_error: &str) -> (r: ExecutionRecord)
    ensures
        r.status@ == "failed"@,
        r.response@.len() == 0,
        r.tools@ == record.tools@,
        opt_view(r.error) == Some("执行回执持久化失败，任务未记录为成功："@ + io_error@),
{
    let mut m = chars_of("执行回执持久化失败，任务未记录为成功：");
    append_str(&mut m, io_error);
    ExecutionRecord {
        status: owned("failed"),
        response: String::new(),
        tools: record.tools,
        error: Some(string_from_chars(&m)),
    }
}

/// The event type of a finished execution: completed when it succeeded,
/// failed otherwise.
pub fn finished_event_type(status: &str) -> (r: &'static str)
    ensures
        r@ == (if status@ == "succeeded"@ { "completed"@ } else { "failed"@ }),
{
    if str_eq(status, "succeeded") { "completed" } else { "failed" }
}

} // verus!
