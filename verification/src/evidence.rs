//! Checks that a scheduled execution's tool results really prove what the
//! task asked for: explicit failures, dry-run inputs and required outputs,
//! looked for at any depth, inside JSON text as well.

use vstd::prelude::*;
use crate::text::{is_ascii_alnum, lower_seq, trim, lower_chars, chars_of, char_is_ascii_alnum, trim_chars, chars_eq};
use crate::json::{Json, JsonV, as_flag, as_text, get_entry, lemma_object_view, lemma_array_view, entries_view, items_view};
use crate::strs::views;

verus! {

/// An object key reduced to its ASCII letters and digits, in lower case.
pub open spec fn norm_key(k: Seq<char>) -> Seq<char> {
    lower_seq(k.filter(|c: char| is_ascii_alnum(c)))
}

/// A status text that reports failure.
pub open spec fn failing_status(t: Seq<char>) -> bool {
    let s = lower_seq(trim(t));
    s == "failed"@ || s == "failure"@ || s == "error"@ || s == "cancelled"@ || s == "canceled"@
}

/// Whether one object entry reports an explicit failure.
pub open spec fn entry_reports_failure(key: Seq<char>, v: JsonV) -> bool {
    let n = norm_key(key);
    ||| ((n == "success"@ || n == "persisted"@ || n == "executed"@ || n == "ok"@) && as_flag(v) == Some(false))
    ||| ((n == "iserror"@ || n == "dryrun"@) && as_flag(v) == Some(true))
    ||| (n == "status"@ && (match as_text(v) {
        Some(t) => failing_status(t),
        None => false,
    }))
}

/// Whether a tool result explicitly reports failure anywhere inside it.
pub open spec fn reports_failure(j: JsonV) -> bool
    decreases j, 0nat,
{
    match j {
        JsonV::Object(e) => entries_report_failure(e, e.len()),
        JsonV::Array(items) => items_report_failure(items, items.len()),
        JsonV::Str(_, Some(inner)) => reports_failure(*inner),
        _ => false,
    }
}

/// Whether one of the first `n` entries reports failure.
pub open spec fn entries_report_failure(e: Seq<(Seq<char>, JsonV)>, n: nat) -> bool
    decreases e, n,
{
    if n == 0 || n > e.len() {
        false
    } else {
        entries_report_failure(e, (n - 1) as nat) || entry_reports_failure(e[n - 1].0, e[n - 1].1)
            || reports_failure(e[n - 1].1)
    }
}

/// Whether one of the first `n` items reports failure.
pub open spec fn items_report_failure(s: Seq<JsonV>, n: nat) -> bool
    decreases s, n,
{
    if n == 0 || n > s.len() {
        false
    } else {
        items_report_failure(s, (n - 1) as nat) || reports_failure(s[n - 1])
    }
}

/// Whether a tool input asks for a dry run anywhere inside it.
pub open spec fn asks_dry_run(j: JsonV) -> bool
    decreases j, 0nat,
{
    match j {
        JsonV::Object(e) => entries_ask_dry_run(e, e.len()),
        JsonV::Array(items) => items_ask_dry_run(items, items.len()),
        JsonV::Str(_, Some(inner)) => asks_dry_run(*inner),
        _ => false,
    }
}

/// Whether one of the first `n` entries asks for a dry run.
pub open spec fn entries_ask_dry_run(e: Seq<(Seq<char>, JsonV)>, n: nat) -> bool
    decreases e, n,
{
    if n == 0 || n > e.len() {
        false
    } else {
        entries_ask_dry_run(e, (n - 1) as nat) || (norm_key(e[n - 1].0) == "dryrun"@ && as_flag(
            e[n - 1].1,
        ) == Some(true)) || asks_dry_run(e[n - 1].1)
    }
}

/// Whether one of the first `n` items asks for a dry run.
pub open spec fn items_ask_dry_run(s: Seq<JsonV>, n: nat) -> bool
    decreases s, n,
{
    if n == 0 || n > s.len() {
        false
    } else {
        items_ask_dry_run(s, (n - 1) as nat) || asks_dry_run(s[n - 1])
    }
}

/// Whether some object inside `j` maps `key` to the flag `expected`.
pub open spec fn holds_flag(j: JsonV, key: Seq<char>, expected: bool) -> bool
    decreases j, 0nat,
{
    match j {
        JsonV::Object(e) => (match get_entry(e, key) {
            Some(v) => as_flag(v) == Some(expected),
            None => false,
        }) || entries_hold_flag(e, e.len(), key, expected),
        JsonV::Array(items) => items_hold_flag(items, items.len(), key, expected),
        JsonV::Str(_, Some(inner)) => holds_flag(*inner, key, expected),
        _ => false,
    }
}

/// Whether one of the values of the first `n` entries holds the flag.
pub open spec fn entries_hold_flag(e: Seq<(Seq<char>, JsonV)>, n: nat, key: Seq<char>, expected: bool) -> bool
    decreases e, n,
{
    if n == 0 || n > e.len() {
        false
    } else {
        entries_hold_flag(e, (n - 1) as nat, key, expected) || holds_flag(e[n - 1].1, key, expected)
    }
}

/// Whether one of the first `n` items holds the flag.
pub open spec fn items_hold_flag(s: Seq<JsonV>, n: nat, key: Seq<char>, expected: bool) -> bool
    decreases s, n,
{
    if n == 0 || n > s.len() {
        false
    } else {
        items_hold_flag(s, (n - 1) as nat, key, expected) || holds_flag(s[n - 1], key, expected)
    }
}

/// Whether a value counts as present: not null, not blank text, not an
/// empty array or object.
pub open spec fn nonempty_value(v: JsonV) -> bool {
    match v {
        JsonV::Null => false,
        JsonV::Str(s, _) => trim(s).len() > 0,
        JsonV::Array(items) => items.len() > 0,
        JsonV::Object(e) => e.len() > 0,
        _ => true,
    }
}

/// Whether some object inside `j` has one of `keys` with a present value.
pub open spec fn has_nonempty_key(j: JsonV, keys: Seq<Seq<char>>) -> bool
    decreases j, 0nat,
{
    match j {
        JsonV::Object(e) => entries_have_key(e, e.len(), keys),
        JsonV::Array(items) => items_have_key(items, items.len(), keys),
        JsonV::Str(_, Some(inner)) => has_nonempty_key(*inner, keys),
        _ => false,
    }
}

/// Whether one of the first `n` entries has, or holds, a present key of `keys`.
pub open spec fn entries_have_key(e: Seq<(Seq<char>, JsonV)>, n: nat, keys: Seq<Seq<char>>) -> bool
    decreases e, n,
{
    if n == 0 || n > e.len() {
        false
    } else {
        entries_have_key(e, (n - 1) as nat, keys) || (keys.contains(e[n - 1].0) && nonempty_value(
            e[n - 1].1,
        )) || has_nonempty_key(e[n - 1].1, keys)
    }
}

/// Whether one of the first `n` items holds a present key of `keys`.
pub open spec fn items_have_key(s: Seq<JsonV>, n: nat, keys: Seq<Seq<char>>) -> bool
    decreases s, n,
{
    if n == 0 || n > s.len() {
        false
    } else {
        items_have_key(s, (n - 1) as nat, keys) || has_nonempty_key(s[n - 1], keys)
    }
}

// Each prefix predicate only grows with the prefix.

proof fn lemma_entries_report_mono(e: Seq<(Seq<char>, JsonV)>, n: nat, m: nat)
    requires n <= m <= e.len(), entries_report_failure(e, n),
    ensures entries_report_failure(e, m),
    decreases m - n,
{
    if n < m {
        lemma_entries_report_mono(e, n, (m - 1) as nat);
    }
}

proof fn lemma_items_report_mono(s: Seq<JsonV>, n: nat, m: nat)
    requires n <= m <= s.len(), items_report_failure(s, n),
    ensures items_report_failure(s, m),
    decreases m - n,
{
    if n < m {
        lemma_items_report_mono(s, n, (m - 1) as nat);
    }
}

proof fn lemma_entries_dry_mono(e: Seq<(Seq<char>, JsonV)>, n: nat, m: nat)
    requires n <= m <= e.len(), entries_ask_dry_run(e, n),
    ensures entries_ask_dry_run(e, m),
    decreases m - n,
{
    if n < m {
        lemma_entries_dry_mono(e, n, (m - 1) as nat);
    }
}

proof fn lemma_items_dry_mono(s: Seq<JsonV>, n: nat, m: nat)
    requires n <= m <= s.len(), items_ask_dry_run(s, n),
    ensures items_ask_dry_run(s, m),
    decreases m - n,
{
    if n < m {
        lemma_items_dry_mono(s, n, (m - 1) as nat);
    }
}

proof fn lemma_entries_flag_mono(e: Seq<(Seq<char>, JsonV)>, n: nat, m: nat, key: Seq<char>, b: bool)
    requires n <= m <= e.len(), entries_hold_flag(e, n, key, b),
    ensures entries_hold_flag(e, m, key, b),
    decreases m - n,
{
    if n < m {
        lemma_entries_flag_mono(e, n, (m - 1) as nat, key, b);
    }
}

proof fn lemma_items_flag_mono(s: Seq<JsonV>, n: nat, m: nat, key: Seq<char>, b: bool)
    requires n <= m <= s.len(), items_hold_flag(s, n, key, b),
    ensures items_hold_flag(s, m, key, b),
    decreases m - n,
{
    if n < m {
        lemma_items_flag_mono(s, n, (m - 1) as nat, key, b);
    }
}

proof fn lemma_entries_key_mono(e: Seq<(Seq<char>, JsonV)>, n: nat, m: nat, keys: Seq<Seq<char>>)
    requires n <= m <= e.len(), entries_have_key(e, n, keys),
    ensures entries_have_key(e, m, keys),
    decreases m - n,
{
    if n < m {
        lemma_entries_key_mono(e, n, (m - 1) as nat, keys);
    }
}

proof fn lemma_items_key_mono(s: Seq<JsonV>, n: nat, m: nat, keys: Seq<Seq<char>>)
    requires n <= m <= s.len(), items_have_key(s, n, keys),
    ensures items_have_key(s, m, keys),
    decreases m - n,
{
    if n < m {
        lemma_items_key_mono(s, n, (m - 1) as nat, keys);
    }
}

/// An object key reduced to its ASCII letters and digits, in lower case.
pub fn normalized_key(k: &String) -> (r: Vec<char>)
    ensures
        r@ == norm_key(k@),
{
    let v = chars_of(k.as_str());
    let ghost p = |c: char| is_ascii_alnum(c);
    let mut kept: Vec<char> = Vec::new();
    let mut i: usize = 0;
    while i < v.len()
        invariant
            i <= v@.len(),
            p == (|c: char| is_ascii_alnum(c)),
            kept@ == v@.take(i as int).filter(p),
        decreases v.len() - i,
    {
        proof {
            assert(v@.take(i + 1) =~= v@.take(i as int).push(v@[i as int]));
            v@.take(i as int).lemma_filter_push(v@[i as int], p);
        }
        if char_is_ascii_alnum(v[i]) {
            kept.push(v[i]);
        }
        i += 1;
    }
    assert(v@.take(i as int) =~= v@);
    lower_chars(&kept)
}

fn is_lit(v: &Vec<char>, lit: &str) -> (r: bool)
    ensures
        r == (v@ == lit@),
{
    let l = chars_of(lit);
    chars_eq(v, &l)
}

/// Whether a status text reports failure.
pub fn is_failing_status(t: &String) -> (r: bool)
    ensures
        r == failing_status(t@),
{
    let v = chars_of(t.as_str());
    let s = lower_chars(&trim_chars(&v));
    is_lit(&s, "failed") || is_lit(&s, "failure") || is_lit(&s, "error") || is_lit(&s, "cancelled")
        || is_lit(&s, "canceled")
}

/// Whether one object entry reports an explicit failure.
pub fn entry_failure(key: &String, v: &Json) -> (r: bool)
    ensures
        r == entry_reports_failure(key@, v@),
{
    let n = normalized_key(key);
    let flag = v.as_bool();
    if (is_lit(&n, "success") || is_lit(&n, "persisted") || is_lit(&n, "executed") || is_lit(&n, "ok"))
        && flag == Some(false) {
        return true;
    }
    if (is_lit(&n, "iserror") || is_lit(&n, "dryrun")) && flag == Some(true) {
        return true;
    }
    if is_lit(&n, "status") {
        match v.as_str() {
            Some(t) => is_failing_status(t),
            None => false,
        }
    } else {
        false
    }
}

/// `contains_explicit_tool_failure`: whether a tool result explicitly
/// reports failure anywhere inside it.
pub fn contains_explicit_tool_failure(j: &Json) -> (r: bool)
    ensures
        r == reports_failure(j@),
    decreases *j,
{
    match j {
        Json::Object(entries) => {
            proof {
                lemma_object_view(*entries);
            }
            let ghost ev = entries_view(entries@, entries@.len());
            let mut i: usize = 0;
            while i < entries.len()
                invariant
                    i <= entries@.len(),
                    *j == Json::Object(*entries),
                    ev == entries_view(entries@, entries@.len()),
                    ev.len() == entries@.len(),
                    forall|m: int| 0 <= m < entries@.len() ==> #[trigger] ev[m] == (entries@[m].0@, entries@[m].1@),
                    !entries_report_failure(ev, i as nat),
                decreases entries.len() - i,
            {
                proof {
                    assert(decreases_to!(*j => (*j)->Object_0));
                    assert(decreases_to!(*entries => entries@[i as int]));
                    assert(decreases_to!(entries@[i as int] => entries@[i as int].1));
                }
                assert(ev[i as int] == (entries@[i as int].0@, entries@[i as int].1@));
                if entry_failure(&entries[i].0, &entries[i].1) || contains_explicit_tool_failure(&entries[i].1) {
                    proof {
                        lemma_entries_report_mono(ev, (i + 1) as nat, ev.len());
                    }
                    return true;
                }
                i += 1;
            }
            false
        },
        Json::Array(items) => {
            proof {
                lemma_array_view(*items);
            }
            let ghost iv = items_view(items@, items@.len());
            let mut i: usize = 0;
            while i < items.len()
                invariant
                    i <= items@.len(),
                    *j == Json::Array(*items),
                    iv == items_view(items@, items@.len()),
                    iv.len() == items@.len(),
                    forall|m: int| 0 <= m < items@.len() ==> #[trigger] iv[m] == items@[m]@,
                    !items_report_failure(iv, i as nat),
                decreases items.len() - i,
            {
                proof {
                    assert(decreases_to!(*j => (*j)->Array_0));
                    assert(decreases_to!(*items => items@[i as int]));
                }
                assert(iv[i as int] == items@[i as int]@);
                if contains_explicit_tool_failure(&items[i]) {
                    proof {
                        lemma_items_report_mono(iv, (i + 1) as nat, iv.len());
                    }
                    return true;
                }
                i += 1;
            }
            false
        },
        Json::Str(_, Some(inner)) => {
            proof {
                assert(decreases_to!(*j => (*j)->Str_1));
            }
            contains_explicit_tool_failure(inner)
        },
        _ => false,
    }
}

/// `contains_disallowed_tool_input`: whether a tool input asks for a dry
/// run anywhere inside it.
pub fn contains_disallowed_tool_input(j: &Json) -> (r: bool)
    ensures
        r == asks_dry_run(j@),
    decreases *j,
{
    match j {
        Json::Object(entries) => {
            proof {
                lemma_object_view(*entries);
            }
            let ghost ev = entries_view(entries@, entries@.len());
            let mut i: usize = 0;
            while i < entries.len()
                invariant
                    i <= entries@.len(),
                    *j == Json::Object(*entries),
                    ev == entries_view(entries@, entries@.len()),
                    ev.len() == entries@.len(),
                    forall|m: int| 0 <= m < entries@.len() ==> #[trigger] ev[m] == (entries@[m].0@, entries@[m].1@),
                    !entries_ask_dry_run(ev, i as nat),
                decreases entries.len() - i,
            {
                proof {
                    assert(decreases_to!(*j => (*j)->Object_0));
                    assert(decreases_to!(*entries => entries@[i as int]));
                    assert(decreases_to!(entries@[i as int] => entries@[i as int].1));
                }
                assert(ev[i as int] == (entries@[i as int].0@, entries@[i as int].1@));
                let n = normalized_key(&entries[i].0);
                if (is_lit(&n, "dryrun") && entries[i].1.as_bool() == Some(true))
                    || contains_disallowed_tool_input(&entries[i].1) {
                    proof {
                        lemma_entries_dry_mono(ev, (i + 1) as nat, ev.len());
                    }
                    return true;
                }
                i += 1;
            }
            false
        },
        Json::Array(items) => {
            proof {
                lemma_array_view(*items);
            }
            let ghost iv = items_view(items@, items@.len());
            let mut i: usize = 0;
            while i < items.len()
                invariant
                    i <= items@.len(),
                    *j == Json::Array(*items),
                    iv == items_view(items@, items@.len()),
                    iv.len() == items@.len(),
                    forall|m: int| 0 <= m < items@.len() ==> #[trigger] iv[m] == items@[m]@,
                    !items_ask_dry_run(iv, i as nat),
                decreases items.len() - i,
            {
                proof {
                    assert(decreases_to!(*j => (*j)->Array_0));
                    assert(decreases_to!(*items => items@[i as int]));
                }
                assert(iv[i as int] == items@[i as int]@);
                if contains_disallowed_tool_input(&items[i]) {
                    proof {
                        lemma_items_dry_mono(iv, (i + 1) as nat, iv.len());
                    }
                    return true;
                }
                i += 1;
            }
            false
        },
        Json::Str(_, Some(inner)) => {
            proof {
                assert(decreases_to!(*j => (*j)->Str_1));
            }
            contains_disallowed_tool_input(inner)
        },
        _ => false,
    }
}

/// `value_contains_bool`: whether some object inside `j` maps `key` to the
/// flag `expected`.
pub fn value_contains_bool(j: &Json, key: &str, expected: bool) -> (r: bool)
    ensures
        r == holds_flag(j@, key@, expected),
    decreases *j,
{
    match j {
        Json::Object(entries) => {
            if j.get_bool(key) == Some(expected) {
                return true;
            }
            proof {
                lemma_object_view(*entries);
            }
            let ghost ev = entries_view(entries@, entries@.len());
            let mut i: usize = 0;
            while i < entries.len()
                invariant
                    i <= entries@.len(),
                    *j == Json::Object(*entries),
                    ev == entries_view(entries@, entries@.len()),
                    ev.len() == entries@.len(),
                    forall|m: int| 0 <= m < entries@.len() ==> #[trigger] ev[m] == (entries@[m].0@, entries@[m].1@),
                    !(match get_entry(ev, key@) {
                        Some(v) => as_flag(v) == Some(expected),
                        None => false,
                    }),
                    !entries_hold_flag(ev, i as nat, key@, expected),
                decreases entries.len() - i,
            {
                proof {
                    assert(decreases_to!(*j => (*j)->Object_0));
                    assert(decreases_to!(*entries => entries@[i as int]));
                    assert(decreases_to!(entries@[i as int] => entries@[i as int].1));
                }
                assert(ev[i as int] == (entries@[i as int].0@, entries@[i as int].1@));
                if value_contains_bool(&entries[i].1, key, expected) {
                    proof {
                        lemma_entries_flag_mono(ev, (i + 1) as nat, ev.len(), key@, expected);
                    }
                    return true;
                }
                i += 1;
            }
            false
        },
        Json::Array(items) => {
            proof {
                lemma_array_view(*items);
            }
            let ghost iv = items_view(items@, items@.len());
            let mut i: usize = 0;
            while i < items.len()
                invariant
                    i <= items@.len(),
                    *j == Json::Array(*items),
                    iv == items_view(items@, items@.len()),
                    iv.len() == items@.len(),
                    forall|m: int| 0 <= m < items@.len() ==> #[trigger] iv[m] == items@[m]@,
                    !items_hold_flag(iv, i as nat, key@, expected),
                decreases items.len() - i,
            {
                proof {
                    assert(decreases_to!(*j => (*j)->Array_0));
                    assert(decreases_to!(*items => items@[i as int]));
                }
                assert(iv[i as int] == items@[i as int]@);
                if value_contains_bool(&items[i], key, expected) {
                    proof {
                        lemma_items_flag_mono(iv, (i + 1) as nat, iv.len(), key@, expected);
                    }
                    return true;
                }
                i += 1;
            }
            false
        },
        Json::Str(_, Some(inner)) => {
            proof {
                assert(decreases_to!(*j => (*j)->Str_1));
            }
            value_contains_bool(inner, key, expected)
        },
        _ => false,
    }
}

/// Whether a value counts as present.
pub fn is_nonempty_value(v: &Json) -> (r: bool)
    ensures
        r == nonempty_value(v@),
{
    match v {
        Json::Null => false,
        Json::Str(s, _) => {
            let c = chars_of(s.as_str());
            trim_chars(&c).len() > 0
        },
        Json::Array(items) => {
            proof {
                lemma_array_view(*items);
            }
            items.len() > 0
        },
        Json::Object(e) => {
            proof {
                lemma_object_view(*e);
            }
            e.len() > 0
        },
        _ => true,
    }
}

/// `value_has_nonempty_key`: whether some object inside `j` has one of
/// `keys` with a present value.
pub fn value_has_nonempty_key(j: &Json, keys: &Vec<String>) -> (r: bool)
    ensures
        r == has_nonempty_key(j@, views(keys@)),
    decreases *j,
{
    match j {
        Json::Object(entries) => {
            proof {
                lemma_object_view(*entries);
            }
            let ghost ev = entries_view(entries@, entries@.len());
            let mut i: usize = 0;
            while i < entries.len()
                invariant
                    i <= entries@.len(),
                    *j == Json::Object(*entries),
                    ev == entries_view(entries@, entries@.len()),
                    ev.len() == entries@.len(),
                    forall|m: int| 0 <= m < entries@.len() ==> #[trigger] ev[m] == (entries@[m].0@, entries@[m].1@),
                    !entries_have_key(ev, i as nat, views(keys@)),
                decreases entries.len() - i,
            {
                proof {
                    assert(decreases_to!(*j => (*j)->Object_0));
                    assert(decreases_to!(*entries => entries@[i as int]));
                    assert(decreases_to!(entries@[i as int] => entries@[i as int].1));
                }
                assert(ev[i as int] == (entries@[i as int].0@, entries@[i as int].1@));
                let k = chars_of(entries[i].0.as_str());
                if (crate::strs::contains_string(keys, &k) && is_nonempty_value(&entries[i].1))
                    || value_has_nonempty_key(&entries[i].1, keys) {
                    proof {
                        lemma_entries_key_mono(ev, (i + 1) as nat, ev.len(), views(keys@));
                    }
                    return true;
                }
                i += 1;
            }
            false
        },
        Json::Array(items) => {
            proof {
                lemma_array_view(*items);
            }
            let ghost iv = items_view(items@, items@.len());
            let mut i: usize = 0;
            while i < items.len()
                invariant
                    i <= items@.len(),
                    *j == Json::Array(*items),
                    iv == items_view(items@, items@.len()),
                    iv.len() == items@.len(),
                    forall|m: int| 0 <= m < items@.len() ==> #[trigger] iv[m] == items@[m]@,
                    !items_have_key(iv, i as nat, views(keys@)),
                decreases items.len() - i,
            {
                proof {
                    assert(decreases_to!(*j => (*j)->Array_0));
                    assert(decreases_to!(*items => items@[i as int]));
                }
                assert(iv[i as int] == items@[i as int]@);
                if value_has_nonempty_key(&items[i], keys) {
                    proof {
                        lemma_items_key_mono(iv, (i + 1) as nat, iv.len(), views(keys@));
                    }
                    return true;
                }
                i += 1;
            }
            false
        },
        Json::Str(_, Some(inner)) => {
            proof {
                assert(decreases_to!(*j => (*j)->Str_1));
            }
            value_has_nonempty_key(inner, keys)
        },
        _ => false,
    }
}

} // verus!
