//! A plain-value model of the JSON documents that cross the IPC boundary.
//!
//! Object entries keep their order and their keys are distinct. A string
//! carries, beside its text, the document that the text itself holds when
//! it is JSON text: several checks look inside such embedded documents.

use vstd::prelude::*;
use crate::text::{chars_of, chars_eq, owned};
use crate::num::{u64_digits, parse_u64_digits};

verus! {

/// A JSON value.
#[derive(Debug)]
pub enum Json {
    Null,
    Bool(bool),
    /// A number that fits in `i64`.
    Int(i64),
    /// Any other number, in its textual form.
    Number(String),
    /// A string, with the document its text parses to when it is JSON text.
    Str(String, Option<Box<Json>>),
    Array(Vec<Json>),
    Object(Vec<(String, Json)>),
}

/// The mathematical value of a [`Json`]: strings are character sequences.
pub enum JsonV {
    Null,
    Bool(bool),
    Int(i64),
    Number(Seq<char>),
    Str(Seq<char>, Option<Box<JsonV>>),
    Array(Seq<JsonV>),
    Object(Seq<(Seq<char>, JsonV)>),
}

pub open spec fn json_view(j: Json) -> JsonV
    decreases j, 0nat,
{
    match j {
        Json::Null => JsonV::Null,
        Json::Bool(b) => JsonV::Bool(b),
        Json::Int(n) => JsonV::Int(n),
        Json::Number(s) => JsonV::Number(s@),
        Json::Str(s, inner) => JsonV::Str(
            s@,
            match inner {
                Some(b) => Some(Box::new(json_view(*b))),
                None => None,
            },
        ),
        Json::Array(v) => JsonV::Array(items_view(v@, v@.len())),
        Json::Object(e) => JsonV::Object(entries_view(e@, e@.len())),
    }
}

/// The views of the first `n` items.
pub open spec fn items_view(s: Seq<Json>, n: nat) -> Seq<JsonV>
    decreases s, n,
{
    if n == 0 || n > s.len() {
        Seq::empty()
    } else {
        items_view(s, (n - 1) as nat).push(json_view(s[n - 1]))
    }
}

/// The views of the first `n` entries.
pub open spec fn entries_view(s: Seq<(String, Json)>, n: nat) -> Seq<(Seq<char>, JsonV)>
    decreases s, n,
{
    if n == 0 || n > s.len() {
        Seq::empty()
    } else {
        entries_view(s, (n - 1) as nat).push((s[n - 1].0@, json_view(s[n - 1].1)))
    }
}

impl View for Json {
    type V = JsonV;

    open spec fn view(&self) -> JsonV {
        json_view(*self)
    }
}

/// `items_view` maps each item to its view.
pub proof fn lemma_items_view(s: Seq<Json>, n: nat)
    requires
        n <= s.len(),
    ensures
        items_view(s, n).len() == n,
        forall|i: int| 0 <= i < n ==> #[trigger] items_view(s, n)[i] == json_view(s[i]),
    decreases n,
{
    if n > 0 {
        lemma_items_view(s, (n - 1) as nat);
    }
}

/// `entries_view` maps each entry to its key's and value's views.
pub proof fn lemma_entries_view(s: Seq<(String, Json)>, n: nat)
    requires
        n <= s.len(),
    ensures
        entries_view(s, n).len() == n,
        forall|i: int|
            0 <= i < n ==> #[trigger] entries_view(s, n)[i] == (s[i].0@, json_view(s[i].1)),
    decreases n,
{
    if n > 0 {
        lemma_entries_view(s, (n - 1) as nat);
    }
}

/// The view of an array is the sequence of its items' views.
pub proof fn lemma_array_view(v: Vec<Json>)
    ensures
        Json::Array(v)@ == JsonV::Array(items_view(v@, v@.len())),
        items_view(v@, v@.len()).len() == v@.len(),
        forall|i: int| 0 <= i < v@.len() ==> #[trigger] items_view(v@, v@.len())[i] == v@[i]@,
{
    lemma_items_view(v@, v@.len());
}

/// The view of an object is the sequence of its entries' views.
pub proof fn lemma_object_view(e: Vec<(String, Json)>)
    ensures
        Json::Object(e)@ == JsonV::Object(entries_view(e@, e@.len())),
        entries_view(e@, e@.len()).len() == e@.len(),
        forall|i: int|
            0 <= i < e@.len() ==> #[trigger] entries_view(e@, e@.len())[i] == (e@[i].0@, e@[i].1@),
{
    lemma_entries_view(e@, e@.len());
}

// ---------------------------------------------------------------------------
// Specifications of the accessors
// ---------------------------------------------------------------------------

/// The value of the first entry named `key`.
pub open spec fn get_entry(e: Seq<(Seq<char>, JsonV)>, key: Seq<char>) -> Option<JsonV>
    decreases e.len(),
{
    if e.len() == 0 {
        None
    } else if e[0].0 == key {
        Some(e[0].1)
    } else {
        get_entry(e.subrange(1, e.len() as int), key)
    }
}

/// `Value::get` for an object key.
pub open spec fn jget(j: JsonV, key: Seq<char>) -> Option<JsonV> {
    match j {
        JsonV::Object(e) => get_entry(e, key),
        _ => None,
    }
}

/// `Value::as_str`.
pub open spec fn as_text(j: JsonV) -> Option<Seq<char>> {
    match j {
        JsonV::Str(s, _) => Some(s),
        _ => None,
    }
}

/// `Value::as_bool`.
pub open spec fn as_flag(j: JsonV) -> Option<bool> {
    match j {
        JsonV::Bool(b) => Some(b),
        _ => None,
    }
}

/// `Value::as_i64`.
pub open spec fn as_int(j: JsonV) -> Option<i64> {
    match j {
        JsonV::Int(n) => Some(n),
        _ => None,
    }
}

/// `Value::as_u64`: a non-negative integer, or a larger one that only fits
/// in `u64` (held as its digits).
pub open spec fn as_unsigned(j: JsonV) -> Option<u64> {
    match j {
        JsonV::Int(n) => if n >= 0 {
            Some(n as u64)
        } else {
            None
        },
        JsonV::Number(t) => u64_digits(t),
        _ => None,
    }
}

/// The unsigned integer under `key`, when there is one.
pub open spec fn get_unsigned(j: JsonV, key: Seq<char>) -> Option<u64> {
    match jget(j, key) {
        Some(v) => as_unsigned(v),
        None => None,
    }
}

/// The text under `key`, when there is one.
pub open spec fn get_text(j: JsonV, key: Seq<char>) -> Option<Seq<char>> {
    match jget(j, key) {
        Some(v) => as_text(v),
        None => None,
    }
}

/// The flag under `key`, when there is one.
pub open spec fn get_flag(j: JsonV, key: Seq<char>) -> Option<bool> {
    match jget(j, key) {
        Some(v) => as_flag(v),
        None => None,
    }
}

/// The integer under `key`, when there is one.
pub open spec fn get_int(j: JsonV, key: Seq<char>) -> Option<i64> {
    match jget(j, key) {
        Some(v) => as_int(v),
        None => None,
    }
}

/// Whether an entry is named `key`.
pub open spec fn has_key(e: Seq<(Seq<char>, JsonV)>, key: Seq<char>) -> bool {
    exists|i: int| 0 <= i < e.len() && (#[trigger] e[i]).0 == key
}

/// The entries with `key` set to `v`: the first entry of that name gets the
/// new value, or a new entry is added at the end (`Map::insert`).
pub open spec fn set_entry(e: Seq<(Seq<char>, JsonV)>, key: Seq<char>, v: JsonV) -> Seq<(Seq<char>, JsonV)> {
    if has_key(e, key) {
        let i = choose|i: int|
            0 <= i < e.len() && e[i].0 == key && forall|m: int| 0 <= m < i ==> e[m].0 != key;
        e.update(i, (key, v))
    } else {
        e.push((key, v))
    }
}

// ---------------------------------------------------------------------------
// Lemmas
// ---------------------------------------------------------------------------

/// Entries before the first match can be skipped.
pub proof fn lemma_get_entry_skip(e: Seq<(Seq<char>, JsonV)>, key: Seq<char>, i: int)
    requires
        0 <= i <= e.len(),
        forall|k: int| 0 <= k < i ==> (#[trigger] e[k]).0 != key,
    ensures
        get_entry(e, key) == get_entry(e.subrange(i, e.len() as int), key),
    decreases i,
{
    if i > 0 {
        let t = e.subrange(1, e.len() as int);
        assert forall|k: int| 0 <= k < i - 1 implies (#[trigger] t[k]).0 != key by {
            assert(t[k] == e[k + 1]);
        }
        lemma_get_entry_skip(t, key, i - 1);
        assert(t.subrange(i - 1, t.len() as int) =~= e.subrange(i, e.len() as int));
    } else {
        assert(e.subrange(0, e.len() as int) =~= e);
    }
}

/// `get_entry` is the value of the first entry named `key`.
pub proof fn lemma_get_entry_first(e: Seq<(Seq<char>, JsonV)>, key: Seq<char>, i: int)
    requires
        0 <= i < e.len(),
        e[i].0 == key,
        forall|k: int| 0 <= k < i ==> (#[trigger] e[k]).0 != key,
    ensures
        get_entry(e, key) == Some(e[i].1),
{
    lemma_get_entry_skip(e, key, i);
    let t = e.subrange(i, e.len() as int);
    assert(t[0] == e[i]);
}

/// Without an entry named `key`, `get_entry` is `None`.
pub proof fn lemma_get_entry_none(e: Seq<(Seq<char>, JsonV)>, key: Seq<char>)
    requires
        forall|k: int| 0 <= k < e.len() ==> (#[trigger] e[k]).0 != key,
    ensures
        get_entry(e, key) is None,
{
    lemma_get_entry_skip(e, key, e.len() as int);
}

/// The value `get_entry` finds is the value of one of the entries.
pub proof fn lemma_get_entry_member(e: Seq<(Seq<char>, JsonV)>, key: Seq<char>)
    ensures
        match get_entry(e, key) {
            Some(v) => exists|i: int| 0 <= i < e.len() && (#[trigger] e[i]).1 == v,
            None => true,
        },
    decreases e.len(),
{
    if e.len() > 0 && e[0].0 != key {
        let t = e.subrange(1, e.len() as int);
        lemma_get_entry_member(t, key);
        match get_entry(t, key) {
            Some(v) => {
                let i = choose|i: int| 0 <= i < t.len() && (#[trigger] t[i]).1 == v;
                assert(e[i + 1] == t[i]);
            },
            None => {},
        }
    } else if e.len() > 0 {
        assert(e[0].1 == e[0].1);
    }
}

/// A value found under a key is structurally smaller than the object.
pub proof fn lemma_jget_decreases(j: JsonV, key: Seq<char>)
    ensures
        match jget(j, key) {
            Some(v) => decreases_to!(j => v),
            None => true,
        },
{
    match j {
        JsonV::Object(e) => {
            lemma_get_entry_member(e, key);
            match get_entry(e, key) {
                Some(v) => {
                    let i = choose|i: int| 0 <= i < e.len() && (#[trigger] e[i]).1 == v;
                    assert(decreases_to!(j => e));
                    assert(decreases_to!(e => e[i]));
                    assert(decreases_to!(e[i] => e[i].1));
                },
                None => {},
            }
        },
        _ => {},
    }
}

// ---------------------------------------------------------------------------
// Executable accessors
// ---------------------------------------------------------------------------

impl Json {
    /// `Value::get` for an object key.
    pub fn get<'a>(&'a self, key: &str) -> (r: Option<&'a Json>)
        ensures
            match r {
                Some(v) => jget(self@, key@) == Some(v@),
                None => jget(self@, key@) is None,
            },
    {
        match self {
            Json::Object(entries) => {
                proof {
                    lemma_object_view(*entries);
                }
                let ghost ev = entries_view(entries@, entries@.len());
                let k = chars_of(key);
                let mut i: usize = 0;
                while i < entries.len()
                    invariant
                        i <= entries@.len(),
                        *self == Json::Object(*entries),
                        k@ == key@,
                        ev == entries_view(entries@, entries@.len()),
                        ev.len() == entries@.len(),
                        forall|m: int| 0 <= m < entries@.len() ==> #[trigger] ev[m] == (entries@[m].0@, entries@[m].1@),
                        forall|m: int| 0 <= m < i ==> (#[trigger] ev[m]).0 != key@,
                    decreases entries.len() - i,
                {
                    let name = chars_of(entries[i].0.as_str());
                    if chars_eq(&name, &k) {
                        proof {
                            lemma_get_entry_first(ev, key@, i as int);
                        }
                        return Some(&entries[i].1);
                    }
                    assert(ev[i as int].0 != key@);
                    i += 1;
                }
                proof {
                    lemma_get_entry_none(ev, key@);
                }
                None
            },
            _ => None,
        }
    }

    /// `Value::as_str`.
    pub fn as_str(&self) -> (r: Option<&String>)
        ensures
            match r {
                Some(s) => as_text(self@) == Some(s@),
                None => as_text(self@) is None,
            },
    {
        match self {
            Json::Str(s, _) => Some(s),
            _ => None,
        }
    }

    /// `Value::as_bool`.
    pub fn as_bool(&self) -> (r: Option<bool>)
        ensures
            r == as_flag(self@),
    {
        match self {
            Json::Bool(b) => Some(*b),
            _ => None,
        }
    }

    /// `Value::as_i64`.
    pub fn as_i64(&self) -> (r: Option<i64>)
        ensures
            r == as_int(self@),
    {
        match self {
            Json::Int(n) => Some(*n),
            _ => None,
        }
    }

    /// `Value::as_array`.
    pub fn as_array(&self) -> (r: Option<&Vec<Json>>)
        ensures
            match r {
                Some(v) => *self == Json::Array(*v),
                None => !(self@ is Array),
            },
    {
        match self {
            Json::Array(v) => Some(v),
            _ => None,
        }
    }

    /// `Value::is_object`.
    pub fn is_object(&self) -> (r: bool)
        ensures
            r == (self@ is Object),
    {
        match self {
            Json::Object(_) => true,
            _ => false,
        }
    }

    /// `Value::is_null`.
    pub fn is_null(&self) -> (r: bool)
        ensures
            r == (self@ is Null),
    {
        match self {
            Json::Null => true,
            _ => false,
        }
    }

    /// The text under `key`, when there is one.
    pub fn get_str<'a>(&'a self, key: &str) -> (r: Option<&'a String>)
        ensures
            match r {
                Some(s) => get_text(self@, key@) == Some(s@),
                None => get_text(self@, key@) is None,
            },
    {
        match self.get(key) {
            Some(v) => v.as_str(),
            None => None,
        }
    }

    /// The flag under `key`, when there is one.
    pub fn get_bool(&self, key: &str) -> (r: Option<bool>)
        ensures
            r == get_flag(self@, key@),
    {
        match self.get(key) {
            Some(v) => v.as_bool(),
            None => None,
        }
    }

    /// The integer under `key`, when there is one.
    pub fn get_i64(&self, key: &str) -> (r: Option<i64>)
        ensures
            r == get_int(self@, key@),
    {
        match self.get(key) {
            Some(v) => v.as_i64(),
            None => None,
        }
    }

    /// `Value::as_u64`.
    pub fn as_u64(&self) -> (r: Option<u64>)
        ensures
            r == as_unsigned(self@),
    {
        match self {
            Json::Int(n) => if *n >= 0 {
                Some(*n as u64)
            } else {
                None
            },
            Json::Number(t) => parse_u64_digits(t.as_str()),
            _ => None,
        }
    }

    /// The unsigned integer under `key`.
    pub fn get_u64(&self, key: &str) -> (r: Option<u64>)
        ensures
            r == get_unsigned(self@, key@),
    {
        match self.get(key) {
            Some(v) => v.as_u64(),
            None => None,
        }
    }

    /// A string value without embedded document.
    pub fn text(s: &str) -> (r: Json)
        ensures
            r@ == JsonV::Str(s@, None),
    {
        Json::Str(owned(s), None)
    }

    /// A string value from an owned string.
    pub fn from_string(s: String) -> (r: Json)
        ensures
            r@ == JsonV::Str(s@, None),
    {
        Json::Str(s, None)
    }
}

/// A copy of a JSON value.
pub fn copy_json(j: &Json) -> (r: Json)
    ensures
        r@ == j@,
    decreases *j,
{
    match j {
        Json::Null => Json::Null,
        Json::Bool(b) => Json::Bool(*b),
        Json::Int(n) => Json::Int(*n),
        Json::Number(s) => Json::Number(s.clone()),
        Json::Str(s, inner) => {
            let copied = match inner {
                Some(b) => {
                    proof {
                        assert(decreases_to!(*j => (*j)->Str_1));
                    }
                    Some(Box::new(copy_json(b)))
                },
                None => None,
            };
            Json::Str(s.clone(), copied)
        },
        Json::Array(items) => {
            let mut out: Vec<Json> = Vec::new();
            let mut i: usize = 0;
            proof {
                lemma_array_view(*items);
            }
            while i < items.len()
                invariant
                    i <= items@.len(),
                    *j == Json::Array(*items),
                    out@.len() == i,
                    forall|m: int| 0 <= m < i ==> (#[trigger] out@[m])@ == items@[m]@,
                decreases items.len() - i,
            {
                proof {
                    assert(decreases_to!(*j => (*j)->Array_0));
                    assert(decreases_to!(*items => items@[i as int]));
                }
                let c = copy_json(&items[i]);
                out.push(c);
                i += 1;
            }
            proof {
                lemma_array_view(out);
                assert(items_view(out@, out@.len()) =~= items_view(items@, items@.len()));
            }
            Json::Array(out)
        },
        Json::Object(entries) => {
            let mut out: Vec<(String, Json)> = Vec::new();
            let mut i: usize = 0;
            proof {
                lemma_object_view(*entries);
            }
            while i < entries.len()
                invariant
                    i <= entries@.len(),
                    *j == Json::Object(*entries),
                    out@.len() == i,
                    forall|m: int|
                        0 <= m < i ==> (#[trigger] out@[m]).0@ == entries@[m].0@ && out@[m].1@
                            == entries@[m].1@,
                decreases entries.len() - i,
            {
                proof {
                    assert(decreases_to!(*j => (*j)->Object_0));
                    assert(decreases_to!(*entries => entries@[i as int]));
                    assert(decreases_to!(entries@[i as int] => entries@[i as int].1));
                }
                let v = copy_json(&entries[i].1);
                let k = entries[i].0.clone();
                out.push((k, v));
                i += 1;
            }
            proof {
                lemma_object_view(out);
                assert(entries_view(out@, out@.len()) =~= entries_view(entries@, entries@.len()));
            }
            Json::Object(out)
        },
    }
}

/// An object value from entries.
pub fn object_of(e: Vec<(String, Json)>) -> (r: Json)
    ensures
        r@ == Json::Object(e)@,
        r@ is Object,
{
    Json::Object(e)
}

/// The view of the entries of an object.
pub open spec fn entries_of(e: Vec<(String, Json)>) -> Seq<(Seq<char>, JsonV)> {
    entries_view(e@, e@.len())
}

/// Sets `key` to `v` in an object's entries (`Map::insert`).
pub fn set_entry_exec(e: &mut Vec<(String, Json)>, key: &str, v: Json)
    ensures
        entries_of(*final(e)) == set_entry(entries_of(*old(e)), key@, v@),
{
    let ghost ev = entries_of(*e);
    proof {
        lemma_entries_view(e@, e@.len());
    }
    let kc = chars_of(key);
    let mut i: usize = 0;
    while i < e.len()
        invariant
            i <= e@.len(),
            e@ == old(e)@,
            ev == entries_of(*old(e)),
            ev.len() == e@.len(),
            forall|m: int| 0 <= m < e@.len() ==> #[trigger] ev[m] == (e@[m].0@, e@[m].1@),
            kc@ == key@,
            forall|m: int| 0 <= m < i ==> (#[trigger] ev[m]).0 != key@,
        decreases e.len() - i,
    {
        let name = chars_of(e[i].0.as_str());
        if chars_eq(&name, &kc) {
            let ghost vv = v@;
            proof {
                assert(ev[i as int].0 == key@);
                assert(has_key(ev, key@));
                let c = choose|c: int|
                    0 <= c < ev.len() && ev[c].0 == key@ && forall|m: int|
                        0 <= m < c ==> ev[m].0 != key@;
                assert(c == i) by {
                    if c < i {
                        assert(ev[c].0 != key@);
                    } else if c > i {
                        assert(ev[i as int].0 != key@);
                    }
                }
            }
            let name_owned = e[i].0.clone();
            e.set(i, (name_owned, v));
            proof {
                lemma_entries_view(e@, e@.len());
                assert(entries_of(*e) =~= ev.update(i as int, (key@, vv)));
            }
            return;
        }
        assert(ev[i as int].0 != key@);
        i += 1;
    }
    let ghost vv = v@;
    let k = owned(key);
    e.push((k, v));
    proof {
        assert(!has_key(ev, key@));
        lemma_entries_view(e@, e@.len());
        assert(entries_of(*e) =~= ev.push((key@, vv)));
    }
}

/// The value of the first entry named `key`.
pub fn entries_get<'a>(e: &'a Vec<(String, Json)>, key: &str) -> (r: Option<&'a Json>)
    ensures
        match r {
            Some(v) => get_entry(entries_of(*e), key@) == Some(v@),
            None => get_entry(entries_of(*e), key@) is None && !has_key(entries_of(*e), key@),
        },
{
    proof {
        lemma_entries_view(e@, e@.len());
    }
    let ghost ev = entries_of(*e);
    let k = chars_of(key);
    let mut i: usize = 0;
    while i < e.len()
        invariant
            i <= e@.len(),
            k@ == key@,
            ev == entries_of(*e),
            ev.len() == e@.len(),
            forall|m: int| 0 <= m < e@.len() ==> #[trigger] ev[m] == (e@[m].0@, e@[m].1@),
            forall|m: int| 0 <= m < i ==> (#[trigger] ev[m]).0 != key@,
        decreases e.len() - i,
    {
        let name = chars_of(e[i].0.as_str());
        if chars_eq(&name, &k) {
            proof {
                lemma_get_entry_first(ev, key@, i as int);
            }
            return Some(&e[i].1);
        }
        assert(ev[i as int].0 != key@);
        i += 1;
    }
    proof {
        lemma_get_entry_none(ev, key@);
    }
    None
}

/// The entries of an object value, or none for any other value.
pub open spec fn object_entries(j: JsonV) -> Seq<(Seq<char>, JsonV)> {
    match j {
        JsonV::Object(e) => e,
        _ => Seq::empty(),
    }
}

/// A copy of an object value's entries, or no entries for any other value
/// (`as_object().cloned().unwrap_or_default()`).
pub fn entries_or_empty(j: &Json) -> (r: Vec<(String, Json)>)
    ensures
        entries_of(r) == object_entries(j@),
{
    match j {
        Json::Object(e) => {
            proof { lemma_object_view(*e); }
            let c = copy_json(j);
            match c {
                Json::Object(e2) => e2,
                _ => {
                    let v: Vec<(String, Json)> = Vec::new();
                    v
                },
            }
        },
        _ => {
            let v: Vec<(String, Json)> = Vec::new();
            proof { assert(entries_view(v@, 0) =~= Seq::<(Seq<char>, JsonV)>::empty()); }
            v
        },
    }
}

} // verus!
