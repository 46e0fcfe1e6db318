//! What an execution receipt records of tool inputs and outputs: values under
//! secret-looking keys are redacted, deep nesting and long lists and texts are
//! cut, and texts that hold JSON are cleaned as JSON.

use vstd::prelude::*;
use crate::text::{contains_seq, contains_str, take_chars, owned, clone_string};
use crate::json::{Json, JsonV, copy_json, lemma_array_view, items_view, lemma_object_view, entries_view};
use crate::evidence::{norm_key, normalized_key};
use crate::schedule::truncate_chars;

verus! {

/// The deepest nesting a receipt keeps.
pub open spec fn max_receipt_depth() -> nat {
    16
}

/// The most list items a receipt keeps.
pub open spec fn max_receipt_items() -> nat {
    512
}

/// The most characters of a text a receipt keeps.
pub open spec fn max_receipt_chars() -> nat {
    32_000
}

/// A cleaned value as the receipt records it.
#[derive(Debug)]
pub enum Redacted {
    /// A null, boolean or number, kept as it is.
    Kept(Json),
    /// A text.
    Text(String),
    /// A text that held a JSON object or array: the cleaned document, to be
    /// written back as JSON text.
    Encoded(Box<Redacted>),
    List(Vec<Redacted>),
    Fields(Vec<(String, Redacted)>),
}

/// The value of a [`Redacted`].
pub enum RedactedV {
    Kept(JsonV),
    Text(Seq<char>),
    Encoded(Box<RedactedV>),
    List(Seq<RedactedV>),
    Fields(Seq<(Seq<char>, RedactedV)>),
}

/// The value of a cleaned value.
pub open spec fn redacted_view(r: Redacted) -> RedactedV
    decreases r, 0nat,
{
    match r {
        Redacted::Kept(j) => RedactedV::Kept(j@),
        Redacted::Text(t) => RedactedV::Text(t@),
        Redacted::Encoded(b) => RedactedV::Encoded(Box::new(redacted_view(*b))),
        Redacted::List(v) => RedactedV::List(redacted_items_view(v@, v@.len())),
        Redacted::Fields(e) => RedactedV::Fields(redacted_entries_view(e@, e@.len())),
    }
}

/// The values of the first `n` cleaned items.
pub open spec fn redacted_items_view(s: Seq<Redacted>, n: nat) -> Seq<RedactedV>
    decreases s, n,
{
    if n == 0 || n > s.len() {
        Seq::empty()
    } else {
        redacted_items_view(s, (n - 1) as nat).push(redacted_view(s[n - 1]))
    }
}

/// The values of the first `n` cleaned entries.
pub open spec fn redacted_entries_view(s: Seq<(String, Redacted)>, n: nat) -> Seq<(Seq<char>, RedactedV)>
    decreases s, n,
{
    if n == 0 || n > s.len() {
        Seq::empty()
    } else {
        redacted_entries_view(s, (n - 1) as nat).push((s[n - 1].0@, redacted_view(s[n - 1].1)))
    }
}

impl View for Redacted {
    type V = RedactedV;

    open spec fn view(&self) -> RedactedV {
        redacted_view(*self)
    }
}

/// Whether a key names a secret: reduced to its ASCII letters and digits in
/// lower case, it contains `apikey`, `authorization`, `cookie`, `password`,
/// `secret` or `token`.
pub open spec fn secret_key(k: Seq<char>) -> bool {
    let n = norm_key(k);
    ||| contains_seq(n, "apikey"@)
    ||| contains_seq(n, "authorization"@)
    ||| contains_seq(n, "cookie"@)
    ||| contains_seq(n, "password"@)
    ||| contains_seq(n, "secret"@)
    ||| contains_seq(n, "token"@)
}

/// The cleaned value of `j` found at nesting `depth`: past the deepest
/// nesting it is replaced by a marker; an object keeps its keys, with the
/// values of secret keys redacted; a list keeps its first items; a text that
/// holds a JSON object or array is cleaned as that document; any other text
/// is cut to its first characters; anything else is kept.
pub open spec fn redacted(j: JsonV, depth: nat) -> RedactedV
    decreases j, 0nat,
{
    if depth > max_receipt_depth() {
        RedactedV::Text("[truncated: nesting limit]"@)
    } else {
        match j {
            JsonV::Object(e) => RedactedV::Fields(redacted_entries(e, depth + 1, e.len())),
            JsonV::Array(items) => RedactedV::List(redacted_items(items, depth + 1,
                if items.len() <= max_receipt_items() { items.len() } else { max_receipt_items() })),
            JsonV::Str(t, Some(d)) => if (*d is Object) || (*d is Array) {
                RedactedV::Encoded(Box::new(redacted(*d, depth + 1)))
            } else {
                RedactedV::Text(take_chars(t, max_receipt_chars()))
            },
            JsonV::Str(t, None) => RedactedV::Text(take_chars(t, max_receipt_chars())),
            _ => RedactedV::Kept(j),
        }
    }
}

/// The first `n` items cleaned at nesting `depth`.
pub open spec fn redacted_items(s: Seq<JsonV>, depth: nat, n: nat) -> Seq<RedactedV>
    decreases s, n,
{
    if n == 0 || n > s.len() {
        Seq::empty()
    } else {
        redacted_items(s, depth, (n - 1) as nat).push(redacted(s[n - 1], depth))
    }
}

/// The first `n` entries with their values cleaned at nesting `depth`, or
/// redacted under secret keys.
pub open spec fn redacted_entries(e: Seq<(Seq<char>, JsonV)>, depth: nat, n: nat) -> Seq<(Seq<char>, RedactedV)>
    decreases e, n,
{
    if n == 0 || n > e.len() {
        Seq::empty()
    } else {
        let k = e[n - 1].0;
        let v = if secret_key(k) {
            RedactedV::Text("[redacted]"@)
        } else {
            proof {
                assert(decreases_to!(e => e[n - 1]));
                assert(decreases_to!(e[n - 1] => e[n - 1].1));
            }
            redacted(e[n - 1].1, depth)
        };
        redacted_entries(e, depth, (n - 1) as nat).push((k, v))
    }
}

fn secret_key_exec(k: &String) -> (r: bool)
    ensures
        r == secret_key(k@),
{
    let n = normalized_key(k);
    contains_str(&n, "apikey") || contains_str(&n, "authorization") || contains_str(&n, "cookie")
        || contains_str(&n, "password") || contains_str(&n, "secret") || contains_str(&n, "token")
}

/// Cleans a value found at nesting `depth` for a receipt.
pub fn redact(j: &Json, depth: usize) -> (r: Redacted)
    requires
        depth <= 17,
    ensures
        r@ == redacted(j@, depth as nat),
    decreases j@, 0nat,
{
    proof { reveal_strlit("[truncated: nesting limit]"); }
    if depth > 16 {
        return Redacted::Text(owned("[truncated: nesting limit]"));
    }
    match j {
        Json::Object(e) => {
            proof { lemma_object_view(*e); }
            let ghost ev = entries_view(e@, e@.len());
            let mut out: Vec<(String, Redacted)> = Vec::new();
            let mut i: usize = 0;
            while i < e.len()
                invariant
                    i <= e@.len(),
                    depth <= 16,
                    *j == Json::Object(*e),
                    j@ == JsonV::Object(ev),
                    ev.len() == e@.len(),
                    forall|k: int| 0 <= k < e@.len() ==> #[trigger] ev[k] == (e@[k].0@, e@[k].1@),
                    out@.len() == i,
                    redacted_entries_view(out@, out@.len()) == redacted_entries(ev, (depth + 1) as nat, i as nat),
                decreases e.len() - i,
            {
                let ghost before = redacted_entries_view(out@, out@.len());
                let key = clone_string(&e[i].0);
                let v = if secret_key_exec(&e[i].0) {
                    proof { reveal_strlit("[redacted]"); }
                    Redacted::Text(owned("[redacted]"))
                } else {
                    proof {
                        assert(decreases_to!(j@ => j@->Object_0));
                        assert(j@->Object_0 == ev);
                        assert(decreases_to!(ev => ev[i as int]));
                        assert(decreases_to!(ev[i as int] => ev[i as int].1));
                    }
                    redact(&e[i].1, depth + 1)
                };
                let ghost old_out = out@;
                out.push((key, v));
                proof {
                    lemma_entries_push(old_out, out@.last(), i as nat);
                    assert(out@ == old_out.push(out@.last()));
                    assert(ev[i as int] == (e@[i as int].0@, e@[i as int].1@));
                    assert(out@.last().0@ == ev[i as int].0);
                    assert(redacted_view(out@.last().1) == (if secret_key(ev[i as int].0) {
                        RedactedV::Text("[redacted]"@)
                    } else {
                        redacted(ev[i as int].1, (depth + 1) as nat)
                    }));
                    assert(redacted_entries_view(out@, out@.len()) == redacted_entries_view(old_out, i as nat).push(
                        (out@.last().0@, redacted_view(out@.last().1))));
                }
                i += 1;
            }
            Redacted::Fields(out)
        },
        Json::Array(items) => {
            proof { lemma_array_view(*items); }
            let ghost iv = items_view(items@, items@.len());
            let n: usize = if items.len() <= 512 { items.len() } else { 512 };
            let mut out: Vec<Redacted> = Vec::new();
            let mut i: usize = 0;
            while i < n
                invariant
                    i <= n,
                    n <= items@.len(),
                    depth <= 16,
                    *j == Json::Array(*items),
                    j@ == JsonV::Array(iv),
                    iv.len() == items@.len(),
                    forall|k: int| 0 <= k < items@.len() ==> #[trigger] iv[k] == items@[k]@,
                    out@.len() == i,
                    redacted_items_view(out@, out@.len()) == redacted_items(iv, (depth + 1) as nat, i as nat),
                decreases n - i,
            {
                proof {
                    assert(decreases_to!(j@ => j@->Array_0));
                    assert(j@->Array_0 == iv);
                    assert(decreases_to!(iv => iv[i as int]));
                }
                let v = redact(&items[i], depth + 1);
                let ghost old_out = out@;
                out.push(v);
                proof {
                    lemma_items_push(old_out, out@.last(), i as nat);
                    assert(out@ == old_out.push(out@.last()));
                }
                i += 1;
            }
            Redacted::List(out)
        },
        Json::Str(t, emb) => {
            match emb {
                Some(d) => {
                    let structured = match &**d {
                        Json::Object(_) => true,
                        Json::Array(_) => true,
                        _ => false,
                    };
                    if structured {
                        proof {
                            assert(decreases_to!(j@ => j@->Str_1));
                            assert(decreases_to!(j@->Str_1 => j@->Str_1->0));
                        }
                        return Redacted::Encoded(Box::new(redact(&**d, depth + 1)));
                    }
                },
                None => {},
            }
            Redacted::Text(truncate_chars(t.as_str(), 32_000))
        },
        other => Redacted::Kept(copy_json(other)),
    }
}

proof fn lemma_entries_push(s: Seq<(String, Redacted)>, x: (String, Redacted), n: nat)
    requires
        n <= s.len(),
    ensures
        redacted_entries_view(s.push(x), n) == redacted_entries_view(s, n),
    decreases n,
{
    if n > 0 {
        lemma_entries_push(s, x, (n - 1) as nat);
        assert(s.push(x)[n - 1] == s[n - 1]);
    }
}

proof fn lemma_items_push(s: Seq<Redacted>, x: Redacted, n: nat)
    requires
        n <= s.len(),
    ensures
        redacted_items_view(s.push(x), n) == redacted_items_view(s, n),
    decreases n,
{
    if n > 0 {
        lemma_items_push(s, x, (n - 1) as nat);
        assert(s.push(x)[n - 1] == s[n - 1]);
    }
}

/// The largest receipt file written, in bytes.
pub const MAX_RECEIPT_BYTES: usize = 524288;

/// Whether a receipt of `len` bytes may be written: at most
/// [`MAX_RECEIPT_BYTES`].
pub fn receipt_fits(len: usize) -> (r: bool)
    ensures
        r == (len <= MAX_RECEIPT_BYTES),
{
    len <= MAX_RECEIPT_BYTES
}

/// Cleans a tool input or output for a receipt.
pub fn sanitize_receipt_value(value: &Json) -> (r: Redacted)
    ensures
        r@ == redacted(value@, 0),
{
    redact(value, 0)
}

} // verus!
