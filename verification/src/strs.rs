//! Lists of strings: views, membership and first-occurrence deduplication.

use vstd::prelude::*;
use crate::text::{non_empty, chars_of, chars_eq, non_empty_str};
use crate::json::{Json, JsonV, as_text, lemma_array_view, items_view};

verus! {

/// The character sequences of a list of strings.
pub open spec fn views(v: Seq<String>) -> Seq<Seq<char>> {
    v.map_values(|s: String| s@)
}

/// The list without repeated elements, keeping each first occurrence.
pub open spec fn dedup(s: Seq<Seq<char>>) -> Seq<Seq<char>>
    decreases s.len(),
{
    if s.len() == 0 {
        s
    } else {
        let d = dedup(s.drop_last());
        if s.drop_last().contains(s.last()) {
            d
        } else {
            d.push(s.last())
        }
    }
}

/// The non-empty trimmed strings among a JSON array's items, in order.
pub open spec fn text_items(items: Seq<JsonV>) -> Seq<Seq<char>>
    decreases items.len(),
{
    if items.len() == 0 {
        Seq::empty()
    } else {
        let prev = text_items(items.drop_last());
        match as_text(items.last()) {
            Some(t) => match non_empty(t) {
                Some(n) => prev.push(n),
                None => prev,
            },
            None => prev,
        }
    }
}

/// `string_array`: the distinct non-empty trimmed strings of an array
/// value, in order of first occurrence; anything else gives no strings.
pub open spec fn string_array(v: Option<JsonV>) -> Seq<Seq<char>> {
    match v {
        Some(JsonV::Array(items)) => dedup(text_items(items)),
        _ => Seq::empty(),
    }
}

/// `dedup` keeps exactly the elements of the list.
pub proof fn lemma_dedup_contains(s: Seq<Seq<char>>, x: Seq<char>)
    ensures
        dedup(s).contains(x) <==> s.contains(x),
    decreases s.len(),
{
    if s.len() > 0 {
        lemma_dedup_contains(s.drop_last(), x);
        lemma_dedup_contains(s.drop_last(), s.last());
        if s.contains(x) && !s.drop_last().contains(x) {
            let i = choose|i: int| 0 <= i < s.len() && s[i] == x;
            if i < s.len() - 1 {
                assert(s.drop_last()[i] == x);
            }
        }
        if s.drop_last().contains(x) {
            let i = choose|i: int| 0 <= i < s.drop_last().len() && s.drop_last()[i] == x;
            assert(s[i] == x);
        }
        let d = dedup(s.drop_last());
        if !s.drop_last().contains(s.last()) && dedup(s).contains(x) && !d.contains(x) {
            assert(x == s.last());
            assert(s[s.len() - 1] == x);
        }
        if d.contains(x) {
            let i = choose|i: int| 0 <= i < d.len() && d[i] == x;
            if !s.drop_last().contains(s.last()) {
                assert(d.push(s.last())[i] == x);
            }
        }
        if !s.drop_last().contains(s.last()) && x == s.last() {
            assert(d.push(s.last())[d.len() as int] == x);
        }
    }
}

/// `dedup` yields no repeated element.
pub proof fn lemma_dedup_no_duplicates(s: Seq<Seq<char>>)
    ensures
        dedup(s).no_duplicates(),
    decreases s.len(),
{
    if s.len() > 0 {
        lemma_dedup_no_duplicates(s.drop_last());
        lemma_dedup_contains(s.drop_last(), s.last());
    }
}

/// Whether `x` is among the strings of `v`.
pub fn contains_string(v: &Vec<String>, x: &Vec<char>) -> (r: bool)
    ensures
        r == views(v@).contains(x@),
{
    let mut i: usize = 0;
    while i < v.len()
        invariant
            i <= v@.len(),
            forall|k: int| 0 <= k < i ==> v@[k]@ != x@,
        decreases v.len() - i,
    {
        let c = chars_of(v[i].as_str());
        if chars_eq(&c, x) {
            assert(views(v@)[i as int] == x@);
            return true;
        }
        i += 1;
    }
    proof {
        if views(v@).contains(x@) {
            let k = choose|k: int| 0 <= k < views(v@).len() && views(v@)[k] == x@;
            assert(v@[k]@ == x@);
        }
    }
    false
}

/// `string_array`: the distinct non-empty trimmed strings of an array value.
pub fn string_array_exec(v: Option<&Json>) -> (r: Vec<String>)
    ensures
        views(r@) == string_array(match v {
            Some(j) => Some(j@),
            None => None,
        }),
{
    let items = match v {
        Some(j) => match j.as_array() {
            Some(items) => items,
            None => {
                let r: Vec<String> = Vec::new();
                assert(views(r@) =~= Seq::<Seq<char>>::empty());
                return r;
            },
        },
        None => {
            let r: Vec<String> = Vec::new();
            assert(views(r@) =~= Seq::<Seq<char>>::empty());
            return r;
        },
    };
    proof {
        lemma_array_view(*items);
    }
    let ghost iv = items_view(items@, items@.len());
    let mut out: Vec<String> = Vec::new();
    let mut i: usize = 0;
    while i < items.len()
        invariant
            i <= items@.len(),
            iv.len() == items@.len(),
            forall|m: int| 0 <= m < items@.len() ==> #[trigger] iv[m] == items@[m]@,
            views(out@) == dedup(text_items(iv.subrange(0, i as int))),
        decreases items.len() - i,
    {
        let ghost before = iv.subrange(0, i as int);
        let ghost after = iv.subrange(0, i + 1);
        assert(after.drop_last() =~= before);
        assert(after.last() == items@[i as int]@);
        match items[i].as_str() {
            Some(s) => {
                match non_empty_str(s.as_str()) {
                    Some(t) => {
                        let tc = chars_of(t.as_str());
                        proof {
                            lemma_dedup_contains(text_items(before), t@);
                        }
                        let ghost t_view = t@;
                        let ghost old_views = views(out@);
                        assert(text_items(after) == text_items(before).push(t_view));
                        assert(text_items(after).drop_last() =~= text_items(before));
                        if !contains_string(&out, &tc) {
                            out.push(t);
                            assert(views(out@) =~= old_views.push(t_view));
                        }
                    },
                    None => {
                        assert(text_items(after) == text_items(before));
                    },
                }
            },
            None => {
                assert(text_items(after) == text_items(before));
            },
        }
        i += 1;
    }
    assert(iv.subrange(0, i as int) =~= iv);
    out
}

} // verus!

verus! {

/// The strings joined with `sep` between neighbours (`slice::join`).
pub open spec fn join(list: Seq<Seq<char>>, sep: Seq<char>) -> Seq<char>
    decreases list.len(),
{
    if list.len() == 0 {
        Seq::empty()
    } else if list.len() == 1 {
        list[0]
    } else {
        join(list.drop_last(), sep) + sep + list.last()
    }
}

/// The strings joined with `sep` between neighbours (`slice::join`).
pub fn join_strings(list: &Vec<String>, sep: &str) -> (r: String)
    ensures
        r@ == join(views(list@), sep@),
{
    let s = crate::text::chars_of(sep);
    let mut out: Vec<char> = Vec::new();
    let mut i: usize = 0;
    while i < list.len()
        invariant
            i <= list@.len(),
            s@ == sep@,
            out@ == join(views(list@).take(i as int), sep@),
        decreases list.len() - i,
    {
        let item = crate::text::chars_of(list[i].as_str());
        let ghost prev = views(list@).take(i as int);
        let ghost next = views(list@).take(i + 1);
        assert(next.drop_last() =~= prev);
        assert(next.last() == list@[i as int]@);
        if i > 0 {
            crate::text::append_chars(&mut out, &s);
        } else {
            assert(prev.len() == 0);
            assert(join(prev, sep@) =~= Seq::<char>::empty());
        }
        crate::text::append_chars(&mut out, &item);
        if i == 0 {
            assert(out@ =~= next[0]);
        }
        i += 1;
    }
    assert(views(list@).take(i as int) =~= views(list@));
    crate::text::string_from_chars(&out)
}

} // verus!
