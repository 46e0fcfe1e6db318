//! Stable ordering of lists by rank keys: a rank is a sequence of integers
//! compared lexicographically, and items with equal ranks keep the order they
//! came in (as `slice::sort_by` does).

use vstd::prelude::*;

verus! {

/// Whether rank `a` comes strictly before rank `b` when both are compared
/// from position `i` on: the first differing position decides, and a rank
/// that ends first comes first.
pub open spec fn rank_lt_from(a: Seq<i128>, b: Seq<i128>, i: nat) -> bool
    decreases a.len() - i,
{
    if i >= a.len() {
        i < b.len()
    } else if i >= b.len() {
        false
    } else if a[i as int] < b[i as int] {
        true
    } else if a[i as int] > b[i as int] {
        false
    } else {
        rank_lt_from(a, b, i + 1)
    }
}

/// Whether rank `a` comes strictly before rank `b`.
pub open spec fn rank_lt(a: Seq<i128>, b: Seq<i128>) -> bool {
    rank_lt_from(a, b, 0)
}

/// No rank comes before itself.
pub proof fn lemma_rank_irreflexive(a: Seq<i128>, i: nat)
    ensures
        !rank_lt_from(a, a, i),
    decreases a.len() - i,
{
    if i < a.len() {
        lemma_rank_irreflexive(a, i + 1);
    }
}

/// Coming before is transitive.
pub proof fn lemma_rank_transitive(a: Seq<i128>, b: Seq<i128>, c: Seq<i128>, i: nat)
    requires
        rank_lt_from(a, b, i),
        rank_lt_from(b, c, i),
    ensures
        rank_lt_from(a, c, i),
    decreases a.len() - i,
{
    if i < a.len() && i < b.len() && i < c.len() && a[i as int] == b[i as int] && b[i as int] == c[i as int] {
        lemma_rank_transitive(a, b, c, i + 1);
    }
}

/// `x` put into the ordered sequence `s`: before the first element whose rank
/// it comes strictly before, so after every element of equal rank.
pub open spec fn insert_ranked<T>(s: Seq<(Seq<i128>, T)>, x: (Seq<i128>, T)) -> Seq<(Seq<i128>, T)>
    decreases s.len(),
{
    if s.len() == 0 {
        seq![x]
    } else if rank_lt(x.0, s[0].0) {
        seq![x] + s
    } else {
        seq![s[0]] + insert_ranked(s.drop_first(), x)
    }
}

/// Where `insert_ranked` puts `x`.
pub open spec fn insert_position<T>(s: Seq<(Seq<i128>, T)>, x: (Seq<i128>, T)) -> nat
    decreases s.len(),
{
    if s.len() == 0 {
        0
    } else if rank_lt(x.0, s[0].0) {
        0
    } else {
        1 + insert_position(s.drop_first(), x)
    }
}

/// The first `n` elements of `s`, ordered by rank; equal ranks keep their
/// order.
pub open spec fn rank_sorted<T>(s: Seq<(Seq<i128>, T)>, n: nat) -> Seq<(Seq<i128>, T)>
    decreases n,
{
    if n == 0 || n > s.len() {
        Seq::empty()
    } else {
        insert_ranked(rank_sorted(s, (n - 1) as nat), s[n - 1])
    }
}

/// Whether no element's rank comes before that of an earlier element.
pub open spec fn rank_ordered<T>(s: Seq<(Seq<i128>, T)>) -> bool {
    forall|i: int, j: int| 0 <= i < j < s.len() ==> !rank_lt(#[trigger] s[j].0, #[trigger] s[i].0)
}

proof fn lemma_insert_is_seq_insert<T>(s: Seq<(Seq<i128>, T)>, x: (Seq<i128>, T))
    ensures
        insert_position(s, x) <= s.len(),
        insert_ranked(s, x) == s.insert(insert_position(s, x) as int, x),
    decreases s.len(),
{
    if s.len() > 0 && !rank_lt(x.0, s[0].0) {
        lemma_insert_is_seq_insert(s.drop_first(), x);
        assert(insert_ranked(s, x) =~= s.insert(insert_position(s, x) as int, x));
    } else if s.len() > 0 {
        assert(insert_ranked(s, x) =~= s.insert(0, x));
    } else {
        assert(insert_ranked(s, x) =~= s.insert(0, x));
    }
}

/// The position found by scanning: the first element `x` comes before.
proof fn lemma_scan_position<T>(s: Seq<(Seq<i128>, T)>, x: (Seq<i128>, T), p: int)
    requires
        0 <= p <= s.len(),
        forall|q: int| 0 <= q < p ==> !rank_lt(x.0, #[trigger] s[q].0),
        p == s.len() || rank_lt(x.0, s[p].0),
    ensures
        insert_position(s, x) == p,
    decreases s.len(),
{
    if s.len() > 0 && p > 0 {
        let t = s.drop_first();
        assert forall|q: int| 0 <= q < p - 1 implies !rank_lt(x.0, #[trigger] t[q].0) by {
            assert(t[q] == s[q + 1]);
        }
        if p < s.len() {
            assert(t[p - 1] == s[p]);
        }
        lemma_scan_position(t, x, p - 1);
    }
}

/// The elements of `insert_ranked(s, x)` are `x` and those of `s`.
proof fn lemma_insert_elements<T>(s: Seq<(Seq<i128>, T)>, x: (Seq<i128>, T))
    ensures
        forall|k: int| 0 <= k < insert_ranked(s, x).len() ==> #[trigger] insert_ranked(s, x)[k] == x
            || s.contains(insert_ranked(s, x)[k]),
        insert_ranked(s, x).len() == s.len() + 1,
    decreases s.len(),
{
    if s.len() > 0 && !rank_lt(x.0, s[0].0) {
        let t = s.drop_first();
        lemma_insert_elements(t, x);
        let r = insert_ranked(s, x);
        assert forall|k: int| 0 <= k < r.len() implies #[trigger] r[k] == x || s.contains(r[k]) by {
            if k == 0 {
                assert(r[0] == s[0]);
            } else {
                assert(r[k] == insert_ranked(t, x)[k - 1]);
                if insert_ranked(t, x)[k - 1] != x {
                    let m = choose|m: int| 0 <= m < t.len() && t[m] == insert_ranked(t, x)[k - 1];
                    assert(s[m + 1] == t[m]);
                }
            }
        }
    } else if s.len() > 0 {
        let r = insert_ranked(s, x);
        assert forall|k: int| 0 <= k < r.len() implies #[trigger] r[k] == x || s.contains(r[k]) by {
            if k > 0 {
                assert(r[k] == s[k - 1]);
            }
        }
    }
}

/// Putting an element into an ordered sequence keeps it ordered.
proof fn lemma_insert_keeps_order<T>(s: Seq<(Seq<i128>, T)>, x: (Seq<i128>, T))
    requires
        rank_ordered(s),
    ensures
        rank_ordered(insert_ranked(s, x)),
    decreases s.len(),
{
    let r = insert_ranked(s, x);
    if s.len() == 0 {
    } else if rank_lt(x.0, s[0].0) {
        assert forall|i: int, j: int| 0 <= i < j < r.len() implies !rank_lt(#[trigger] r[j].0, #[trigger] r[i].0) by {
            if i == 0 {
                assert(r[j] == s[j - 1]);
                if rank_lt(s[j - 1].0, x.0) {
                    lemma_rank_transitive(s[j - 1].0, x.0, s[0].0, 0);
                    if j - 1 == 0 {
                        lemma_rank_irreflexive(s[0].0, 0);
                    }
                }
            } else {
                assert(r[i] == s[i - 1]);
                assert(r[j] == s[j - 1]);
            }
        }
    } else {
        let t = s.drop_first();
        assert(rank_ordered(t)) by {
            assert forall|i: int, j: int| 0 <= i < j < t.len() implies !rank_lt(#[trigger] t[j].0, #[trigger] t[i].0) by {
                assert(t[i] == s[i + 1]);
                assert(t[j] == s[j + 1]);
            }
        }
        lemma_insert_keeps_order(t, x);
        lemma_insert_elements(t, x);
        let u = insert_ranked(t, x);
        assert forall|i: int, j: int| 0 <= i < j < r.len() implies !rank_lt(#[trigger] r[j].0, #[trigger] r[i].0) by {
            if i == 0 {
                assert(r[0] == s[0]);
                assert(r[j] == u[j - 1]);
                if u[j - 1] != x {
                    let m = choose|m: int| 0 <= m < t.len() && t[m] == u[j - 1];
                    assert(s[m + 1] == t[m]);
                }
            } else {
                assert(r[i] == u[i - 1]);
                assert(r[j] == u[j - 1]);
            }
        }
    }
}

/// The ranked order is ordered: no element's rank comes before that of an
/// earlier element.
pub proof fn lemma_rank_sorted_is_ordered<T>(s: Seq<(Seq<i128>, T)>, n: nat)
    ensures
        rank_ordered(rank_sorted(s, n)),
    decreases n,
{
    if n > 0 && n <= s.len() {
        lemma_rank_sorted_is_ordered(s, (n - 1) as nat);
        lemma_insert_keeps_order(rank_sorted(s, (n - 1) as nat), s[n - 1]);
    }
}

/// The ranked order of the first `n` elements has `n` elements.
pub proof fn lemma_rank_sorted_len<T>(s: Seq<(Seq<i128>, T)>, n: nat)
    requires
        n <= s.len(),
    ensures
        rank_sorted(s, n).len() == n,
    decreases n,
{
    if n > 0 {
        lemma_rank_sorted_len(s, (n - 1) as nat);
        lemma_insert_elements(rank_sorted(s, (n - 1) as nat), s[n - 1]);
    }
}

/// The ranked order holds exactly the elements it was given, each as often.
pub proof fn lemma_rank_sorted_is_permutation<T>(s: Seq<(Seq<i128>, T)>, n: nat)
    requires
        n <= s.len(),
    ensures
        rank_sorted(s, n).to_multiset() == s.subrange(0, n as int).to_multiset(),
    decreases n,
{
    if n == 0 {
        assert(s.subrange(0, 0) =~= Seq::<(Seq<i128>, T)>::empty());
        assert(rank_sorted(s, 0) =~= Seq::<(Seq<i128>, T)>::empty());
    } else {
        let prev = rank_sorted(s, (n - 1) as nat);
        lemma_rank_sorted_is_permutation(s, (n - 1) as nat);
        lemma_insert_is_seq_insert(prev, s[n - 1]);
        vstd::seq_lib::to_multiset_insert(prev, insert_position(prev, s[n - 1]) as int, s[n - 1]);
        assert(s.subrange(0, n as int) =~= s.subrange(0, n - 1).push(s[n - 1]));
        vstd::seq_lib::to_multiset_build(s.subrange(0, n - 1), s[n - 1]);
    }
}

/// The ranked elements with `f` applied to each item (ranks unchanged).
pub open spec fn map_items<T, U>(s: Seq<(Seq<i128>, T)>, f: spec_fn(T) -> U) -> Seq<(Seq<i128>, U)> {
    s.map_values(|e: (Seq<i128>, T)| (e.0, f(e.1)))
}

proof fn lemma_insert_map<T, U>(s: Seq<(Seq<i128>, T)>, x: (Seq<i128>, T), f: spec_fn(T) -> U)
    ensures
        map_items(insert_ranked(s, x), f) == insert_ranked(map_items(s, f), (x.0, f(x.1))),
    decreases s.len(),
{
    let ms = map_items(s, f);
    if s.len() == 0 {
        assert(map_items(insert_ranked(s, x), f) =~= seq![(x.0, f(x.1))]);
    } else if rank_lt(x.0, s[0].0) {
        assert(ms[0].0 == s[0].0);
        assert(map_items(insert_ranked(s, x), f) =~= seq![(x.0, f(x.1))] + ms);
    } else {
        assert(ms[0].0 == s[0].0);
        lemma_insert_map(s.drop_first(), x, f);
        assert(map_items(s.drop_first(), f) =~= ms.drop_first());
        assert(map_items(insert_ranked(s, x), f) =~= seq![ms[0]] + map_items(insert_ranked(s.drop_first(), x), f));
    }
}

/// Ordering by rank does not depend on the items: ordering and then mapping
/// the items is mapping and then ordering.
pub proof fn lemma_rank_sorted_map<T, U>(s: Seq<(Seq<i128>, T)>, n: nat, f: spec_fn(T) -> U)
    ensures
        map_items(rank_sorted(s, n), f) == rank_sorted(map_items(s, f), n),
    decreases n,
{
    if n == 0 || n > s.len() {
        assert(map_items(rank_sorted(s, n), f) =~= Seq::<(Seq<i128>, U)>::empty());
    } else {
        lemma_rank_sorted_map(s, (n - 1) as nat, f);
        lemma_insert_map(rank_sorted(s, (n - 1) as nat), s[n - 1], f);
        assert(map_items(s, f)[n - 1] == (s[n - 1].0, f(s[n - 1].1)));
    }
}

/// The items of ranked elements, in order.
pub open spec fn items_of<T>(s: Seq<(Seq<i128>, T)>) -> Seq<T> {
    s.map_values(|e: (Seq<i128>, T)| e.1)
}

/// The first `n` of a sequence (all of it when shorter).
pub open spec fn first_n<T>(s: Seq<T>, n: int) -> Seq<T> {
    if n >= s.len() {
        s
    } else if n <= 0 {
        Seq::empty()
    } else {
        s.subrange(0, n)
    }
}

/// The rank of a text in descending order: each character's code negated,
/// then a final `1`, so that a text comes before every text it is a proper
/// prefix of and every text that is smaller at the first difference.
pub open spec fn text_desc_rank(t: Seq<char>) -> Seq<i128> {
    t.map_values(|c: char| (-((c as u32) as int)) as i128).push(1)
}

/// The descending rank of a text.
pub fn text_desc_rank_exec(t: &str) -> (r: Vec<i128>)
    ensures
        r@ == text_desc_rank(t@),
{
    let v = crate::text::chars_of(t);
    let mut out: Vec<i128> = Vec::new();
    let mut i: usize = 0;
    while i < v.len()
        invariant
            i <= v@.len(),
            v@ == t@,
            out@ == v@.subrange(0, i as int).map_values(|c: char| (-((c as u32) as int)) as i128),
        decreases v.len() - i,
    {
        let c = v[i];
        let code: u32 = c as u32;
        out.push(-(code as i128));
        assert(v@.subrange(0, i + 1) =~= v@.subrange(0, i as int).push(c));
        assert(out@ =~= v@.subrange(0, i + 1).map_values(|c: char| (-((c as u32) as int)) as i128));
        i += 1;
    }
    out.push(1);
    assert(v@.subrange(0, v@.len() as int) =~= v@);
    out
}

/// Moves the first `n` items of ranked elements out, in order.
pub fn take_items<T>(v: Vec<(Vec<i128>, T)>, n: usize) -> (r: Vec<T>)
    ensures
        r@ == first_n(items_of(ranked_view(v@)), n as int),
{
    let ghost all = items_of(ranked_view(v@));
    let mut rest = v;
    let mut out: Vec<T> = Vec::new();
    while out.len() < n && rest.len() > 0
        invariant
            out@.len() <= n,
            out@ + items_of(ranked_view(rest@)) == all,
        decreases rest.len(),
    {
        let ghost old_rest = rest@;
        let (_, item) = rest.remove(0);
        assert(items_of(ranked_view(old_rest)) =~= seq![item] + items_of(ranked_view(rest@)));
        out.push(item);
        assert(out@ + items_of(ranked_view(rest@)) =~= all);
    }
    if out.len() >= n {
        assert(all.subrange(0, n as int) =~= out@);
    } else {
        assert(out@ =~= all);
    }
    out
}

/// Whether rank `a` comes strictly before rank `b`.
pub fn rank_less(a: &Vec<i128>, b: &Vec<i128>) -> (r: bool)
    ensures
        r == rank_lt(a@, b@),
{
    let mut i: usize = 0;
    while i < a.len() && i < b.len() && a[i] == b[i]
        invariant
            i <= a@.len(),
            i <= b@.len(),
            rank_lt(a@, b@) == rank_lt_from(a@, b@, i as nat),
        decreases a.len() - i,
    {
        i += 1;
    }
    if i >= a.len() {
        i < b.len()
    } else if i >= b.len() {
        false
    } else {
        a[i] < b[i]
    }
}

/// The ranks and items of a list as values.
pub open spec fn ranked_view<T>(v: Seq<(Vec<i128>, T)>) -> Seq<(Seq<i128>, T)> {
    v.map_values(|p: (Vec<i128>, T)| (p.0@, p.1))
}

/// Orders ranked items by rank; items of equal rank keep their order.
pub fn sort_by_rank<T>(v: Vec<(Vec<i128>, T)>) -> (r: Vec<(Vec<i128>, T)>)
    ensures
        ranked_view(r@) == rank_sorted(ranked_view(v@), v@.len()),
{
    let ghost orig = ranked_view(v@);
    let n0 = v.len();
    let ghost n = n0 as nat;
    let mut rest = v;
    let mut out: Vec<(Vec<i128>, T)> = Vec::new();
    let mut k: usize = 0;
    while rest.len() > 0
        invariant
            k + rest@.len() == n,
            n <= usize::MAX,
            orig.len() == n,
            ranked_view(rest@) == orig.subrange(k as int, n as int),
            ranked_view(out@) == rank_sorted(orig, k as nat),
        decreases rest.len(),
    {
        let ghost old_rest = rest@;
        let x = rest.remove(0);
        assert(ranked_view(old_rest)[0] == orig[k as int]);
        assert(ranked_view(rest@) =~= ranked_view(old_rest).subrange(1, old_rest.len() as int));
        assert(ranked_view(rest@) =~= orig.subrange(k + 1, n as int));
        assert(orig[k as int] == (x.0@, x.1));
        let ghost xv = (x.0@, x.1);
        let ghost before = ranked_view(out@);
        let mut p: usize = 0;
        while p < out.len() && !rank_less(&x.0, &out[p].0)
            invariant
                p <= out@.len(),
                before == ranked_view(out@),
                xv == (x.0@, x.1),
                forall|q: int| 0 <= q < p ==> !rank_lt(xv.0, #[trigger] before[q].0),
            decreases out.len() - p,
        {
            p += 1;
        }
        proof {
            lemma_scan_position(before, xv, p as int);
            lemma_insert_is_seq_insert(before, xv);
        }
        out.insert(p, x);
        assert(ranked_view(out@) =~= before.insert(p as int, xv));
        k += 1;
    }
    out
}

} // verus!
