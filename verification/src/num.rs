//! Decimal rendering of integers.

use vstd::prelude::*;

verus! {

/// The ASCII digit for `d` (`0 <= d < 10`).
pub open spec fn digit(d: int) -> char {
    if d == 0 { '0' }
    else if d == 1 { '1' }
    else if d == 2 { '2' }
    else if d == 3 { '3' }
    else if d == 4 { '4' }
    else if d == 5 { '5' }
    else if d == 6 { '6' }
    else if d == 7 { '7' }
    else if d == 8 { '8' }
    else { '9' }
}

/// The decimal digits of a natural number, most significant first, without
/// leading zeros (`"0"` for zero).
pub open spec fn dec_nat(n: nat) -> Seq<char>
    decreases n,
{
    if n < 10 {
        seq![digit(n as int)]
    } else {
        dec_nat(n / 10).push(digit((n % 10) as int))
    }
}

/// The decimal form of an integer, as `i64`'s `Display` writes it.
pub open spec fn dec_int(n: int) -> Seq<char> {
    if n < 0 {
        seq!['-'] + dec_nat((-n) as nat)
    } else {
        dec_nat(n as nat)
    }
}

fn digit_exec(d: u64) -> (c: char)
    requires
        d < 10,
    ensures
        c == digit(d as int),
{
    if d == 0 { '0' }
    else if d == 1 { '1' }
    else if d == 2 { '2' }
    else if d == 3 { '3' }
    else if d == 4 { '4' }
    else if d == 5 { '5' }
    else if d == 6 { '6' }
    else if d == 7 { '7' }
    else if d == 8 { '8' }
    else { '9' }
}

/// The decimal digits of `n`.
pub fn dec_u64(n: u64) -> (r: Vec<char>)
    ensures
        r@ == dec_nat(n as nat),
    decreases n,
{
    if n < 10 {
        let mut v: Vec<char> = Vec::new();
        v.push(digit_exec(n));
        assert(v@ =~= seq![digit(n as int)]);
        v
    } else {
        let mut v = dec_u64(n / 10);
        v.push(digit_exec(n % 10));
        v
    }
}

/// The decimal form of `n`, with a leading `-` when it is negative.
pub fn dec_i64(n: i64) -> (r: Vec<char>)
    ensures
        r@ == dec_int(n as int),
{
    if n < 0 {
        let wide: i128 = n as i128;
        let m: u64 = (-wide) as u64;
        let digits = dec_u64(m);
        let mut v: Vec<char> = Vec::new();
        v.push('-');
        crate::text::append_chars(&mut v, &digits);
        assert(v@ =~= seq!['-'] + dec_nat((-(n as int)) as nat));
        v
    } else {
        dec_u64(n as u64)
    }
}

// ---------------------------------------------------------------------------
// Parsing decimal integers, as `str::parse` does
// ---------------------------------------------------------------------------

/// Whether every character of `s` is an ASCII digit.
pub open spec fn all_digits(s: Seq<char>) -> bool {
    forall|i: int| 0 <= i < s.len() ==> '0' <= #[trigger] s[i] <= '9'
}

/// The value of a string of ASCII digits.
pub open spec fn digits_value(s: Seq<char>) -> nat
    decreases s.len(),
{
    if s.len() == 0 {
        0
    } else {
        digits_value(s.drop_last()) * 10 + ((s.last() as int) - ('0' as int)) as nat
    }
}

/// The digits after an optional leading `+`.
pub open spec fn unsigned_body(s: Seq<char>) -> Seq<char> {
    if s.len() > 0 && s[0] == '+' {
        s.subrange(1, s.len() as int)
    } else {
        s
    }
}

/// What `str::parse::<u32>` gives: an optional `+`, then one or more ASCII
/// digits whose value fits in `u32`.
pub open spec fn parse_u32_text(s: Seq<char>) -> Option<u32> {
    let d = unsigned_body(s);
    if d.len() == 0 || !all_digits(d) || digits_value(d) > u32::MAX {
        None
    } else {
        Some(digits_value(d) as u32)
    }
}

/// The digits after an optional leading `+` or `-`.
pub open spec fn signed_body(s: Seq<char>) -> Seq<char> {
    if s.len() > 0 && (s[0] == '+' || s[0] == '-') {
        s.subrange(1, s.len() as int)
    } else {
        s
    }
}

/// What `str::parse::<i64>` gives: an optional sign, then one or more ASCII
/// digits whose signed value fits in `i64`.
pub open spec fn parse_i64_text(s: Seq<char>) -> Option<i64> {
    let d = signed_body(s);
    let negative = s.len() > 0 && s[0] == '-';
    let v: int = if negative { -(digits_value(d) as int) } else { digits_value(d) as int };
    if d.len() == 0 || !all_digits(d) || v < i64::MIN || v > i64::MAX {
        None
    } else {
        Some(v as i64)
    }
}

proof fn lemma_digits_prefix_mono(s: Seq<char>, i: int, j: int)
    requires
        0 <= i <= j <= s.len(),
        all_digits(s),
    ensures
        digits_value(s.take(i)) <= digits_value(s.take(j)),
    decreases j - i,
{
    if i < j {
        lemma_digits_prefix_mono(s, i, j - 1);
        assert(s.take(j).drop_last() =~= s.take(j - 1));
        assert('0' <= s[j - 1] <= '9');
    }
}

/// The value of the digits `v[start..]`, when they are all digits and the
/// value is at most `limit`.
fn digits_upto(v: &Vec<char>, start: usize, limit: u128) -> (r: Option<u128>)
    requires
        start <= v@.len(),
        limit < 0x1_0000_0000_0000_0000u128,
    ensures
        ({
            let d = v@.subrange(start as int, v@.len() as int);
            match r {
                Some(x) => all_digits(d) && x == digits_value(d) && x <= limit,
                None => !all_digits(d) || digits_value(d) > limit,
            }
        }),
{
    let ghost d = v@.subrange(start as int, v@.len() as int);
    let mut acc: u128 = 0;
    let mut i: usize = start;
    while i < v.len()
        invariant
            start <= i <= v@.len(),
            d == v@.subrange(start as int, v@.len() as int),
            limit < 0x1_0000_0000_0000_0000u128,
            all_digits(d.take(i - start)),
            acc == digits_value(d.take(i - start)),
            acc <= limit,
        decreases v.len() - i,
    {
        let c = v[i];
        if !('0' <= c && c <= '9') {
            assert(d[i - start] == c);
            return None;
        }
        let dv: u128 = (c as u32 - '0' as u32) as u128;
        let k = i - start;
        assert(d.take(k + 1).drop_last() =~= d.take(k as int));
        assert(d.take(k + 1).last() == c);
        acc = acc * 10 + dv;
        assert(all_digits(d.take(k + 1))) by {
            assert forall|m: int| 0 <= m < k + 1 implies '0' <= #[trigger] d.take(k + 1)[m] <= '9' by {
                if m < k {
                    assert(d.take(k + 1)[m] == d.take(k as int)[m]);
                }
            }
        }
        if acc > limit {
            proof {
                if all_digits(d) {
                    lemma_digits_prefix_mono(d, k + 1, d.len() as int);
                    assert(d.take(d.len() as int) =~= d);
                }
            }
            return None;
        }
        i += 1;
    }
    assert(d.take(i - start) =~= d);
    Some(acc)
}

/// `str::parse::<u32>`.
pub fn parse_u32(s: &str) -> (r: Option<u32>)
    ensures
        r == parse_u32_text(s@),
{
    let v = crate::text::chars_of(s);
    let start: usize = if v.len() > 0 && v[0] == '+' { 1 } else { 0 };
    assert(v@.subrange(start as int, v@.len() as int) == unsigned_body(s@));
    if start == v.len() {
        return None;
    }
    match digits_upto(&v, start, 0xffff_ffffu128) {
        Some(x) => Some(x as u32),
        None => None,
    }
}

/// `str::parse::<i64>`.
pub fn parse_i64(s: &str) -> (r: Option<i64>)
    ensures
        r == parse_i64_text(s@),
{
    let v = crate::text::chars_of(s);
    let negative = v.len() > 0 && v[0] == '-';
    let start: usize = if v.len() > 0 && (v[0] == '+' || v[0] == '-') { 1 } else { 0 };
    assert(v@.subrange(start as int, v@.len() as int) == signed_body(s@));
    if start == v.len() {
        return None;
    }
    let limit: u128 = if negative { 0x8000_0000_0000_0000u128 } else { 0x7fff_ffff_ffff_ffffu128 };
    match digits_upto(&v, start, limit) {
        Some(x) => {
            if negative {
                let w: i128 = -(x as i128);
                Some(w as i64)
            } else {
                Some(x as i64)
            }
        },
        None => None,
    }
}

/// A number below 100 in two digits (`format!("{:02}")`).
pub open spec fn two_digits(n: nat) -> Seq<char> {
    if n < 10 {
        seq!['0', digit(n as int)]
    } else {
        dec_nat(n)
    }
}

/// `format!("{:02}", n)` for `n < 100`.
pub fn pad2(n: u32) -> (r: Vec<char>)
    requires
        n < 100,
    ensures
        r@ == two_digits(n as nat),
{
    if n < 10 {
        let mut v: Vec<char> = Vec::new();
        v.push('0');
        v.push(digit_exec(n as u64));
        assert(v@ =~= seq!['0', digit(n as int)]);
        v
    } else {
        dec_u64(n as u64)
    }
}

/// The value of a non-empty run of ASCII digits that fits in `u64`.
pub open spec fn u64_digits(s: Seq<char>) -> Option<u64> {
    if s.len() == 0 || !all_digits(s) || digits_value(s) > u64::MAX {
        None
    } else {
        Some(digits_value(s) as u64)
    }
}

/// Reads a non-empty run of ASCII digits as a `u64`.
pub fn parse_u64_digits(s: &str) -> (r: Option<u64>)
    ensures
        r == u64_digits(s@),
{
    let v = crate::text::chars_of(s);
    if v.len() == 0 {
        return None;
    }
    assert(v@.subrange(0, v@.len() as int) =~= v@);
    match digits_upto(&v, 0, 0xffff_ffff_ffff_ffffu128) {
        Some(x) => Some(x as u64),
        None => None,
    }
}

} // verus!
