//! Dates of the proleptic Gregorian calendar counted in days from
//! 1970-01-01, and UTC timestamps written as ISO 8601 text.

use vstd::prelude::*;
use crate::num::{dec_nat, dec_u64};

verus! {

/// Whether a year has a 29 February.
pub open spec fn is_leap(y: int) -> bool {
    (y % 4 == 0 && y % 100 != 0) || y % 400 == 0
}

/// The number of days of a month.
pub open spec fn month_days(y: int, m: int) -> int {
    if m == 2 {
        if is_leap(y) { 29 } else { 28 }
    } else if m == 4 || m == 6 || m == 9 || m == 11 {
        30
    } else {
        31
    }
}

/// The days of a year before the first of a month.
pub open spec fn days_before_month(y: int, m: int) -> int {
    let t: int = if m <= 1 { 0 } else if m == 2 { 31 } else if m == 3 { 59 } else if m == 4 { 90 }
        else if m == 5 { 120 } else if m == 6 { 151 } else if m == 7 { 181 } else if m == 8 { 212 }
        else if m == 9 { 243 } else if m == 10 { 273 } else if m == 11 { 304 } else { 334 };
    t + if m > 2 && is_leap(y) { 1int } else { 0int }
}

/// The leap years from year 0 up to, not including, year `y` (negative
/// for years before 0).
pub open spec fn leap_years_before(y: int) -> int {
    (y + 3) / 4 - (y + 99) / 100 + (y + 399) / 400
}

/// The days from 0000-01-01 to the first of January of year `y`.
pub open spec fn days_before_year(y: int) -> int {
    365 * y + leap_years_before(y)
}

/// The day number of a date: days since 1970-01-01.
pub open spec fn days_from_civil(y: int, m: int, d: int) -> int {
    days_before_year(y) + days_before_month(y, m) + d - 1 - 719528
}

/// Whether `(y, m, d)` is a date of the calendar.
pub open spec fn valid_date(y: int, m: int, d: int) -> bool {
    1 <= m <= 12 && 1 <= d <= month_days(y, m)
}

proof fn lemma_year_of_era(doe: u64)
    requires
        doe < 146097,
    ensures
        ({
            let yoe = (doe - doe / 1460 + doe / 36524 - doe / 146096) / 365;
            let doy = doe - (365 * yoe + yoe / 4 - yoe / 100);
            &&& yoe <= 399
            &&& 365 * yoe + yoe / 4 - yoe / 100 <= doe
            &&& doy <= 365
            &&& doy == 365 ==> ((yoe + 1) % 4 == 0 && ((yoe + 1) % 100 != 0 || yoe == 399))
        }),
{
    assert({
        let yoe = (doe - doe / 1460 + doe / 36524 - doe / 146096) / 365;
        let doy = doe - (365 * yoe + yoe / 4 - yoe / 100);
        &&& yoe <= 399
        &&& 365 * yoe + yoe / 4 - yoe / 100 <= doe
        &&& doy <= 365
        &&& doy == 365 ==> ((yoe + 1) % 4 == 0 && ((yoe + 1) % 100 != 0 || yoe == 399))
    }) by (bit_vector)
        requires doe < 146097;
}

/// The length of the month `mp` months after March (February last).
pub open spec fn march_month_days(mp: int) -> int {
    if mp == 11 { 29 } else if mp == 1 || mp == 3 || mp == 6 || mp == 8 { 30 } else { 31 }
}

proof fn lemma_month_of_year(doy: u64)
    requires
        doy <= 365,
    ensures
        ({
            let mp = (5 * doy + 2) / 153;
            &&& mp <= 11
            &&& (153 * mp + 2) / 5 <= doy
            &&& doy - (153 * mp + 2) / 5 < march_month_days(mp as int)
        }),
{
    assert({
        let mp = (5 * doy + 2) / 153;
        &&& mp <= 11
        &&& (153 * mp + 2) / 5 <= doy
        &&& doy - (153 * mp + 2) / 5 < (if mp == 11 { 29u64 } else if mp == 1 || mp == 3 || mp == 6 || mp == 8 { 30u64 } else { 31u64 })
    }) by (bit_vector)
        requires doy <= 365;
}

proof fn lemma_leaps_step(yoe: u64)
    requires
        yoe <= 399,
    ensures
        (yoe + 3) / 4 - (yoe + 99) / 100 + (yoe + 399) / 400
            + (if (yoe % 4 == 0 && yoe % 100 != 0) || yoe % 400 == 0 { 1int } else { 0int })
            == yoe / 4 - yoe / 100 + 1,
        (yoe + 4) / 4 - (yoe + 100) / 100 + (yoe + 400) / 400 == yoe / 4 - yoe / 100 + 1,
{
    assert((yoe + 3) / 4 - (yoe + 99) / 100 + (yoe + 399) / 400
            + (if (yoe % 4 == 0 && yoe % 100 != 0) || yoe % 400 == 0 { 1u64 } else { 0u64 })
            == yoe / 4 - yoe / 100 + 1) by (bit_vector)
        requires yoe <= 399;
    assert((yoe + 4) / 4 - (yoe + 100) / 100 + (yoe + 400) / 400 == yoe / 4 - yoe / 100 + 1) by (bit_vector)
        requires yoe <= 399;
}

proof fn lemma_era_shift(y: int, e: int)
    ensures
        leap_years_before(y + 400 * e) == 97 * e + leap_years_before(y),
        is_leap(y + 400 * e) == is_leap(y),
{
    lemma_div_shift(y + 3, 4, 100 * e);
    lemma_div_shift(y + 99, 100, 4 * e);
    lemma_div_shift(y + 399, 400, e);
    lemma_div_shift(y, 4, 100 * e);
    lemma_div_shift(y, 100, 4 * e);
    lemma_div_shift(y, 400, e);
    assert(y + 400 * e + 3 == (y + 3) + 4 * (100 * e));
    assert(y + 400 * e + 99 == (y + 99) + 100 * (4 * e));
    assert(y + 400 * e + 399 == (y + 399) + 400 * e);
    assert(y + 400 * e == y + 4 * (100 * e));
    assert(y + 400 * e == y + 100 * (4 * e));
}

proof fn lemma_div_shift(a: int, d: int, k: int)
    requires
        d > 0,
    ensures
        (a + d * k) / d == a / d + k,
        (a + d * k) % d == a % d,
{
    vstd::arithmetic::div_mod::lemma_fundamental_div_mod(a, d);
    vstd::arithmetic::div_mod::lemma_mod_bound(a, d);
    assert((a / d + k) * d + a % d == a + d * k) by (nonlinear_arith)
        requires a == d * (a / d) + a % d;
    vstd::arithmetic::div_mod::lemma_fundamental_div_mod_converse(a + d * k, d, a / d + k, a % d);
}

#[verifier::rlimit(40)]
proof fn lemma_civil_correct(z: int, era: int, doe: int, yoe: int, doy: int, mp: int, d: int, m: int, year: int)
    requires
        z + 719468 == era * 146097 + doe,
        0 <= doe < 146097,
        0 <= yoe <= 399,
        doy == doe - (365 * yoe + yoe / 4 - yoe / 100),
        0 <= doy <= 365,
        doy == 365 ==> ((yoe + 1) % 4 == 0 && ((yoe + 1) % 100 != 0 || yoe == 399)),
        leap_years_before(yoe) + (if is_leap(yoe) { 1int } else { 0int }) == yoe / 4 - yoe / 100 + 1,
        leap_years_before(yoe + 1) == yoe / 4 - yoe / 100 + 1,
        0 <= mp <= 11,
        (153 * mp + 2) / 5 <= doy,
        doy - (153 * mp + 2) / 5 < march_month_days(mp),
        d == doy - (153 * mp + 2) / 5 + 1,
        m == if mp < 10 { mp + 3 } else { mp - 9 },
        year == if m <= 2 { yoe + era * 400 + 1 } else { yoe + era * 400 },
    ensures
        valid_date(year, m, d),
        days_from_civil(year, m, d) == z,
{
    let yy = yoe + 400 * era;
    lemma_era_shift(yoe, era);
    lemma_era_shift(yoe + 1, era);
    assert(yoe + 1 + 400 * era == yy + 1);
    let lp: int = if is_leap(yy) { 1 } else { 0 };
    let q = yoe / 4 - yoe / 100;
    assert(leap_years_before(yy) + lp == 97 * era + q + 1);
    assert(leap_years_before(yy + 1) == 97 * era + q + 1);
    assert(days_before_year(yy) + lp == 146097 * era + 365 * yoe + q + 1);
    assert(days_before_year(yy + 1) == 146097 * era + 365 * yoe + 365 + q + 1);
    assert(z == 146097 * era + 365 * yoe + q + doy - 719468);
    let c = (153 * mp + 2) / 5;
    if mp == 0 { assert(c == 0); }
    else if mp == 1 { assert(c == 31); }
    else if mp == 2 { assert(c == 61); }
    else if mp == 3 { assert(c == 92); }
    else if mp == 4 { assert(c == 122); }
    else if mp == 5 { assert(c == 153); }
    else if mp == 6 { assert(c == 184); }
    else if mp == 7 { assert(c == 214); }
    else if mp == 8 { assert(c == 245); }
    else if mp == 9 { assert(c == 275); }
    else if mp == 10 { assert(c == 306); }
    else {
        assert(c == 337);
        if d == 29 {
            assert(doy == 365);
            assert(is_leap(yoe + 1));
        }
    }
}

proof fn lemma_era_parts(doe: int)
    requires
        0 <= doe < 146097,
    ensures
        ({
            let yoe = (doe - doe / 1460 + doe / 36524 - doe / 146096) / 365;
            let doy = doe - (365 * yoe + yoe / 4 - yoe / 100);
            let mp = (5 * doy + 2) / 153;
            &&& 0 <= yoe <= 399
            &&& 0 <= doy <= 365
            &&& doy == 365 ==> ((yoe + 1) % 4 == 0 && ((yoe + 1) % 100 != 0 || yoe == 399))
            &&& leap_years_before(yoe) + (if is_leap(yoe) { 1int } else { 0int }) == yoe / 4 - yoe / 100 + 1
            &&& leap_years_before(yoe + 1) == yoe / 4 - yoe / 100 + 1
            &&& 0 <= mp <= 11
            &&& (153 * mp + 2) / 5 <= doy
            &&& doy - (153 * mp + 2) / 5 < march_month_days(mp)
        }),
{
    let du = doe as u64;
    lemma_year_of_era(du);
    let yoe = (doe - doe / 1460 + doe / 36524 - doe / 146096) / 365;
    assert(yoe == (du - du / 1460 + du / 36524 - du / 146096) / 365);
    let yu = yoe as u64;
    lemma_leaps_step(yu);
    assert(yu as int == yoe);
    let doy = doe - (365 * yoe + yoe / 4 - yoe / 100);
    let ou = doy as u64;
    lemma_month_of_year(ou);
    assert(ou as int == doy);
}

/// The date of a day number: the year, month (1 to 12) and day (from 1)
/// that fall that many days after 1970-01-01 (before it when negative).
pub fn civil_from_days(z: i64) -> (r: (i64, i64, i64))
    requires
        -0x100_0000_0000 <= z <= 0x100_0000_0000,
    ensures
        valid_date(r.0 as int, r.1 as int, r.2 as int),
        days_from_civil(r.0 as int, r.1 as int, r.2 as int) == z,
{
    let zp: i64 = z + 719468;
    let era: i64 = if zp >= 0 { zp / 146097 } else { -((146096 - zp) / 146097) };
    assert(era * 146097 <= zp < era * 146097 + 146097);
    let doe: i64 = zp - era * 146097;
    proof { lemma_era_parts(doe as int); }
    let yoe: i64 = (doe - doe / 1460 + doe / 36524 - doe / 146096) / 365;
    let y: i64 = yoe + era * 400;
    let doy: i64 = doe - (365 * yoe + yoe / 4 - yoe / 100);
    let mp: i64 = (5 * doy + 2) / 153;
    let d: i64 = doy - (153 * mp + 2) / 5 + 1;
    let m: i64 = if mp < 10 { mp + 3 } else { mp - 9 };
    let year: i64 = if m <= 2 { y + 1 } else { y };
    proof {
        lemma_civil_correct(z as int, era as int, doe as int, yoe as int, doy as int, mp as int, d as int, m as int, year as int);
    }
    (year, m, d)
}

/// The leap years before `y + 1` are those before `y`, and `y` itself when
/// it is a leap year.
pub proof fn lemma_leap_years_step(y: int)
    ensures
        leap_years_before(y + 1) == leap_years_before(y) + if is_leap(y) { 1int } else { 0int },
{
    let e = y / 400;
    let r = y % 400;
    vstd::arithmetic::div_mod::lemma_fundamental_div_mod(y, 400);
    assert(y == r + 400 * e);
    lemma_era_shift(r, e);
    lemma_era_shift(r + 1, e);
    assert(y + 1 == (r + 1) + 400 * e);
    lemma_leaps_step(r as u64);
    assert((r as u64) as int == r);
}

/// Where a date falls in its year: from 0 up to the year's length.
proof fn lemma_day_of_year_bounds(y: int, m: int, d: int)
    requires
        valid_date(y, m, d),
    ensures
        0 <= days_before_month(y, m) + d - 1 < 365 + if is_leap(y) { 1int } else { 0int },
{
}

proof fn lemma_month_step(y: int, m: int)
    requires
        1 <= m <= 11,
    ensures
        days_before_month(y, m + 1) == days_before_month(y, m) + month_days(y, m),
{
}

proof fn lemma_months_ordered(y: int, m1: int, m2: int)
    requires
        1 <= m1 < m2 <= 12,
    ensures
        days_before_month(y, m2) >= days_before_month(y, m1) + month_days(y, m1),
    decreases m2 - m1,
{
    lemma_month_step(y, m2 - 1);
    if m1 < m2 - 1 {
        lemma_months_ordered(y, m1, m2 - 1);
    }
}

proof fn lemma_years_ordered(y1: int, y2: int)
    requires
        y1 < y2,
    ensures
        days_before_year(y2) >= days_before_year(y1) + 365 + if is_leap(y1) { 1int } else { 0int },
    decreases y2 - y1,
{
    lemma_leap_years_step(y2 - 1);
    if y1 < y2 - 1 {
        lemma_years_ordered(y1, y2 - 1);
    }
    lemma_leap_years_step(y1);
}

/// Each day number is the day number of one date only.
pub proof fn lemma_day_number_unique(y1: int, m1: int, d1: int, y2: int, m2: int, d2: int)
    requires
        valid_date(y1, m1, d1),
        valid_date(y2, m2, d2),
        days_from_civil(y1, m1, d1) == days_from_civil(y2, m2, d2),
    ensures
        y1 == y2 && m1 == m2 && d1 == d2,
{
    lemma_day_of_year_bounds(y1, m1, d1);
    lemma_day_of_year_bounds(y2, m2, d2);
    if y1 < y2 {
        lemma_years_ordered(y1, y2);
    } else if y2 < y1 {
        lemma_years_ordered(y2, y1);
    } else {
        if m1 < m2 {
            lemma_months_ordered(y1, m1, m2);
        } else if m2 < m1 {
            lemma_months_ordered(y1, m2, m1);
        }
    }
}

/// `n` in decimal, with zeros in front up to `width` characters.
pub open spec fn zero_padded(n: nat, width: nat) -> Seq<char> {
    let digits = dec_nat(n);
    if digits.len() >= width {
        digits
    } else {
        Seq::new((width - digits.len()) as nat, |i: int| '0') + digits
    }
}

/// `n` as `format!("{:0w$}")` writes it: zero-padded to `width`
/// characters, the sign counted in the width.
pub open spec fn signed_padded(n: int, width: nat) -> Seq<char> {
    if n < 0 {
        seq!['-'] + zero_padded((-n) as nat, if width > 0 { (width - 1) as nat } else { 0 })
    } else {
        zero_padded(n as nat, width)
    }
}

fn zero_padded_exec(n: u64, width: usize) -> (r: Vec<char>)
    ensures
        r@ == zero_padded(n as nat, width as nat),
{
    let digits = dec_u64(n);
    if digits.len() >= width {
        return digits;
    }
    let fill = width - digits.len();
    let mut out: Vec<char> = Vec::new();
    let mut i: usize = 0;
    while i < fill
        invariant
            i <= fill,
            out@ == Seq::new(i as nat, |k: int| '0'),
        decreases fill - i,
    {
        out.push('0');
        assert(out@ =~= Seq::new((i + 1) as nat, |k: int| '0'));
        i += 1;
    }
    crate::text::append_chars(&mut out, &digits);
    out
}

fn signed_padded_exec(n: i64, width: usize) -> (r: Vec<char>)
    requires
        width > 0,
    ensures
        r@ == signed_padded(n as int, width as nat),
{
    if n < 0 {
        let wide: i128 = n as i128;
        let m: u64 = (-wide) as u64;
        let mut out: Vec<char> = Vec::new();
        out.push('-');
        let digits = zero_padded_exec(m, width - 1);
        crate::text::append_chars(&mut out, &digits);
        assert(out@ =~= seq!['-'] + zero_padded((-(n as int)) as nat, (width - 1) as nat));
        out
    } else {
        zero_padded_exec(n as u64, width)
    }
}

/// A UTC instant written as `YYYY-MM-DDTHH:MM:SS.mmmZ`: the date, the
/// time of day from its second of the day, and the milliseconds.
pub open spec fn iso_text(y: int, m: int, d: int, sod: nat, millis: nat) -> Seq<char> {
    signed_padded(y, 4) + "-"@ + zero_padded(m as nat, 2) + "-"@ + zero_padded(d as nat, 2)
        + "T"@ + zero_padded(sod / 3600, 2) + ":"@ + zero_padded((sod % 3600) / 60, 2)
        + ":"@ + zero_padded(sod % 60, 2) + "."@ + zero_padded(millis, 3) + "Z"@
}

/// The instants the calendar writes: up to 2^40 days after 1970.
pub open spec fn max_epoch_seconds() -> nat {
    0x100_0000_0000 * 86400
}

/// Writes the UTC instant `secs` seconds and `millis` milliseconds after
/// 1970-01-01T00:00:00Z in ISO 8601 form.
pub fn utc_iso(secs: u64, millis: u32) -> (r: String)
    requires
        secs <= max_epoch_seconds(),
    ensures
        exists|y: int, m: int, d: int| #![auto]
            valid_date(y, m, d) && days_from_civil(y, m, d) == secs / 86400
            && r@ == iso_text(y, m, d, (secs % 86400) as nat, millis as nat),
{
    let days: i64 = (secs / 86400) as i64;
    let sod: u64 = secs % 86400;
    let (y, m, d) = civil_from_days(days);
    let mut out = signed_padded_exec(y, 4);
    crate::text::append_str(&mut out, "-");
    crate::text::append_chars(&mut out, &zero_padded_exec(m as u64, 2));
    crate::text::append_str(&mut out, "-");
    crate::text::append_chars(&mut out, &zero_padded_exec(d as u64, 2));
    crate::text::append_str(&mut out, "T");
    crate::text::append_chars(&mut out, &zero_padded_exec(sod / 3600, 2));
    crate::text::append_str(&mut out, ":");
    crate::text::append_chars(&mut out, &zero_padded_exec((sod % 3600) / 60, 2));
    crate::text::append_str(&mut out, ":");
    crate::text::append_chars(&mut out, &zero_padded_exec(sod % 60, 2));
    crate::text::append_str(&mut out, ".");
    crate::text::append_chars(&mut out, &zero_padded_exec(millis as u64, 3));
    crate::text::append_str(&mut out, "Z");
    assert(out@ =~= iso_text(y as int, m as int, d as int, sod as nat, millis as nat));
    crate::text::string_from_chars(&out)
}

} // verus!
