//! Calendar dates of epoch seconds, in UTC.
use crate::double::Double;
use crate::text;
use vstd::prelude::*;

verus! {

/// Whether a year has a 29 February.
pub open spec fn leap(y: int) -> bool {
    y % 4 == 0 && (y % 100 != 0 || y % 400 == 0)
}

pub open spec fn year_len(y: int) -> int {
    if leap(y) {
        366
    } else {
        365
    }
}

pub open spec fn month_len(y: int, m: int) -> int {
    if m == 2 {
        if leap(y) {
            29
        } else {
            28
        }
    } else if m == 4 || m == 6 || m == 9 || m == 11 {
        30
    } else {
        31
    }
}

/// Days from 1 January of year 0 to 1 January of year `y`.
pub open spec fn days_before_year(y: int) -> int {
    365 * y + (y + 3) / 4 - (y + 99) / 100 + (y + 399) / 400
}

/// Days from 1 January to the first of month `m`.
pub open spec fn days_before_month(y: int, m: int) -> int
    decreases m,
{
    if m <= 1 {
        0
    } else {
        days_before_month(y, m - 1) + month_len(y, m - 1)
    }
}

/// Days from 1 January 1970.
pub open spec fn day_number(y: int, m: int, d: int) -> int {
    days_before_year(y) + days_before_month(y, m) + d - 1 - 719528
}

/// Whether there is such a date.
pub open spec fn is_date(y: int, m: int, d: int) -> bool {
    1 <= m <= 12 && 1 <= d <= month_len(y, m)
}

/// Whether a date is so many days from 1 January 1970.
pub open spec fn falls_on(date: (int, int, int), days: int) -> bool {
    is_date(date.0, date.1, date.2) && day_number(date.0, date.1, date.2) == days
}

/// The date that many days from 1 January 1970.
pub open spec fn date_of(days: int) -> (int, int, int) {
    choose|t: (int, int, int)| falls_on(t, days)
}

/// Whole seconds since the epoch, cut off toward zero.
pub open spec fn seconds(now: Double) -> int {
    now.cast_spec(i64::MIN as int, i64::MAX as int)
}

/// Year, month, day, hour, minute and second.
pub open spec fn civil_spec(now: Double) -> (int, int, int, int, int, int) {
    let (y, m, d) = date_of(seconds(now) / 86400);
    let t = seconds(now) % 86400;
    (y, m, d, t / 3600, t / 60 % 60, t % 60)
}

proof fn lemma_year_step(y: int)
    ensures
        days_before_year(y + 1) == days_before_year(y) + year_len(y),
{
}

proof fn lemma_years_increase(a: int, b: int)
    requires
        a <= b,
    ensures
        days_before_year(a) + 365 * (b - a) <= days_before_year(b),
    decreases b - a,
{
    if a < b {
        lemma_years_increase(a, b - 1);
        lemma_year_step(b - 1);
    }
}

proof fn lemma_months(y: int, m: int)
    requires
        1 <= m <= 13,
    ensures
        0 <= days_before_month(y, m) <= year_len(y),
        m <= 12 ==> days_before_month(y, m) + month_len(y, m) <= year_len(y),
        days_before_month(y, 13) == year_len(y),
{
    reveal_with_fuel(days_before_month, 14);
}

proof fn lemma_months_increase(y: int, a: int, b: int)
    requires
        1 <= a < b <= 13,
    ensures
        days_before_month(y, a) + month_len(y, a) <= days_before_month(y, b),
    decreases b - a,
{
    if a < b - 1 {
        lemma_months_increase(y, a, b - 1);
    }
}

/// Two dates with the same day number are the same.
proof fn lemma_date_unique(s: (int, int, int), t: (int, int, int), days: int)
    requires
        falls_on(s, days),
        falls_on(t, days),
    ensures
        s == t,
{
    lemma_months(s.0, s.1);
    lemma_months(t.0, t.1);
    if s.0 < t.0 {
        lemma_years_increase(s.0 + 1, t.0);
        lemma_year_step(s.0);
    } else if t.0 < s.0 {
        lemma_years_increase(t.0 + 1, s.0);
        lemma_year_step(t.0);
    } else if s.1 < t.1 {
        lemma_months_increase(s.0, s.1, t.1);
    } else if t.1 < s.1 {
        lemma_months_increase(s.0, t.1, s.1);
    }
}

proof fn lemma_cycle(c: int, k: int)
    ensures
        days_before_year(400 * c + k) == 146097 * c + days_before_year(k),
        leap(400 * c + k) == leap(k),
{
    let y = 400 * c + k;
    vstd::arithmetic::div_mod::lemma_hoist_over_denominator(k + 3, 100 * c, 4);
    vstd::arithmetic::div_mod::lemma_hoist_over_denominator(k + 99, 4 * c, 100);
    vstd::arithmetic::div_mod::lemma_hoist_over_denominator(k + 399, c, 400);
    vstd::arithmetic::div_mod::lemma_mod_multiples_vanish(100 * c, k, 4);
    vstd::arithmetic::div_mod::lemma_mod_multiples_vanish(4 * c, k, 100);
    vstd::arithmetic::div_mod::lemma_mod_multiples_vanish(c, k, 400);
    assert((y + 3) / 4 == (k + 3) / 4 + 100 * c);
    assert((y + 99) / 100 == (k + 99) / 100 + 4 * c);
    assert((y + 399) / 400 == (k + 399) / 400 + c);
    assert(y % 4 == k % 4);
    assert(y % 100 == k % 100);
    assert(y % 400 == k % 400);
}

/// `a` divided by `d`, rounded down, and what is left.
fn split_by(a: i64, d: i64) -> (r: (i64, i64))
    requires
        0 < d,
    ensures
        r.0 == a as int / d as int,
        r.1 == a as int % d as int,
        0 <= r.1 < d,
{
    let big: i128 = a as i128;
    let shift: u64 = 0x8000_0000_0000_0000;
    let up: u64 = (big + shift as i128) as u64;
    let q: u64 = up / d as u64;
    let m: u64 = up % d as u64;
    let zq: u64 = shift / d as u64;
    let zm: u64 = shift % d as u64;
    proof {
        vstd::arithmetic::div_mod::lemma_fundamental_div_mod(up as int, d as int);
        vstd::arithmetic::div_mod::lemma_fundamental_div_mod(shift as int, d as int);
        let x = q as int;
        let y = zq as int;
        let dd = d as int;
        assert(dd * (x - y) == dd * x - dd * y) by (nonlinear_arith);
        assert(dd * (x - y - 1) == dd * x - dd * y - dd) by (nonlinear_arith);
        if m >= zm {
            vstd::arithmetic::div_mod::lemma_fundamental_div_mod_converse(
                a as int,
                dd,
                x - y,
                m - zm,
            );
        } else {
            vstd::arithmetic::div_mod::lemma_fundamental_div_mod_converse(
                a as int,
                dd,
                x - y - 1,
                m + d - zm,
            );
        }
        assert(0 <= q <= up) by (nonlinear_arith)
            requires
                q == up / d as u64,
                d > 0,
        ;
        assert(0 <= zq <= shift) by (nonlinear_arith)
            requires
                zq == shift / d as u64,
                d > 0,
        ;
        let qq = a as int / dd;
        assert(-0x8000_0000_0000_0000 <= qq <= 0x7fff_ffff_ffff_ffff) by (nonlinear_arith)
            requires
                qq == (a as int) / dd,
                dd > 0,
                -0x8000_0000_0000_0000 <= a <= 0x7fff_ffff_ffff_ffff,
        ;
    }
    if m >= zm {
        ((q as i128 - zq as i128) as i64, (m - zm) as i64)
    } else {
        ((q as i128 - zq as i128 - 1) as i64, (m + d as u64 - zm) as i64)
    }
}

/// Floor division by a positive number.
pub fn floor_of(a: i64, d: i64) -> (r: i64)
    requires
        0 < d,
    ensures
        r == a as int / d as int,
{
    split_by(a, d).0
}

/// The least nonnegative remainder by a positive number.
pub fn rest_of(a: i64, d: i64) -> (r: i64)
    requires
        0 < d,
    ensures
        r == a as int % d as int,
        0 <= r < d,
{
    split_by(a, d).1
}

fn is_leap(y: u64) -> (r: bool)
    ensures
        r == leap(y as int),
{
    y % 4 == 0 && (y % 100 != 0 || y % 400 == 0)
}

fn month_days(y: u64, m: u64) -> (r: i64)
    ensures
        r == month_len(y as int, m as int),
{
    if m == 2 {
        if is_leap(y) {
            29
        } else {
            28
        }
    } else if m == 4 || m == 6 || m == 9 || m == 11 {
        30
    } else {
        31
    }
}

/// The date that many days from 1 January 1970.
pub fn date(days: i64) -> (r: (i64, i64, i64))
    requires
        -200_000_000_000_000 < days < 200_000_000_000_000,
    ensures
        (r.0 as int, r.1 as int, r.2 as int) == date_of(days as int),
        falls_on((r.0 as int, r.1 as int, r.2 as int), days as int),
{
    let z: i64 = days + 719528;
    let (c, left) = split_by(z, 146097);
    let mut rem: i64 = left;
    let mut k: u64 = 0;
    assert(days_before_year(0) == 0);
    loop
        invariant_except_break
            rem >= 0,
        invariant
            k <= 400,
            0 <= left < 146097,
            days_before_year(k as int) + rem == left,
            0 <= rem,
        ensures
            rem < year_len(k as int),
        decreases rem,
    {
        let n: i64 = if is_leap(k) {
            366
        } else {
            365
        };
        if rem < n {
            break;
        }
        proof {
            lemma_year_step(k as int);
            if k == 400 {
                assert(days_before_year(400) == 146097);
            }
        }
        rem = rem - n;
        k = k + 1;
    }
    let ghost doy = rem as int;
    let mut m: u64 = 1;
    assert(days_before_month(k as int, 1) == 0);
    loop
        invariant_except_break
            rem >= 0,
        invariant
            1 <= m <= 12,
            k <= 400,
            0 <= rem,
            days_before_month(k as int, m as int) + rem == doy,
            doy < year_len(k as int),
        ensures
            rem < month_len(k as int, m as int),
        decreases rem,
    {
        let n: i64 = month_days(k, m);
        if rem < n {
            break;
        }
        proof {
            lemma_months(k as int, m as int);
            assert(days_before_month(k as int, m + 1) == days_before_month(k as int, m as int)
                + month_len(k as int, m as int));
        }
        rem = rem - n;
        m = m + 1;
    }
    let y: i64 = 400 * c + k as i64;
    proof {
        lemma_cycle(c as int, k as int);
        lemma_months_same(y as int, k as int, m as int);
        let t = (y as int, m as int, rem + 1);
        assert(falls_on(t, days as int));
        lemma_date_unique(date_of(days as int), t, days as int);
    }
    (y, m as i64, rem + 1)
}

proof fn lemma_months_same(y: int, k: int, m: int)
    requires
        leap(y) == leap(k),
    ensures
        days_before_month(y, m) == days_before_month(k, m),
        month_len(y, m) == month_len(k, m),
    decreases m,
{
    if m > 1 {
        lemma_months_same(y, k, m - 1);
    }
}

/// Year, month, day, hour, minute and second.
pub fn civil(now: Double) -> (r: (i64, i64, i64, i64, i64, i64))
    ensures
        (r.0 as int, r.1 as int, r.2 as int, r.3 as int, r.4 as int, r.5 as int) == civil_spec(now),
        1 <= r.1 <= 12,
        1 <= r.2 <= 31,
        0 <= r.3 < 24,
        0 <= r.4 < 60,
        0 <= r.5 < 60,
{
    let secs: i64 = now.to_i64();
    let (days, t) = split_by(secs, 86400);
    let (y, m, d) = date(days);
    let h: u64 = t as u64 / 3600;
    let mi: u64 = t as u64 / 60 % 60;
    let s: u64 = t as u64 % 60;
    (y, m, d, h as i64, mi as i64, s as i64)
}

/// The year with at least four characters.
pub open spec fn year4(y: int) -> Seq<char> {
    if 0 <= y < 10000 {
        text::digits(y as nat, 4)
    } else if -1000 < y < 0 {
        "-"@ + text::digits((-y) as nat, 3)
    } else {
        text::dec_int(y)
    }
}

pub fn year_text(y: i64) -> (r: String)
    ensures
        r@ == year4(y as int),
{
    if 0 <= y && y < 10000 {
        text::digits_u64(y as u64, 4)
    } else if -1000 < y && y < 0 {
        text::cat("-", text::digits_u64((-y) as u64, 3).as_str())
    } else {
        text::dec_i64(y)
    }
}

/// `YYYY-MM-DD HH:MM UTC`.
pub open spec fn utc_minute_spec(now: Double) -> Seq<char> {
    let (y, m, d, h, mi, s) = civil_spec(now);
    year4(y) + "-"@ + text::digits(m as nat, 2) + "-"@ + text::digits(d as nat, 2) + " "@
        + text::digits(h as nat, 2) + ":"@ + text::digits(mi as nat, 2) + " UTC"@
}

/// `YYYY-MM-DD HH:MM UTC`, the "Checked:" stamp every mail ends with.
pub fn utc_minute(now: Double) -> (r: String)
    ensures
        r@ == utc_minute_spec(now),
{
    let (y, m, d, h, mi, _s) = civil(now);
    let mut r = year_text(y);
    r.push_str("-");
    r.push_str(text::digits_u64(m as u64, 2).as_str());
    r.push_str("-");
    r.push_str(text::digits_u64(d as u64, 2).as_str());
    r.push_str(" ");
    r.push_str(text::digits_u64(h as u64, 2).as_str());
    r.push_str(":");
    r.push_str(text::digits_u64(mi as u64, 2).as_str());
    r.push_str(" UTC");
    r
}

} // verus!
