//! Froth watch: the fast crowding signals the slow regime label cannot see.
//!
//! Four signals, read once a day: the Fear & Greed index at 75 or more, a 30-period average
//! perp funding of at least 0.03%/8h with none negative, open interest within 2% of its
//! 30-day high, and BTC at 1.8 times its 200-day average or more. None firing is `calm`, one
//! `elevated`, two `warm`, three or four `hot`. A source that fails reads as not firing, with
//! the error as its text.
//!
//! The BTC blow-off arming is refreshed with it: the Pi-cycle ratio (111-day average over
//! twice the 350-day average) at 0.95 or more arms, and stays armed 14 days after the last
//! armed read. It mails once per level change.
use crate::decimal;
use crate::double;
use crate::double::Double;
use crate::rounding;
use crate::text;
use crate::time;
use crate::watch::json;
use crate::watch::json::{Doc, Json};
use crate::watch::pyfmt;
use vstd::prelude::*;

verus! {

pub const FNG_HOT: i64 = 75;

/// The lowest average funding that counts as hot: 0.0003.
pub open spec fn funding_hot() -> Double {
    Double::ratio_spec(3, 10000)
}

/// How near the 30-day high open interest counts as hot: 0.98.
pub open spec fn oi_near_high() -> Double {
    Double::ratio_spec(98, 100)
}

/// The lowest Mayer multiple that counts as hot: 1.8.
pub open spec fn mayer_hot() -> Double {
    Double::ratio_spec(18, 10)
}

/// The Pi-cycle ratio that arms: 0.95.
pub open spec fn pi_arm() -> Double {
    Double::ratio_spec(95, 100)
}

/// The Mayer multiple shown as stretched: 2.4.
pub open spec fn mayer_arm() -> Double {
    Double::ratio_spec(24, 10)
}

/// The weekly RSI shown as stretched.
pub open spec fn wrsi_arm() -> Double {
    Double::int_spec(85)
}

/// Days the arming holds after the last armed read.
pub const ARM_LATCH_DAYS: i64 = 14;

pub const INDEX_ERROR: &'static str = "list index out of range";

/// One signal: name, whether it fired, reading.
pub type Signal = (&'static str, bool, String);

/// What a source's reading is made of: whether it fires and its text, or the error.
pub type Reading = Result<(bool, Seq<char>), Seq<char>>;

pub open spec fn reading_view(r: Result<(bool, String), String>) -> Reading {
    match r {
        Ok((b, s)) => Ok((b, s@)),
        Err(e) => Err(e@),
    }
}

/// The name of a value's type, as the error texts have it.
pub open spec fn kind_name_spec(d: Doc) -> Seq<char> {
    match d {
        Doc::Null => "NoneType"@,
        Doc::Bool(_) => "bool"@,
        Doc::Int(_) => "int"@,
        Doc::Float(_) => "float"@,
        Doc::Str(_) => "str"@,
        Doc::Arr(_) => "list"@,
        Doc::Obj(_) => "dict"@,
    }
}

pub fn kind_name(j: &Json) -> (r: &'static str)
    ensures
        r@ == kind_name_spec(j@),
{
    match j {
        Json::Null => "NoneType",
        Json::Bool(_) => "bool",
        Json::Int(_) => "int",
        Json::Float(_) => "float",
        Json::Str(_) => "str",
        Json::Arr(_) => "list",
        Json::Obj(_) => "dict",
    }
}

/// A key that is not there.
pub open spec fn key_error_text(k: Seq<char>) -> Seq<char> {
    "'"@
        + k
        + "'"@
}

fn key_error(k: &str) -> (r: String)
    ensures
        r@ == key_error_text(k@),
{
    let mut r = text::owned("'");
    r.push_str(k);
    r.push_str("'");
    r
}

/// A text that spells no whole number.
pub open spec fn bad_int_text(s: Seq<char>) -> Seq<char> {
    "invalid literal for int() with base 10: '"@
        + s
        + "'"@
}

fn bad_int(s: &str) -> (r: String)
    ensures
        r@ == bad_int_text(s@),
{
    let mut r = text::owned("invalid literal for int() with base 10: '");
    r.push_str(s);
    r.push_str("'");
    r
}

/// A value that is no whole number.
pub open spec fn no_int_text(t: Seq<char>) -> Seq<char> {
    "int() argument must be a string, a bytes-like object or a real number, not '"@
        + t
        + "'"@
}

fn no_int(t: &str) -> (r: String)
    ensures
        r@ == no_int_text(t@),
{
    let mut r = text::owned("int() argument must be a string, a bytes-like object or a real number, not '");
    r.push_str(t);
    r.push_str("'");
    r
}

/// A text that spells no number.
pub open spec fn bad_float_text(s: Seq<char>) -> Seq<char> {
    "could not convert string to float: '"@
        + s
        + "'"@
}

fn bad_float(s: &str) -> (r: String)
    ensures
        r@ == bad_float_text(s@),
{
    let mut r = text::owned("could not convert string to float: '");
    r.push_str(s);
    r.push_str("'");
    r
}

/// A value that is no number.
pub open spec fn no_float_text(t: Seq<char>) -> Seq<char> {
    "float() argument must be a string or a real number, not '"@
        + t
        + "'"@
}

fn no_float(t: &str) -> (r: String)
    ensures
        r@ == no_float_text(t@),
{
    let mut r = text::owned("float() argument must be a string or a real number, not '");
    r.push_str(t);
    r.push_str("'");
    r
}

/// A value as a whole number.
pub open spec fn py_int_spec(d: Doc) -> Result<int, Seq<char>> {
    match d {
        Doc::Int(i) => Ok(i as int),
        Doc::Bool(b) => Ok(
            if b {
                1
            } else {
                0
            },
        ),
        Doc::Str(s) => match text::ungrouped(text::trim(s)) {
            Some(t) => match decimal::whole_within(t, i64::MIN as int, i64::MAX as int) {
                Some(i) => Ok(i),
                None => Err(bad_int_text(s)),
            },
            None => Err(bad_int_text(s)),
        },
        Doc::Float(f) => if f.finite() {
            Ok(f.cast_spec(i64::MIN as int, i64::MAX as int))
        } else {
            Err(no_int_text(kind_name_spec(d)))
        },
        _ => Err(no_int_text(kind_name_spec(d))),
    }
}

pub open spec fn int_view(r: Result<i64, String>) -> Result<int, Seq<char>> {
    match r {
        Ok(i) => Ok(i as int),
        Err(e) => Err(e@),
    }
}

fn py_int(j: &Json) -> (r: Result<i64, String>)
    ensures
        int_view(r) == py_int_spec(j@),
{
    match j {
        Json::Int(i) => Ok(*i),
        Json::Bool(b) => if *b {
            Ok(1)
        } else {
            Ok(0)
        },
        Json::Str(s) => {
            let t = text::trimmed(s.as_str());
            match text::ungroup(t.as_str()) {
                Some(u) => match decimal::read_i64(u.as_str()) {
                    Some(i) => Ok(i),
                    None => Err(bad_int(s.as_str())),
                },
                None => Err(bad_int(s.as_str())),
            }
        },
        Json::Float(f) => if f.is_finite() {
            Ok(f.to_i64())
        } else {
            Err(no_int(kind_name(j)))
        },
        _ => Err(no_int(kind_name(j))),
    }
}

/// A value as a number.
pub open spec fn py_float_spec(d: Doc) -> Result<Double, Seq<char>> {
    match d.to_float() {
        Some(f) => Ok(f),
        None => match d {
            Doc::Str(s) => Err(bad_float_text(s)),
            _ => Err(no_float_text(kind_name_spec(d))),
        },
    }
}

pub open spec fn float_view(r: Result<Double, String>) -> Result<Double, Seq<char>> {
    match r {
        Ok(f) => Ok(f),
        Err(e) => Err(e@),
    }
}

fn py_float(j: &Json) -> (r: Result<Double, String>)
    ensures
        float_view(r) == py_float_spec(j@),
{
    match j.to_float() {
        Some(f) => Ok(f),
        None => match j {
            Json::Str(s) => Err(bad_float(s.as_str())),
            _ => Err(no_float(kind_name(j))),
        },
    }
}

/// The whole numbers under `key` of the first `n` items, or the first error.
pub open spec fn ints(d: Seq<Doc>, key: Seq<char>, n: nat) -> Result<Seq<int>, Seq<char>>
    decreases n,
{
    if n == 0 {
        Ok(Seq::empty())
    } else {
        match ints(d, key, (n - 1) as nat) {
            Err(e) => Err(e),
            Ok(v) => match d[n - 1].get(key) {
                None => Err(key_error_text(key)),
                Some(x) => match py_int_spec(x) {
                    Ok(i) => Ok(v.push(i)),
                    Err(e) => Err(e),
                },
            },
        }
    }
}

/// The numbers under `key` of the first `n` items, or the first error.
pub open spec fn floats(d: Seq<Doc>, key: Seq<char>, n: nat) -> Result<Seq<Double>, Seq<char>>
    decreases n,
{
    if n == 0 {
        Ok(Seq::empty())
    } else {
        match floats(d, key, (n - 1) as nat) {
            Err(e) => Err(e),
            Ok(v) => match d[n - 1].get(key) {
                None => Err(key_error_text(key)),
                Some(x) => match py_float_spec(x) {
                    Ok(f) => Ok(v.push(f)),
                    Err(e) => Err(e),
                },
            },
        }
    }
}

proof fn lemma_ints_err(d: Seq<Doc>, key: Seq<char>, i: nat, n: nat)
    requires
        i <= n,
        ints(d, key, i) is Err,
    ensures
        ints(d, key, n) == ints(d, key, i),
    decreases n,
{
    if i < n {
        lemma_ints_err(d, key, i, (n - 1) as nat);
    }
}

proof fn lemma_floats_err(d: Seq<Doc>, key: Seq<char>, i: nat, n: nat)
    requires
        i <= n,
        floats(d, key, i) is Err,
    ensures
        floats(d, key, n) == floats(d, key, i),
    decreases n,
{
    if i < n {
        lemma_floats_err(d, key, i, (n - 1) as nat);
    }
}

pub open spec fn as_ints(v: Seq<i64>) -> Seq<int> {
    Seq::new(v.len(), |i: int| v[i] as int)
}

fn read_ints(j: &Json, key: &str) -> (r: Result<Vec<i64>, String>)
    ensures
        match r {
            Ok(v) => ints(j@.items(), key@, j@.items().len()) == Ok::<Seq<int>, Seq<char>>(
                as_ints(v@),
            ),
            Err(e) => ints(j@.items(), key@, j@.items().len()) == Err::<Seq<int>, Seq<char>>(e@),
        },
{
    let mut v: Vec<i64> = Vec::new();
    assert(as_ints(v@) =~= Seq::empty());
    if let Json::Arr(a) = j {
        let mut i: usize = 0;
        while i < a.len()
            invariant
                i <= a@.len(),
                j == Json::Arr(*a),
                ints(j@.items(), key@, i as nat) == Ok::<Seq<int>, Seq<char>>(as_ints(v@)),
            decreases a@.len() - i,
        {
            assert(j@.items()[i as int] == a@[i as int]@);
            let one: Result<i64, String> = match a[i].get(key) {
                Some(x) => py_int(x),
                None => Err(key_error(key)),
            };
            match one {
                Ok(x) => {
                    let ghost before = v@;
                    v.push(x);
                    assert(as_ints(v@) =~= as_ints(before).push(x as int));
                },
                Err(e) => {
                    proof {
                        lemma_ints_err(j@.items(), key@, (i + 1) as nat, j@.items().len());
                    }
                    return Err(e);
                },
            }
            i = i + 1;
        }
    }
    Ok(v)
}

fn read_floats(j: &Json, key: &str) -> (r: Result<Vec<Double>, String>)
    ensures
        match r {
            Ok(v) => floats(j@.items(), key@, j@.items().len()) == Ok::<Seq<Double>, Seq<char>>(v@),
            Err(e) => floats(j@.items(), key@, j@.items().len()) == Err::<Seq<Double>, Seq<char>>(
                e@,
            ),
        },
{
    let mut v: Vec<Double> = Vec::new();
    if let Json::Arr(a) = j {
        let mut i: usize = 0;
        while i < a.len()
            invariant
                i <= a@.len(),
                j == Json::Arr(*a),
                floats(j@.items(), key@, i as nat) == Ok::<Seq<Double>, Seq<char>>(v@),
            decreases a@.len() - i,
        {
            assert(j@.items()[i as int] == a@[i as int]@);
            let one: Result<Double, String> = match a[i].get(key) {
                Some(x) => py_float(x),
                None => Err(key_error(key)),
            };
            match one {
                Ok(x) => {
                    v.push(x);
                },
                Err(e) => {
                    proof {
                        lemma_floats_err(j@.items(), key@, (i + 1) as nat, j@.items().len());
                    }
                    return Err(e);
                },
            }
            i = i + 1;
        }
    }
    Ok(v)
}

/// The sum of the first `n`.
pub open spec fn int_sum(v: Seq<int>, n: nat) -> int
    decreases n,
{
    if n == 0 {
        0
    } else {
        int_sum(v, (n - 1) as nat) + v[n - 1]
    }
}

/// The Fear & Greed reading.
pub open spec fn fng_words_text(v0: int, cls: Seq<char>, avg: int) -> Seq<char> {
    text::dec_int(v0)
        + " ("@
        + cls
        + "), 7d avg "@
        + text::dec_int(avg)
}

fn fng_words(v0: i64, cls: &str, avg: i128) -> (r: String)
    requires
        avg > i128::MIN,
    ensures
        r@ == fng_words_text(v0 as int, cls@, avg as int),
{
    let mut r = text::dec_i64(v0);
    r.push_str(" (");
    r.push_str(cls);
    r.push_str("), 7d avg ");
    r.push_str(text::dec_i128(avg).as_str());
    r
}

/// The Fear & Greed signal: the newest value, its name, and the average rounded down.
pub open spec fn fear_greed_spec(body: Doc) -> Reading {
    match body.get("data"@) {
        None => Err(key_error_text("data"@)),
        Some(data) => {
            let d = data.items();
            match ints(d, "value"@, d.len()) {
                Err(e) => Err(e),
                Ok(v) => if v.len() == 0 {
                    Err(INDEX_ERROR@)
                } else {
                    match d[0].get("value_classification"@) {
                        None => Err(key_error_text("value_classification"@)),
                        Some(cls) => Ok(
                            (
                                v[0] >= FNG_HOT,
                                fng_words_text(
                                    v[0],
                                    cls.py_str(),
                                    int_sum(v, v.len()) / v.len() as int,
                                ),
                            ),
                        ),
                    }
                },
            }
        },
    }
}

fn fear_greed(body: &Json) -> (r: Result<(bool, String), String>)
    ensures
        reading_view(r) == fear_greed_spec(body@),
{
    let data = match body.get("data") {
        Some(d) => d,
        None => {
            return Err(key_error("data"));
        },
    };
    let vals = match read_ints(data, "value") {
        Ok(v) => v,
        Err(e) => {
            return Err(e);
        },
    };
    if vals.len() == 0 {
        return Err(text::owned(INDEX_ERROR));
    }
    proof {
        lemma_ints_len(data@.items(), "value"@, data@.items().len());
    }
    let cls = match data {
        Json::Arr(a) => {
            assert(data@.items()[0] == a@[0]@);
            match a[0].get("value_classification") {
                Some(c) => c.py_str(),
                None => {
                    return Err(key_error("value_classification"));
                },
            }
        },
        _ => String::new(),
    };
    let mut sum: i128 = 0;
    let mut i: usize = 0;
    while i < vals.len()
        invariant
            i <= vals@.len(),
            sum == int_sum(as_ints(vals@), i as nat),
            -0x8000_0000_0000_0000 * i <= sum <= 0x8000_0000_0000_0000 * i,
        decreases vals@.len() - i,
    {
        sum = sum + vals[i] as i128;
        i = i + 1;
    }
    let avg: i128 = pyfmt::floor_wide(sum, vals.len() as u128);
    let n: u128 = vals.len() as u128;
    proof {
        let s = sum as int;
        let d = n as int;
        assert(s / d > -0x8000_0000_0000_0000_0000_0000_0000_0000) by (nonlinear_arith)
            requires
                s > -0x8000_0000_0000_0000_0000_0000_0000_0000,
                d >= 1,
        ;
    }
    Ok((vals[0] >= FNG_HOT, fng_words(vals[0], cls.as_str(), avg)))
}

proof fn lemma_ints_len(d: Seq<Doc>, key: Seq<char>, n: nat)
    ensures
        ints(d, key, n) is Ok ==> ints(d, key, n)->Ok_0.len() == n,
    decreases n,
{
    if n > 0 {
        lemma_ints_len(d, key, (n - 1) as nat);
    }
}

/// How many of the first `n` are negative.
pub open spec fn negatives(v: Seq<Double>, n: nat) -> nat
    decreases n,
{
    if n == 0 {
        0
    } else {
        negatives(v, (n - 1) as nat) + (if v[n - 1].lt_spec(Double::zero_spec()) {
            1nat
        } else {
            0
        })
    }
}

/// The funding reading.
pub open spec fn funding_words_text(pct: Double, neg: nat) -> Seq<char> {
    "30-period avg "@
        + pyfmt::signed_spec(pct, 4)
        + "%/8h, "@
        + text::dec(neg)
        + "/30 negative"@
}

fn funding_words(pct: Double, neg: u64) -> (r: String)
    ensures
        r@ == funding_words_text(pct, neg as nat),
{
    let mut r = text::owned("30-period avg ");
    r.push_str(pyfmt::signed(pct, 4).as_str());
    r.push_str("%/8h, ");
    r.push_str(text::dec_u64(neg).as_str());
    r.push_str("/30 negative");
    r
}

/// The funding signal: the average rate, and how many are negative.
pub open spec fn funding_spec(body: Doc) -> Reading {
    match floats(body.items(), "fundingRate"@, body.items().len()) {
        Err(e) => Err(e),
        Ok(v) => if v.len() == 0 {
            Err("division by zero"@)
        } else {
            let avg = pyfmt::sum_spec(v).div_spec(Double::int_spec(v.len() as int));
            let neg = negatives(v, v.len());
            Ok(
                (
                    funding_hot().le_spec(avg) && neg == 0,
                    funding_words_text(avg.mul_spec(Double::int_spec(100)), neg),
                ),
            )
        },
    }
}

fn funding(body: &Json) -> (r: Result<(bool, String), String>)
    ensures
        reading_view(r) == funding_spec(body@),
{
    let rates = match read_floats(body, "fundingRate") {
        Ok(v) => v,
        Err(e) => {
            return Err(e);
        },
    };
    if rates.len() == 0 {
        return Err(text::owned("division by zero"));
    }
    let avg = pyfmt::sum(&rates).over(Double::of_count(rates.len()));
    let mut neg: u64 = 0;
    let mut i: usize = 0;
    while i < rates.len()
        invariant
            i <= rates@.len(),
            neg == negatives(rates@, i as nat),
            neg <= i,
        decreases rates@.len() - i,
    {
        if rates[i].lt(Double::zero()) {
            neg = neg + 1;
        }
        i = i + 1;
    }
    Ok(
        (
            Double::ratio(3, 10000).le(avg) && neg == 0,
            funding_words(avg.times(Double::of_int(100)), neg),
        ),
    )
}

/// The largest of the first `n`.
pub open spec fn highest(v: Seq<Double>, n: nat) -> Double
    decreases n,
{
    if n == 0 {
        double::of_magnitude(true, double::INFINITE as nat)
    } else {
        highest(v, (n - 1) as nat).max_spec(v[n - 1])
    }
}

/// The open interest reading.
pub open spec fn oi_words_text(last: Double, pct: Double) -> Seq<char> {
    pyfmt::comma_spec(last, 0)
        + " BTC, "@
        + pyfmt::fixed_spec(pct, 1)
        + "% of 30d high"@
}

fn oi_words(last: Double, pct: Double) -> (r: String)
    ensures
        r@ == oi_words_text(last, pct),
{
    let mut r = pyfmt::comma(last, 0);
    r.push_str(" BTC, ");
    r.push_str(pyfmt::fixed(pct, 1).as_str());
    r.push_str("% of 30d high");
    r
}

/// The open interest signal: the newest value against the highest.
pub open spec fn open_interest_spec(body: Doc) -> Reading {
    match floats(body.items(), "sumOpenInterest"@, body.items().len()) {
        Err(e) => Err(e),
        Ok(v) => if v.len() == 0 {
            Err(INDEX_ERROR@)
        } else {
            let last = v.last();
            let hi = highest(v, v.len());
            Ok(
                (
                    hi.mul_spec(oi_near_high()).le_spec(last),
                    oi_words_text(last, last.div_spec(hi).mul_spec(Double::int_spec(100))),
                ),
            )
        },
    }
}

fn open_interest(body: &Json) -> (r: Result<(bool, String), String>)
    ensures
        reading_view(r) == open_interest_spec(body@),
{
    let oi = match read_floats(body, "sumOpenInterest") {
        Ok(v) => v,
        Err(e) => {
            return Err(e);
        },
    };
    if oi.len() == 0 {
        return Err(text::owned(INDEX_ERROR));
    }
    let last = oi[oi.len() - 1];
    let mut hi = Double::infinity(true);
    let mut i: usize = 0;
    while i < oi.len()
        invariant
            i <= oi@.len(),
            hi == highest(oi@, i as nat),
        decreases oi@.len() - i,
    {
        hi = hi.max(oi[i]);
        i = i + 1;
    }
    Ok(
        (
            hi.times(Double::ratio(98, 100)).le(last),
            oi_words(last, last.over(hi).times(Double::of_int(100))),
        ),
    )
}

/// The last `n`, or all where there are fewer.
pub open spec fn tail_of(v: Seq<Double>, n: int) -> Seq<Double> {
    if v.len() <= n {
        v
    } else {
        v.skip(v.len() - n)
    }
}

fn tail(v: &Vec<Double>, n: usize) -> (r: Vec<Double>)
    ensures
        r@ == tail_of(v@, n as int),
{
    let from: usize = if v.len() <= n {
        0
    } else {
        v.len() - n
    };
    let mut r: Vec<Double> = Vec::new();
    let mut i: usize = from;
    while i < v.len()
        invariant
            from <= i <= v@.len(),
            r@ == v@.subrange(from as int, i as int),
        decreases v@.len() - i,
    {
        r.push(v[i]);
        i = i + 1;
        assert(r@ =~= v@.subrange(from as int, i as int));
    }
    assert(r@ =~= tail_of(v@, n as int));
    r
}

/// The sum of the last `n` over `n`.
pub open spec fn average_of(v: Seq<Double>, n: int) -> Double {
    pyfmt::sum_spec(tail_of(v, n)).div_spec(Double::int_spec(n))
}

fn average(v: &Vec<Double>, n: usize) -> (r: Double)
    requires
        n < 1_000_000,
    ensures
        r == average_of(v@, n as int),
{
    pyfmt::sum(&tail(v, n)).over(Double::of_int(n as i64))
}

/// The Mayer reading.
pub open spec fn mayer_words_text(m: Double, last: Double) -> Seq<char> {
    pyfmt::fixed_spec(m, 3)
        + " (spot $"@
        + pyfmt::comma_spec(last, 0)
        + ")"@
}

fn mayer_words(m: Double, last: Double) -> (r: String)
    ensures
        r@ == mayer_words_text(m, last),
{
    let mut r = pyfmt::fixed(m, 3);
    r.push_str(" (spot $");
    r.push_str(pyfmt::comma(last, 0).as_str());
    r.push_str(")");
    r
}

/// The Mayer signal: the newest close against the 200-day average.
pub open spec fn mayer_spec(closes: Seq<Double>) -> Reading {
    if closes.len() == 0 {
        Err(INDEX_ERROR@)
    } else {
        let m = closes.last().div_spec(average_of(closes, 200));
        Ok((mayer_hot().le_spec(m), mayer_words_text(m, closes.last())))
    }
}

fn mayer(closes: &Vec<Double>) -> (r: Result<(bool, String), String>)
    ensures
        reading_view(r) == mayer_spec(closes@),
{
    if closes.len() == 0 {
        return Err(text::owned(INDEX_ERROR));
    }
    let last = closes[closes.len() - 1];
    let m = last.over(average(closes, 200));
    Ok((Double::ratio(18, 10).le(m), mayer_words(m, last)))
}

/// What a source that failed reads as.
pub open spec fn reading_spec(r: Reading) -> (bool, Seq<char>) {
    match r {
        Ok(x) => x,
        Err(e) => (false, "unavailable: "@ + e),
    }
}

fn reading(r: Result<(bool, String), String>) -> (x: (bool, String))
    ensures
        (x.0, x.1@) == reading_spec(reading_view(r)),
{
    match r {
        Ok(x) => x,
        Err(e) => (false, text::cat("unavailable: ", e.as_str())),
    }
}

pub open spec fn source(r: Result<Json, String>) -> Result<Doc, Seq<char>> {
    match r {
        Ok(j) => Ok(j@),
        Err(e) => Err(e@),
    }
}

pub open spec fn history_view(r: Result<Vec<Double>, String>) -> Result<Seq<Double>, Seq<char>> {
    match r {
        Ok(v) => Ok(v@),
        Err(e) => Err(e@),
    }
}

pub open spec fn signal_views(sig: Seq<Signal>) -> Seq<(Seq<char>, bool, Seq<char>)> {
    Seq::new(sig.len(), |i: int| (sig[i].0@, sig[i].1, sig[i].2@))
}

/// The four signals from what each source returned.
pub open spec fn signals_spec(
    fng: Result<Doc, Seq<char>>,
    funding_body: Result<Doc, Seq<char>>,
    oi_body: Result<Doc, Seq<char>>,
    history: Result<Seq<Double>, Seq<char>>,
) -> Seq<(Seq<char>, bool, Seq<char>)> {
    let a = reading_spec(
        match fng {
            Ok(d) => fear_greed_spec(d),
            Err(e) => Err(e),
        },
    );
    let b = reading_spec(
        match funding_body {
            Ok(d) => funding_spec(d),
            Err(e) => Err(e),
        },
    );
    let c = reading_spec(
        match oi_body {
            Ok(d) => open_interest_spec(d),
            Err(e) => Err(e),
        },
    );
    let d = reading_spec(
        match history {
            Ok(v) => mayer_spec(v),
            Err(e) => Err(e),
        },
    );
    seq![
        ("fear_greed"@, a.0, a.1),
        ("funding"@, b.0, b.1),
        ("open_interest"@, c.0, c.1),
        ("mayer"@, d.0, d.1),
    ]
}

/// The four signals from what each source returned. `history` is BTC's last daily closes.
pub fn read_signals(
    fng: &Result<Json, String>,
    funding_body: &Result<Json, String>,
    oi_body: &Result<Json, String>,
    history: &Result<Vec<Double>, String>,
) -> (r: Vec<Signal>)
    ensures
        signal_views(r@) == signals_spec(
            source(*fng),
            source(*funding_body),
            source(*oi_body),
            history_view(*history),
        ),
{
    let a = reading(
        match fng {
            Ok(d) => fear_greed(d),
            Err(e) => Err(e.clone()),
        },
    );
    let b = reading(
        match funding_body {
            Ok(d) => funding(d),
            Err(e) => Err(e.clone()),
        },
    );
    let c = reading(
        match oi_body {
            Ok(d) => open_interest(d),
            Err(e) => Err(e.clone()),
        },
    );
    let d = reading(
        match history {
            Ok(v) => mayer(v),
            Err(e) => Err(e.clone()),
        },
    );
    let mut r: Vec<Signal> = Vec::new();
    r.push(("fear_greed", a.0, a.1));
    r.push(("funding", b.0, b.1));
    r.push(("open_interest", c.0, c.1));
    r.push(("mayer", d.0, d.1));
    assert(signal_views(r@) =~= signals_spec(
        source(*fng),
        source(*funding_body),
        source(*oi_body),
        history_view(*history),
    ));
    r
}

/// The level of so many firing signals.
pub open spec fn level_spec(n: nat) -> Seq<char> {
    if n == 0 {
        "calm"@
    } else if n == 1 {
        "elevated"@
    } else if n == 2 {
        "warm"@
    } else {
        "hot"@
    }
}

pub fn level_for(n: usize) -> (r: &'static str)
    ensures
        r@ == level_spec(n as nat),
{
    match n {
        0 => "calm",
        1 => "elevated",
        2 => "warm",
        _ => "hot",
    }
}

// ------------------------------------------------------------------ the arming
/// The Thursday of a day's week, as a day number.
pub open spec fn week_key(days: int) -> int {
    days - (days + 3) % 7 + 3
}

fn week_of(days: i64) -> (r: i64)
    requires
        -0x1000_0000_0000_0000 < days < 0x1000_0000_0000_0000,
    ensures
        r == week_key(days as int),
{
    days - time::rest_of(days + 3, 7) + 3
}

/// The day number of a time in milliseconds.
pub open spec fn day_of_ms(ms: Double) -> int {
    ms.div_spec(Double::int_spec(1000)).cast_spec(i64::MIN as int, i64::MAX as int) / 86400
}

fn day_of(t: Double) -> (r: i64)
    ensures
        r == t.cast_spec(i64::MIN as int, i64::MAX as int) / 86400,
        -0x1000_0000_0000_0000 < r < 0x1000_0000_0000_0000,
{
    time::floor_of(t.to_i64(), 86400)
}

/// The last close of each week of the first `n` candles and the week's key, oldest first.
pub open spec fn weekly_spec(rows: Seq<(Double, Double)>, n: nat) -> Seq<(Double, int)>
    decreases n,
{
    if n == 0 {
        Seq::empty()
    } else {
        let w = weekly_spec(rows, (n - 1) as nat);
        let k = week_key(day_of_ms(rows[n - 1].0));
        if w.len() > 0 && w.last().1 == k {
            w.update(w.len() - 1, (rows[n - 1].1, k))
        } else {
            w.push((rows[n - 1].1, k))
        }
    }
}

/// The closes of the weeks that are over at `now`.
pub open spec fn done_weeks(rows: Seq<(Double, Double)>, now: Double) -> Seq<Double> {
    let w = weekly_spec(rows, rows.len());
    let today = week_key(now.cast_spec(i64::MIN as int, i64::MAX as int) / 86400);
    let n = if w.len() > 0 && w.last().1 == today {
        (w.len() - 1) as nat
    } else {
        w.len()
    };
    Seq::new(n, |i: int| w[i].0)
}

/// The closes of the weeks that are over at `now`, from daily candles (open time in
/// milliseconds, close).
pub fn weekly(rows: &Vec<(Double, Double)>, now: Double) -> (r: Vec<Double>)
    ensures
        r@ == done_weeks(rows@, now),
{
    let mut weeks: Vec<Double> = Vec::new();
    let mut keys: Vec<i64> = Vec::new();
    let ghost mut all: Seq<(Double, int)> = Seq::empty();
    let mut i: usize = 0;
    while i < rows.len()
        invariant
            i <= rows@.len(),
            all == weekly_spec(rows@, i as nat),
            weeks@.len() == all.len(),
            keys@.len() == all.len(),
            forall|x: int|
                0 <= x < all.len() ==> weeks@[x] == (#[trigger] all[x]).0 && keys@[x] == all[x].1,
        decreases rows@.len() - i,
    {
        let k: i64 = week_of(day_of(rows[i].0.over(Double::of_int(1000))));
        let c = rows[i].1;
        let n: usize = keys.len();
        if n > 0 && keys[n - 1] == k {
            weeks.set(n - 1, c);
            proof {
                all = all.update(n - 1, (c, k as int));
            }
        } else {
            keys.push(k);
            weeks.push(c);
            proof {
                all = all.push((c, k as int));
            }
        }
        i = i + 1;
    }
    let today: i64 = week_of(day_of(now));
    let n: usize = keys.len();
    if n > 0 && keys[n - 1] == today {
        assert(keys@[n - 1] == all[n - 1].1);
        weeks.pop();
    } else if n > 0 {
        assert(keys@[n - 1] == all[n - 1].1);
    }
    assert(weeks@ =~= done_weeks(rows@, now));
    weeks
}

/// The names of the arming signals that are stretched.
pub open spec fn arm_hits(pi: Double, m: Double, wrsi: Double) -> Seq<Doc> {
    let a = if pi_arm().le_spec(pi) {
        Seq::empty().push(Doc::Str("pi"@))
    } else {
        Seq::empty()
    };
    let b = if mayer_arm().le_spec(m) {
        a.push(Doc::Str("mayer"@))
    } else {
        a
    };
    if wrsi_arm().le_spec(wrsi) {
        b.push(Doc::Str("wrsi"@))
    } else {
        b
    }
}

pub open spec fn closes_of(rows: Seq<(Double, Double)>) -> Seq<Double> {
    Seq::new(rows.len(), |i: int| rows[i].1)
}

/// The arming read from daily candles and the weekly RSI of the weeks that are over.
pub open spec fn btc_arm_spec(
    rows: Seq<(Double, Double)>,
    wrsi: Double,
    now: Double,
) -> Result<Doc, Seq<char>> {
    let closes = closes_of(rows);
    let den = Double::int_spec(2).mul_spec(average_of(closes, 350));
    let s200 = average_of(closes, 200);
    if den.eq_spec(Double::zero_spec()) {
        Err("float division by zero"@)
    } else if closes.len() == 0 {
        Err(INDEX_ERROR@)
    } else if s200.eq_spec(Double::zero_spec()) {
        Err("float division by zero"@)
    } else {
        let pi = average_of(closes, 111).div_spec(den);
        let m = closes.last().div_spec(s200);
        Ok(
            Doc::obj().with("armed"@, Doc::Bool(pi_arm().le_spec(pi))).with(
                "fired"@,
                Doc::Arr(arm_hits(pi, m, wrsi)),
            ).with("pi"@, Doc::Float(pyfmt::round_spec(pi, 4))).with(
                "mayer"@,
                Doc::Float(pyfmt::round_spec(m, 4)),
            ).with("wrsi"@, Doc::Float(pyfmt::round_spec(wrsi, 1))).with(
                "spot"@,
                Doc::Float(closes.last()),
            ).with("ts"@, Doc::Float(now)),
        )
    }
}

fn push_hit(hits: &mut Vec<Json>, name: &str)
    ensures
        json::docs(final(hits)@) == json::docs(old(hits)@).push(Doc::Str(name@)),
{
    let j = Json::text(name);
    proof {
        json::lemma_docs_push(hits@, j);
    }
    hits.push(j);
}

/// The arming read from daily candles (open time in milliseconds, close) and the weekly RSI
/// of [`weekly`].
pub fn btc_arm(rows: &Vec<(Double, Double)>, wrsi: Double, now: Double) -> (r: Result<Json, String>)
    ensures
        source(r) == btc_arm_spec(rows@, wrsi, now),
{
    let mut closes: Vec<Double> = Vec::new();
    let mut i: usize = 0;
    while i < rows.len()
        invariant
            i <= rows@.len(),
            closes@ == closes_of(rows@).take(i as int),
        decreases rows@.len() - i,
    {
        closes.push(rows[i].1);
        i = i + 1;
        assert(closes@ =~= closes_of(rows@).take(i as int));
    }
    assert(closes@ =~= closes_of(rows@));
    let zero = Double::zero();
    let den = Double::of_int(2).times(average(&closes, 350));
    if den.same(zero) {
        return Err(text::owned("float division by zero"));
    }
    if closes.len() == 0 {
        return Err(text::owned(INDEX_ERROR));
    }
    let s200 = average(&closes, 200);
    if s200.same(zero) {
        return Err(text::owned("float division by zero"));
    }
    let pi = average(&closes, 111).over(den);
    let last = closes[closes.len() - 1];
    let m = last.over(s200);
    let armed: bool = Double::ratio(95, 100).le(pi);
    let mut hits: Vec<Json> = Vec::new();
    assert(json::docs(hits@) =~= Seq::empty());
    if armed {
        push_hit(&mut hits, "pi");
    }
    if Double::ratio(24, 10).le(m) {
        push_hit(&mut hits, "mayer");
    }
    if Double::of_int(85).le(wrsi) {
        push_hit(&mut hits, "wrsi");
    }
    Ok(
        Json::obj().with("armed", Json::Bool(armed)).with("fired", Json::list(hits)).with(
            "pi",
            Json::Float(pyfmt::round(pi, 4)),
        ).with("mayer", Json::Float(pyfmt::round(m, 4))).with(
            "wrsi",
            Json::Float(pyfmt::round(wrsi, 1)),
        ).with("spot", Json::Float(last)).with("ts", Json::Float(now)),
    )
}

// ------------------------------------------------------------------ the message
/// What a level means.
pub open spec fn meaning(level: Seq<char>) -> Seq<char> {
    if level == "hot"@ {
        HOT@
    } else if level == "warm"@ {
        WARM@
    } else if level == "elevated"@ {
        ELEVATED@
    } else if level == "calm"@ {
        CALM@
    } else {
        ""@
    }
}

pub const HOT: &'static str = "  Crowded. Longs paying, sentiment extended, no recent flush. This is the state\n  where adding at spot has historically paid worst. It says nothing about the\n  cycle, only about the next few weeks.";

pub const WARM: &'static str = "  Getting crowded. Worth knowing before any decision to add at market.";

pub const ELEVATED: &'static str = "  One signal stretched. Noise on its own; noted so a trend is visible.";

pub const CALM: &'static str = "  No crowding signals firing. Froth is not the current risk.";

fn meaning_of(level: &str) -> (r: String)
    ensures
        r@ == meaning(level@),
{
    if text::same(level, "hot") {
        text::owned(HOT)
    } else if text::same(level, "warm") {
        text::owned(WARM)
    } else if text::same(level, "elevated") {
        text::owned(ELEVATED)
    } else if text::same(level, "calm") {
        text::owned(CALM)
    } else {
        text::owned("")
    }
}

/// The first line.
pub open spec fn title_line_text(prev: Seq<char>, level: Seq<char>, fired: nat) -> Seq<char> {
    "MARKET FROTH: "@
        + text::upper_case(prev)
        + " -> "@
        + text::upper_case(level)
        + "  ("@
        + text::dec(fired)
        + "/4 signals firing)"@
}

fn title_line(prev: &str, level: &str, fired: u64) -> (r: String)
    ensures
        r@ == title_line_text(prev@, level@, fired as nat),
{
    let mut r = text::owned("MARKET FROTH: ");
    r.push_str(text::uppercase(prev).as_str());
    r.push_str(" -> ");
    r.push_str(text::uppercase(level).as_str());
    r.push_str("  (");
    r.push_str(text::dec_u64(fired).as_str());
    r.push_str("/4 signals firing)");
    r
}

/// One signal.
pub open spec fn signal_line_text(hit: bool, name: Seq<char>, txt: Seq<char>) -> Seq<char> {
    "  "@
        + (if hit { "HOT "@ } else { "    "@ })
        + " "@
        + pyfmt::ljust_spec(name, 14)
        + " "@
        + txt
}

fn signal_line(hit: bool, name: &str, txt: &str) -> (r: String)
    ensures
        r@ == signal_line_text(hit, name@, txt@),
{
    let mut r = text::owned("  ");
    r.push_str(if hit { "HOT " } else { "    " });
    r.push_str(" ");
    r.push_str(pyfmt::ljust(name, 14).as_str());
    r.push_str(" ");
    r.push_str(txt);
    r
}

/// The arming, without what fired.
pub open spec fn arm_start_text(on: bool, pi: Double, m: Double, wrsi: Double) -> Seq<char> {
    "  "@
        + (if on { "ARMED"@ } else { "     "@ })
        + " pi-cycle "@
        + pyfmt::fixed_spec(pi, 3)
        + " (arm >= "@
        + pyfmt::repr_spec(pi_arm())
        + ")   mayer "@
        + pyfmt::fixed_spec(m, 2)
        + " (>= "@
        + pyfmt::repr_spec(mayer_arm())
        + ")   weekly RSI "@
        + pyfmt::fixed_spec(wrsi, 0)
        + " (>= "@
        + pyfmt::g_spec(wrsi_arm(), 6)
        + ")"@
}

fn arm_start(on: bool, pi: Double, m: Double, wrsi: Double) -> (r: String)
    ensures
        r@ == arm_start_text(on, pi, m, wrsi),
{
    let mut r = text::owned("  ");
    r.push_str(if on { "ARMED" } else { "     " });
    r.push_str(" pi-cycle ");
    r.push_str(pyfmt::fixed(pi, 3).as_str());
    r.push_str(" (arm >= ");
    r.push_str(pyfmt::repr(Double::ratio(95, 100)).as_str());
    r.push_str(")   mayer ");
    r.push_str(pyfmt::fixed(m, 2).as_str());
    r.push_str(" (>= ");
    r.push_str(pyfmt::repr(Double::ratio(24, 10)).as_str());
    r.push_str(")   weekly RSI ");
    r.push_str(pyfmt::fixed(wrsi, 0).as_str());
    r.push_str(" (>= ");
    r.push_str(pyfmt::g6(Double::of_int(85)).as_str());
    r.push_str(")");
    r
}

/// The subject, without the arming.
pub open spec fn subject_start_text(level: Seq<char>, fired: nat, prev: Seq<char>) -> Seq<char> {
    "FROTH "@
        + text::upper_case(level)
        + ": "@
        + text::dec(fired)
        + "/4 signals ("@
        + prev
        + " -> "@
        + level
        + ")"@
}

fn subject_start(level: &str, fired: u64, prev: &str) -> (r: String)
    ensures
        r@ == subject_start_text(level@, fired as nat, prev@),
{
    let mut r = text::owned("FROTH ");
    r.push_str(text::uppercase(level).as_str());
    r.push_str(": ");
    r.push_str(text::dec_u64(fired).as_str());
    r.push_str("/4 signals (");
    r.push_str(prev);
    r.push_str(" -> ");
    r.push_str(level);
    r.push_str(")");
    r
}

/// The lines of the signals behind `l`.
pub open spec fn with_signals(
    l: Seq<Seq<char>>,
    sig: Seq<(Seq<char>, bool, Seq<char>)>,
    n: nat,
) -> Seq<Seq<char>>
    decreases n,
{
    if n == 0 {
        l
    } else {
        with_signals(l, sig, (n - 1) as nat).push(
            signal_line_text(sig[n - 1].1, sig[n - 1].0, sig[n - 1].2),
        )
    }
}

/// The items of a list as text.
pub open spec fn names_of(d: Doc) -> Seq<Seq<char>> {
    Seq::new(d.items().len(), |i: int| d.items()[i].py_str())
}

/// Whether the arming is in force.
pub open spec fn effective(arm: Doc) -> bool {
    match arm.get("effective"@) {
        Some(v) => v.truthy(),
        None => arm.has_truthy("armed"@),
    }
}

/// The line of the arming.
pub open spec fn arm_line(arm: Doc) -> Seq<char> {
    let start = arm_start_text(
        effective(arm),
        json::float_or_zero(arm.get("pi"@)),
        json::float_or_zero(arm.get("mayer"@)),
        json::float_or_zero(arm.get("wrsi"@)),
    );
    let a = if arm.has_truthy("fired"@) {
        start + "   fired: "@ + text::join_of(names_of(arm.get("fired"@)->0), ", "@)
    } else {
        start
    };
    if arm.has_truthy("error"@) {
        a + "   ["@ + arm.get("error"@)->0.py_str() + "]"@
    } else {
        a
    }
}

/// The previous level where there is one that is not empty.
pub open spec fn prev_or(prev: Option<Seq<char>>, none: Seq<char>) -> Seq<char> {
    match prev {
        Some(p) => if p.len() > 0 {
            p
        } else {
            none
        },
        None => none,
    }
}

/// The lines of the message.
pub open spec fn message_lines(
    level: Seq<char>,
    prev: Option<Seq<char>>,
    sig: Seq<(Seq<char>, bool, Seq<char>)>,
    fired: nat,
    arm: Doc,
    now: Double,
) -> Seq<Seq<char>> {
    let start = Seq::<Seq<char>>::empty().push(
        title_line_text(prev_or(prev, "unknown"@), level, fired),
    ).push(""@).push("SIGNALS"@);
    let body = with_signals(start, sig, sig.len()).push(""@).push("WHAT THIS IS"@).push(
        "  A daily read of the fast-moving crowding signals. The regime label runs on"@,
    ).push("  100d/200d averages and a monthly market report is slower, so neither can"@).push(
        "  see froth build between runs. This changes NO orders and proposes no trade."@,
    ).push(""@).push("WHAT IT MEANS"@).push(meaning(level)).push(""@);
    let armed = if arm.truthy() {
        body.push(
            "BTC BLOW-OFF ARMING (sell policy: BTC trail tightens to the armed give-back while on)"@,
        ).push(arm_line(arm)).push(""@)
    } else {
        body
    };
    armed.push("Checked: "@ + time::utc_minute_spec(now))
}

/// The subject of the message.
pub open spec fn message_subject(
    level: Seq<char>,
    prev: Option<Seq<char>>,
    fired: nat,
    arm: Doc,
    arm_changed: bool,
) -> Seq<char> {
    let s = subject_start_text(level, fired, prev_or(prev, "?"@));
    if arm_changed {
        if arm.has_truthy("armed"@) {
            "BTC BLOW-OFF ARMED"@ + " | "@ + s
        } else {
            "BTC blow-off disarmed"@ + " | "@ + s
        }
    } else {
        s
    }
}

fn names(j: &Json) -> (r: Vec<String>)
    ensures
        text::views(r@) == names_of(j@),
{
    let mut v: Vec<String> = Vec::new();
    if let Json::Arr(a) = j {
        let mut i: usize = 0;
        while i < a.len()
            invariant
                i <= a@.len(),
                j == Json::Arr(*a),
                v@.len() == i,
                forall|x: int| 0 <= x < i ==> v@[x]@ == j@.items()[x].py_str(),
            decreases a@.len() - i,
        {
            assert(j@.items()[i as int] == a@[i as int]@);
            v.push(a[i].py_str());
            i = i + 1;
        }
    }
    assert(text::views(v@) =~= names_of(j@));
    v
}

fn arming(arm: &Json) -> (r: String)
    ensures
        r@ == arm_line(arm@),
{
    let on: bool = match arm.get("effective") {
        Some(v) => v.truthy(),
        None => arm.has_truthy("armed"),
    };
    let mut line = arm_start(
        on,
        json::read_or_zero(arm.get("pi")),
        json::read_or_zero(arm.get("mayer")),
        json::read_or_zero(arm.get("wrsi")),
    );
    if let Some(f) = arm.get("fired") {
        if f.truthy() {
            line.push_str("   fired: ");
            line.push_str(text::join(&names(f), ", ").as_str());
        }
    }
    if let Some(e) = arm.get("error") {
        if e.truthy() {
            line.push_str("   [");
            line.push_str(e.py_str().as_str());
            line.push_str("]");
        }
    }
    line
}

pub open spec fn opt_text(s: Option<&str>) -> Option<Seq<char>> {
    match s {
        Some(t) => Some(t@),
        None => None,
    }
}

fn prev_text<'a>(prev: Option<&'a str>, none: &'a str) -> (r: &'a str)
    ensures
        r@ == prev_or(opt_text(prev), none@),
{
    match prev {
        Some(p) => if p.is_empty() {
            none
        } else {
            p
        },
        None => none,
    }
}

/// Subject and text of the message.
pub fn build_message(
    level: &str,
    prev: Option<&str>,
    sig: &Vec<Signal>,
    fired: usize,
    arm: &Json,
    arm_changed: bool,
    now: Double,
) -> (r: (String, String))
    ensures
        r.0@ == message_subject(level@, opt_text(prev), fired as nat, arm@, arm_changed),
        r.1@ == text::join_of(
            message_lines(level@, opt_text(prev), signal_views(sig@), fired as nat, arm@, now),
            "\n"@,
        ),
{
    let mut l = text::no_lines();
    text::append(&mut l, title_line(prev_text(prev, "unknown"), level, fired as u64));
    text::add_line(&mut l, "");
    text::add_line(&mut l, "SIGNALS");
    let ghost start = text::views(l@);
    let mut i: usize = 0;
    while i < sig.len()
        invariant
            i <= sig@.len(),
            text::views(l@) == with_signals(start, signal_views(sig@), i as nat),
        decreases sig@.len() - i,
    {
        assert(signal_views(sig@)[i as int] == (sig@[i as int].0@, sig@[i as int].1, sig@[i as int].2@));
        text::append(&mut l, signal_line(sig[i].1, sig[i].0, sig[i].2.as_str()));
        i = i + 1;
    }
    text::add_line(&mut l, "");
    text::add_line(&mut l, "WHAT THIS IS");
    text::add_line(
        &mut l,
        "  A daily read of the fast-moving crowding signals. The regime label runs on",
    );
    text::add_line(
        &mut l,
        "  100d/200d averages and a monthly market report is slower, so neither can",
    );
    text::add_line(
        &mut l,
        "  see froth build between runs. This changes NO orders and proposes no trade.",
    );
    text::add_line(&mut l, "");
    text::add_line(&mut l, "WHAT IT MEANS");
    text::append(&mut l, meaning_of(level));
    text::add_line(&mut l, "");
    if arm.truthy() {
        text::add_line(
            &mut l,
            "BTC BLOW-OFF ARMING (sell policy: BTC trail tightens to the armed give-back while on)",
        );
        text::append(&mut l, arming(arm));
        text::add_line(&mut l, "");
    }
    text::append(&mut l, text::cat("Checked: ", time::utc_minute(now).as_str()));
    let s = subject_start(level, fired as u64, prev_text(prev, "?"));
    let subject = if arm_changed {
        let mut t = if arm.has_truthy("armed") {
            text::owned("BTC BLOW-OFF ARMED")
        } else {
            text::owned("BTC blow-off disarmed")
        };
        t.push_str(" | ");
        t.push_str(s.as_str());
        t
    } else {
        s
    };
    (subject, text::join(&l, "\n"))
}

// ------------------------------------------------------------------ the run
/// What one run decided.
#[derive(Debug)]
#[allow(inconsistent_fields)]
pub enum Plan {
    /// Same level, same arming: print `line`, write `state` if any.
    Unchanged { line: String, state: Option<Json> },
    /// Mail it; on delivery write `state`.
    Send { subject: String, text: String, state: Json },
}

/// What a [`Plan`] says.
#[allow(inconsistent_fields)]
pub enum Decision {
    Unchanged { line: Seq<char>, state: Option<Doc> },
    Send { subject: Seq<char>, text: Seq<char>, state: Doc },
}

impl View for Plan {
    type V = Decision;

    open spec fn view(&self) -> Decision {
        match self {
            Plan::Unchanged { line, state } => Decision::Unchanged {
                line: line@,
                state: json::opt_own(*state),
            },
            Plan::Send { subject, text, state } => Decision::Send {
                subject: subject@,
                text: text@,
                state: state@,
            },
        }
    }
}

/// How many of the first `n` signals fire.
pub open spec fn fired_count(sig: Seq<(Seq<char>, bool, Seq<char>)>, n: nat) -> nat
    decreases n,
{
    if n == 0 {
        0
    } else {
        fired_count(sig, (n - 1) as nat) + (if sig[n - 1].1 {
            1nat
        } else {
            0
        })
    }
}

/// The arming the state holds.
pub open spec fn prev_arm(st: Doc) -> Doc {
    if st.has_truthy("btc_arm"@) {
        st.get("btc_arm"@)->0
    } else {
        Doc::obj()
    }
}

/// The arming of a run before its latch is set: the read, or the previous one with the error.
pub open spec fn read_arm(st: Doc, arm_read: Result<Doc, Seq<char>>) -> Doc {
    match arm_read {
        Ok(a) => a,
        Err(e) => (if prev_arm(st) is Obj {
            prev_arm(st)
        } else {
            Doc::obj()
        }).set("error"@, Doc::Str("arming unavailable: "@ + e)),
    }
}

pub open spec fn float_or0(d: Doc, key: Seq<char>) -> Double {
    match d.float_or0(key) {
        Some(f) => f,
        None => Double::zero_spec(),
    }
}

/// Until when the arming holds.
pub open spec fn latch_spec(st: Doc, arm: Doc, now: Double) -> Double {
    if arm.has_truthy("armed"@) {
        now.add_spec(
            Double::int_spec(ARM_LATCH_DAYS as int).mul_spec(Double::int_spec(86400)),
        )
    } else {
        float_or0(prev_arm(st), "armed_until"@)
    }
}

/// Whether the arming was in force when it was last read.
pub open spec fn was_in_force(st: Doc) -> bool {
    let p = prev_arm(st);
    p.has_truthy("armed"@) || float_or0(p, "ts"@).lt_spec(float_or0(p, "armed_until"@))
}

/// The texts of the signals, by name.
pub open spec fn readings_doc(sig: Seq<(Seq<char>, bool, Seq<char>)>, n: nat) -> Doc
    decreases n,
{
    if n == 0 {
        Doc::obj()
    } else {
        readings_doc(sig, (n - 1) as nat).with(sig[n - 1].0, Doc::Str(sig[n - 1].2))
    }
}

/// A run that changes nothing.
pub open spec fn unchanged_line_text(level: Seq<char>, fired: nat, on: bool) -> Seq<char> {
    "froth "@
        + level
        + " ("@
        + text::dec(fired)
        + "/4), BTC arm "@
        + (if on { "ON"@ } else { "off"@ })
        + " — unchanged, no alert."@
}

fn unchanged_line(level: &str, fired: u64, on: bool) -> (r: String)
    ensures
        r@ == unchanged_line_text(level@, fired as nat, on),
{
    let mut r = text::owned("froth ");
    r.push_str(level);
    r.push_str(" (");
    r.push_str(text::dec_u64(fired).as_str());
    r.push_str("/4), BTC arm ");
    r.push_str(if on { "ON" } else { "off" });
    r.push_str(" — unchanged, no alert.");
    r
}

/// What a run decides.
pub open spec fn plan_spec(
    sig: Seq<(Seq<char>, bool, Seq<char>)>,
    st: Doc,
    arm_read: Result<Doc, Seq<char>>,
    force: bool,
    now: Double,
) -> Decision {
    let fired = fired_count(sig, sig.len());
    let level = level_spec(fired);
    let arm0 = read_arm(st, arm_read);
    let latched = arm0.set("armed_until"@, Doc::Float(latch_spec(st, arm0, now)));
    let eff = latched.has_truthy("armed"@) || now.lt_spec(latch_spec(st, arm0, now));
    let arm = latched.set("effective"@, Doc::Bool(eff));
    let changed = eff != was_in_force(st);
    let failed = arm.has_truthy("error"@);
    if st.get("level"@) == Some(Doc::Str(level)) && !changed && !force {
        Decision::Unchanged {
            line: unchanged_line_text(level, fired, arm.has_truthy("armed"@)),
            state: if failed {
                None
            } else {
                Some(st.set("btc_arm"@, arm))
            },
        }
    } else {
        let prev = if st.has_truthy("level"@) {
            Some(st.get("level"@)->0.py_str())
        } else {
            None
        };
        let s = st.set("level"@, Doc::Str(level)).set("fired"@, Doc::Int(fired as i64)).set(
            "epoch"@,
            Doc::Int(now.cast_spec(i64::MIN as int, i64::MAX as int) as i64),
        ).set("signals"@, readings_doc(sig, sig.len()));
        Decision::Send {
            subject: message_subject(level, prev, fired, arm, changed),
            text: text::join_of(message_lines(level, prev, sig, fired, arm, now), "\n"@),
            state: if failed {
                s
            } else {
                s.set("btc_arm"@, arm)
            },
        }
    }
}

/// Decide a run. `st` is the previous state (an empty object when there is none), `arm_read`
/// what [`btc_arm`] returned.
pub fn plan(
    sig: &Vec<Signal>,
    st: &Json,
    arm_read: Result<Json, String>,
    force: bool,
    now: Double,
) -> (r: Plan)
    requires
        sig@.len() <= i64::MAX,
    ensures
        r@ == plan_spec(signal_views(sig@), st@, source(arm_read), force, now),
{
    let mut fired: usize = 0;
    let mut i: usize = 0;
    while i < sig.len()
        invariant
            i <= sig@.len(),
            fired == fired_count(signal_views(sig@), i as nat),
            fired <= i,
        decreases sig@.len() - i,
    {
        assert(signal_views(sig@)[i as int].1 == sig@[i as int].1);
        if sig[i].1 {
            fired = fired + 1;
        }
        i = i + 1;
    }
    let level = level_for(fired);
    let prev = if st.has_truthy("btc_arm") {
        st.get_copy("btc_arm")
    } else {
        Json::obj()
    };
    assert(prev@ == prev_arm(st@));
    let mut arm = match arm_read {
        Ok(a) => a,
        Err(e) => {
            let mut a = if prev.is_obj() {
                prev.copy()
            } else {
                Json::obj()
            };
            a.set("error", Json::Str(text::cat("arming unavailable: ", e.as_str())));
            a
        },
    };
    let latch = if arm.has_truthy("armed") {
        now.plus(Double::of_int(ARM_LATCH_DAYS).times(Double::of_int(86400)))
    } else {
        match prev.float_or0("armed_until") {
            Some(f) => f,
            None => Double::zero(),
        }
    };
    arm.set("armed_until", Json::Float(latch));
    let eff_now: bool = arm.has_truthy("armed") || now.lt(latch);
    let ts = match prev.float_or0("ts") {
        Some(f) => f,
        None => Double::zero(),
    };
    let until = match prev.float_or0("armed_until") {
        Some(f) => f,
        None => Double::zero(),
    };
    let eff_prev: bool = prev.has_truthy("armed") || ts.lt(until);
    arm.set("effective", Json::Bool(eff_now));
    let changed: bool = eff_now != eff_prev;
    let failed: bool = arm.has_truthy("error");
    let same: bool = match st.get("level") {
        Some(p) => p.is_text(level),
        None => false,
    };
    if same && !changed && !force {
        let line = unchanged_line(level, fired as u64, arm.has_truthy("armed"));
        let state = if failed {
            None
        } else {
            let mut s = st.copy();
            s.set("btc_arm", arm);
            Some(s)
        };
        return Plan::Unchanged { line, state };
    }
    let prev_level: Option<String> = match st.get("level") {
        Some(p) => if p.truthy() {
            Some(p.py_str())
        } else {
            None
        },
        None => None,
    };
    let shown: Option<&str> = match &prev_level {
        Some(s) => Some(s.as_str()),
        None => None,
    };
    let (subject, text) = build_message(level, shown, sig, fired, &arm, changed, now);
    let mut state = st.copy();
    state.set("level", Json::text(level));
    state.set("fired", Json::Int(fired as i64));
    state.set("epoch", Json::Int(now.to_i64()));
    let mut texts = Json::obj();
    let mut k: usize = 0;
    while k < sig.len()
        invariant
            k <= sig@.len(),
            texts@ == readings_doc(signal_views(sig@), k as nat),
        decreases sig@.len() - k,
    {
        assert(signal_views(sig@)[k as int] == (sig@[k as int].0@, sig@[k as int].1, sig@[k as int].2@));
        texts = texts.with(sig[k].0, Json::text(sig[k].2.as_str()));
        k = k + 1;
    }
    state.set("signals", texts);
    if !failed {
        state.set("btc_arm", arm);
    }
    Plan::Send { subject, text, state }
}

// ------------------------------------------------------------------ laws
/// A source that failed never counts as firing.
pub proof fn law_dead_source_is_not_firing(e: Seq<char>)
    ensures
        !reading_spec(Err(e)).0,
{
}

/// A run on the level that the state records, with the arming unchanged and nothing forced,
/// sends nothing: one mail per level change.
pub proof fn law_one_mail_per_level(
    sig: Seq<(Seq<char>, bool, Seq<char>)>,
    st: Doc,
    arm_read: Result<Doc, Seq<char>>,
    now: Double,
)
    requires
        st.get("level"@) == Some(Doc::Str(level_spec(fired_count(sig, sig.len())))),
        ({
            let arm0 = read_arm(st, arm_read);
            let latched = arm0.set("armed_until"@, Doc::Float(latch_spec(st, arm0, now)));
            (latched.has_truthy("armed"@) || now.lt_spec(latch_spec(st, arm0, now)))
                == was_in_force(st)
        }),
    ensures
        plan_spec(sig, st, arm_read, false, now) is Unchanged,
{
}

/// The state a mail leaves records the level that was mailed.
pub proof fn law_sent_level_is_recorded(
    sig: Seq<(Seq<char>, bool, Seq<char>)>,
    st: Doc,
    arm_read: Result<Doc, Seq<char>>,
    force: bool,
    now: Double,
)
    requires
        st is Obj,
        plan_spec(sig, st, arm_read, force, now) is Send,
    ensures
        plan_spec(sig, st, arm_read, force, now)->Send_state.get("level"@) == Some(
            Doc::Str(level_spec(fired_count(sig, sig.len()))),
        ),
{
    reveal_strlit("level");
    reveal_strlit("fired");
    reveal_strlit("epoch");
    reveal_strlit("signals");
    reveal_strlit("btc_arm");
    assert("level"@[0] != "fired"@[0] && "level"@[0] != "epoch"@[0] && "level"@[0] != "signals"@[0]
        && "level"@[0] != "btc_arm"@[0]);
    let level = Doc::Str(level_spec(fired_count(sig, sig.len())));
    let fired = fired_count(sig, sig.len());
    let a = st.set("level"@, level);
    let b = a.set("fired"@, Doc::Int(fired as i64));
    let e = Doc::Int(now.cast_spec(i64::MIN as int, i64::MAX as int) as i64);
    let c = b.set("epoch"@, e);
    let d = c.set("signals"@, readings_doc(sig, sig.len()));
    json::law_set_then_get(st, "level"@, level, "level"@);
    json::law_set_then_get(a, "fired"@, Doc::Int(fired as i64), "level"@);
    json::law_set_then_get(b, "epoch"@, e, "level"@);
    json::law_set_then_get(c, "signals"@, readings_doc(sig, sig.len()), "level"@);
    let arm0 = read_arm(st, arm_read);
    let latched = arm0.set("armed_until"@, Doc::Float(latch_spec(st, arm0, now)));
    let eff = latched.has_truthy("armed"@) || now.lt_spec(latch_spec(st, arm0, now));
    json::law_set_then_get(d, "btc_arm"@, latched.set("effective"@, Doc::Bool(eff)), "level"@);
}

/// The largest is one of them, and none is larger.
pub proof fn law_the_highest_is_the_largest(v: Seq<Double>, n: nat, i: int)
    requires
        0 <= i < n <= v.len(),
        forall|k: int| 0 <= k < n ==> (#[trigger] v[k]).finite(),
    ensures
        v[i].le_spec(highest(v, n)),
        exists|k: int| 0 <= k < n && #[trigger] v[k] == highest(v, n),
    decreases n,
{
    let m = (n - 1) as nat;
    crate::double::lemma_scaled_zero();
    if m == 0 {
        reveal_with_fuel(highest, 2);
        rounding::lemma_infinite_is_last(v[0]);
        rounding::lemma_infinite_is_last(highest(v, 0));
        assert(highest(v, 0).amount() == -(crate::double::scaled(
            crate::double::INFINITE as nat,
        ) as int));
        assert(v[0] == highest(v, 1));
    } else {
        let j = if i < m {
            i
        } else {
            0
        };
        law_the_highest_is_the_largest(v, m, j);
        let k = choose|k: int| 0 <= k < m && #[trigger] v[k] == highest(v, m);
        if highest(v, n) == v[n - 1] {
            assert(v[n - 1] == highest(v, n));
        } else {
            assert(v[k] == highest(v, n));
        }
    }
}

/// An average is what the last ones come to together over how many they are, but for rounding.
pub proof fn law_an_average_is_the_mean_of_the_last(v: Seq<Double>, n: int)
    requires
        0 < n <= 0x10_0000,
        n <= v.len(),
        forall|k: int| v.len() - n <= k < v.len() ==> (#[trigger] v[k]).finite() && v[k].amount() >= 0,
        pyfmt::sum_spec(tail_of(v, n)).finite(),
        average_of(v, n).finite(),
    ensures
        ({
            let last = v.subrange(v.len() - n, v.len() as int);
            let e = rounding::exact_sum(last, n as nat);
            let m = average_of(v, n).amount();
            rounding::grain() * rounding::size(m * n - e) <= n * (rounding::size(m) + 20 * e + 21
                * rounding::least())
        }),
{
    let last = v.subrange(v.len() - n, v.len() as int);
    assert(tail_of(v, n) =~= last);
    assert(last.len() == n);
    rounding::lemma_mean(last);
}

/// An arming holds for its days from when it is read.
pub proof fn law_an_arming_holds_for_its_days(st: Doc, arm: Doc, now: Double, until: Double)
    requires
        arm.has_truthy("armed"@),
        now.finite(),
        until.finite(),
        until.amount() == now.amount() + ARM_LATCH_DAYS * 86400 * crate::double::unit(),
    ensures
        latch_spec(st, arm, now).amount() == until.amount(),
{
    let d = ARM_LATCH_DAYS as int;
    rounding::lemma_whole_is_exact(d);
    rounding::lemma_whole_is_exact(86400);
    rounding::lemma_whole_is_exact(d * 86400);
    let u = crate::double::unit() as int;
    assert((d * u) * (86400 * u) == (d * 86400 * u) * u) by (nonlinear_arith);
    rounding::lemma_exact_product(
        Double::int_spec(d),
        Double::int_spec(86400),
        Double::int_spec(d * 86400),
    );
    rounding::lemma_exact_sum(
        now,
        Double::int_spec(d).mul_spec(Double::int_spec(86400)),
        until,
    );
}

/// The newest close is hot at twice the average, and not while it is no more than the average.
pub proof fn law_twice_the_average_is_hot(closes: Seq<Double>)
    requires
        closes.len() > 0,
        closes.last().finite(),
        average_of(closes, 200).finite(),
        closes.last().amount() >= 0,
        average_of(closes, 200).amount() > 0,
        closes.last().div_spec(average_of(closes, 200)).finite(),
    ensures
        mayer_spec(closes) matches Ok(r) && {
            &&& closes.last().amount() >= 2 * average_of(closes, 200).amount() ==> r.0
            &&& closes.last().amount() <= average_of(closes, 200).amount() ==> !r.0
        },
{
    let x = closes.last();
    let y = average_of(closes, 200);
    let a = x.amount();
    let v = y.amount();
    let u = crate::double::unit() as int;
    let g = rounding::grain();
    let l = rounding::least();
    crate::double::lemma_scaled_zero();
    vstd::arithmetic::power2::lemma_pow2_pos(1074);
    rounding::lemma_over_ratio(18, 10);
    let t = mayer_hot().amount();
    assert(l <= u) by {
        vstd::arithmetic::power2::lemma2_to64();
        vstd::arithmetic::power2::lemma2_to64_rest();
        vstd::arithmetic::power2::lemma_pow2_strictly_increases(52, 1074);
    }
    let e = rounding::size(t * 10 - 18 * u);
    assert(17 * u <= 10 * t <= 19 * u) by (nonlinear_arith)
        requires
            g * e <= 10 * (t + l),
            e >= t * 10 - 18 * u,
            e >= 18 * u - t * 10,
            0 <= t <= 2 * u,
            l <= u,
            u > 0,
            g == 0x20_0000_0000_0000,
    ;
    let q = x.div_spec(y);
    let m = q.amount();
    if a <= v {
        if a < v {
            rounding::lemma_part_is_less(x, y);
        } else {
            rounding::lemma_whole_is_not_less(x, y);
        }
    }
    if a >= 2 * v {
        rounding::lemma_whole_is_not_less(x, y);
        rounding::lemma_div_error(x, y);
        let d = a * u - m * v;
        assert(g * d <= v * (m + l)) by (nonlinear_arith)
            requires
                g * rounding::size(m * v - a * u) <= v * (m + l),
                rounding::size(m * v - a * u) >= d,
                g > 0,
        ;
        assert(10 * m >= 19 * u) by (nonlinear_arith)
            requires
                g * d <= v * (m + l),
                d == a * u - m * v,
                a >= 2 * v,
                v > 0,
                u > 0,
                l <= u,
                m >= 0,
                g == 0x20_0000_0000_0000,
        {
            if 10 * m < 19 * u {
                assert(a * u >= 2 * v * u);
                assert(10 * d >= v * u) by (nonlinear_arith)
                    requires
                        d == a * u - m * v,
                        a * u >= 2 * v * u,
                        10 * m < 19 * u,
                        v > 0,
                ;
                assert(m + l <= 3 * u);
                assert(v * (m + l) <= v * (3 * u)) by (nonlinear_arith)
                    requires
                        m + l <= 3 * u,
                        v > 0,
                ;
                assert(g * d >= 100 * d) by (nonlinear_arith)
                    requires
                        g >= 100,
                        d >= 0,
                ;
                assert(v * (3 * u) == 3 * (v * u)) by (nonlinear_arith);
                assert(v * u > 0) by (nonlinear_arith)
                    requires
                        v > 0,
                        u > 0,
                ;
            }
        }
    }
}

} // verus!
