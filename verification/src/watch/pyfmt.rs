//! Number formats of the watcher messages: fixed, signed, grouped, `g` and the shortest
//! round-trip form.
use crate::big::Big;
use crate::decimal;
use crate::double;
use crate::double::Double;
use crate::text;
use vstd::prelude::*;

verus! {

/// How a number that is not finite is spelled.
pub open spec fn nonfinite_spec(x: Double) -> Option<Seq<char>> {
    if x.nan() {
        Some("nan"@)
    } else if x.infinite() {
        if x.neg() {
            Some("-inf"@)
        } else {
            Some("inf"@)
        }
    } else {
        None
    }
}

fn nonfinite(x: Double) -> (r: Option<String>)
    ensures
        r is Some == nonfinite_spec(x) is Some,
        r is Some ==> r->0@ == nonfinite_spec(x)->0,
        r is None ==> x.finite(),
{
    if x.is_nan() {
        Some(text::owned("nan"))
    } else if x.is_infinite() {
        if x.is_neg() {
            Some(text::owned("-inf"))
        } else {
            Some(text::owned("inf"))
        }
    } else {
        None
    }
}

/// `x` with `prec` digits after the point.
pub open spec fn fixed_spec(x: Double, prec: nat) -> Seq<char> {
    match nonfinite_spec(x) {
        Some(s) => s,
        None => decimal::fixed_of(x, prec),
    }
}

/// `x` with `prec` digits after the point, rounded half to even on the exact value.
pub fn fixed(x: Double, prec: usize) -> (r: String)
    ensures
        r@ == fixed_spec(x, prec as nat),
{
    match nonfinite(x) {
        Some(s) => s,
        None => decimal::fixed_finite(x, prec),
    }
}

/// [`fixed_spec`] with a sign in front of every number.
pub open spec fn signed_spec(x: Double, prec: nat) -> Seq<char> {
    match nonfinite_spec(x) {
        Some(s) => if x.infinite() && x.neg() {
            s
        } else {
            "+"@ + s
        },
        None => if x.neg() {
            decimal::fixed_of(x, prec)
        } else {
            "+"@ + decimal::fixed_of(x, prec)
        },
    }
}

/// `x` with a sign and `prec` digits after the point.
pub fn signed(x: Double, prec: usize) -> (r: String)
    ensures
        r@ == signed_spec(x, prec as nat),
{
    match nonfinite(x) {
        Some(s) => {
            if x.is_infinite() && x.is_neg() {
                s
            } else {
                text::cat("+", s.as_str())
            }
        },
        None => {
            let s = decimal::fixed_finite(x, prec);
            if x.is_neg() {
                s
            } else {
                text::cat("+", s.as_str())
            }
        },
    }
}

/// The first `n` digits of a run with a comma before every group of three.
pub open spec fn commas(run: Seq<char>, n: nat) -> Seq<char>
    decreases n,
{
    if n == 0 {
        Seq::empty()
    } else {
        let head = commas(run, (n - 1) as nat);
        if n > 1 && (run.len() - (n - 1)) % 3 == 0 {
            head.push(',').push(run[n - 1])
        } else {
            head.push(run[n - 1])
        }
    }
}

/// How long the sign in front of a numeral is.
pub open spec fn sign_len(s: Seq<char>) -> int {
    if s.len() > 0 && (s[0] == '-' || s[0] == '+') {
        1
    } else {
        0
    }
}

/// A numeral with a comma between every three digits of its whole part.
pub open spec fn group_spec(s: Seq<char>) -> Seq<char> {
    let a = sign_len(s);
    let b = text::place_of(s, '.', a);
    let run = s.subrange(a, b);
    if forall|i: int| 0 <= i < run.len() ==> text::is_digit(run[i]) {
        s.subrange(0, a) + commas(run, run.len()) + s.subrange(b, s.len() as int)
    } else {
        s
    }
}

/// A numeral with a comma between every three digits of its whole part.
fn group(s: &str) -> (r: String)
    ensures
        r@ == group_spec(s@),
{
    let v = text::chars_of(s);
    let a: usize = if v.len() > 0 && (v[0] == '-' || v[0] == '+') {
        1
    } else {
        0
    };
    let b: usize = text::find_char(&v, '.', a);
    let ghost run = s@.subrange(a as int, b as int);
    let n: usize = b - a;
    let mut out = text::slice_of(&v, 0, a);
    let ghost start = out@;
    let mut i: usize = 0;
    assert(start + commas(run, 0) =~= start);
    while i < n
        invariant
            i <= n,
            a <= b <= v@.len(),
            n == b - a,
            v@ == s@,
            run == s@.subrange(a as int, b as int),
            start == s@.subrange(0, a as int),
            a == sign_len(s@),
            b == text::place_of(s@, '.', a as int),
            forall|x: int| 0 <= x < i ==> text::is_digit(run[x]),
            out@ == start + commas(run, i as nat),
        decreases n - i,
    {
        if !text::digit_like(v[a + i]) {
            assert(!text::is_digit(run[i as int]));
            return text::owned(s);
        }
        let ghost before = commas(run, i as nat);
        if i > 0 && (n - i) % 3 == 0 {
            out.push(',');
            assert(out@ =~= start + before.push(','));
        }
        out.push(v[a + i]);
        i = i + 1;
        assert(out@ =~= start + commas(run, i as nat));
    }
    let tail = text::slice_of(&v, b, v.len());
    out.push_str(tail.as_str());
    out
}

/// `x` with `prec` digits after the point and commas between thousands.
pub open spec fn comma_spec(x: Double, prec: nat) -> Seq<char> {
    group_spec(fixed_spec(x, prec))
}

pub fn comma(x: Double, prec: usize) -> (r: String)
    ensures
        r@ == comma_spec(x, prec as nat),
{
    group(fixed(x, prec).as_str())
}

/// A numeral without trailing zeros after its point, or the point itself.
pub open spec fn strip_zeros_spec(s: Seq<char>) -> Seq<char> {
    if s.contains('.') {
        text::strip_end(text::strip_end(s, '0'), '.')
    } else {
        s
    }
}

fn strip_zeros(s: &str) -> (r: String)
    ensures
        r@ == strip_zeros_spec(s@),
{
    if text::has_char(s, '.') {
        text::stripped_end(text::stripped_end(s, '0').as_str(), '.')
    } else {
        text::owned(s)
    }
}

/// An exponent with its sign and at least two digits.
pub open spec fn exp_str_spec(e: int) -> Seq<char> {
    let m = if e < 0 {
        -e
    } else {
        e
    };
    (if e < 0 {
        "-"@
    } else {
        "+"@
    }) + (if m < 10 {
        text::digits(m as nat, 2)
    } else {
        text::dec(m as nat)
    })
}

pub fn exp_str(e: i64) -> (r: String)
    requires
        -100_000 < e < 100_000,
    ensures
        r@ == exp_str_spec(e as int),
{
    let m: u64 = if e < 0 {
        (-e) as u64
    } else {
        e as u64
    };
    let d = if m < 10 {
        text::digits_u64(m, 2)
    } else {
        text::dec_u64(m)
    };
    if e < 0 {
        text::cat("-", d.as_str())
    } else {
        text::cat("+", d.as_str())
    }
}

/// The minus sign of a negative number.
pub open spec fn minus(neg: bool) -> Seq<char> {
    if neg {
        "-"@
    } else {
        ""@
    }
}

/// `n` digits with a point after the first, where there are more.
pub open spec fn pointed(all: nat, n: nat) -> Seq<char> {
    let d = text::digits(all, n);
    if n <= 1 {
        d
    } else {
        d.take(1) + "."@ + d.skip(1)
    }
}

/// `x` to `prec` significant digits: plain where the exponent of the first digit lies in
/// `-4 .. prec`, else with an exponent; trailing zeros dropped either way.
pub open spec fn g_spec(x: Double, prec: nat) -> Seq<char> {
    let p = if prec == 0 {
        1
    } else {
        prec
    };
    match nonfinite_spec(x) {
        Some(s) => s,
        None => if x.mag() == 0 {
            minus(x.neg()) + "0"@
        } else {
            let (d, e) = decimal::sci(x.mag(), p);
            if -4 <= e < p {
                strip_zeros_spec(decimal::fixed_of(x, (p - 1 - e) as nat))
            } else {
                strip_zeros_spec(minus(x.neg()) + pointed(d, p)) + "e"@ + exp_str_spec(e)
            }
        },
    }
}

pub proof fn lemma_digits_len(n: nat, w: nat)
    ensures
        text::digits(n, w).len() == w,
    decreases w,
{
    if w > 0 {
        lemma_digits_len(n / 10, (w - 1) as nat);
    }
}

pub fn minus_text(neg: bool) -> (r: String)
    ensures
        r@ == minus(neg),
{
    if neg {
        text::owned("-")
    } else {
        text::owned("")
    }
}

fn pointed_text(all: &Big, n: usize) -> (r: String)
    ensures
        r@ == pointed(all@, n as nat),
{
    let d = text::digits_big(all, n);
    if n <= 1 {
        return d;
    }
    proof {
        lemma_digits_len(all@, n as nat);
    }
    let v = text::chars_of(d.as_str());
    let mut r = text::slice_of(&v, 0, 1);
    r.push_str(".");
    let rest = text::slice_of(&v, 1, v.len());
    assert(rest@ =~= d@.skip(1));
    assert(d@.take(1) =~= v@.subrange(0, 1));
    r.push_str(rest.as_str());
    r
}

/// `x` to `prec` significant digits (0 behaves as 1).
pub fn g(x: Double, prec: usize) -> (r: String)
    requires
        prec <= 0xffff,
    ensures
        r@ == g_spec(x, prec as nat),
{
    if let Some(s) = nonfinite(x) {
        return s;
    }
    let p: usize = if prec == 0 {
        1
    } else {
        prec
    };
    let c: u64 = x.magnitude();
    let mut sign = minus_text(x.is_neg());
    if c == 0 {
        sign.push_str("0");
        return sign;
    }
    let (d, e) = decimal::sci_of(c, p);
    if -4 <= e && e < p as i64 {
        let k: usize = (p as i64 - 1 - e) as usize;
        strip_zeros(decimal::fixed_finite(x, k).as_str())
    } else {
        let m = pointed_text(&d, p);
        sign.push_str(m.as_str());
        let mut r = strip_zeros(sign.as_str());
        r.push_str("e");
        r.push_str(exp_str(e).as_str());
        r
    }
}

/// `x` to six significant digits.
pub fn g6(x: Double) -> (r: String)
    ensures
        r@ == g_spec(x, 6),
{
    g(x, 6)
}

/// [`g_spec`] with commas between thousands, where there is no exponent.
pub open spec fn comma_g_spec(x: Double, prec: nat) -> Seq<char> {
    let s = g_spec(x, prec);
    if s.contains('e') || !x.finite() {
        s
    } else {
        group_spec(s)
    }
}

pub fn comma_g(x: Double, prec: usize) -> (r: String)
    requires
        prec <= 0xffff,
    ensures
        r@ == comma_g_spec(x, prec as nat),
{
    let s = g(x, prec);
    if text::has_char(s.as_str(), 'e') || !x.is_finite() {
        s
    } else {
        group(s.as_str())
    }
}

/// `n` digits `all`, the first of them worth ten to the power `e`, without an exponent.
pub open spec fn plain_body(all: nat, e: int, n: nat) -> Seq<char> {
    let d = text::digits(all, n);
    if e >= n - 1 {
        d + text::times('0', (e - n + 1) as nat) + ".0"@
    } else if e >= 0 {
        d.take(e + 1) + "."@ + d.skip(e + 1)
    } else {
        "0."@ + text::times('0', (-e - 1) as nat) + d
    }
}

/// The body of [`repr_spec`]: `n` digits `all`, the first of them worth ten to the power `e`.
pub open spec fn repr_body(all: nat, e: int, n: nat) -> Seq<char> {
    if -4 <= e < 16 {
        plain_body(all, e, n)
    } else {
        pointed(all, n) + "e"@ + exp_str_spec(e)
    }
}

/// The shortest digits that read back as `x`: plain where the exponent of the first lies in
/// `-4 .. 16`, with `.0` on whole numbers, else with an exponent.
pub open spec fn repr_spec(x: Double) -> Seq<char> {
    match nonfinite_spec(x) {
        Some(s) => s,
        None => if x.mag() == 0 {
            minus(x.neg()) + "0.0"@
        } else {
            let d = decimal::shortest(x.mag());
            minus(x.neg()) + repr_body(d.all, d.exp, d.count)
        },
    }
}

fn plain_body_text(all: &Big, e: i64, n: usize) -> (r: String)
    requires
        0 < n <= decimal::MOST_DIGITS,
        -2001 <= e <= 2001,
    ensures
        r@ == plain_body(all@, e as int, n as nat),
{
    let mut d = text::digits_big(all, n);
    proof {
        lemma_digits_len(all@, n as nat);
    }
    if e >= n as i64 - 1 {
        let z = text::repeated('0', (e - n as i64 + 1) as usize);
        d.push_str(z.as_str());
        d.push_str(".0");
        d
    } else if e >= 0 {
        let v = text::chars_of(d.as_str());
        let k: usize = (e + 1) as usize;
        let mut r = text::slice_of(&v, 0, k);
        let rest = text::slice_of(&v, k, v.len());
        assert(r@ =~= d@.take(e + 1));
        assert(rest@ =~= d@.skip(e + 1));
        r.push_str(".");
        r.push_str(rest.as_str());
        r
    } else {
        let z = text::repeated('0', (-e - 1) as usize);
        let mut r = text::owned("0.");
        r.push_str(z.as_str());
        r.push_str(d.as_str());
        r
    }
}

fn repr_body_text(all: &Big, e: i64, n: usize) -> (r: String)
    requires
        0 < n <= decimal::MOST_DIGITS,
        -2001 <= e <= 2001,
    ensures
        r@ == repr_body(all@, e as int, n as nat),
{
    if -4 <= e && e < 16 {
        plain_body_text(all, e, n)
    } else {
        let mut r = pointed_text(all, n);
        r.push_str("e");
        r.push_str(exp_str(e).as_str());
        r
    }
}

/// The shortest text that reads back as `x`.
pub fn repr(x: Double) -> (r: String)
    ensures
        r@ == repr_spec(x),
{
    if let Some(s) = nonfinite(x) {
        return s;
    }
    let c: u64 = x.magnitude();
    let mut sign = minus_text(x.is_neg());
    if c == 0 {
        sign.push_str("0.0");
        return sign;
    }
    let (all, e, n) = decimal::shortest_of(c);
    let body = repr_body_text(&all, e, n as usize);
    sign.push_str(body.as_str());
    sign
}

/// An exponent with its sign.
pub open spec fn short_exp_spec(e: int) -> Seq<char> {
    if e < 0 {
        "-"@ + text::dec((-e) as nat)
    } else {
        "+"@ + text::dec(e as nat)
    }
}

/// The shortest digits that read back as a finite `x`: plain where the exponent of the first lies
/// in `-5 .. 16`, with `.0` on whole numbers, else with an exponent of as few digits as it takes.
pub open spec fn compact_spec(x: Double) -> Seq<char> {
    if x.mag() == 0 {
        minus(x.neg()) + "0.0"@
    } else {
        let d = decimal::shortest(x.mag());
        minus(x.neg()) + (if -5 <= d.exp < 16 {
            plain_body(d.all, d.exp, d.count)
        } else {
            pointed(d.all, d.count) + "e"@ + short_exp_spec(d.exp)
        })
    }
}

/// The shortest text that reads back as a finite `x`, with a plain exponent.
pub fn compact(x: Double) -> (r: String)
    requires
        x.finite(),
    ensures
        r@ == compact_spec(x),
{
    let c: u64 = x.magnitude();
    let mut r = minus_text(x.is_neg());
    if c == 0 {
        r.push_str("0.0");
        return r;
    }
    let (all, e, n) = decimal::shortest_of(c);
    if -5 <= e && e < 16 {
        r.push_str(plain_body_text(&all, e, n as usize).as_str());
        return r;
    }
    let mut body = pointed_text(&all, n as usize);
    body.push_str("e");
    if e < 0 {
        body.push_str(text::cat("-", text::dec_u64((-e) as u64).as_str()).as_str());
    } else {
        body.push_str(text::cat("+", text::dec_u64(e as u64).as_str()).as_str());
    }
    r.push_str(body.as_str());
    r
}

/// The running total and its correction after the first `n` numbers.
pub open spec fn sum_state(xs: Seq<Double>, n: nat) -> (Double, Double)
    decreases n,
{
    if n <= 1 {
        (Double::zero_spec().add_spec(xs[0]), Double::zero_spec())
    } else {
        let (s, c) = sum_state(xs, (n - 1) as nat);
        let x = xs[n - 1];
        let t = s.add_spec(x);
        let d = if x.abs_spec().le_spec(s.abs_spec()) {
            s.sub_spec(t).add_spec(x)
        } else {
            x.sub_spec(t).add_spec(s)
        };
        (t, c.add_spec(d))
    }
}

/// The compensated sum: a running total whose rounding errors are collected apart and added
/// back at the end.
pub open spec fn sum_spec(xs: Seq<Double>) -> Double {
    if xs.len() == 0 {
        Double::zero_spec()
    } else {
        let (s, c) = sum_state(xs, xs.len());
        if !c.eq_spec(Double::zero_spec()) && c.finite() {
            s.add_spec(c)
        } else {
            s
        }
    }
}

/// The compensated sum.
pub fn sum(xs: &Vec<Double>) -> (r: Double)
    ensures
        r == sum_spec(xs@),
{
    if xs.len() == 0 {
        return Double::zero();
    }
    let mut s = Double::zero().plus(xs[0]);
    let mut c = Double::zero();
    let mut i: usize = 1;
    while i < xs.len()
        invariant
            1 <= i <= xs@.len(),
            (s, c) == sum_state(xs@, i as nat),
        decreases xs@.len() - i,
    {
        let x = xs[i];
        let t = s.plus(x);
        let d = if x.abs().le(s.abs()) {
            s.minus(t).plus(x)
        } else {
            x.minus(t).plus(s)
        };
        c = c.plus(d);
        s = t;
        i = i + 1;
    }
    if !c.same(Double::zero()) && c.is_finite() {
        s.plus(c)
    } else {
        s
    }
}

/// `x` rounded to `nd` digits after the point.
pub open spec fn round_spec(x: Double, nd: nat) -> Double {
    if x.finite() {
        decimal::rounded_of(x, nd)
    } else {
        x
    }
}

pub fn round(x: Double, nd: usize) -> (r: Double)
    ensures
        r == round_spec(x, nd as nat),
{
    if x.is_finite() {
        decimal::rounded_finite(x, nd)
    } else {
        x
    }
}

/// The number a text spells, words for the non-finite ones included, capitals or not.
pub open spec fn number_or_word(s: Seq<char>) -> Option<Double> {
    let w = text::ascii_lower(s.skip(decimal::after_sign(s, 0)));
    let neg = s.len() > 0 && s[0] == '-';
    if w == "nan"@ {
        Some(double::of_magnitude(neg, double::NOT_A_NUMBER as nat))
    } else if w == "inf"@ || w == "infinity"@ {
        Some(double::of_magnitude(neg, double::INFINITE as nat))
    } else {
        decimal::number_of(s)
    }
}

pub fn read_number_or_word(s: &str) -> (r: Option<Double>)
    ensures
        r == number_or_word(s@),
{
    let v = text::chars_of(s);
    let a: usize = if v.len() > 0 && (v[0] == '+' || v[0] == '-') {
        1
    } else {
        0
    };
    let neg: bool = v.len() > 0 && v[0] == '-';
    let bare = text::slice_of(&v, a, v.len());
    assert(bare@ =~= s@.skip(a as int));
    let w = text::to_ascii_lower(bare.as_str());
    if text::same(w.as_str(), "nan") {
        Some(double::signed_mag(neg, double::NOT_A_NUMBER))
    } else if text::same(w.as_str(), "inf") || text::same(w.as_str(), "infinity") {
        Some(double::signed_mag(neg, double::INFINITE))
    } else {
        decimal::read_number(&v)
    }
}

/// The number a field spells: white space around it and underscores between its digits do not
/// count.
pub open spec fn parse_float_spec(s: Seq<char>) -> Option<Double> {
    let t = text::trim(s);
    let w = text::ascii_lower(t);
    if w == "nan"@ || w == "+nan"@ || w == "-nan"@ {
        Some(double::of_magnitude(false, double::NOT_A_NUMBER as nat))
    } else if w == "inf"@ || w == "+inf"@ || w == "infinity"@ || w == "+infinity"@ {
        Some(double::of_magnitude(false, double::INFINITE as nat))
    } else if w == "-inf"@ || w == "-infinity"@ {
        Some(double::of_magnitude(true, double::INFINITE as nat))
    } else {
        match text::ungrouped(t) {
            Some(c) => number_or_word(c),
            None => None,
        }
    }
}

pub fn parse_float(s: &str) -> (r: Option<Double>)
    ensures
        r == parse_float_spec(s@),
{
    let t = text::trimmed(s);
    let lower = text::to_ascii_lower(t.as_str());
    let w = lower.as_str();
    if text::same(w, "nan") || text::same(w, "+nan") || text::same(w, "-nan") {
        Some(Double::nan_value())
    } else if text::same(w, "inf") || text::same(w, "+inf") || text::same(w, "infinity")
        || text::same(w, "+infinity") {
        Some(Double::infinity(false))
    } else if text::same(w, "-inf") || text::same(w, "-infinity") {
        Some(Double::infinity(true))
    } else {
        match text::ungroup(t.as_str()) {
            Some(c) => read_number_or_word(c.as_str()),
            None => None,
        }
    }
}

/// `s` filled with spaces on the right to `width` characters.
pub open spec fn ljust_spec(s: Seq<char>, width: nat) -> Seq<char> {
    if s.len() >= width {
        s
    } else {
        s + text::times(' ', (width - s.len()) as nat)
    }
}

/// `s` filled with spaces on the left to `width` characters.
pub open spec fn rjust_spec(s: Seq<char>, width: nat) -> Seq<char> {
    if s.len() >= width {
        s
    } else {
        text::times(' ', (width - s.len()) as nat) + s
    }
}

/// Left-justify to `width` characters.
pub fn ljust(s: &str, width: usize) -> (r: String)
    ensures
        r@ == ljust_spec(s@, width as nat),
{
    let n: usize = text::chars_of(s).len();
    let mut r = text::owned(s);
    if n < width {
        r.push_str(text::repeated(' ', width - n).as_str());
    }
    r
}

/// Right-justify to `width` characters.
pub fn rjust(s: &str, width: usize) -> (r: String)
    ensures
        r@ == rjust_spec(s@, width as nat),
{
    let n: usize = text::chars_of(s).len();
    if n >= width {
        return text::owned(s);
    }
    let mut r = text::repeated(' ', width - n);
    r.push_str(s);
    r
}

/// Division rounded toward negative infinity.
pub open spec fn floordiv_spec(a: int, b: int) -> int {
    if b > 0 {
        a / b
    } else {
        (-a) / (-b)
    }
}

/// `n / d` rounded down.
pub fn floor_wide(n: i128, d: u128) -> (r: i128)
    requires
        0 < d,
        i128::MIN < n,
        d < 0x1_0000_0000_0000_0000,
    ensures
        r == n as int / d as int,
{
    if n >= 0 {
        let q: u128 = (n as u128) / d;
        assert(0 <= q <= n) by (nonlinear_arith)
            requires
                q == (n as u128) / d,
                d > 0,
                n >= 0,
        ;
        q as i128
    } else {
        let m: u128 = (-n) as u128;
        let q: u128 = (m + d - 1) / d;
        proof {
            lemma_floor_neg(m as int, d as int);
            assert(0 <= q <= m) by (nonlinear_arith)
                requires
                    q == (m + d - 1) / (d as int),
                    d > 0,
                    m > 0,
            ;
        }
        -(q as i128)
    }
}

/// Division rounded toward negative infinity.
pub fn floordiv(a: i64, b: i64) -> (r: i64)
    requires
        b != 0,
        !(a == i64::MIN && b == -1),
    ensures
        r == floordiv_spec(a as int, b as int),
{
    let n: i128 = if b > 0 {
        a as i128
    } else {
        -(a as i128)
    };
    let d: u128 = if b > 0 {
        b as u128
    } else {
        (-(b as i128)) as u128
    };
    let q: i128 = floor_wide(n, d);
    proof {
        let nn = n as int;
        let dd = d as int;
        assert(-0x8000_0000_0000_0000 <= nn / dd <= 0x8000_0000_0000_0000) by (nonlinear_arith)
            requires
                -0x8000_0000_0000_0000 <= nn <= 0x8000_0000_0000_0000,
                dd >= 1,
        ;
        if n == 0x8000_0000_0000_0000 {
            assert(nn / dd <= 0x4000_0000_0000_0000) by (nonlinear_arith)
                requires
                    nn == 0x8000_0000_0000_0000,
                    dd >= 2,
            ;
        } else {
            assert(nn / dd <= 0x7fff_ffff_ffff_ffff) by (nonlinear_arith)
                requires
                    nn <= 0x7fff_ffff_ffff_ffff,
                    dd >= 1,
            ;
        }
    }
    q as i64
}

proof fn lemma_floor_neg(m: int, d: int)
    requires
        m > 0,
        d > 0,
    ensures
        (-m) / d == -((m + d - 1) / d),
{
    let q = (m + d - 1) / d;
    let r = (m + d - 1) % d;
    vstd::arithmetic::div_mod::lemma_fundamental_div_mod(m + d - 1, d);
    assert(-m == d * (-q) + (d - 1 - r)) by (nonlinear_arith)
        requires
            m + d - 1 == d * q + r,
    ;
    vstd::arithmetic::div_mod::lemma_fundamental_div_mod_converse(-m, d, -q, d - 1 - r);
}

} // verus!
