//! Decimal text of binary64 numbers, exact to the last digit, and reading it back.
use crate::big::Big;
use crate::double;
use crate::double::Double;
use crate::text;
use vstd::arithmetic::div_mod::*;
use vstd::arithmetic::mul::*;
use vstd::arithmetic::power2::*;
use vstd::prelude::*;

verus! {

/// Ten to the power `n`.
pub open spec fn ten(n: nat) -> nat
    decreases n,
{
    if n == 0 {
        1
    } else {
        10 * ten((n - 1) as nat)
    }
}

/// The whole number nearest to `n / d`, the even one of two.
pub open spec fn half_even(n: nat, d: nat) -> nat {
    let q = n / d;
    let r = n % d;
    if 2 * r < d || (2 * r == d && q % 2 == 0) {
        q
    } else {
        q + 1
    }
}

/// The numerator of a magnitude's value.
pub open spec fn num(c: nat) -> nat {
    if double::doublings(c) >= 1074 {
        double::significand(c) * pow2((double::doublings(c) - 1074) as nat)
    } else {
        double::significand(c)
    }
}

/// The denominator of a magnitude's value.
pub open spec fn den(c: nat) -> nat {
    if double::doublings(c) >= 1074 {
        1
    } else {
        pow2((1074 - double::doublings(c)) as nat)
    }
}

/// A magnitude with `prec` digits after the point.
pub open spec fn fixed_mag(c: nat, prec: nat) -> Seq<char> {
    let t = ten(prec);
    let q = half_even(num(c) * t, den(c));
    if prec == 0 {
        text::dec(q)
    } else {
        text::dec(q / t) + seq!['.'] + text::digits(q % t, prec)
    }
}

/// A finite number with `prec` digits after the point.
pub open spec fn fixed_of(x: Double, prec: nat) -> Seq<char> {
    if x.neg() {
        seq!['-'] + fixed_mag(x.mag(), prec)
    } else {
        fixed_mag(x.mag(), prec)
    }
}

/// Whether `n / d` is at least ten to the power `e`.
pub open spec fn at_least(n: nat, d: nat, e: int) -> bool {
    if e >= 0 {
        n >= d * ten(e as nat)
    } else {
        n * ten((-e) as nat) >= d
    }
}

/// The decimal exponent of the first digit of `n / d`.
pub open spec fn decade(n: nat, d: nat) -> int {
    choose|e: int| #[trigger] at_least(n, d, e) && !at_least(n, d, e + 1)
}

/// `n` times ten to the power `k`, where `k` is positive.
pub open spec fn raised(n: nat, k: int) -> nat {
    if k >= 0 {
        n * ten(k as nat)
    } else {
        n
    }
}

/// A magnitude rounded to `p` significant digits: the digits, and the exponent of the first.
pub open spec fn sci(c: nat, p: nat) -> (nat, int) {
    let e = decade(num(c), den(c));
    let k = p - 1 - e;
    let q = half_even(raised(num(c), k), raised(den(c), -k));
    if q == ten(p) {
        (ten((p - 1) as nat), e + 1)
    } else {
        (q, e)
    }
}

/// The magnitude nearest to `m` times ten to the power `k`.
pub open spec fn decimal_mag(m: nat, k: int) -> nat {
    double::nearest(raised(m, k) * double::unit(), raised(1, -k))
}

/// Decimal digits as a whole number, the exponent of the first, and how many there are.
pub struct Digits {
    pub all: nat,
    pub exp: int,
    pub count: nat,
}

/// Of the two `k`-digit decimals around a magnitude, the closer one that reads back as it.
pub open spec fn candidate(c: nat, k: nat) -> Option<Digits> {
    let e = decade(num(c), den(c));
    let s = k - 1 - e;
    let n = raised(num(c), s);
    let d = raised(den(c), -s);
    let lo = n / d;
    let lo_reads = decimal_mag(lo, -s) == c;
    let hi_reads = decimal_mag(lo + 1, -s) == c;
    if lo_reads && (2 * (n % d) <= d || !hi_reads) {
        Some(Digits { all: lo, exp: e, count: k })
    } else if hi_reads {
        if lo + 1 == ten(k) {
            Some(Digits { all: ten((k - 1) as nat), exp: e + 1, count: k })
        } else {
            Some(Digits { all: lo + 1, exp: e, count: k })
        }
    } else {
        None
    }
}

/// The most digits any magnitude needs.
pub const MOST_DIGITS: u32 = 1500;

/// The candidate with the fewest digits, from `k` digits on.
pub open spec fn first_candidate(c: nat, k: nat) -> Digits
    decreases MOST_DIGITS - k,
{
    if k >= MOST_DIGITS || candidate(c, k) is Some {
        candidate(c, k)->0
    } else {
        first_candidate(c, k + 1)
    }
}

/// The shortest digits that read back as a magnitude.
pub open spec fn shortest(c: nat) -> Digits {
    first_candidate(c, 1)
}

pub proof fn lemma_ten(n: nat)
    ensures
        ten(n) > 0,
        ten(n + 1) == 10 * ten(n),
        ten(n) > n,
        ten(n) >= pow2(3 * n),
    decreases n,
{
    lemma2_to64();
    assert((n + 1 - 1) as nat == n);
    if n > 0 {
        lemma_ten((n - 1) as nat);
        lemma_pow2_adds(3 * (n - 1) as nat, 3);
        assert(3 * (n - 1) as nat + 3 == 3 * n);
    }
}

proof fn lemma_times_one(n: nat)
    ensures
        n * ten(0) == n,
{
    assert(ten(0) == 1);
    assert(n * 1 == n);
}

pub proof fn lemma_ten_increases(a: nat, b: nat)
    requires
        a <= b,
    ensures
        ten(a) <= ten(b),
        a < b ==> ten(a) < ten(b),
    decreases b,
{
    if a < b {
        lemma_ten((b - 1) as nat);
        lemma_ten_increases(a, (b - 1) as nat);
    }
}

proof fn lemma_at_least_down(n: nat, d: nat, e: int)
    requires
        at_least(n, d, e + 1),
    ensures
        at_least(n, d, e),
{
    if e >= 0 {
        lemma_ten(e as nat);
        let t = ten(e as nat);
        assert(d * (10 * t) >= d * t) by (nonlinear_arith);
    } else {
        let f = (-e) as nat;
        lemma_ten((f - 1) as nat);
        let t = ten((f - 1) as nat);
        assert(ten(f) == 10 * t);
        assert(n * (10 * t) >= n * t) by (nonlinear_arith);
        if f == 1 {
            assert(ten(0) == 1);
            let z = ten(0);
            assert(d * z == d) by (nonlinear_arith)
                requires
                    z == 1,
            ;
            assert(n * t == n) by (nonlinear_arith)
                requires
                    t == 1,
            ;
        }
    }
}

proof fn lemma_at_least_below(n: nat, d: nat, a: int, b: int)
    requires
        at_least(n, d, b),
        a <= b,
    ensures
        at_least(n, d, a),
    decreases b - a,
{
    if a < b {
        lemma_at_least_down(n, d, b - 1);
        lemma_at_least_below(n, d, a, b - 1);
    }
}

proof fn lemma_decade_is(n: nat, d: nat, e: int)
    requires
        at_least(n, d, e),
        !at_least(n, d, e + 1),
    ensures
        decade(n, d) == e,
{
    let f = decade(n, d);
    if f < e {
        lemma_at_least_below(n, d, f + 1, e);
    } else if e < f {
        lemma_at_least_below(n, d, e + 1, f);
    }
}

/// Ten to the power `k`.
pub fn ten_to(k: u128) -> (r: Big)
    ensures
        r@ == ten(k as nat),
{
    let mut r = Big::of(1);
    let mut i: u128 = 0;
    while i < k
        invariant
            i <= k,
            r@ == ten(i as nat),
        decreases k - i,
    {
        proof {
            lemma_ten(i as nat);
        }
        r = r.times_plus(10, 0);
        i = i + 1;
    }
    r
}

/// `b` times ten to the power `k`.
pub fn ten_times(b: &Big, k: u128) -> (r: Big)
    ensures
        r@ == b@ * ten(k as nat),
{
    let mut r = b.copy();
    let mut i: u128 = 0;
    proof {
        lemma_times_one(b@);
    }
    while i < k
        invariant
            i <= k,
            r@ == b@ * ten(i as nat),
        decreases k - i,
    {
        proof {
            lemma_ten(i as nat);
            let v = b@;
            let t = ten(i as nat);
            assert((v * t) * 10 == v * (10 * t)) by (nonlinear_arith);
        }
        r = r.times_plus(10, 0);
        i = i + 1;
    }
    r
}

fn raised_of(b: &Big, k: i128) -> (r: Big)
    ensures
        r@ == raised(b@, k as int),
{
    if k >= 0 {
        ten_times(b, k as u128)
    } else {
        b.copy()
    }
}

/// The value of a magnitude as a fraction.
pub fn fraction(c: u64) -> (r: (Big, Big))
    requires
        c <= double::INFINITE,
    ensures
        r.0@ == num(c as nat),
        r.1@ == den(c as nat),
        r.1@ > 0,
{
    let e: u64 = c / double::HIDDEN;
    let s: u64 = if e == 0 {
        c % double::HIDDEN
    } else {
        double::HIDDEN + c % double::HIDDEN
    };
    let k: u32 = if e == 0 {
        0
    } else {
        (e - 1) as u32
    };
    assert(k == double::doublings(c as nat));
    assert(s == double::significand(c as nat));
    if k >= 1074 {
        (Big::of(s).shifted(k - 1074), Big::of(1))
    } else {
        proof {
            lemma_pow2_pos((1074 - k) as nat);
        }
        (Big::of(s), Big::of(1).shifted(1074 - k))
    }
}

/// The whole number nearest to `n / d`, the even one of two.
pub fn half_even_of(n: &Big, d: &Big) -> (r: Big)
    requires
        d@ > 0,
    ensures
        r@ == half_even(n@, d@),
{
    let (q, m) = n.divide(d);
    let twice = m.times_plus(2, 0);
    let (_h, odd) = q.divide_small(2);
    if twice.less(d) || (!d.less(&twice) && odd == 0) {
        q
    } else {
        q.plus(&Big::of(1))
    }
}

fn fixed_text(c: u64, prec: usize) -> (r: String)
    requires
        c <= double::INFINITE,
    ensures
        r@ == fixed_mag(c as nat, prec as nat),
{
    let (n, d) = fraction(c);
    let q = half_even_of(&ten_times(&n, prec as u128), &d);
    if prec == 0 {
        proof {
            assert(ten(0) == 1);
        }
        return text::dec_big(&q);
    }
    let t = ten_to(prec as u128);
    proof {
        lemma_ten(prec as nat);
    }
    let (a, b) = q.divide(&t);
    let mut r = text::dec_big(&a);
    r.push('.');
    assert(r@ =~= text::dec(a@) + seq!['.']);
    let f = text::digits_big(&b, prec);
    r.push_str(f.as_str());
    r
}

/// A finite number with `prec` digits after the point.
pub fn fixed_finite(x: Double, prec: usize) -> (r: String)
    requires
        x.finite(),
    ensures
        r@ == fixed_of(x, prec as nat),
{
    let m = fixed_text(x.magnitude(), prec);
    if x.is_neg() {
        let mut r = String::new();
        r.push('-');
        assert(r@ =~= seq!['-']);
        r.push_str(m.as_str());
        r
    } else {
        m
    }
}

/// The decimal exponent of the first digit of `n / d`.
fn decade_of(n: &Big, d: &Big) -> (e: i64)
    requires
        0 < n@ < ten(2000),
        0 < d@ < ten(2000),
    ensures
        e == decade(n@, d@),
        -2000 <= e <= 2000,
        at_least(n@, d@, e as int),
        !at_least(n@, d@, e + 1),
{
    let mut e: i64 = 0;
    let mut t = d.copy();
    let mut next = t.times_plus(10, 0);
    proof {
        lemma_times_one(d@);
    }
    while !n.less(&next)
        invariant
            0 <= e <= 2000,
            t@ == d@ * ten(e as nat),
            next@ == 10 * t@,
            t@ > 0,
            e > 0 ==> n@ >= t@,
            n@ < ten(2000),
            d@ > 0,
        decreases n@ - t@,
    {
        proof {
            lemma_ten(e as nat);
            let dd = d@;
            let u = ten(e as nat);
            assert((dd * u) * 10 == dd * (10 * u)) by (nonlinear_arith);
            let w = ten((e + 1) as nat);
            assert(dd * w >= w) by (nonlinear_arith)
                requires
                    dd >= 1,
            ;
            if e >= 1999 {
                lemma_ten_increases(2000, (e + 1) as nat);
            }
        }
        t = next;
        e = e + 1;
        next = t.times_plus(10, 0);
    }
    proof {
        lemma_ten(e as nat);
        let dd = d@;
        let u = ten(e as nat);
        assert((dd * u) * 10 == dd * (10 * u)) by (nonlinear_arith);
    }
    if e > 0 || !n.less(d) {
        proof {
            if e == 0 {
                lemma_times_one(d@);
            }
            lemma_decade_is(n@, d@, e as int);
        }
        return e;
    }
    let mut f: i64 = 0;
    let mut u = n.copy();
    proof {
        lemma_times_one(n@);
    }
    while u.less(d)
        invariant
            0 <= f <= 2000,
            u@ == n@ * ten(f as nat),
            f > 0 ==> n@ * ten((f - 1) as nat) < d@,
            d@ < ten(2000),
            n@ > 0,
        decreases (if u@ < d@ { d@ - u@ } else { 0 }),
    {
        proof {
            lemma_ten(f as nat);
            let nn = n@;
            let w = ten(f as nat);
            assert((nn * w) * 10 == nn * (10 * w)) by (nonlinear_arith);
            assert(nn * w >= w) by (nonlinear_arith)
                requires
                    nn >= 1,
            ;
            if f >= 2000 {
                lemma_ten_increases(2000, f as nat);
            }
        }
        u = u.times_plus(10, 0);
        f = f + 1;
    }
    proof {
        assert(at_least(n@, d@, -(f as int)));
        if f == 1 {
            lemma_times_one(d@);
        } else {
            assert((-(-f + 1)) as nat == (f - 1) as nat);
        }
        lemma_decade_is(n@, d@, -(f as int));
    }
    -f
}

proof fn lemma_fraction_bounds(c: nat)
    requires
        0 < c < double::INFINITE,
    ensures
        0 < num(c) < ten(2000),
        0 < den(c) < ten(2000),
{
    let k = double::doublings(c);
    let s = double::significand(c);
    lemma_ten(2000);
    lemma2_to64();
    assert(s < pow2(53)) by {
        lemma2_to64_rest();
    }
    assert(s > 0);
    if k >= 1074 {
        let j = (k - 1074) as nat;
        lemma_pow2_pos(j);
        lemma_pow2_adds(53, j);
        let p = pow2(j);
        assert(0 < s * p < pow2(53) * p) by (nonlinear_arith)
            requires
                0 < s < pow2(53),
                p > 0,
        ;
        lemma_pow2_strictly_increases(53 + j, 6000);
        lemma_pow2_pos(6000);
        lemma_pow2_strictly_increases(0, 6000);
    } else {
        let j = (1074 - k) as nat;
        lemma_pow2_pos(j);
        lemma_pow2_strictly_increases(j, 6000);
        lemma_pow2_strictly_increases(53, 6000);
    }
}

/// A magnitude rounded to `p` significant digits: the digits, and the exponent of the first.
pub fn sci_of(c: u64, p: usize) -> (r: (Big, i64))
    requires
        0 < c < double::INFINITE,
        0 < p,
    ensures
        (r.0@, r.1 as int) == sci(c as nat, p as nat),
        -2001 <= r.1 <= 2001,
{
    let (n, d) = fraction(c);
    proof {
        lemma_fraction_bounds(c as nat);
    }
    let e: i64 = decade_of(&n, &d);
    let k: i128 = p as i128 - 1 - e as i128;
    let a = raised_of(&n, k);
    let b = raised_of(&d, -k);
    proof {
        lemma_ten((if k < 0 { -k } else { 0 }) as nat);
        let t = ten((if k < 0 { -k } else { 0 }) as nat);
        let dd = d@;
        assert(dd * t > 0) by (nonlinear_arith)
            requires
                dd > 0,
                t > 0,
        ;
    }
    let q = half_even_of(&a, &b);
    let full = ten_to(p as u128);
    if !q.less(&full) && !full.less(&q) {
        (ten_to(p as u128 - 1), e + 1)
    } else {
        (q, e)
    }
}

/// The two forms of a magnitude's value agree.
pub proof fn lemma_fraction(c: nat)
    ensures
        num(c) * double::unit() == double::scaled(c) * den(c),
        den(c) > 0,
{
    let k = double::doublings(c);
    let s = double::significand(c);
    if k >= 1074 {
        let j = (k - 1074) as nat;
        lemma_pow2_adds(j, 1074);
        let p = pow2(j);
        let u = pow2(1074);
        assert((s * p) * u == s * (p * u)) by (nonlinear_arith);
        assert((s * pow2(k)) * 1 == s * pow2(k));
    } else {
        let j = (1074 - k) as nat;
        lemma_pow2_pos(j);
        lemma_pow2_adds(k, j);
        let p = pow2(k);
        let q = pow2(j);
        assert(s * (p * q) == (s * p) * q) by (nonlinear_arith);
    }
}

proof fn lemma_ten_even(j: nat, k: nat)
    requires
        j <= k,
    ensures
        ten(k) % pow2(j) == 0,
    decreases k,
{
    lemma2_to64();
    lemma_pow2_pos(j);
    if j == 0 {
    } else {
        lemma_ten_even((j - 1) as nat, (k - 1) as nat);
        lemma_pow2_unfold(j);
        let t = ten((k - 1) as nat);
        let p = pow2((j - 1) as nat);
        lemma_pow2_pos((j - 1) as nat);
        lemma_fundamental_div_mod(t as int, p as int);
        let q = t / p;
        assert(10 * (p * q) == (2 * p) * (5 * q)) by (nonlinear_arith);
        lemma_mod_multiples_basic((5 * q) as int, (2 * p) as int);
        assert((5 * q) * (2 * p) == (2 * p) * (5 * q)) by (nonlinear_arith);
    }
}

proof fn lemma_decade_bounds(c: nat)
    requires
        0 < c < double::INFINITE,
    ensures
        at_least(num(c), den(c), decade(num(c), den(c))),
        decade(num(c), den(c)) <= 342,
{
    let n = num(c);
    let d = den(c);
    lemma_fraction_bounds(c);
    lemma_decade_exists(n, d, 0);
    let e = decade(n, d);
    if e > 342 {
        lemma_at_least_below(n, d, 343, e);
        lemma_ten(343);
        lemma_num_bound(c);
        lemma_pow2_strictly_increases(1026, 1029);
        let t = ten(343);
        assert(d * t >= t) by (nonlinear_arith)
            requires
                d >= 1,
        ;
        assert(false);
    }
}

proof fn lemma_num_bound(c: nat)
    requires
        c < double::INFINITE,
    ensures
        num(c) < pow2(1026),
{
    let k = double::doublings(c);
    let s = double::significand(c);
    lemma2_to64();
    lemma2_to64_rest();
    if k >= 1074 {
        let j = (k - 1074) as nat;
        lemma_pow2_pos(j);
        lemma_pow2_adds(53, j);
        let p = pow2(j);
        assert(s * p < pow2(53) * p) by (nonlinear_arith)
            requires
                s < pow2(53),
                p > 0,
        ;
        if 53 + j < 1026 {
            lemma_pow2_strictly_increases(53 + j, 1026);
        }
    } else {
        lemma_pow2_strictly_increases(53, 1026);
    }
}

/// Every positive fraction has a decade.
proof fn lemma_decade_exists(n: nat, d: nat, e: int)
    requires
        n > 0,
        d > 0,
    ensures
        at_least(n, d, decade(n, d)),
        !at_least(n, d, decade(n, d) + 1),
{
    lemma_ten(n);
    lemma_ten(d);
    let t = ten(n);
    assert(d * t > n) by (nonlinear_arith)
        requires
            t > n,
            d >= 1,
    ;
    assert(!at_least(n, d, n as int));
    let u = ten(d);
    assert(n * u >= d) by (nonlinear_arith)
        requires
            u > d,
            n >= 1,
    ;
    assert(at_least(n, d, -(d as int)));
    lemma_decade_between(n, d, -(d as int), n as int);
}

proof fn lemma_decade_between(n: nat, d: nat, lo: int, hi: int)
    requires
        lo < hi,
        at_least(n, d, lo),
        !at_least(n, d, hi),
    ensures
        at_least(n, d, decade(n, d)),
        !at_least(n, d, decade(n, d) + 1),
    decreases hi - lo,
{
    if hi == lo + 1 {
        lemma_decade_is(n, d, lo);
    } else if at_least(n, d, lo + 1) {
        lemma_decade_between(n, d, lo + 1, hi);
    } else {
        lemma_decade_is(n, d, lo);
    }
}

/// With digits enough the value is written out in full, and reads back.
proof fn lemma_candidate_full(c: nat, k: nat)
    requires
        0 < c < double::INFINITE,
        k >= MOST_DIGITS,
    ensures
        candidate(c, k) is Some,
{
    lemma_decade_bounds(c);
    lemma_fraction(c);
    let n = num(c);
    let d = den(c);
    let e = decade(n, d);
    let s = (k - 1 - e) as nat;
    let t = ten(s);
    lemma_ten(s);
    let j = if double::doublings(c) >= 1074 { 0 } else { (1074 - double::doublings(c)) as nat };
    lemma2_to64();
    lemma_ten_even(j, s);
    assert(d == pow2(j));
    let q = t / d;
    lemma_fundamental_div_mod(t as int, d as int);
    assert(n * t == (n * q) * d) by (nonlinear_arith)
        requires
            t == d * q,
    ;
    let lo = n * q;
    lemma_mod_multiples_basic(lo as int, d as int);
    lemma_div_multiples_vanish(lo as int, d as int);
    assert(lo * d == d * lo) by (nonlinear_arith);
    assert(raised(n, s as int) == lo * d);
    assert((lo * d) / d == lo);
    assert((lo * d) % d == 0);
    let u = double::unit();
    let v = double::scaled(c);
    assert(lo * u == v * t) by (nonlinear_arith)
        requires
            lo == n * q,
            t == d * q,
            n * u == v * d,
    ;
    double::lemma_nearest_exact(c, t);
    assert(raised(lo, -(s as int)) == lo) by {
        if s == 0 {
            lemma_times_one(lo);
        }
    }
    assert(raised(1, s as int) == t) by {
        assert(1 * t == t);
    }
    assert(decimal_mag(lo, -(s as int)) == c);
}

/// A candidate reads back as the magnitude it was made of.
proof fn lemma_candidate_reads(c: nat, k: nat)
    requires
        k > 0,
        candidate(c, k) is Some,
    ensures
        decimal_mag(candidate(c, k)->0.all, candidate(c, k)->0.exp - (k - 1)) == c,
        candidate(c, k)->0.count == k,
{
    let e = decade(num(c), den(c));
    let s = k - 1 - e;
    let n = raised(num(c), s);
    let d = raised(den(c), -s);
    let lo = n / d;
    let r = candidate(c, k)->0;
    assert(-s == e - (k - 1));
    if r.exp == e + 1 && r.all == ten((k - 1) as nat) && lo + 1 == ten(k) {
        lemma_shift_ten((k - 1) as nat, e + 1 - (k - 1));
        assert((k - 1) as nat + 1 == k);
    }
}

/// Ten times as much, one power of ten lower, is the same number.
proof fn lemma_shift_ten(j: nat, k: int)
    ensures
        decimal_mag(ten(j + 1), k - 1) == decimal_mag(ten(j), k),
{
    lemma_ten(j);
    let u = double::unit();
    let a = ten(j);
    if k - 1 >= 0 {
        let t = ten((k - 1) as nat);
        lemma_ten((k - 1) as nat);
        assert(ten(k as nat) == 10 * t);
        assert((10 * a) * t == a * (10 * t)) by (nonlinear_arith);
        lemma_raised_down(k);
        lemma_raised_down(k - 1);
    } else {
        let i = (-k) as nat;
        lemma_ten(i);
        let t = ten(i);
        assert((-(k - 1)) as nat == i + 1);
        lemma_times_one(a);
        lemma_times_one(10 * a);
        assert(1 * (10 * t) == 10 * t && 1 * t == t);
        lemma_nearest_scaled(a * u, t, 10);
        assert(10 * (a * u) == (10 * a) * u) by (nonlinear_arith);
        assert(raised(ten(j + 1), k - 1) == 10 * a);
        assert(raised(1, -(k - 1)) == 10 * t);
        assert(raised(ten(j), k) == a);
        assert(raised(1, -k) == t);
    }
}

proof fn lemma_raised_down(k: int)
    requires
        k >= 0,
    ensures
        raised(1, -k) == 1,
{
    if k == 0 {
        lemma_times_one(1);
    }
}

/// A fraction and its multiple round alike.
proof fn lemma_nearest_scaled(n: nat, d: nat, f: nat)
    requires
        d > 0,
        f > 0,
    ensures
        double::nearest(f * n, f * d) == double::nearest(n, d),
{
    let c = double::nearest(n, d);
    double::lemma_nearest_exists(n, d);
    lemma_rounds_scaled(n, d, f, c);
    if c > 0 {
        lemma_rounds_scaled(n, d, f, (c - 1) as nat);
    }
    assert(f * d > 0) by (nonlinear_arith)
        requires
            d > 0,
            f > 0,
    ;
    double::lemma_nearest_is(f * n, f * d, c);
}

proof fn lemma_rounds_scaled(n: nat, d: nat, f: nat, c: nat)
    requires
        f > 0,
    ensures
        double::rounds_down_to(f * n, f * d, c) == double::rounds_down_to(n, d, c),
{
    let m = double::midpoint(c);
    let x = 2 * n;
    let y = m * d;
    assert(2 * (f * n) == f * x) by (nonlinear_arith)
        requires
            x == 2 * n,
    ;
    assert(m * (f * d) == f * y) by (nonlinear_arith)
        requires
            y == m * d,
    ;
    assert((f * x < f * y) == (x < y)) by (nonlinear_arith)
        requires
            f > 0,
    ;
    assert((f * x == f * y) == (x == y)) by (nonlinear_arith)
        requires
            f > 0,
    ;
}

proof fn lemma_first_candidate(c: nat, k: nat)
    requires
        0 < c < double::INFINITE,
        k > 0,
    ensures
        first_candidate(c, k).count > 0,
        decimal_mag(
            first_candidate(c, k).all,
            first_candidate(c, k).exp - (first_candidate(c, k).count - 1),
        ) == c,
    decreases MOST_DIGITS - k,
{
    if k >= MOST_DIGITS {
        lemma_candidate_full(c, k);
    }
    if candidate(c, k) is Some {
        lemma_candidate_reads(c, k);
    } else {
        lemma_first_candidate(c, k + 1);
    }
}

/// The shortest digits of a number, read as a decimal number, give that number back.
pub proof fn law_shortest_reads_back(c: nat)
    requires
        0 < c < double::INFINITE,
    ensures
        decimal_mag(shortest(c).all, shortest(c).exp - (shortest(c).count - 1)) == c,
{
    lemma_first_candidate(c, 1);
}

/// Whether `m` times ten to the power `k` reads as the magnitude `c`.
fn reads_back(m: &Big, k: i128, c: u64) -> (r: bool)
    requires
        c <= double::INFINITE,
        -10_000 < k < 10_000,
    ensures
        r == (decimal_mag(m@, k as int) == c),
{
    let n = raised_of(m, k).shifted(1074);
    let d = raised_of(&Big::of(1), -k);
    proof {
        lemma_ten((if k < 0 { -k } else { 0 }) as nat);
        let t = ten((if k < 0 { -k } else { 0 }) as nat);
        assert(1 * t > 0) by (nonlinear_arith)
            requires
                t > 0,
        ;
        double::lemma_nearest_exists(n@, d@);
        if double::is_nearest(n@, d@, c as nat) {
            double::lemma_nearest_is(n@, d@, c as nat);
        }
    }
    double::reads_as(&n, &d, c)
}

/// The shortest digits that read back as a magnitude: all of them as one whole number, the
/// exponent of the first, and how many there are.
pub fn shortest_of(c: u64) -> (r: (Big, i64, u32))
    requires
        0 < c < double::INFINITE,
    ensures
        shortest(c as nat) == (Digits { all: r.0@, exp: r.1 as int, count: r.2 as nat }),
        -2001 <= r.1 <= 2001,
        0 < r.2 <= MOST_DIGITS,
{
    let (n, d) = fraction(c);
    proof {
        lemma_fraction_bounds(c as nat);
    }
    let e: i64 = decade_of(&n, &d);
    let one = Big::of(1);
    let mut k: u32 = 1;
    loop
        invariant
            0 < k <= MOST_DIGITS,
            0 < c < double::INFINITE,
            n@ == num(c as nat),
            d@ == den(c as nat),
            d@ > 0,
            e == decade(n@, d@),
            -2000 <= e <= 2000,
            one@ == 1,
            shortest(c as nat) == first_candidate(c as nat, k as nat),
        decreases MOST_DIGITS - k,
    {
        let s: i128 = k as i128 - 1 - e as i128;
        let a = raised_of(&n, s);
        let b = raised_of(&d, -s);
        proof {
            lemma_ten((if s < 0 { -s } else { 0 }) as nat);
            let t = ten((if s < 0 { -s } else { 0 }) as nat);
            let dd = d@;
            assert(dd * t > 0) by (nonlinear_arith)
                requires
                    dd > 0,
                    t > 0,
            ;
        }
        let (lo, m) = a.divide(&b);
        let hi = lo.plus(&one);
        let lo_reads: bool = reads_back(&lo, -s, c);
        let hi_reads: bool = reads_back(&hi, -s, c);
        let near: bool = !b.less(&m.times_plus(2, 0));
        if lo_reads && (near || !hi_reads) {
            return (lo, e, k);
        }
        if hi_reads {
            let full = ten_to(k as u128);
            if !hi.less(&full) && !full.less(&hi) {
                return (ten_to(k as u128 - 1), e + 1, k);
            }
            return (hi, e, k);
        }
        proof {
            if k == MOST_DIGITS {
                lemma_candidate_full(c as nat, k as nat);
            }
        }
        k = k + 1;
    }
}

/// A finite number rounded to `nd` digits after the point.
pub open spec fn rounded_of(x: Double, nd: nat) -> Double {
    double::of_magnitude(
        x.neg(),
        decimal_mag(half_even(num(x.mag()) * ten(nd), den(x.mag())), -(nd as int)),
    )
}

pub fn rounded_finite(x: Double, nd: usize) -> (r: Double)
    requires
        x.finite(),
    ensures
        r == rounded_of(x, nd as nat),
{
    let (n, d) = fraction(x.magnitude());
    let q = half_even_of(&ten_times(&n, nd as u128), &d);
    let t = ten_to(nd as u128);
    proof {
        lemma_ten(nd as nat);
        lemma_times_one(q@);
        lemma_times_one(1);
        assert(1 * ten(nd as nat) == ten(nd as nat));
    }
    double::signed_mag(x.is_neg(), double::nearest_of(&q.shifted(1074), &t))
}

// ------------------------------------------------------------------ reading
/// Where the run of digits that starts at `i` ends.
pub open spec fn digits_end(s: Seq<char>, i: int) -> int
    decreases s.len() - i,
{
    if 0 <= i < s.len() && text::is_digit(s[i]) {
        digits_end(s, i + 1)
    } else {
        i
    }
}

/// The number that the digits `i .. j` of `s` spell.
pub open spec fn number(s: Seq<char>, i: int, j: int) -> nat
    decreases j - i,
{
    if i >= j {
        0
    } else {
        number(s, i, j - 1) * 10 + (s[j - 1] as u32 - 48) as nat
    }
}

/// Whether `i` is the place of a sign.
pub open spec fn sign_at(s: Seq<char>, i: int) -> bool {
    0 <= i < s.len() && (s[i] == '+' || s[i] == '-')
}

pub open spec fn after_sign(s: Seq<char>, i: int) -> int {
    if sign_at(s, i) {
        i + 1
    } else {
        i
    }
}

/// Where the digits before the point end.
pub open spec fn whole_end(s: Seq<char>) -> int {
    digits_end(s, after_sign(s, 0))
}

/// Where the digits after the point start.
pub open spec fn places_start(s: Seq<char>) -> int {
    let b = whole_end(s);
    if 0 <= b < s.len() && s[b] == '.' {
        b + 1
    } else {
        b
    }
}

/// Where the digits after the point end.
pub open spec fn places_end(s: Seq<char>) -> int {
    if places_start(s) > whole_end(s) {
        digits_end(s, places_start(s))
    } else {
        whole_end(s)
    }
}

/// How many digits follow the point.
pub open spec fn places(s: Seq<char>) -> int {
    places_end(s) - places_start(s)
}

/// How many digits there are before the exponent.
pub open spec fn digit_count(s: Seq<char>) -> int {
    whole_end(s) - after_sign(s, 0) + places(s)
}

/// The digits before the exponent, as one whole number.
pub open spec fn mantissa(s: Seq<char>) -> nat {
    number(s, after_sign(s, 0), whole_end(s)) * ten(places(s) as nat) + number(
        s,
        places_start(s),
        places_end(s),
    )
}

/// The written exponent: 0 where the text ends before it, none where what follows the
/// digits is no exponent.
pub open spec fn exponent(s: Seq<char>) -> Option<int> {
    let c = places_end(s);
    let x = after_sign(s, c + 1);
    let y = digits_end(s, x);
    if c == s.len() {
        Some(0)
    } else if (s[c] == 'e' || s[c] == 'E') && y > x && y == s.len() {
        if s[c + 1] == '-' {
            Some(-(number(s, x, y) as int))
        } else {
            Some(number(s, x, y) as int)
        }
    } else {
        None
    }
}

/// The number that a text spells, rounded to nearest: an optional sign, digits with an
/// optional point among them, and an optional exponent.
pub open spec fn number_of(s: Seq<char>) -> Option<Double> {
    if digit_count(s) > 0 && exponent(s) is Some {
        Some(
            double::of_magnitude(
                s.len() > 0 && s[0] == '-',
                decimal_mag(mantissa(s), exponent(s)->0 - places(s)),
            ),
        )
    } else {
        None
    }
}

fn digits_end_of(v: &Vec<char>, i: usize) -> (r: usize)
    requires
        i <= v@.len(),
    ensures
        r == digits_end(v@, i as int),
        i <= r <= v@.len(),
        forall|x: int| i <= x < r ==> text::is_digit(v@[x]),
{
    let mut j: usize = i;
    while j < v.len() && text::digit_like(v[j])
        invariant
            i <= j <= v@.len(),
            digits_end(v@, i as int) == digits_end(v@, j as int),
            forall|x: int| i <= x < j ==> text::is_digit(v@[x]),
        decreases v@.len() - j,
    {
        j = j + 1;
    }
    j
}

fn number_big(v: &Vec<char>, from: usize, to: usize, start: &Big) -> (r: Big)
    requires
        from <= to <= v@.len(),
        forall|x: int| from <= x < to ==> text::is_digit(v@[x]),
    ensures
        r@ == start@ * ten((to - from) as nat) + number(v@, from as int, to as int),
{
    let mut r = start.copy();
    let mut i: usize = from;
    proof {
        lemma_times_one(start@);
    }
    while i < to
        invariant
            from <= i <= to <= v@.len(),
            forall|x: int| from <= x < to ==> text::is_digit(v@[x]),
            r@ == start@ * ten((i - from) as nat) + number(v@, from as int, i as int),
        decreases to - i,
    {
        let d: u32 = v[i] as u32 - 48;
        proof {
            lemma_ten((i - from) as nat);
            assert((i - from) as nat + 1 == (i + 1 - from) as nat);
            let t = ten((i - from) as nat);
            let w = start@;
            let n = number(v@, from as int, i as int);
            assert((w * t + n) * 10 == w * (10 * t) + n * 10) by (nonlinear_arith);
        }
        r = r.times_plus(10, d);
        i = i + 1;
    }
    r
}

proof fn lemma_number_grows(v: Seq<char>, i: int, j: int, k: int)
    requires
        0 <= i <= j <= k <= v.len(),
        forall|x: int| i <= x < k ==> text::is_digit(#[trigger] v[x]),
    ensures
        number(v, i, j) <= number(v, i, k),
    decreases k - j,
{
    if j < k {
        lemma_number_grows(v, i, j, k - 1);
        assert(text::is_digit(v[k - 1]));
    }
}

/// The number that digits spell, or `cap` where it is larger.
fn small_number(v: &Vec<char>, from: usize, to: usize, cap: u128) -> (r: u128)
    requires
        from <= to <= v@.len(),
        0 < cap < 0x1_0000_0000_0000_0000_0000,
        forall|x: int| from <= x < to ==> text::is_digit(v@[x]),
    ensures
        r == if number(v@, from as int, to as int) < cap {
            number(v@, from as int, to as int)
        } else {
            cap as nat
        },
{
    let mut r: u128 = 0;
    let mut i: usize = from;
    while i < to
        invariant
            from <= i <= to <= v@.len(),
            forall|x: int| from <= x < to ==> text::is_digit(v@[x]),
            r < cap < 0x1_0000_0000_0000_0000_0000,
            r == number(v@, from as int, i as int),
        decreases to - i,
    {
        let d: u32 = v[i] as u32 - 48;
        r = r * 10 + d as u128;
        i = i + 1;
        if r >= cap {
            proof {
                lemma_number_grows(v@, from as int, i as int, to as int);
            }
            return cap;
        }
    }
    r
}

proof fn lemma_number_bound(v: Seq<char>, i: int, j: int)
    requires
        0 <= i <= j <= v.len(),
        forall|x: int| i <= x < j ==> text::is_digit(#[trigger] v[x]),
    ensures
        number(v, i, j) < ten((j - i) as nat),
    decreases j - i,
{
    if i < j {
        lemma_number_bound(v, i, j - 1);
        lemma_ten((j - 1 - i) as nat);
        assert(text::is_digit(v[j - 1]));
        assert((j - 1 - i) as nat + 1 == (j - i) as nat);
    }
}

proof fn lemma_midpoint_top()
    ensures
        double::midpoint((double::INFINITE - 1) as nat) <= pow2(2100),
        double::midpoint(0) == 1,
{
    let c = (double::INFINITE - 1) as nat;
    lemma2_to64();
    lemma2_to64_rest();
    double::lemma_step(c);
    double::lemma_step(0);
    assert(double::doublings(0) == 0);
    assert(double::significand(0) == 0);
    let s = double::significand(c);
    let k = double::doublings(c);
    assert(k <= 2046);
    assert(2 * s + 1 <= pow2(54));
    lemma_pow2_adds(54, k);
    let p = pow2(k);
    assert((2 * s + 1) * p <= pow2(54) * p) by (nonlinear_arith)
        requires
            2 * s + 1 <= pow2(54),
    ;
    lemma_pow2_strictly_increases(54 + k, 2101);
    if 54 + k < 2100 {
        lemma_pow2_strictly_increases(54 + k, 2100);
    }
}

/// What is far beyond the largest finite number is infinite.
proof fn lemma_far_up(m: nat, k: int)
    requires
        m > 0,
        k >= 5000,
    ensures
        decimal_mag(m, k) == double::INFINITE,
{
    let t = ten(k as nat);
    lemma_ten_increases(5000, k as nat);
    lemma_ten(5000);
    lemma_midpoint_top();
    lemma_pow2_strictly_increases(2100, 15000);
    lemma_pow2_pos(1074);
    let u = double::unit();
    let c = (double::INFINITE - 1) as nat;
    assert((m * t) * u >= t) by (nonlinear_arith)
        requires
            m >= 1,
            u >= 1,
            t >= 0,
    ;
    assert(ten(0) == 1);
    assert(raised(1, -k) == 1);
    let n = raised(m, k) * u;
    assert(2 * n > double::midpoint(c) * 1);
    double::lemma_nearest_is(n, 1, double::INFINITE as nat);
}

/// What is far below the smallest positive number is zero.
proof fn lemma_far_down(m: nat, k: int, l: nat)
    requires
        m < ten(l),
        k <= -5000 - l,
    ensures
        decimal_mag(m, k) == 0,
{
    let j = (-k) as nat;
    lemma_ten_split(l, (j - l) as nat);
    lemma_ten_increases(5000, (j - l) as nat);
    lemma_ten(5000);
    lemma_ten(l);
    lemma_midpoint_top();
    lemma_pow2_strictly_increases(1075, 15000);
    lemma_pow2_unfold(1075);
    let u = double::unit();
    let a = ten(l);
    let b = ten((j - l) as nat);
    assert(2 * (m * u) < a * b) by (nonlinear_arith)
        requires
            m < a,
            2 * u < b,
            a > 0,
    ;
    assert(ten(j) == a * b);
    lemma_ten(j);
    assert(1 * ten(j) == ten(j));
    assert(double::midpoint(0) * ten(j) == ten(j));
    if k >= 0 {
    }
    double::lemma_nearest_is(m * u, ten(j), 0);
}

proof fn lemma_ten_split(a: nat, b: nat)
    ensures
        ten(a + b) == ten(a) * ten(b),
    decreases b,
{
    if b > 0 {
        lemma_ten_split(a, (b - 1) as nat);
        assert((a + b - 1) as nat == a + (b - 1) as nat);
        let x = ten(a);
        let y = ten((b - 1) as nat);
        assert(10 * (x * y) == x * (10 * y)) by (nonlinear_arith);
    } else {
        assert(ten(a) * 1 == ten(a));
    }
}

/// The magnitude nearest to `m` times ten to the power `k`, where `m` has at most `l`
/// digits.
fn decimal_mag_of(m: &Big, k: i128, l: u128) -> (r: u64)
    requires
        m@ < ten(l as nat),
        l < 0x1_0000_0000_0000_0000_0000,
        -0x1_0000_0000_0000_0000_0000 < k,
    ensures
        r == decimal_mag(m@, k as int),
        r <= double::INFINITE,
{
    if k >= 5000 {
        if m.is_zero() {
            proof {
                lemma_zero_mag(k as int);
            }
            return 0;
        }
        proof {
            lemma_far_up(m@, k as int);
        }
        return double::INFINITE;
    }
    if k <= -5000 - l as i128 {
        proof {
            lemma_far_down(m@, k as int, l as nat);
        }
        return 0;
    }
    let n = raised_of(m, k).shifted(1074);
    let d = raised_of(&Big::of(1), -k);
    proof {
        lemma_ten((if k < 0 { -k } else { 0 }) as nat);
        let t = ten((if k < 0 { -k } else { 0 }) as nat);
        assert(1 * t > 0) by (nonlinear_arith)
            requires
                t > 0,
        ;
    }
    double::nearest_of(&n, &d)
}

proof fn lemma_zero_mag(k: int)
    ensures
        decimal_mag(0, k) == 0,
{
    lemma_midpoint_top();
    let d = raised(1, -k);
    lemma_ten((if k < 0 { -k } else { 0 }) as nat);
    let t = ten((if k < 0 { -k } else { 0 }) as nat);
    assert(1 * t == t);
    assert(raised(0, k) == 0) by {
        let z = ten((if k >= 0 { k } else { 0 }) as nat);
        assert(0 * z == 0);
    }
    assert(0 * double::unit() == 0);
    assert(double::midpoint(0) * d == d);
    double::lemma_nearest_is(0, d, 0);
}

/// The digits before the exponent: their value, how many there are, how many follow the
/// point, and where they end.
fn read_mantissa(v: &Vec<char>) -> (r: (Big, u128, usize, usize))
    ensures
        r.0@ == mantissa(v@),
        r.1 == digit_count(v@),
        r.2 == places(v@),
        r.3 == places_end(v@),
        r.3 <= v@.len(),
        r.1 <= 2 * v@.len(),
        r.2 <= r.1,
        mantissa(v@) < ten(r.1 as nat),
{
    let n: usize = v.len();
    let a: usize = if n > 0 && (v[0] == '+' || v[0] == '-') {
        1
    } else {
        0
    };
    assert(a == after_sign(v@, 0));
    let b: usize = digits_end_of(v, a);
    let f: usize = if b < n && v[b] == '.' {
        b + 1
    } else {
        b
    };
    let c: usize = if f > b {
        digits_end_of(v, f)
    } else {
        b
    };
    let l: u128 = (b - a) as u128 + (c - f) as u128;
    let whole = number_big(v, a, b, &Big::of(0));
    let m = number_big(v, f, c, &whole);
    proof {
        assert(0 * ten((b - a) as nat) == 0);
        lemma_number_bound(v@, a as int, b as int);
        lemma_number_bound(v@, f as int, c as int);
        lemma_ten_split((b - a) as nat, (c - f) as nat);
        let x = ten((b - a) as nat);
        let y = ten((c - f) as nat);
        let w = whole@;
        assert(w * y + y <= x * y) by (nonlinear_arith)
            requires
                w + 1 <= x,
        ;
        assert((b - a) as nat + (c - f) as nat == l as nat);
    }
    (m, l, c - f, c)
}

/// `i` held to `-cap ..= cap`.
spec fn held(i: int, cap: int) -> int {
    if i > cap {
        cap
    } else if i < -cap {
        -cap
    } else {
        i
    }
}

/// The written exponent, held to `-cap ..= cap`.
fn read_exponent(v: &Vec<char>, c: usize, cap: u128) -> (r: Option<i128>)
    requires
        c == places_end(v@),
        c <= v@.len(),
        0 < cap < 0x1_0000_0000_0000_0000_0000,
    ensures
        r is Some == exponent(v@) is Some,
        r is Some ==> r->0 == held(exponent(v@)->0, cap as int),
{
    let n: usize = v.len();
    if c == n {
        return Some(0);
    }
    if v[c] != 'e' && v[c] != 'E' {
        return None;
    }
    let x: usize = if c + 1 < n && (v[c + 1] == '+' || v[c + 1] == '-') {
        c + 2
    } else {
        c + 1
    };
    let y: usize = digits_end_of(v, x);
    if y == x || y != n {
        return None;
    }
    let e: u128 = small_number(v, x, y, cap);
    if v[c + 1] == '-' {
        Some(-(e as i128))
    } else {
        Some(e as i128)
    }
}

/// An exponent far enough out gives what any one beyond it gives.
proof fn lemma_held(m: nat, l: nat, e: int, p: int, cap: int)
    requires
        m < ten(l),
        0 <= p <= l,
        cap >= 20_000 + 2 * l,
    ensures
        decimal_mag(m, e - p) == decimal_mag(m, held(e, cap) - p),
{
    if e > cap {
        if m == 0 {
            lemma_zero_mag(e - p);
            lemma_zero_mag(cap - p);
        } else {
            lemma_far_up(m, e - p);
            lemma_far_up(m, cap - p);
        }
    } else if e < -cap {
        lemma_far_down(m, e - p, l);
        lemma_far_down(m, -cap - p, l);
    }
}

/// The number that a text spells, rounded to nearest.
pub fn read_number(v: &Vec<char>) -> (r: Option<Double>)
    ensures
        r == number_of(v@),
{
    let (m, l, p, c) = read_mantissa(v);
    if l == 0 {
        return None;
    }
    let cap: u128 = 20_000 + 2 * l;
    match read_exponent(v, c, cap) {
        None => None,
        Some(e) => {
            proof {
                lemma_held(m@, l as nat, exponent(v@)->0, p as int, cap as int);
            }
            let k: i128 = e - p as i128;
            let neg: bool = v.len() > 0 && v[0] == '-';
            Some(double::signed_mag(neg, decimal_mag_of(&m, k, l)))
        },
    }
}

/// Whether a text is a number as JSON writes one: perhaps a minus sign, digits with no zero
/// in front of others, perhaps a point and digits, and perhaps an exponent.
pub open spec fn is_json_number(s: Seq<char>) -> bool {
    let a = after_sign(s, 0);
    &&& !(s.len() > 0 && s[0] == '+')
    &&& whole_end(s) > a
    &&& s[a] == '0' ==> whole_end(s) == a + 1
    &&& places_start(s) > whole_end(s) ==> places(s) > 0
    &&& exponent(s) is Some
}

/// Whether a text is a number as JSON writes one.
pub fn json_number(v: &Vec<char>) -> (r: bool)
    ensures
        r == is_json_number(v@),
{
    let n: usize = v.len();
    if n > 0 && v[0] == '+' {
        return false;
    }
    let a: usize = if n > 0 && v[0] == '-' {
        1
    } else {
        0
    };
    let b: usize = digits_end_of(v, a);
    if b == a || (v[a] == '0' && b != a + 1) {
        return false;
    }
    let c: usize = if b < n && v[b] == '.' {
        let e: usize = digits_end_of(v, b + 1);
        if e == b + 1 {
            return false;
        }
        e
    } else {
        b
    };
    read_exponent(v, c, 1).is_some()
}

// ------------------------------------------------------------------ whole numbers
/// The whole number that a text spells: an optional sign and digits.
pub open spec fn whole_of(s: Seq<char>) -> Option<int> {
    let a = after_sign(s, 0);
    if a < s.len() && digits_end(s, a) == s.len() {
        let n = number(s, a, s.len() as int) as int;
        Some(
            if s[0] == '-' {
                -n
            } else {
                n
            },
        )
    } else {
        None
    }
}

/// The whole number that a text spells, where it lies in `lo ..= hi`.
pub open spec fn whole_within(s: Seq<char>, lo: int, hi: int) -> Option<int> {
    match whole_of(s) {
        Some(i) => if lo <= i <= hi {
            Some(i)
        } else {
            None
        },
        None => None,
    }
}

/// The whole number that a text spells, where it fits an `i64`.
pub fn read_i64(s: &str) -> (r: Option<i64>)
    ensures
        (match r {
            Some(i) => Some(i as int),
            None => None,
        }) == whole_within(s@, i64::MIN as int, i64::MAX as int),
{
    let v = text::chars_of(s);
    let n: usize = v.len();
    let a: usize = if n > 0 && (v[0] == '+' || v[0] == '-') {
        1
    } else {
        0
    };
    if a >= n || digits_end_of(&v, a) != n {
        return None;
    }
    let m = number_big(&v, a, n, &Big::of(0));
    assert(0 * ten((n - a) as nat) == 0);
    if v[0] == '-' {
        if Big::of(0x8000_0000_0000_0000).less(&m) {
            return None;
        }
        Some((-(double::low_word(&m) as i128)) as i64)
    } else {
        if Big::of(0x7fff_ffff_ffff_ffff).less(&m) {
            return None;
        }
        Some(double::low_word(&m) as i64)
    }
}

/// The whole number that a text spells, where it fits a `u64`.
pub fn read_u64(s: &str) -> (r: Option<u64>)
    ensures
        (match r {
            Some(i) => Some(i as int),
            None => None,
        }) == (if s@.len() > 0 && s@[0] == '-' {
            None
        } else {
            whole_within(s@, 0, u64::MAX as int)
        }),
{
    let v = text::chars_of(s);
    let n: usize = v.len();
    let a: usize = if n > 0 && (v[0] == '+' || v[0] == '-') {
        1
    } else {
        0
    };
    if a >= n || digits_end_of(&v, a) != n || v[0] == '-' {
        return None;
    }
    let m = number_big(&v, a, n, &Big::of(0));
    assert(0 * ten((n - a) as nat) == 0);
    if Big::of(u64::MAX).less(&m) {
        return None;
    }
    Some(double::low_word(&m))
}

/// The whole number that a text spells, where it fits an `i128`.
pub fn read_i128(s: &str) -> (r: Option<i128>)
    ensures
        (match r {
            Some(i) => Some(i as int),
            None => None,
        }) == whole_within(s@, i128::MIN as int, i128::MAX as int),
{
    let v = text::chars_of(s);
    let n: usize = v.len();
    let a: usize = if n > 0 && (v[0] == '+' || v[0] == '-') {
        1
    } else {
        0
    };
    if a >= n || digits_end_of(&v, a) != n {
        return None;
    }
    let m = number_big(&v, a, n, &Big::of(0));
    assert(0 * ten((n - a) as nat) == 0);
    let high = double::big_of(0x8000_0000_0000_0000_0000_0000_0000_0000);
    if v[0] == '-' {
        if high.less(&m) {
            return None;
        }
        if !m.less(&high) {
            return Some(i128::MIN);
        }
        Some(-(double::wide_word(&m) as i128))
    } else {
        if !m.less(&high) {
            return None;
        }
        Some(double::wide_word(&m) as i128)
    }
}

} // verus!
