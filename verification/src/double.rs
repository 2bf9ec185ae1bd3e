//! Binary64 numbers held as their bit pattern, with correctly rounded arithmetic.
//!
//! A magnitude is the pattern without its sign bit. The finite magnitudes are the whole
//! multiples of 2^-1074 that [`scaled`] gives, in increasing order, so every statement
//! here is one about integers.
use crate::big::Big;
use vstd::arithmetic::div_mod::*;
use vstd::arithmetic::mul::*;
use vstd::arithmetic::power2::*;
use vstd::prelude::*;

verus! {

/// The sign bit.
pub const SIGN: u64 = 0x8000_0000_0000_0000;

/// The magnitude of the infinities; larger ones are not numbers.
pub const INFINITE: u64 = 0x7FF0_0000_0000_0000;

/// One more than the largest fraction field.
pub const HIDDEN: u64 = 0x0010_0000_0000_0000;

/// The magnitude given to every result that is not a number.
pub const NOT_A_NUMBER: u64 = 0x7FF8_0000_0000_0000;

/// A binary64 number.
#[derive(Clone, Copy, Debug, PartialEq, Eq, Structural)]
pub struct Double {
    pub bits: u64,
}

/// The significand of a magnitude.
pub open spec fn significand(c: nat) -> nat {
    if c / HIDDEN as nat == 0 {
        c % HIDDEN as nat
    } else {
        HIDDEN as nat + c % HIDDEN as nat
    }
}

/// How often a magnitude's significand is doubled.
pub open spec fn doublings(c: nat) -> nat {
    if c / HIDDEN as nat == 0 {
        0
    } else {
        (c / HIDDEN as nat - 1) as nat
    }
}

/// The value of a magnitude in units of 2^-1074. For the infinities it is the value the
/// next finite magnitude would have.
pub open spec fn scaled(c: nat) -> nat {
    significand(c) * pow2(doublings(c))
}

/// How many units make one.
pub open spec fn unit() -> nat {
    pow2(1074)
}

/// Twice the midpoint of a magnitude and the next.
pub open spec fn midpoint(c: nat) -> nat {
    scaled(c) + scaled(c + 1)
}

/// Whether `n / d` units lie below the midpoint above `c`, or on it with `c` even.
pub open spec fn rounds_down_to(n: nat, d: nat, c: nat) -> bool {
    c == INFINITE || 2 * n < midpoint(c) * d || (2 * n == midpoint(c) * d && c % 2 == 0)
}

/// Whether `c` is the magnitude nearest to `n / d` units, the even one of two.
pub open spec fn is_nearest(n: nat, d: nat, c: nat) -> bool {
    &&& c <= INFINITE
    &&& rounds_down_to(n, d, c)
    &&& c > 0 ==> !rounds_down_to(n, d, (c - 1) as nat)
}

/// The magnitude nearest to `n / d` units, the even one of two.
pub open spec fn nearest(n: nat, d: nat) -> nat {
    choose|c: nat| is_nearest(n, d, c)
}

pub open spec fn of_magnitude(neg: bool, c: nat) -> Double {
    Double {
        bits: (if neg {
            c + SIGN
        } else {
            c as int
        }) as u64,
    }
}

impl Double {
    pub open spec fn zero_spec() -> Double {
        of_magnitude(false, 0)
    }

    pub open spec fn neg(self) -> bool {
        self.bits >= SIGN
    }

    /// The pattern without the sign bit.
    pub open spec fn mag(self) -> nat {
        if self.neg() {
            (self.bits - SIGN) as nat
        } else {
            self.bits as nat
        }
    }

    pub open spec fn nan(self) -> bool {
        self.mag() > INFINITE
    }

    pub open spec fn infinite(self) -> bool {
        self.mag() == INFINITE
    }

    pub open spec fn finite(self) -> bool {
        self.mag() < INFINITE
    }

    /// The signed value in units of 2^-1074.
    pub open spec fn amount(self) -> int {
        if self.neg() {
            -(scaled(self.mag()) as int)
        } else {
            scaled(self.mag()) as int
        }
    }

    pub open spec fn lt_spec(self, o: Double) -> bool {
        !self.nan() && !o.nan() && self.amount() < o.amount()
    }

    pub open spec fn le_spec(self, o: Double) -> bool {
        !self.nan() && !o.nan() && self.amount() <= o.amount()
    }

    pub open spec fn eq_spec(self, o: Double) -> bool {
        !self.nan() && !o.nan() && self.amount() == o.amount()
    }

    pub open spec fn neg_spec(self) -> Double {
        of_magnitude(!self.neg(), self.mag())
    }

    pub open spec fn abs_spec(self) -> Double {
        of_magnitude(false, self.mag())
    }

    /// `self + o`, rounded to nearest.
    pub open spec fn add_spec(self, o: Double) -> Double {
        let sum = self.amount() + o.amount();
        if self.nan() || o.nan() || (self.infinite() && o.infinite() && self.neg() != o.neg()) {
            of_magnitude(false, NOT_A_NUMBER as nat)
        } else if self.infinite() {
            self
        } else if o.infinite() {
            o
        } else if sum == 0 {
            of_magnitude(self.neg() && o.neg(), 0)
        } else {
            of_magnitude(
                sum < 0,
                nearest(
                    (if sum < 0 {
                        -sum
                    } else {
                        sum
                    }) as nat,
                    1,
                ),
            )
        }
    }

    /// `self - o`, rounded to nearest.
    pub open spec fn sub_spec(self, o: Double) -> Double {
        self.add_spec(o.neg_spec())
    }

    /// `self * o`, rounded to nearest.
    pub open spec fn mul_spec(self, o: Double) -> Double {
        let sign = self.neg() != o.neg();
        if self.nan() || o.nan() || (self.infinite() && o.mag() == 0) || (o.infinite() && self.mag()
            == 0) {
            of_magnitude(false, NOT_A_NUMBER as nat)
        } else if self.infinite() || o.infinite() {
            of_magnitude(sign, INFINITE as nat)
        } else {
            of_magnitude(sign, nearest(scaled(self.mag()) * scaled(o.mag()), unit()))
        }
    }

    /// `self / o`, rounded to nearest.
    pub open spec fn div_spec(self, o: Double) -> Double {
        let sign = self.neg() != o.neg();
        if self.nan() || o.nan() || (self.infinite() && o.infinite()) || (self.mag() == 0 && o.mag()
            == 0) {
            of_magnitude(false, NOT_A_NUMBER as nat)
        } else if self.infinite() || o.mag() == 0 {
            of_magnitude(sign, INFINITE as nat)
        } else if o.infinite() {
            of_magnitude(sign, 0)
        } else {
            of_magnitude(sign, nearest(scaled(self.mag()) * unit(), scaled(o.mag())))
        }
    }

    /// The remainder of truncated division, exact.
    pub open spec fn rem_spec(self, o: Double) -> Double {
        if self.nan() || o.nan() || self.infinite() || o.mag() == 0 {
            of_magnitude(false, NOT_A_NUMBER as nat)
        } else if o.infinite() {
            self
        } else {
            of_magnitude(self.neg(), nearest(scaled(self.mag()) % scaled(o.mag()), 1))
        }
    }

    /// The least nonnegative remainder.
    pub open spec fn rem_euclid_spec(self, o: Double) -> Double {
        let r = self.rem_spec(o);
        if r.lt_spec(Double::zero_spec()) {
            r.add_spec(o.abs_spec())
        } else {
            r
        }
    }

    /// The whole number `i`, rounded to nearest.
    pub open spec fn int_spec(i: int) -> Double {
        of_magnitude(
            i < 0,
            nearest(
                (if i < 0 {
                    -i
                } else {
                    i
                }) as nat * unit(),
                1,
            ),
        )
    }

    /// The fraction `n / d`, rounded to nearest.
    pub open spec fn ratio_spec(n: nat, d: nat) -> Double {
        of_magnitude(false, nearest(n * unit(), d))
    }

    /// The value cut off toward zero.
    pub open spec fn whole(self) -> int {
        if self.neg() {
            -((scaled(self.mag()) / unit()) as int)
        } else {
            (scaled(self.mag()) / unit()) as int
        }
    }

    /// The value cut off toward zero, held to `lo ..= hi`; 0 for what is not a number.
    pub open spec fn cast_spec(self, lo: int, hi: int) -> int {
        if self.nan() {
            0
        } else if self.whole() < lo {
            lo
        } else if self.whole() > hi {
            hi
        } else {
            self.whole()
        }
    }

    /// Whether this is exactly the whole number `i`.
    pub open spec fn is_int(self, i: int) -> bool {
        self.finite() && self.amount() == i * unit()
    }

    /// The value cut off toward zero, as a number of the same sign.
    pub open spec fn trunc_spec(self) -> Double {
        if self.finite() {
            of_magnitude(self.neg(), nearest((scaled(self.mag()) / unit()) * unit(), 1))
        } else {
            self
        }
    }

    /// The largest whole number not above this one.
    pub open spec fn floor_spec(self) -> Double {
        if self.finite() && self.neg() && scaled(self.mag()) % unit() != 0 {
            of_magnitude(true, nearest((scaled(self.mag()) / unit() + 1) * unit(), 1))
        } else {
            self.trunc_spec()
        }
    }

    /// The smaller of two, the other where one is not a number.
    pub open spec fn min_spec(self, o: Double) -> Double {
        if self.nan() || o.lt_spec(self) {
            o
        } else {
            self
        }
    }

    /// The larger of two, the other where one is not a number.
    pub open spec fn max_spec(self, o: Double) -> Double {
        if self.nan() || self.lt_spec(o) {
            o
        } else {
            self
        }
    }

    /// The place in the total order of all patterns: negatives before positives, then by
    /// magnitude.
    pub open spec fn rank(self) -> int {
        if self.neg() {
            -(self.mag() as int) - 1
        } else {
            self.mag() as int
        }
    }
}

/// A magnitude and the next differ by one unit, doubled as often as the lower one is.
pub proof fn lemma_step(c: nat)
    ensures
        scaled(c + 1) == scaled(c) + pow2(doublings(c)),
        midpoint(c) == (2 * significand(c) + 1) * pow2(doublings(c)),
        pow2(doublings(c)) > 0,
{
    let h = HIDDEN as nat;
    let e = c / h;
    let f = c % h;
    let p = pow2(doublings(c));
    lemma_pow2_pos(doublings(c));
    lemma2_to64();
    if f + 1 < h {
        assert((c + 1) / h == e && (c + 1) % h == f + 1) by {
            lemma_fundamental_div_mod(c as int, h as int);
            lemma_fundamental_div_mod_converse((c + 1) as int, h as int, e as int, (f + 1) as int);
        }
        let s = significand(c);
        assert((s + 1) * p == s * p + p) by (nonlinear_arith);
        assert(s * p + (s * p + p) == (2 * s + 1) * p) by (nonlinear_arith);
    } else {
        assert((c + 1) / h == e + 1 && (c + 1) % h == 0) by {
            lemma_fundamental_div_mod(c as int, h as int);
            assert(h * (e + 1) == h * e + h) by (nonlinear_arith);
            lemma_fundamental_div_mod_converse((c + 1) as int, h as int, (e + 1) as int, 0);
        }
        assert(significand(c + 1) == h && doublings(c + 1) == e);
        if e == 0 {
            assert(p == 1 && pow2(0) == 1);
            assert(f * p == f && h * p == h) by (nonlinear_arith)
                requires
                    p == 1,
            ;
        } else {
            lemma_pow2_unfold(e);
            assert(pow2(e) == 2 * p);
            assert(h * (2 * p) == (h + f) * p + p) by (nonlinear_arith)
                requires
                    f + 1 == h,
            ;
        }
        let s = significand(c);
        assert(s * p + (s * p + p) == (2 * s + 1) * p) by (nonlinear_arith);
    }
}

/// Larger magnitudes have larger values.
pub proof fn lemma_scaled_increases(a: nat, b: nat)
    requires
        a < b,
    ensures
        scaled(a) < scaled(b),
    decreases b,
{
    lemma_step((b - 1) as nat);
    if a < b - 1 {
        lemma_scaled_increases(a, (b - 1) as nat);
    }
}

pub proof fn lemma_scaled_zero()
    ensures
        scaled(0) == 0,
        forall|c: nat| c > 0 ==> #[trigger] scaled(c) > 0,
{
    assert(significand(0) == 0);
    assert(0 * pow2(doublings(0)) == 0);
    assert forall|c: nat| c > 0 implies #[trigger] scaled(c) > 0 by {
        lemma_scaled_increases(0, c);
    }
}

proof fn lemma_midpoint_increases(a: nat, b: nat)
    requires
        a < b,
    ensures
        midpoint(a) < midpoint(b),
{
    lemma_scaled_increases(a, b);
    lemma_scaled_increases(a + 1, b + 1);
}

/// Only one magnitude is nearest.
pub proof fn lemma_nearest_unique(n: nat, d: nat, a: nat, b: nat)
    requires
        d > 0,
        is_nearest(n, d, a),
        is_nearest(n, d, b),
    ensures
        a == b,
{
    if a < b {
        lemma_nearest_below(n, d, a, b);
    } else if b < a {
        lemma_nearest_below(n, d, b, a);
    }
}

proof fn lemma_nearest_below(n: nat, d: nat, a: nat, b: nat)
    requires
        d > 0,
        is_nearest(n, d, a),
        a < b,
    ensures
        !is_nearest(n, d, b),
{
    let m = (b - 1) as nat;
    if a < m {
        lemma_midpoint_increases(a, m);
        let x = midpoint(a);
        let y = midpoint(m);
        assert(x * d < y * d) by (nonlinear_arith)
            requires
                x < y,
                d > 0,
        ;
    }
}

proof fn lemma_nearest_from(n: nat, d: nat, c: nat)
    requires
        c <= INFINITE,
        c > 0 ==> !rounds_down_to(n, d, (c - 1) as nat),
    ensures
        exists|x: nat| is_nearest(n, d, x),
    decreases INFINITE - c,
{
    if rounds_down_to(n, d, c) {
        assert(is_nearest(n, d, c));
    } else {
        lemma_nearest_from(n, d, c + 1);
    }
}

/// There is a nearest magnitude.
pub proof fn lemma_nearest_exists(n: nat, d: nat)
    ensures
        is_nearest(n, d, nearest(n, d)),
{
    lemma_nearest_from(n, d, 0);
}

/// The nearest magnitude, once found, is the one the name speaks of.
pub proof fn lemma_nearest_is(n: nat, d: nat, c: nat)
    requires
        d > 0,
        is_nearest(n, d, c),
    ensures
        nearest(n, d) == c,
{
    lemma_nearest_unique(n, d, nearest(n, d), c);
}

/// What is not above a magnitude's value does not round above the magnitude.
pub proof fn lemma_nearest_at_most(n: nat, d: nat, c: nat)
    requires
        d > 0,
        c <= INFINITE,
        n <= scaled(c) * d,
    ensures
        nearest(n, d) <= c,
{
    lemma_nearest_exists(n, d);
    let x = nearest(n, d);
    if x > c {
        let m = (x - 1) as nat;
        if c < m {
            lemma_midpoint_increases(c, m);
        }
        lemma_scaled_increases(c, c + 1);
        let a = scaled(c);
        let b = midpoint(m);
        assert(2 * (a * d) < b * d) by (nonlinear_arith)
            requires
                2 * a < b,
                d > 0,
        ;
    }
}

/// What is not below a magnitude's value does not round below the magnitude.
pub proof fn lemma_nearest_at_least(n: nat, d: nat, c: nat)
    requires
        d > 0,
        c <= INFINITE,
        n >= scaled(c) * d,
    ensures
        nearest(n, d) >= c,
{
    lemma_nearest_exists(n, d);
    let x = nearest(n, d);
    if x < c {
        lemma_scaled_increases(x, c);
        if x + 1 < c {
            lemma_scaled_increases(x + 1, c);
        }
        let a = scaled(c);
        let b = midpoint(x);
        assert(b * d < 2 * (a * d)) by (nonlinear_arith)
            requires
                b < 2 * a,
                d > 0,
        ;
    }
}

/// The magnitude of 1.
pub proof fn lemma_one()
    ensures
        scaled(0x3ff0_0000_0000_0000) == unit(),
{
    vstd::arithmetic::power2::lemma_pow2_adds(52, 1022);
    vstd::arithmetic::power2::lemma2_to64();
    vstd::arithmetic::power2::lemma2_to64_rest();
    assert(HIDDEN as nat == pow2(52));
    assert(doublings(0x3ff0_0000_0000_0000) == 1022);
    assert(significand(0x3ff0_0000_0000_0000) == HIDDEN as nat);
}

/// A fraction of 1 or more is no less than 1.
pub proof fn lemma_ratio_at_least_one(n: nat, d: nat)
    requires
        0 < d <= n,
    ensures
        !Double::ratio_spec(n, d).neg(),
        !Double::ratio_spec(n, d).nan(),
        scaled(Double::ratio_spec(n, d).mag()) >= unit(),
{
    lemma_one();
    let one: nat = 0x3ff0_0000_0000_0000;
    let u = unit();
    assert(u * d <= n * u) by (nonlinear_arith)
        requires
            d <= n,
    ;
    lemma_nearest_at_least(n * u, d, one);
    lemma_nearest_exists(n * u, d);
    let c = nearest(n * u, d);
    if one < c {
        lemma_scaled_increases(one, c);
    }
}

/// An amount of 0 or more does not shrink when it is multiplied by 1 or more.
pub proof fn lemma_product_at_least(x: Double, r: Double)
    requires
        !x.nan(),
        !x.neg(),
        !r.nan(),
        !r.neg(),
        scaled(r.mag()) >= unit(),
    ensures
        x.le_spec(x.mul_spec(r)) || (r.infinite() && x.mag() == 0),
{
    vstd::arithmetic::power2::lemma_pow2_pos(1074);
    lemma_scaled_zero();
    if x.finite() && r.finite() {
        let a = scaled(x.mag());
        let b = scaled(r.mag());
        let u = unit();
        assert(a * b >= a * u) by (nonlinear_arith)
            requires
                b >= u,
        ;
        lemma_nearest_at_least(a * b, u, x.mag());
        lemma_nearest_exists(a * b, u);
        let c = nearest(a * b, u);
        if x.mag() < c {
            lemma_scaled_increases(x.mag(), c);
        }
    } else if x.finite() {
        lemma_scaled_increases(x.mag(), INFINITE as nat);
    }
}

/// An amount above 0 is no part of itself away from itself: less than any fraction above 0.
pub proof fn lemma_no_gap(x: Double, n: nat, d: nat)
    requires
        x.finite(),
        x.amount() > 0,
        0 < n,
        0 < d <= 4096,
    ensures
        x.sub_spec(x).abs_spec().div_spec(x).lt_spec(Double::ratio_spec(n, d)),
{
    lemma_scaled_zero();
    let y = x.neg_spec();
    assert(y.mag() == x.mag() && y.neg());
    assert(x.sub_spec(x) == of_magnitude(false, 0));
    let u = unit();
    assert(scaled(0) * u == 0) by (nonlinear_arith)
        requires
            scaled(0) == 0,
    ;
    lemma_nearest_at_most(0, scaled(x.mag()), 0);
    vstd::arithmetic::power2::lemma_pow2_strictly_increases(12, 1074);
    vstd::arithmetic::power2::lemma2_to64();
    assert(n * u >= d) by (nonlinear_arith)
        requires
            n >= 1,
            u >= d,
    ;
    assert(scaled(1) == 1) by {
        assert(significand(1) == 1);
        assert(doublings(1) == 0);
        assert(pow2(0) == 1);
    }
    lemma_nearest_at_least(n * u, d, 1);
    lemma_nearest_exists(n * u, d);
    lemma_scaled_increases(0, nearest(n * u, d));
}

/// A magnitude is nearest to its own value.
pub proof fn lemma_nearest_exact(c: nat, d: nat)
    requires
        c <= INFINITE,
        d > 0,
    ensures
        nearest(scaled(c) * d, d) == c,
{
    lemma_scaled_increases(c, c + 1);
    let x = scaled(c);
    let y = midpoint(c);
    assert(2 * (x * d) < y * d) by (nonlinear_arith)
        requires
            2 * x < y,
            d > 0,
    ;
    if c > 0 {
        lemma_scaled_increases((c - 1) as nat, c);
        let z = midpoint((c - 1) as nat);
        assert(z * d < 2 * (x * d)) by (nonlinear_arith)
            requires
                z < 2 * x,
                d > 0,
        ;
    }
    lemma_nearest_is(scaled(c) * d, d, c);
}

fn significand_of(c: u64) -> (s: u64)
    requires
        c <= INFINITE,
    ensures
        s == significand(c as nat),
        s < 2 * HIDDEN,
{
    if c / HIDDEN == 0 {
        c % HIDDEN
    } else {
        HIDDEN + c % HIDDEN
    }
}

fn doublings_of(c: u64) -> (k: u32)
    requires
        c <= INFINITE,
    ensures
        k == doublings(c as nat),
        k <= 2046,
{
    let e: u64 = c / HIDDEN;
    if e == 0 {
        0
    } else {
        (e - 1) as u32
    }
}

/// The value of a magnitude in units of 2^-1074.
fn scaled_of(c: u64) -> (r: Big)
    requires
        c <= INFINITE,
    ensures
        r@ == scaled(c as nat),
{
    Big::of(significand_of(c)).shifted(doublings_of(c))
}

/// Whether `n / d` units round to the magnitude `c` or a smaller one, given `2 * n`.
fn rounds_down(twice: &Big, d: &Big, c: u64) -> (r: bool)
    requires
        c <= INFINITE,
        twice@ % 2 == 0,
    ensures
        r == rounds_down_to(twice@ / 2, d@, c as nat),
{
    if c == INFINITE {
        return true;
    }
    let odd: u64 = 2 * significand_of(c) + 1;
    let k: u32 = doublings_of(c);
    let m = d.times(odd).shifted(k);
    proof {
        lemma_step(c as nat);
        let dd = d@;
        let p = pow2(k as nat);
        assert((dd * odd) * p == (odd * p) * dd) by (nonlinear_arith);
        assert(m@ == midpoint(c as nat) * dd);
    }
    if twice.less(&m) {
        return true;
    }
    c % 2 == 0 && !m.less(twice)
}

/// Whether `c` is the magnitude nearest to `n / d` units.
pub fn reads_as(n: &Big, d: &Big, c: u64) -> (r: bool)
    requires
        c <= INFINITE,
    ensures
        r == is_nearest(n@, d@, c as nat),
{
    let twice = n.times_plus(2, 0);
    rounds_down(&twice, d, c) && (c == 0 || !rounds_down(&twice, d, c - 1))
}

/// The magnitude nearest to `n / d` units, the even one of two.
pub fn nearest_of(n: &Big, d: &Big) -> (c: u64)
    requires
        d@ > 0,
    ensures
        c == nearest(n@, d@),
        is_nearest(n@, d@, c as nat),
        c <= INFINITE,
{
    let twice = n.times_plus(2, 0);
    let mut lo: u64 = 0;
    let mut hi: u64 = INFINITE;
    while lo < hi
        invariant
            lo <= hi <= INFINITE,
            twice@ == 2 * n@,
            rounds_down_to(n@, d@, hi as nat),
            lo > 0 ==> !rounds_down_to(n@, d@, (lo - 1) as nat),
        decreases hi - lo,
    {
        let mid: u64 = lo + (hi - lo) / 2;
        if rounds_down(&twice, d, mid) {
            hi = mid;
        } else {
            lo = mid + 1;
        }
    }
    proof {
        lemma_nearest_is(n@, d@, lo as nat);
    }
    lo
}

/// The number with a given sign and magnitude.
pub fn signed_mag(neg: bool, c: u64) -> (r: Double)
    requires
        c < SIGN,
    ensures
        r == of_magnitude(neg, c as nat),
        r.neg() == neg,
        r.mag() == c,
{
    if neg {
        Double { bits: c + SIGN }
    } else {
        Double { bits: c }
    }
}

impl Double {
    pub fn zero() -> (r: Double)
        ensures
            r == Double::zero_spec(),
    {
        signed_mag(false, 0)
    }

    pub fn nan_value() -> (r: Double)
        ensures
            r == of_magnitude(false, NOT_A_NUMBER as nat),
    {
        signed_mag(false, NOT_A_NUMBER)
    }

    pub fn infinity(neg: bool) -> (r: Double)
        ensures
            r == of_magnitude(neg, INFINITE as nat),
    {
        signed_mag(neg, INFINITE)
    }

    pub fn is_neg(self) -> (r: bool)
        ensures
            r == self.neg(),
    {
        self.bits >= SIGN
    }

    pub fn magnitude(self) -> (r: u64)
        ensures
            r == self.mag(),
            r < SIGN,
    {
        if self.bits >= SIGN {
            self.bits - SIGN
        } else {
            self.bits
        }
    }

    pub fn is_nan(self) -> (r: bool)
        ensures
            r == self.nan(),
    {
        self.magnitude() > INFINITE
    }

    pub fn is_infinite(self) -> (r: bool)
        ensures
            r == self.infinite(),
    {
        self.magnitude() == INFINITE
    }

    pub fn is_finite(self) -> (r: bool)
        ensures
            r == self.finite(),
    {
        self.magnitude() < INFINITE
    }

    /// `self < o`; false where either is not a number.
    pub fn lt(self, o: Double) -> (r: bool)
        ensures
            r == self.lt_spec(o),
    {
        let a: u64 = self.magnitude();
        let b: u64 = o.magnitude();
        proof {
            lemma_scaled_zero();
            if a < b {
                lemma_scaled_increases(a as nat, b as nat);
            }
            if b < a {
                lemma_scaled_increases(b as nat, a as nat);
            }
        }
        if self.is_nan() || o.is_nan() {
            false
        } else if self.is_neg() {
            if o.is_neg() {
                b < a
            } else {
                a != 0 || b != 0
            }
        } else {
            !o.is_neg() && a < b
        }
    }

    /// `self <= o`; false where either is not a number.
    pub fn le(self, o: Double) -> (r: bool)
        ensures
            r == self.le_spec(o),
    {
        !self.is_nan() && !o.is_nan() && !o.lt(self)
    }

    /// `self == o`; false where either is not a number.
    pub fn same(self, o: Double) -> (r: bool)
        ensures
            r == self.eq_spec(o),
    {
        self.le(o) && o.le(self)
    }

    pub fn negated(self) -> (r: Double)
        ensures
            r == self.neg_spec(),
    {
        signed_mag(!self.is_neg(), self.magnitude())
    }

    pub fn abs(self) -> (r: Double)
        ensures
            r == self.abs_spec(),
    {
        signed_mag(false, self.magnitude())
    }

    pub fn plus(self, o: Double) -> (r: Double)
        ensures
            r == self.add_spec(o),
    {
        let a: u64 = self.magnitude();
        let b: u64 = o.magnitude();
        if self.is_nan() || o.is_nan() || (self.is_infinite() && o.is_infinite() && self.is_neg()
            != o.is_neg()) {
            return signed_mag(false, NOT_A_NUMBER);
        }
        if self.is_infinite() {
            return self;
        }
        if o.is_infinite() {
            return o;
        }
        let x = scaled_of(a);
        let y = scaled_of(b);
        let one = Big::of(1);
        proof {
            lemma_scaled_zero();
        }
        if self.is_neg() == o.is_neg() {
            let s = x.plus(&y);
            if s.is_zero() {
                return signed_mag(self.is_neg(), 0);
            }
            return signed_mag(self.is_neg(), nearest_of(&s, &one));
        }
        if x.less(&y) {
            let s = y.minus(&x);
            return signed_mag(o.is_neg(), nearest_of(&s, &one));
        }
        let s = x.minus(&y);
        if s.is_zero() {
            return signed_mag(false, 0);
        }
        signed_mag(self.is_neg(), nearest_of(&s, &one))
    }

    pub fn minus(self, o: Double) -> (r: Double)
        ensures
            r == self.sub_spec(o),
    {
        self.plus(o.negated())
    }

    pub fn times(self, o: Double) -> (r: Double)
        ensures
            r == self.mul_spec(o),
    {
        let a: u64 = self.magnitude();
        let b: u64 = o.magnitude();
        let neg: bool = self.is_neg() != o.is_neg();
        if self.is_nan() || o.is_nan() || (self.is_infinite() && b == 0) || (o.is_infinite() && a
            == 0) {
            return signed_mag(false, NOT_A_NUMBER);
        }
        if self.is_infinite() || o.is_infinite() {
            return signed_mag(neg, INFINITE);
        }
        let n = Big::of(significand_of(a)).times(significand_of(b)).shifted(doublings_of(a)).shifted(
            doublings_of(b),
        );
        proof {
            let s = significand(a as nat);
            let t = significand(b as nat);
            let p = pow2(doublings(a as nat));
            let q = pow2(doublings(b as nat));
            assert(((s * t) * p) * q == (s * p) * (t * q)) by (nonlinear_arith);
            lemma_pow2_pos(1074);
        }
        let one = Big::of(1).shifted(1074);
        assert(one@ == unit());
        signed_mag(neg, nearest_of(&n, &one))
    }

    pub fn over(self, o: Double) -> (r: Double)
        ensures
            r == self.div_spec(o),
    {
        let a: u64 = self.magnitude();
        let b: u64 = o.magnitude();
        let neg: bool = self.is_neg() != o.is_neg();
        if self.is_nan() || o.is_nan() || (self.is_infinite() && o.is_infinite()) || (a == 0 && b
            == 0) {
            return signed_mag(false, NOT_A_NUMBER);
        }
        if self.is_infinite() || b == 0 {
            return signed_mag(neg, INFINITE);
        }
        if o.is_infinite() {
            return signed_mag(neg, 0);
        }
        proof {
            lemma_scaled_zero();
        }
        let n = scaled_of(a).shifted(1074);
        let d = scaled_of(b);
        signed_mag(neg, nearest_of(&n, &d))
    }

    /// The remainder of truncated division.
    pub fn rem(self, o: Double) -> (r: Double)
        ensures
            r == self.rem_spec(o),
    {
        let a: u64 = self.magnitude();
        let b: u64 = o.magnitude();
        if self.is_nan() || o.is_nan() || self.is_infinite() || b == 0 {
            return signed_mag(false, NOT_A_NUMBER);
        }
        if o.is_infinite() {
            return self;
        }
        proof {
            lemma_scaled_zero();
        }
        let d = scaled_of(b);
        let (_q, m) = scaled_of(a).divide(&d);
        signed_mag(self.is_neg(), nearest_of(&m, &Big::of(1)))
    }

    pub fn rem_euclid(self, o: Double) -> (r: Double)
        ensures
            r == self.rem_euclid_spec(o),
    {
        let m = self.rem(o);
        if m.lt(Double::zero()) {
            m.plus(o.abs())
        } else {
            m
        }
    }

    /// The whole number `i`, rounded to nearest.
    pub fn of_int(i: i64) -> (r: Double)
        ensures
            r == Double::int_spec(i as int),
    {
        let m: u64 = if i < 0 {
            (-(i as i128)) as u64
        } else {
            i as u64
        };
        signed_mag(i < 0, nearest_of(&Big::of(m).shifted(1074), &Big::of(1)))
    }

    /// The whole number `i`, rounded to nearest.
    pub fn of_i128(i: i128) -> (r: Double)
        ensures
            r == Double::int_spec(i as int),
    {
        let m: u128 = magnitude_of(i);
        signed_mag(i < 0, nearest_of(&big_of(m).shifted(1074), &Big::of(1)))
    }

    /// The whole number `n`, rounded to nearest.
    pub fn of_u128(n: u128) -> (r: Double)
        ensures
            r == Double::int_spec(n as int),
    {
        signed_mag(false, nearest_of(&big_of(n).shifted(1074), &Big::of(1)))
    }

    /// A count, rounded to nearest.
    pub fn of_count(n: usize) -> (r: Double)
        ensures
            r == Double::int_spec(n as int),
    {
        signed_mag(false, nearest_of(&Big::of(n as u64).shifted(1074), &Big::of(1)))
    }

    /// The fraction `n / d`, rounded to nearest.
    pub fn ratio(n: u64, d: u64) -> (r: Double)
        requires
            d > 0,
        ensures
            r == Double::ratio_spec(n as nat, d as nat),
    {
        signed_mag(false, nearest_of(&Big::of(n).shifted(1074), &Big::of(d)))
    }

    /// Whole part of the magnitude, and whether anything was cut off.
    fn split(self) -> (r: (Big, bool))
        requires
            !self.nan(),
        ensures
            r.0@ == scaled(self.mag()) / unit(),
            r.1 == (scaled(self.mag()) % unit() != 0),
    {
        let one = Big::of(1).shifted(1074);
        proof {
            lemma_pow2_pos(1074);
        }
        let (q, m) = scaled_of(self.magnitude()).divide(&one);
        (q, !m.is_zero())
    }

    /// The value cut off toward zero and held to the range of `i64`.
    pub fn to_i64(self) -> (r: i64)
        ensures
            r == self.cast_spec(i64::MIN as int, i64::MAX as int),
    {
        if self.is_nan() {
            return 0;
        }
        let (q, _cut) = self.split();
        if self.is_neg() {
            if Big::of(0x8000_0000_0000_0000).less(&q) {
                return i64::MIN;
            }
            let m: u64 = low_word(&q);
            (-(m as i128)) as i64
        } else {
            if Big::of(0x7fff_ffff_ffff_ffff).less(&q) {
                return i64::MAX;
            }
            low_word(&q) as i64
        }
    }

    /// The value cut off toward zero and held to the range of `i128`.
    pub fn to_i128(self) -> (r: i128)
        ensures
            r == self.cast_spec(i128::MIN as int, i128::MAX as int),
    {
        if self.is_nan() {
            return 0;
        }
        let (q, _cut) = self.split();
        let high = big_of(0x8000_0000_0000_0000_0000_0000_0000_0000);
        if self.is_neg() {
            if !q.less(&high) {
                return i128::MIN;
            }
            -(wide_word(&q) as i128)
        } else {
            if !q.less(&high) {
                return i128::MAX;
            }
            wide_word(&q) as i128
        }
    }

    /// Whether this is exactly the whole number `i`.
    pub fn equals_int(self, i: i64) -> (r: bool)
        ensures
            r == self.is_int(i as int),
    {
        if !self.is_finite() {
            return false;
        }
        let (_whole, cut) = self.split();
        let w: i128 = self.to_i128();
        proof {
            lemma_pow2_pos(1074);
            let n = scaled(self.mag()) as int;
            let u = unit() as int;
            let q = n / u;
            let a: int = if self.neg() {
                -(i as int)
            } else {
                i as int
            };
            vstd::arithmetic::div_mod::lemma_fundamental_div_mod(n, u);
            if a * u == n {
                vstd::arithmetic::div_mod::lemma_fundamental_div_mod_converse(n, u, a, 0);
            }
            assert(u * q == q * u) by (nonlinear_arith);
            assert((-(i as int)) * u == -(i * u)) by (nonlinear_arith);
        }
        !cut && w == i as i128
    }

    /// The value cut off toward zero and held to the range of `u64`.
    pub fn to_u64(self) -> (r: u64)
        ensures
            r == self.cast_spec(0, u64::MAX as int),
    {
        if self.is_nan() {
            return 0;
        }
        let (q, _cut) = self.split();
        if self.is_neg() {
            return 0;
        }
        if Big::of(u64::MAX).less(&q) {
            return u64::MAX;
        }
        low_word(&q)
    }

    pub fn trunc(self) -> (r: Double)
        ensures
            r == self.trunc_spec(),
    {
        if !self.is_finite() {
            return self;
        }
        let (q, _cut) = self.split();
        signed_mag(self.is_neg(), nearest_of(&q.shifted(1074), &Big::of(1)))
    }

    pub fn floor(self) -> (r: Double)
        ensures
            r == self.floor_spec(),
    {
        if !self.is_finite() {
            return self;
        }
        let (q, cut) = self.split();
        let m = if self.is_neg() && cut {
            q.plus(&Big::of(1))
        } else {
            q
        };
        signed_mag(self.is_neg(), nearest_of(&m.shifted(1074), &Big::of(1)))
    }

    pub fn min(self, o: Double) -> (r: Double)
        ensures
            r == self.min_spec(o),
    {
        if self.is_nan() || o.lt(self) {
            o
        } else {
            self
        }
    }

    pub fn max(self, o: Double) -> (r: Double)
        ensures
            r == self.max_spec(o),
    {
        if self.is_nan() || self.lt(o) {
            o
        } else {
            self
        }
    }

    /// Whether this pattern comes before `o` in the total order of all patterns.
    pub fn ranks_before(self, o: Double) -> (r: bool)
        ensures
            r == (self.rank() < o.rank()),
    {
        if self.is_neg() {
            if o.is_neg() {
                o.magnitude() < self.magnitude()
            } else {
                true
            }
        } else {
            !o.is_neg() && self.magnitude() < o.magnitude()
        }
    }
}

/// A number that fits two words, as one.
pub fn wide_word(b: &Big) -> (r: u128)
    requires
        b@ <= u128::MAX,
    ensures
        r == b@,
{
    let base = Big::of(0x8000_0000_0000_0000).times(2);
    assert(base@ == 0x1_0000_0000_0000_0000);
    let (hi, lo) = b.divide(&base);
    proof {
        vstd::arithmetic::div_mod::lemma_fundamental_div_mod(b@ as int, 0x1_0000_0000_0000_0000);
    }
    (low_word(&hi) as u128) * 0x1_0000_0000_0000_0000 + low_word(&lo) as u128
}

/// The magnitude of a whole number.
fn magnitude_of(i: i128) -> (r: u128)
    ensures
        r == (if i < 0 {
            -(i as int)
        } else {
            i as int
        }),
{
    if i < 0 {
        ((-(i + 1)) as u128) + 1
    } else {
        i as u128
    }
}

/// A number of two words.
pub fn big_of(n: u128) -> (r: Big)
    ensures
        r@ == n,
{
    let hi: u64 = (n / 0x1_0000_0000_0000_0000) as u64;
    let lo: u64 = (n % 0x1_0000_0000_0000_0000) as u64;
    Big::of(hi).times(0x8000_0000_0000_0000).times(2).plus(&Big::of(lo))
}

/// The value of a number of one word.
pub fn low_word(b: &Big) -> (r: u64)
    requires
        b@ <= u64::MAX,
    ensures
        r == b@,
{
    let (q, lo) = b.divide_small(0x1_0000);
    let (q2, mid) = q.divide_small(0x1_0000);
    let (q3, hi) = q2.divide_small(0x1_0000);
    let (q4, top) = q3.divide_small(0x1_0000);
    proof {
        let v = b@;
        assert(v / 0x1_0000 / 0x1_0000 / 0x1_0000 / 0x1_0000 == 0) by (nonlinear_arith)
            requires
                0 <= v <= u64::MAX,
        ;
        assert(q4@ == 0);
    }
    lo as u64 + 0x1_0000 * (mid as u64 + 0x1_0000 * (hi as u64 + 0x1_0000 * top as u64))
}

impl Double {
    /// The value that is no number.
    pub open spec fn nan_spec() -> Double {
        of_magnitude(false, NOT_A_NUMBER as nat)
    }

    /// An infinity.
    pub open spec fn infinity_spec(neg: bool) -> Double {
        of_magnitude(neg, INFINITE as nat)
    }
}

impl DeepView for Double {
    type V = Double;

    open spec fn deep_view(&self) -> Double {
        *self
    }
}

} // verus!
