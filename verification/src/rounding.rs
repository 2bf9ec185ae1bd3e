//! How far a rounded result lies from the exact one, and how rounded results are ordered.
//!
//! Amounts are whole numbers of units of 2^-1074, so products and quotients are compared by
//! multiplying out.
use crate::double;
use crate::double::{Double, HIDDEN, INFINITE};
use vstd::arithmetic::power2::*;
use vstd::prelude::*;

verus! {

/// The distance of a number from 0.
pub open spec fn size(x: int) -> int {
    if x < 0 {
        -x
    } else {
        x
    }
}

/// How many steps of its size a rounded number is at most off by: one in 2^53.
pub open spec fn grain() -> int {
    0x20_0000_0000_0000
}

/// The amount under which steps get no smaller.
pub open spec fn least() -> int {
    0x10_0000_0000_0000
}

/// The nearest magnitude is off by no more than half a step.
pub proof fn lemma_nearest_error(n: nat, d: nat)
    requires
        d > 0,
        double::nearest(n, d) < INFINITE,
    ensures
        grain() * size(double::scaled(double::nearest(n, d)) * d - n) <= d * (double::scaled(double::nearest(n, d)) + least()),
{
    double::lemma_nearest_exists(n, d);
    let c = double::nearest(n, d);
    let p = pow2(double::doublings(c)) as int;
    let s = double::scaled(c) as int;
    let v = s * d - n;
    double::lemma_step(c);
    let di = d as int;
    assert(double::midpoint(c) == 2 * s + p);
    assert(2 * n <= (2 * s + p) * di) by {
        assert(2 * n <= double::midpoint(c) * d);
    }
    assert(-(p * di) <= 2 * v) by (nonlinear_arith)
        requires
            2 * n <= (2 * s + p) * di,
            v == s * di - n,
    ;
    if c > 0 {
        let b = (c - 1) as nat;
        double::lemma_step(b);
        let q = pow2(double::doublings(b)) as int;
        assert(q <= p) by {
            if c / HIDDEN as nat != b / HIDDEN as nat {
                assert(double::doublings(b) <= double::doublings(c)) by {
                    vstd::arithmetic::div_mod::lemma_div_is_ordered(
                        b as int,
                        c as int,
                        HIDDEN as int,
                    );
                }
            }
            if double::doublings(b) < double::doublings(c) {
                lemma_pow2_strictly_increases(double::doublings(b), double::doublings(c));
            }
            vstd::arithmetic::div_mod::lemma_div_is_ordered(b as int, c as int, HIDDEN as int);
        }
        assert(double::midpoint(b) == 2 * s - q);
        assert(2 * n >= double::midpoint(b) * d);
        assert(2 * v <= p * di) by (nonlinear_arith)
            requires
                2 * n >= (2 * s - q) * di,
                v == s * di - n,
                q <= p,
                di > 0,
        ;
    } else {
        double::lemma_scaled_zero();
        assert(v <= 0) by (nonlinear_arith)
            requires
                v == s * di - n,
                s == 0,
                n >= 0,
        ;
        assert(p * di > 0) by (nonlinear_arith)
            requires
                p > 0,
                di > 0,
        ;
    }
    assert(least() * p <= s + least()) by {
        lemma2_to64();
        if c / HIDDEN as nat == 0 {
            assert(p == 1);
        } else {
            assert(double::significand(c) >= HIDDEN);
            assert(s >= least() * p) by (nonlinear_arith)
                requires
                    s == double::significand(c) * p,
                    double::significand(c) >= least(),
                    p > 0,
            ;
        }
    }
    assert(2 * size(v) <= p * di);
    assert(grain() * size(v) <= di * (s + least())) by (nonlinear_arith)
        requires
            2 * size(v) <= p * di,
            least() * p <= s + least(),
            grain() == 2 * least(),
            least() > 0,
            di > 0,
    ;
}

/// Nearest magnitudes are ordered as what they are nearest to.
pub proof fn lemma_nearest_order(n: nat, d: nat, m: nat, e: nat)
    requires
        d > 0,
        e > 0,
        n * e <= m * d,
    ensures
        double::nearest(n, d) <= double::nearest(m, e),
{
    double::lemma_nearest_exists(n, d);
    double::lemma_nearest_exists(m, e);
    let a = double::nearest(n, d);
    let b = double::nearest(m, e);
    if a > b {
        let k = (a - 1) as nat;
        assert(!double::rounds_down_to(n, d, k));
        let x = double::midpoint(k) as int;
        let y = double::midpoint(b) as int;
        assert(2 * n >= x * d);
        assert(2 * m <= y * e);
        if b < k {
            double::lemma_scaled_increases(b, k);
            double::lemma_scaled_increases(b + 1, k + 1);
            assert(false) by (nonlinear_arith)
                requires
                    2 * n >= x * d,
                    2 * m <= y * e,
                    y < x,
                    n * e <= m * d,
                    d > 0,
                    e > 0,
            ;
        } else {
            assert(2 * n == x * d && 2 * m == y * e) by (nonlinear_arith)
                requires
                    2 * n >= x * d,
                    2 * m <= y * e,
                    y == x,
                    n * e <= m * d,
                    d > 0,
                    e > 0,
            ;
        }
    }
}

proof fn lemma_signed(sign: int, x: int)
    requires
        sign == 1 || sign == -1,
    ensures
        sign * x == (if sign == 1 {
            x
        } else {
            -x
        }),
{
    assert(1 * x == x && (-1) * x == -x);
}

/// A product is off by no more than half a step.
pub proof fn lemma_mul_error(a: Double, b: Double)
    requires
        a.finite(),
        b.finite(),
        a.mul_spec(b).finite(),
    ensures
        grain() * size(a.mul_spec(b).amount() * double::unit() - a.amount() * b.amount()) <= double::unit() * (size(
            a.mul_spec(b).amount(),
        ) + least()),
{
    lemma_pow2_pos(1074);
    let x = double::scaled(a.mag());
    let y = double::scaled(b.mag());
    let u = double::unit();
    let c = double::nearest(x * y, u);
    double::lemma_nearest_exists(x * y, u);
    lemma_nearest_error(x * y, u);
    let r = a.mul_spec(b);
    let s = double::scaled(c) as int;
    assert(r.mag() == c);
    assert(r.neg() == (a.neg() != b.neg()));
    let sign: int = if a.neg() != b.neg() {
        -1
    } else {
        1
    };
    lemma_signed(sign, s);
    assert(r.amount() == sign * s);
    assert(a.amount() * b.amount() == sign * (x * y)) by (nonlinear_arith)
        requires
            a.amount() == (if a.neg() { -(x as int) } else { x as int }),
            b.amount() == (if b.neg() { -(y as int) } else { y as int }),
            sign == (if a.neg() != b.neg() { -1int } else { 1int }),
    ;
    let v = s * u - x * y;
    assert(r.amount() * u - a.amount() * b.amount() == sign * v) by (nonlinear_arith)
        requires
            r.amount() == sign * s,
            a.amount() * b.amount() == sign * (x * y),
            v == s * u - x * y,
    ;
    lemma_signed(sign, v);
    assert(size(sign * v) == size(v));
    assert(size(r.amount()) == s);
}

/// A quotient is off by no more than half a step.
pub proof fn lemma_div_error(a: Double, b: Double)
    requires
        a.finite(),
        b.finite(),
        b.amount() != 0,
        a.div_spec(b).finite(),
    ensures
        grain() * size(a.div_spec(b).amount() * b.amount() - a.amount() * double::unit()) <= size(
            b.amount(),
        ) * (size(a.div_spec(b).amount()) + least()),
{
    double::lemma_scaled_zero();
    let x = double::scaled(a.mag());
    let y = double::scaled(b.mag());
    let u = double::unit();
    assert(y > 0);
    let c = double::nearest(x * u, y);
    double::lemma_nearest_exists(x * u, y);
    lemma_nearest_error(x * u, y);
    let r = a.div_spec(b);
    let s = double::scaled(c) as int;
    assert(r.mag() == c);
    let sign: int = if a.neg() != b.neg() {
        -1
    } else {
        1
    };
    lemma_signed(sign, s);
    assert(r.amount() == sign * s);
    let v = s * y - x * u;
    let asign: int = if a.neg() {
        -1
    } else {
        1
    };
    assert(r.amount() * b.amount() - a.amount() * u == asign * v) by (nonlinear_arith)
        requires
            r.amount() == sign * s,
            a.amount() == (if a.neg() { -(x as int) } else { x as int }),
            b.amount() == (if b.neg() { -(y as int) } else { y as int }),
            sign == (if a.neg() != b.neg() { -1int } else { 1int }),
            asign == (if a.neg() { -1int } else { 1int }),
            v == s * y - x * u,
    ;
    lemma_signed(asign, v);
    assert(size(asign * v) == size(v));
    assert(size(r.amount()) == s);
    assert(size(b.amount()) == y);
}

/// A sum is off by no more than half a step.
pub proof fn lemma_add_error(a: Double, b: Double)
    requires
        a.finite(),
        b.finite(),
        a.add_spec(b).finite(),
    ensures
        grain() * size(a.add_spec(b).amount() - (a.amount() + b.amount())) <= size(
            a.add_spec(b).amount(),
        ) + least(),
{
    double::lemma_scaled_zero();
    let sum = a.amount() + b.amount();
    let r = a.add_spec(b);
    if sum != 0 {
        let n = size(sum) as nat;
        double::lemma_nearest_exists(n, 1);
        lemma_nearest_error(n, 1);
        assert(r.mag() == double::nearest(n, 1));
        assert(size(r.amount() - sum) == size(double::scaled(double::nearest(n, 1)) * 1 - n));
    }
}

/// Sums are ordered as what is added.
pub proof fn lemma_add_order(a: Double, b: Double, k: Double)
    requires
        a.le_spec(b),
        k.finite(),
    ensures
        a.add_spec(k).le_spec(b.add_spec(k)),
{
    double::lemma_scaled_zero();
    lemma_infinite_is_last(a);
    lemma_infinite_is_last(b);
    double::lemma_nearest_exists(size(a.amount() + k.amount()) as nat, 1);
    double::lemma_nearest_exists(size(b.amount() + k.amount()) as nat, 1);
    lemma_infinite_is_last(a.add_spec(k));
    lemma_infinite_is_last(b.add_spec(k));
    if a.finite() && b.finite() {
        let s = a.amount() + k.amount();
        let t = b.amount() + k.amount();
        double::lemma_nearest_exists(size(s) as nat, 1);
        double::lemma_nearest_exists(size(t) as nat, 1);
        if s > 0 {
            lemma_nearest_order(s as nat, 1, t as nat, 1);
            lemma_at_most(double::nearest(s as nat, 1), double::nearest(t as nat, 1));
        } else if t < 0 {
            lemma_nearest_order(size(t) as nat, 1, size(s) as nat, 1);
            lemma_at_most(double::nearest(size(t) as nat, 1), double::nearest(size(s) as nat, 1));
        }
    }
}

/// Larger magnitudes have larger values.
pub proof fn lemma_at_most(a: nat, b: nat)
    requires
        a <= b,
    ensures
        double::scaled(a) <= double::scaled(b),
{
    if a < b {
        double::lemma_scaled_increases(a, b);
    }
}

/// No number is beyond the infinities.
pub proof fn lemma_infinite_is_last(a: Double)
    requires
        !a.nan(),
    ensures
        size(a.amount()) <= double::scaled(INFINITE as nat),
        a.finite() ==> size(a.amount()) < double::scaled(INFINITE as nat),
{
    lemma_at_most(a.mag(), INFINITE as nat);
    if a.finite() {
        double::lemma_scaled_increases(a.mag(), INFINITE as nat);
    }
}

/// Products with one factor that is not negative are ordered as the other.
pub proof fn lemma_mul_order(a: Double, b: Double, k: Double)
    requires
        a.le_spec(b),
        a.finite(),
        b.finite(),
        k.finite(),
        k.amount() >= 0,
    ensures
        a.mul_spec(k).le_spec(b.mul_spec(k)),
{
    lemma_pow2_pos(1074);
    double::lemma_scaled_zero();
    let x = double::scaled(a.mag());
    let y = double::scaled(b.mag());
    let z = double::scaled(k.mag());
    let u = double::unit();
    double::lemma_nearest_exists(x * z, u);
    double::lemma_nearest_exists(y * z, u);
    if z == 0 {
        assert(x * z == 0 && y * z == 0) by (nonlinear_arith)
            requires
                z == 0,
        ;
        lemma_nearest_zero(u);
    } else {
        assert(!k.neg());
        if a.amount() >= 0 {
            if a.neg() {
                lemma_nearest_zero(u);
                assert(x * z == 0) by (nonlinear_arith)
                    requires
                        x == 0,
                ;
            }
            if b.neg() {
                lemma_nearest_zero(u);
                assert(y * z == 0) by (nonlinear_arith)
                    requires
                        y == 0,
                ;
            }
            assert((x * z) * u <= (y * z) * u) by (nonlinear_arith)
                requires
                    x <= y,
            ;
            lemma_nearest_order(x * z, u, y * z, u);
            lemma_at_most(double::nearest(x * z, u), double::nearest(y * z, u));
        } else if b.amount() < 0 {
            assert((y * z) * u <= (x * z) * u) by (nonlinear_arith)
                requires
                    y <= x,
            ;
            lemma_nearest_order(y * z, u, x * z, u);
            lemma_at_most(double::nearest(y * z, u), double::nearest(x * z, u));
        } else if b.neg() {
            lemma_nearest_zero(u);
            assert(y * z == 0) by (nonlinear_arith)
                requires
                    y == 0,
            ;
        }
    }
}

proof fn lemma_nearest_zero(d: nat)
    requires
        d > 0,
    ensures
        double::nearest(0, d) == 0,
{
    double::lemma_scaled_zero();
    assert(double::scaled(0) * d == 0) by (nonlinear_arith)
        requires
            double::scaled(0) == 0,
    ;
    double::lemma_nearest_exact(0, d);
}

/// Quotients by one positive number are ordered as what is divided.
pub proof fn lemma_div_order(a: Double, b: Double, k: Double)
    requires
        a.le_spec(b),
        a.finite(),
        b.finite(),
        k.finite(),
        k.amount() > 0,
    ensures
        a.div_spec(k).le_spec(b.div_spec(k)),
{
    lemma_pow2_pos(1074);
    double::lemma_scaled_zero();
    let x = double::scaled(a.mag());
    let y = double::scaled(b.mag());
    let z = double::scaled(k.mag());
    let u = double::unit();
    assert(!k.neg() && z > 0);
    double::lemma_nearest_exists(x * u, z);
    double::lemma_nearest_exists(y * u, z);
    if x == 0 || y == 0 {
        lemma_nearest_zero(z);
        assert(0 * u == 0);
    }
    if a.amount() >= 0 {
        assert((x * u) * z <= (y * u) * z) by (nonlinear_arith)
            requires
                x <= y,
        ;
        lemma_nearest_order(x * u, z, y * u, z);
        lemma_at_most(double::nearest(x * u, z), double::nearest(y * u, z));
    } else if b.amount() < 0 {
        assert((y * u) * z <= (x * u) * z) by (nonlinear_arith)
            requires
                y <= x,
        ;
        lemma_nearest_order(y * u, z, x * u, z);
        lemma_at_most(double::nearest(y * u, z), double::nearest(x * u, z));
    }
}

/// The number one is exact.
pub proof fn lemma_one_is_exact()
    ensures
        Double::int_spec(1).finite(),
        Double::int_spec(1).amount() == double::unit(),
        Double::int_spec(1).neg_spec().finite(),
        Double::int_spec(1).neg_spec().amount() == -(double::unit() as int),
{
    double::lemma_one();
    let one: nat = 0x3ff0_0000_0000_0000;
    assert(double::scaled(one) * 1 == 1 * double::unit());
    double::lemma_nearest_exact(one, 1);
}

/// A sum that is itself a number is exact.
pub proof fn lemma_exact_sum(a: Double, b: Double, c: Double)
    requires
        a.finite(),
        b.finite(),
        c.finite(),
        a.amount() + b.amount() == c.amount(),
    ensures
        a.add_spec(b).finite(),
        a.add_spec(b).amount() == c.amount(),
{
    double::lemma_scaled_zero();
    if c.amount() != 0 {
        assert(double::scaled(c.mag()) * 1 == double::scaled(c.mag()));
        double::lemma_nearest_exact(c.mag(), 1);
    }
}

/// A product that is itself a number is exact.
pub proof fn lemma_exact_product(a: Double, b: Double, c: Double)
    requires
        a.finite(),
        b.finite(),
        c.finite(),
        a.amount() * b.amount() == c.amount() * double::unit(),
    ensures
        a.mul_spec(b).finite(),
        a.mul_spec(b).amount() == c.amount(),
{
    lemma_pow2_pos(1074);
    double::lemma_scaled_zero();
    let x = double::scaled(a.mag());
    let y = double::scaled(b.mag());
    let z = double::scaled(c.mag());
    let u = double::unit();
    assert(x * y == z * u && (z > 0 ==> c.neg() == (a.neg() != b.neg()))) by (nonlinear_arith)
        requires
            a.amount() * b.amount() == c.amount() * u,
            a.amount() == (if a.neg() { -(x as int) } else { x as int }),
            b.amount() == (if b.neg() { -(y as int) } else { y as int }),
            c.amount() == (if c.neg() { -(z as int) } else { z as int }),
            u > 0,
    ;
    double::lemma_nearest_exact(c.mag(), u);
}

/// One time a number is the number, and minus one time it is its opposite.
pub proof fn lemma_times_one(a: Double)
    requires
        a.finite(),
    ensures
        a.mul_spec(Double::int_spec(1)).finite(),
        a.mul_spec(Double::int_spec(1)).amount() == a.amount(),
        a.mul_spec(Double::int_spec(1).neg_spec()).finite(),
        a.mul_spec(Double::int_spec(1).neg_spec()).amount() == -a.amount(),
{
    lemma_one_is_exact();
    lemma_exact_product(a, Double::int_spec(1), a);
    let b = a.neg_spec();
    assert(b.finite() && b.amount() == -a.amount());
    let u = double::unit() as int;
    assert(a.amount() * (-u) == b.amount() * u) by (nonlinear_arith)
        requires
            b.amount() == -a.amount(),
    ;
    lemma_exact_product(a, Double::int_spec(1).neg_spec(), b);
}

/// A part of a positive number is less than all of it, also when rounded.
pub proof fn lemma_part_is_less(a: Double, b: Double)
    requires
        a.finite(),
        b.finite(),
        0 <= a.amount() < b.amount(),
    ensures
        a.div_spec(b).finite(),
        0 <= a.div_spec(b).amount() < double::unit(),
{
    double::lemma_scaled_zero();
    double::lemma_one();
    lemma_pow2_pos(1074);
    let one: nat = 0x3ff0_0000_0000_0000;
    let under: nat = 0x3fef_ffff_ffff_ffff;
    let x = double::scaled(a.mag());
    let y = double::scaled(b.mag());
    let u = double::unit();
    assert(x < y && !b.neg() && (a.neg() ==> x == 0));
    double::lemma_step(under);
    let p = pow2(double::doublings(under));
    assert(double::scaled(under) + p == u);
    assert(grain() * p == u) by {
        assert(double::doublings(under) == 1021);
        vstd::arithmetic::power2::lemma_pow2_adds(53, 1021);
        lemma2_to64();
        lemma2_to64_rest();
    }
    assert(a.mag() < b.mag()) by {
        if b.mag() <= a.mag() {
            lemma_at_most(b.mag(), a.mag());
        }
    }
    lemma_gap(a.mag(), b.mag());
    let e = y - x;
    let m = double::scaled(under);
    assert(x * u <= m * y) by (nonlinear_arith)
        requires
            m + p == u,
            grain() * p == u,
            e == y - x,
            grain() * e >= y,
            grain() > 0,
            x >= 0,
            p >= 0,
            y >= 0,
    ;
    double::lemma_nearest_at_most(x * u, y, under);
    let c = double::nearest(x * u, y);
    lemma_at_most(c, under);
    if a.neg() {
        lemma_nearest_zero(y);
        assert(0 * u == 0);
    }
}

/// Two magnitudes are apart by at least one part in 2^53 of the larger.
proof fn lemma_gap(a: nat, b: nat)
    requires
        a < b,
    ensures
        grain() * (double::scaled(b) - double::scaled(a)) >= double::scaled(b),
{
    let k = (b - 1) as nat;
    double::lemma_step(k);
    lemma_at_most(a, k);
    let p = pow2(double::doublings(k)) as int;
    let s = double::significand(k) as int;
    lemma2_to64();
    assert(s < 2 * HIDDEN);
    assert(grain() * p >= s * p + p) by (nonlinear_arith)
        requires
            s + 1 <= grain(),
            p > 0,
    ;
}

/// Sums do not depend on the order of what is added.
pub proof fn lemma_add_swaps(a: Double, b: Double)
    requires
        a.finite(),
        b.finite(),
    ensures
        a.add_spec(b) == b.add_spec(a),
{
}

/// Products do not depend on the order of their factors.
pub proof fn lemma_mul_swaps(a: Double, b: Double)
    requires
        a.finite(),
        b.finite(),
    ensures
        a.mul_spec(b) == b.mul_spec(a),
{
    let x = double::scaled(a.mag());
    let y = double::scaled(b.mag());
    assert(x * y == y * x) by (nonlinear_arith);
}

/// A count is a finite number that is not negative.
pub proof fn lemma_count(i: int)
    requires
        0 <= i <= 0xffff_ffff_ffff_ffff,
    ensures
        Double::int_spec(i).finite(),
        Double::int_spec(i).amount() >= 0,
        i > 0 ==> Double::int_spec(i).amount() >= double::unit(),
{
    double::lemma_scaled_zero();
    double::lemma_one();
    let top: nat = 0x43f0_0000_0000_0000;
    lemma2_to64();
    lemma2_to64_rest();
    vstd::arithmetic::power2::lemma_pow2_adds(52, 1086);
    vstd::arithmetic::power2::lemma_pow2_adds(64, 1074);
    assert(double::doublings(top) == 1086);
    assert(double::significand(top) == HIDDEN as nat);
    let u = double::unit();
    let n = i as nat * u;
    assert(double::scaled(top) == pow2(64) * u);
    assert(n <= double::scaled(top) * 1) by (nonlinear_arith)
        requires
            n == i as nat * u,
            i <= 0x1_0000_0000_0000_0000,
            double::scaled(top) == 0x1_0000_0000_0000_0000 * u,
            i >= 0,
    ;
    double::lemma_nearest_at_most(n, 1, top);
    double::lemma_nearest_exists(n, 1);
    if i > 0 {
        let one: nat = 0x3ff0_0000_0000_0000;
        assert(n >= double::scaled(one) * 1) by (nonlinear_arith)
            requires
                n == i as nat * u,
                i >= 1,
                double::scaled(one) == u,
        ;
        double::lemma_nearest_at_least(n, 1, one);
        lemma_at_most(one, double::nearest(n, 1));
    }
}

/// Counts are ordered as whole numbers.
pub proof fn lemma_count_order(i: int, j: int)
    requires
        0 <= i <= j <= 0xffff_ffff_ffff_ffff,
    ensures
        Double::int_spec(i).le_spec(Double::int_spec(j)),
{
    lemma_count(i);
    lemma_count(j);
    let u = double::unit();
    assert((i as nat * u) * 1 <= (j as nat * u) * 1) by (nonlinear_arith)
        requires
            0 <= i <= j,
    ;
    double::lemma_nearest_exists(i as nat * u, 1);
    double::lemma_nearest_exists(j as nat * u, 1);
    lemma_nearest_order(i as nat * u, 1, j as nat * u, 1);
    lemma_at_most(double::nearest(i as nat * u, 1), double::nearest(j as nat * u, 1));
}

/// A number of at least as much as another, over it, is at least one.
pub proof fn lemma_whole_is_not_less(a: Double, b: Double)
    requires
        a.finite(),
        b.finite(),
        0 < b.amount() <= a.amount(),
    ensures
        !a.div_spec(b).nan(),
        a.div_spec(b).amount() >= double::unit(),
        a.amount() == b.amount() ==> a.div_spec(b).amount() == double::unit(),
{
    double::lemma_scaled_zero();
    double::lemma_one();
    let one: nat = 0x3ff0_0000_0000_0000;
    let x = double::scaled(a.mag());
    let y = double::scaled(b.mag());
    let u = double::unit();
    assert(!a.neg() && !b.neg() && 0 < y <= x);
    assert(x * u >= u * y) by (nonlinear_arith)
        requires
            x >= y,
    ;
    double::lemma_nearest_exists(x * u, y);
    double::lemma_nearest_at_least(x * u, y, one);
    lemma_at_most(one, double::nearest(x * u, y));
    if x == y {
        assert(x * u == u * y) by (nonlinear_arith)
            requires
                x == y,
        ;
        double::lemma_nearest_exact(one, y);
    }
}

/// A difference from one has the sign that it should have.
pub proof fn lemma_less_one(q: Double)
    requires
        !q.nan(),
    ensures
        q.sub_spec(Double::int_spec(1)).lt_spec(Double::zero_spec()) <==> q.amount()
            < double::unit(),
        q.amount() == double::unit() ==> q.sub_spec(Double::int_spec(1)).amount() == 0,
        !q.sub_spec(Double::int_spec(1)).nan(),
{
    lemma_one_is_exact();
    double::lemma_scaled_zero();
    let k = Double::int_spec(1).neg_spec();
    let s = q.amount() + k.amount();
    lemma_infinite_is_last(q);
    lemma_pow2_pos(1074);
    let n = size(s) as nat;
    double::lemma_nearest_exists(n, 1);
    if q.finite() && s != 0 {
        double::lemma_step(0);
        assert(double::scaled(1) == 1) by {
            lemma2_to64();
        }
        double::lemma_nearest_at_least(n, 1, 1);
        lemma_at_most(1, double::nearest(n, 1));
    }
    if q.infinite() {
        assert(double::scaled(INFINITE as nat) > double::unit()) by {
            double::lemma_one();
            double::lemma_scaled_increases(0x3ff0_0000_0000_0000, INFINITE as nat);
        }
    }
}

proof fn lemma_whole_magnitude(i: nat, m: nat, j: nat) -> (c: nat)
    requires
        0 < m < grain(),
        j <= 52,
        m == i * pow2(j),
    ensures
        double::scaled(c) == i * double::unit(),
        c < INFINITE,
    decreases grain() - m,
{
    lemma2_to64();
    lemma2_to64_rest();
    let h = HIDDEN as nat;
    if m >= h {
        let e: nat = (1075 - j) as nat;
        let c = (h * e + (m - h)) as nat;
        assert(c / h == e && c % h == m - h) by {
            vstd::arithmetic::div_mod::lemma_fundamental_div_mod_converse(
                c as int,
                h as int,
                e as int,
                m - h,
            );
        }
        assert(double::significand(c) == m && double::doublings(c) == (1074 - j) as nat);
        vstd::arithmetic::power2::lemma_pow2_adds(j, (1074 - j) as nat);
        let a = pow2(j);
        let b = pow2((1074 - j) as nat);
        assert(m * b == i * (a * b)) by (nonlinear_arith)
            requires
                m == i * a,
        ;
        assert(c < INFINITE) by (nonlinear_arith)
            requires
                c == h * e + (m - h),
                h == 0x10_0000_0000_0000,
                m < 0x20_0000_0000_0000,
                e <= 1075,
        ;
        c
    } else {
        assert(j < 52) by {
            if j == 52 {
                assert(i * pow2(52) >= h) by (nonlinear_arith)
                    requires
                        i * pow2(52) > 0,
                        pow2(52) == h,
                ;
            }
        }
        lemma_pow2_unfold(j + 1);
        assert(2 * m == i * pow2(j + 1)) by (nonlinear_arith)
            requires
                m == i * pow2(j),
                pow2(j + 1) == 2 * pow2(j),
        ;
        lemma_whole_magnitude(i, 2 * m, j + 1)
    }
}

/// Whole numbers under 2^53 are exact.
pub proof fn lemma_whole_is_exact(i: int)
    requires
        0 <= i < grain(),
    ensures
        Double::int_spec(i).finite(),
        Double::int_spec(i).amount() == i * double::unit(),
{
    double::lemma_scaled_zero();
    if i > 0 {
        lemma2_to64();
        let n = i as nat;
        let c = lemma_whole_magnitude(n, n, 0);
        assert(double::scaled(c) * 1 == n * double::unit());
        double::lemma_nearest_exact(c, 1);
    } else {
        lemma_nearest_zero(1);
        assert(0 * double::unit() == 0);
    }
}

/// A fraction is off by no more than half a step.
pub proof fn lemma_ratio_error(n: nat, d: nat)
    requires
        0 < d,
        n <= d,
    ensures
        Double::ratio_spec(n, d).finite(),
        0 <= Double::ratio_spec(n, d).amount() <= double::unit(),
        grain() * size(Double::ratio_spec(n, d).amount() * d - n * double::unit()) <= d * (
        Double::ratio_spec(n, d).amount() + least()),
{
    double::lemma_one();
    let one: nat = 0x3ff0_0000_0000_0000;
    let u = double::unit();
    assert(n * u <= u * d) by (nonlinear_arith)
        requires
            n <= d,
    ;
    double::lemma_nearest_exists(n * u, d);
    double::lemma_nearest_at_most(n * u, d, one);
    lemma_at_most(double::nearest(n * u, d), one);
    lemma_nearest_error(n * u, d);
}

/// What is taken a part of does not grow, and shrinks by no more than the part that is left out,
/// but for rounding.
pub proof fn lemma_part_of(t: Double, n: nat, d: nat)
    requires
        t.finite(),
        t.amount() >= 0x100_0000,
        0 < d <= 0x1_0000,
        n <= d,
    ensures
        t.mul_spec(Double::ratio_spec(n, d)).finite(),
        t.mul_spec(Double::ratio_spec(n, d)).le_spec(t),
        0x10_0000 * d * t.mul_spec(Double::ratio_spec(n, d)).amount() >= (0x10_0000 * n - d)
            * t.amount(),
        0x10_0000 * d * t.mul_spec(Double::ratio_spec(n, d)).amount() <= (0x10_0000 * n + d)
            * t.amount(),
{
    let r = Double::ratio_spec(n, d);
    let one = Double::int_spec(1);
    let u = double::unit() as int;
    lemma_ratio_error(n, d);
    lemma_one_is_exact();
    lemma_pow2_pos(1074);
    double::lemma_scaled_zero();
    lemma_mul_order(r, one, t);
    lemma_mul_swaps(r, t);
    lemma_mul_swaps(one, t);
    lemma_times_one(t);
    let q = t.mul_spec(r);
    lemma_infinite_is_last(t);
    double::lemma_nearest_exists(n * double::unit(), d);
    double::lemma_nearest_exists(double::scaled(t.mag()) * double::scaled(r.mag()), double::unit());
    lemma_infinite_is_last(q);
    if q.infinite() {
        assert(q.amount() == double::scaled(INFINITE as nat));
    }
    lemma_mul_error(t, r);
    let a = t.amount();
    let b = r.amount();
    let p = q.amount();
    let k = grain();
    let l = least();
    let e1 = p * u - a * b;
    let e2 = b * d - n * u;
    assert(k * size(e1) <= u * (p + l));
    assert(k * size(e2) <= d * (b + l));
    assert(l <= u) by {
        lemma2_to64();
        lemma2_to64_rest();
        lemma_pow2_strictly_increases(52, 1074);
    }
    assert(p * u * d - a * n * u == e1 * d + a * e2) by (nonlinear_arith)
        requires
            e1 == p * u - a * b,
            e2 == b * d - n * u,
    ;
    let s1 = size(e1);
    let s2 = size(e2);
    assert(k * s1 <= u * (a + l)) by (nonlinear_arith)
        requires
            k * s1 <= u * (p + l),
            p <= a,
            u > 0,
    ;
    assert(k * s2 <= 2 * d * u) by (nonlinear_arith)
        requires
            k * s2 <= d * (b + l),
            b <= u,
            l <= u,
            d > 0,
    ;
    // k * |p u d - a n u| <= d u (a + l) + 2 a d u
    let v = p * u * d - a * n * u;
    assert(size(v) <= s1 * d + a * s2) by (nonlinear_arith)
        requires
            v == e1 * d + a * e2,
            s1 == (if e1 < 0 { -e1 } else { e1 }),
            s2 == (if e2 < 0 { -e2 } else { e2 }),
            size(v) == (if v < 0 { -v } else { v }),
            a >= 0,
            d > 0,
    ;
    assert(k * size(v) <= (k * s1) * d + a * (k * s2)) by (nonlinear_arith)
        requires
            size(v) <= s1 * d + a * s2,
            k > 0,
    ;
    assert((k * s1) * d <= (u * (a + l)) * d) by (nonlinear_arith)
        requires
            k * s1 <= u * (a + l),
            d > 0,
    ;
    assert(a * (k * s2) <= a * (2 * d * u)) by (nonlinear_arith)
        requires
            k * s2 <= 2 * d * u,
            a >= 0,
    ;
    assert((u * (a + l)) * d + a * (2 * d * u) == d * u * (3 * a + l)) by (nonlinear_arith);
    assert(0x10_0000 * (3 * a + l) <= k * a) by {
        assert(l == 0x10_0000_0000_0000 && k == 0x20_0000_0000_0000);
    }
    assert(k * (0x10_0000 * size(v)) <= k * (d * u * a)) by (nonlinear_arith)
        requires
            k * size(v) <= d * u * (3 * a + l),
            0x10_0000 * (3 * a + l) <= k * a,
            d > 0,
            u > 0,
    ;
    assert(0x10_0000 * size(v) <= d * u * a) by (nonlinear_arith)
        requires
            k * (0x10_0000 * size(v)) <= k * (d * u * a),
            k > 0,
    ;
    let w = p * d - a * n;
    assert(v == w * u) by (nonlinear_arith)
        requires
            v == p * u * d - a * n * u,
            w == p * d - a * n,
    ;
    assert(0x10_0000 * w <= d * a && 0x10_0000 * w >= -(d * a)) by (nonlinear_arith)
        requires
            0x10_0000 * size(v) <= d * u * a,
            v == w * u,
            u > 0,
            size(v) == (if v < 0 { -v } else { v }),
    ;
    assert(0x10_0000 * d * p >= (0x10_0000 * n - d) * a) by (nonlinear_arith)
        requires
            w == p * d - a * n,
            0x10_0000 * w >= -(d * a),
    ;
    assert(0x10_0000 * d * p <= (0x10_0000 * n + d) * a) by (nonlinear_arith)
        requires
            w == p * d - a * n,
            0x10_0000 * w <= d * a,
    ;
}

/// A product with a whole number that is not negative grows with it.
pub proof fn lemma_times_grows(a: Double, b: Double, k: Double)
    requires
        a.finite(),
        b.finite(),
        k.finite(),
        0 <= a.amount() <= b.amount(),
        k.amount() >= 0,
    ensures
        k.mul_spec(a).le_spec(k.mul_spec(b)),
{
    lemma_mul_swaps(k, a);
    lemma_mul_swaps(k, b);
    lemma_mul_order(a, b, k);
}

/// Differences are ordered against what is taken away.
pub proof fn lemma_sub_order(a: Double, b: Double, k: Double)
    requires
        a.finite(),
        b.finite(),
        k.finite(),
        a.amount() <= b.amount(),
    ensures
        k.sub_spec(b).le_spec(k.sub_spec(a)),
        a.sub_spec(k).le_spec(b.sub_spec(k)),
{
    let x = a.neg_spec();
    let y = b.neg_spec();
    assert(x.finite() && y.finite() && x.amount() == -a.amount() && y.amount() == -b.amount());
    lemma_add_order(y, x, k);
    lemma_add_swaps(y, k);
    lemma_add_swaps(x, k);
    assert(k.neg_spec().finite());
    lemma_add_order(a, b, k.neg_spec());
}

/// A share of something in the proportion of a part to a whole, cross-multiplied: off by no more
/// than one part in 2^50, or by next to nothing.
pub open spec fn in_proportion(share: Double, all: Double, part: Double, whole: Double) -> bool {
    0x4_0000_0000_0000 * size(
        share.amount() * whole.amount() - all.amount() * part.amount(),
    ) <= all.amount() * part.amount() + 0x4_0000_0000_0000 * (2 * double::unit() + whole.amount())
}

/// A product over a number is in proportion.
pub proof fn lemma_proportion(all: Double, part: Double, whole: Double)
    requires
        all.finite(),
        part.finite(),
        whole.finite(),
        all.amount() >= 0,
        part.amount() >= 0,
        whole.amount() > 0,
        all.mul_spec(part).div_spec(whole).finite(),
    ensures
        in_proportion(all.mul_spec(part).div_spec(whole), all, part, whole),
        all.mul_spec(part).div_spec(whole).amount() >= 0,
{
    double::lemma_scaled_zero();
    let p = all.mul_spec(part);
    let r = p.div_spec(whole);
    double::lemma_nearest_exists(
        double::scaled(all.mag()) * double::scaled(part.mag()),
        double::unit(),
    );
    assert(p.finite());
    lemma_mul_error(all, part);
    lemma_div_error(p, whole);
    let b = all.amount();
    let w = part.amount();
    let t = whole.amount();
    let u = double::unit() as int;
    let x = p.amount();
    let y = r.amount();
    let g = grain();
    let l = least();
    lemma_pow2_pos(1074);
    assert(x >= 0) by {
        lemma_pow2_pos(1074);
        let zero = Double::zero_spec();
        lemma_mul_order(zero, all, part);
        assert(zero.amount() * part.amount() == zero.amount() * double::unit())
            by (nonlinear_arith)
            requires
                zero.amount() == 0,
        ;
        lemma_exact_product(zero, part, zero);
    }
    assert(y >= 0) by {
        let zero = Double::zero_spec();
        lemma_div_order(zero, p, whole);
        lemma_nearest_zero(double::scaled(whole.mag()));
        assert(0 * double::unit() == 0);
    }
    let e1 = size(x * u - b * w);
    let e2 = size(y * t - x * u);
    let v = size(y * t - b * w);
    assert(v <= e1 + e2);
    assert(g * e1 <= u * (x + l));
    assert(g * e2 <= t * (y + l));
    let bw = b * w;
    assert(bw >= 0) by (nonlinear_arith)
        requires
            bw == b * w,
            b >= 0,
            w >= 0,
    ;
    let xu = x * u;
    let yt = y * t;
    assert(u * (x + l) == xu + l * u && t * (y + l) == yt + l * t) by (nonlinear_arith)
        requires
            xu == x * u,
            yt == y * t,
    ;
    assert(g == 0x20_0000_0000_0000 && l == 0x10_0000_0000_0000);
    assert(xu <= 2 * bw + u);
    assert(yt <= 2 * xu + t);
}

/// What is left of a number when another is taken away, where nothing is left of less: never less
/// than nothing nor more than there was, and with what was taken it makes what there was.
pub proof fn lemma_rest(all: Double, taken: Double)
    requires
        all.finite(),
        taken.finite(),
        all.amount() >= 0,
        taken.amount() >= 0,
    ensures
        ({
            let rest = all.sub_spec(taken).max_spec(Double::zero_spec());
            &&& rest.finite()
            &&& rest.amount() >= 0
            &&& rest.le_spec(all)
            &&& taken.amount() == 0 ==> rest.amount() == all.amount()
            &&& all.amount() <= taken.amount() ==> rest.amount() == 0
            &&& all.amount() > taken.amount() ==> grain() * size(
                rest.amount() + taken.amount() - all.amount(),
            ) <= rest.amount() + least()
        }),
{
    let zero = Double::zero_spec();
    double::lemma_scaled_zero();
    let minus = taken.neg_spec();
    let d = all.sub_spec(taken);
    assert(minus.finite() && minus.amount() == -taken.amount());
    lemma_infinite_is_last(all);
    let none = zero.neg_spec();
    lemma_sub_order(zero, taken, all);
    assert(none.finite() && none.amount() == 0);
    lemma_exact_sum(all, none, all);
    lemma_add_order(zero, all, minus);
    lemma_exact_sum(zero, minus, minus);
    lemma_infinite_is_last(d);
    lemma_infinite_is_last(minus);
    assert(d.finite()) by {
        if d.infinite() {
            assert(size(d.amount()) == double::scaled(INFINITE as nat));
        }
    }
    lemma_add_error(all, minus);
    if taken.amount() == 0 {
        lemma_exact_sum(all, minus, all);
    }
    if all.amount() <= taken.amount() {
        lemma_add_order(all, taken, minus);
        lemma_exact_sum(taken, minus, zero);
    } else {
        lemma_add_order(taken, all, minus);
        lemma_exact_sum(taken, minus, zero);
    }
}

/// The exact sum of the first `n` of some numbers.
pub open spec fn exact_sum(xs: Seq<Double>, n: nat) -> int
    decreases n,
{
    if n == 0 {
        0
    } else {
        exact_sum(xs, (n - 1) as nat) + xs[n - 1].amount()
    }
}

/// Whether some numbers are amounts: finite, and not negative.
pub open spec fn are_amounts(xs: Seq<Double>) -> bool {
    forall|i: int| 0 <= i < xs.len() ==> (#[trigger] xs[i]).finite() && xs[i].amount() >= 0
}

/// What lies within a number's size is a number within that size when rounded.
pub proof fn lemma_add_within(a: Double, b: Double, m: Double)
    requires
        a.finite(),
        b.finite(),
        m.finite(),
        size(a.amount() + b.amount()) <= m.amount(),
    ensures
        a.add_spec(b).finite(),
        size(a.add_spec(b).amount()) <= m.amount(),
{
    double::lemma_scaled_zero();
    let s = a.amount() + b.amount();
    let n = size(s) as nat;
    if s != 0 {
        assert(n <= double::scaled(m.mag()) * 1);
        double::lemma_nearest_at_most(n, 1, m.mag());
        lemma_at_most(double::nearest(n, 1), m.mag());
    }
}

/// What rounding lost of a sum, as it is found again.
proof fn lemma_correction(a: Double, b: Double)
    requires
        a.finite(),
        b.finite(),
        a.amount() >= 0,
        b.amount() >= 0,
        a.add_spec(b).finite(),
    ensures
        ({
            let t = a.add_spec(b);
            let d = a.sub_spec(t).add_spec(b);
            &&& t.amount() >= a.amount()
            &&& t.amount() >= b.amount()
            &&& d.finite()
            &&& grain() * size(d.amount()) <= 6 * (t.amount() + least())
        }),
{
    double::lemma_scaled_zero();
    let zero = Double::zero_spec();
    let t = a.add_spec(b);
    lemma_add_error(a, b);
    lemma_add_order(zero, b, a);
    lemma_add_swaps(b, a);
    lemma_exact_sum(zero, a, a);
    lemma_add_order(zero, a, b);
    lemma_exact_sum(zero, b, b);
    let minus = t.neg_spec();
    assert(minus.finite() && minus.amount() == -t.amount());
    let ta = t.amount();
    let aa = a.amount();
    let ba = b.amount();
    assert(size(aa + minus.amount()) <= ta);
    lemma_add_within(a, minus, t);
    let h = a.sub_spec(t);
    lemma_add_error(a, minus);
    lemma_add_order(a, t, minus);
    lemma_exact_sum(t, minus, zero);
    assert(h.amount() <= 0);
    assert(size(h.amount() + ba) <= ta);
    lemma_add_within(h, b, t);
    let d = h.add_spec(b);
    lemma_add_error(h, b);
    lemma_correction_size(ta, aa, ba, h.amount(), d.amount());
}

proof fn lemma_correction_size(ta: int, aa: int, ba: int, h: int, dd: int)
    requires
        ta >= 0,
        grain() * size(ta - (aa + ba)) <= ta + least(),
        grain() * size(h - (aa - ta)) <= size(h) + least(),
        size(h) <= ta,
        grain() * size(dd - (h + ba)) <= size(dd) + least(),
    ensures
        grain() * size(dd) <= 6 * (ta + least()),
{
    let g = grain();
    let l = least();
    let e0 = ta - (aa + ba);
    let e1 = h - (aa - ta);
    let v2 = h + ba;
    assert(v2 == -e0 + e1);
    assert(g * size(v2) <= 2 * (ta + l));
    assert(g * size(dd) <= g * size(v2) + size(dd) + l);
}

/// One more step of a compensated sum.
proof fn lemma_sum_step(s: Double, c: Double, x: Double, n: int)
    requires
        s.finite(),
        c.finite(),
        x.finite(),
        s.amount() >= 0,
        x.amount() >= 0,
        0 <= n <= 0x10_0000,
        s.add_spec(x).finite(),
        grain() * size(c.amount()) <= 8 * n * (s.amount() + least()),
    ensures
        ({
            let t = s.add_spec(x);
            let d = if x.abs_spec().le_spec(s.abs_spec()) {
                s.sub_spec(t).add_spec(x)
            } else {
                x.sub_spec(t).add_spec(s)
            };
            &&& t.amount() >= s.amount()
            &&& t.amount() >= x.amount()
            &&& grain() * size(t.amount() - (s.amount() + x.amount())) <= t.amount() + least()
            &&& c.add_spec(d).finite()
            &&& grain() * size(c.add_spec(d).amount()) <= 8 * (n + 1) * (t.amount() + least())
        }),
{
    let t = s.add_spec(x);
    lemma_add_error(s, x);
    lemma_add_swaps(s, x);
    lemma_correction(s, x);
    lemma_correction(x, s);
    let d = if x.abs_spec().le_spec(s.abs_spec()) {
        s.sub_spec(t).add_spec(x)
    } else {
        x.sub_spec(t).add_spec(s)
    };
    lemma_carry(s, c, t, d, n);
}

/// What is carried of what rounding lost stays small.
proof fn lemma_carry(s: Double, c: Double, t: Double, d: Double, n: int)
    requires
        c.finite(),
        d.finite(),
        t.finite(),
        0 <= s.amount() <= t.amount(),
        0 <= n <= 0x10_0000,
        grain() * size(c.amount()) <= 8 * n * (s.amount() + least()),
        grain() * size(d.amount()) <= 6 * (t.amount() + least()),
    ensures
        c.add_spec(d).finite(),
        grain() * size(c.add_spec(d).amount()) <= 8 * (n + 1) * (t.amount() + least()),
{
    let ta = t.amount();
    let sa = s.amount();
    let g = grain();
    let l = least();
    let dd = d.amount();
    let ca = c.amount();
    let v3 = ca + dd;
    let m = 8 * n * (ta + l);
    assert(8 * n * (sa + l) <= m) by (nonlinear_arith)
        requires
            sa <= ta,
            n >= 0,
            m == 8 * n * (ta + l),
    ;
    assert(g * size(v3) <= m + 6 * (ta + l));
    assert(m <= 0x80_0000 * (ta + l)) by (nonlinear_arith)
        requires
            m == 8 * n * (ta + l),
            n <= 0x10_0000,
            ta + l >= 0,
    ;
    lemma_one_is_exact();
    let one = Double::int_spec(1);
    assert(l <= one.amount()) by {
        lemma2_to64();
        lemma2_to64_rest();
        lemma_pow2_strictly_increases(52, 1074);
    }
    let bound = if ta >= l {
        t
    } else {
        one
    };
    assert(size(v3) <= bound.amount());
    lemma_add_within(c, d, bound);
    lemma_add_error(c, d);
    let cc = c.add_spec(d).amount();
    assert(g * size(cc - v3) <= size(cc) + l);
    lemma_carry_size(ta, v3, cc, m);
    assert(8 * (n + 1) * (ta + l) == m + 8 * (ta + l)) by (nonlinear_arith)
        requires
            m == 8 * n * (ta + l),
    ;
}

proof fn lemma_carry_size(ta: int, v3: int, cc: int, m: int)
    requires
        ta >= 0,
        0 <= m <= 0x80_0000 * (ta + least()),
        grain() * size(v3) <= m + 6 * (ta + least()),
        grain() * size(cc - v3) <= size(cc) + least(),
    ensures
        grain() * size(cc) <= m + 8 * (ta + least()),
{
    let g = grain();
    let l = least();
    assert(g * size(cc) <= g * size(v3) + size(cc) + l);
    assert(size(cc) <= ta + l);
}

/// How far a compensated sum in progress is off.
proof fn lemma_sum_state(xs: Seq<Double>, n: nat)
    requires
        1 <= n <= xs.len(),
        n <= 0x10_0000,
        are_amounts(xs),
        crate::watch::pyfmt::sum_state(xs, n).0.finite(),
    ensures
        ({
            let (s, c) = crate::watch::pyfmt::sum_state(xs, n);
            &&& s.amount() >= 0
            &&& c.finite()
            &&& grain() * size(c.amount()) <= 8 * n * (s.amount() + least())
            &&& grain() * size(s.amount() - exact_sum(xs, n)) <= n * (s.amount() + least())
        }),
    decreases n,
{
    double::lemma_scaled_zero();
    let zero = Double::zero_spec();
    assert(xs[n - 1].finite() && xs[n - 1].amount() >= 0);
    if n == 1 {
        lemma_exact_sum(zero, xs[0], xs[0]);
        assert(exact_sum(xs, 1) == exact_sum(xs, 0) + xs[0].amount());
    } else {
        let (s, c) = crate::watch::pyfmt::sum_state(xs, (n - 1) as nat);
        let x = xs[n - 1];
        lemma_sum_not_nan(xs, (n - 1) as nat);
        assert(s.finite()) by {
            if s.infinite() {
                assert(s.add_spec(x) == s);
            }
        }
        lemma_sum_state(xs, (n - 1) as nat);
        lemma_sum_step(s, c, x, n - 1);
        let t = s.add_spec(x);
        let sa = s.amount();
        let ta = t.amount();
        let e = exact_sum(xs, (n - 1) as nat);
        let g = grain();
        let l = least();
        let k = (n - 1) as int;
        assert(k * (sa + l) <= k * (ta + l)) by (nonlinear_arith)
            requires
                sa <= ta,
                k >= 0,
        ;
        let d1 = size(sa - e);
        let d2 = size(ta - (sa + x.amount()));
        let d = size(ta - (e + x.amount()));
        assert(d <= d1 + d2);
        assert(n * (ta + l) == k * (ta + l) + (ta + l)) by (nonlinear_arith)
            requires
                k == n - 1,
        ;
        assert(g * d <= n * (ta + l)) by (nonlinear_arith)
            requires
                d <= d1 + d2,
                g * d1 <= k * (ta + l),
                g * d2 <= ta + l,
                n * (ta + l) == k * (ta + l) + (ta + l),
                g > 0,
        ;
    }
}

proof fn lemma_sum_not_nan(xs: Seq<Double>, n: nat)
    requires
        1 <= n <= xs.len(),
        are_amounts(xs),
    ensures
        !crate::watch::pyfmt::sum_state(xs, n).0.nan(),
        crate::watch::pyfmt::sum_state(xs, n).0.amount() >= 0,
    decreases n,
{
    double::lemma_scaled_zero();
    let zero = Double::zero_spec();
    assert(xs[n - 1].finite() && xs[n - 1].amount() >= 0);
    if n == 1 {
        lemma_exact_sum(zero, xs[0], xs[0]);
    } else {
        lemma_sum_not_nan(xs, (n - 1) as nat);
        let s = crate::watch::pyfmt::sum_state(xs, (n - 1) as nat).0;
        let x = xs[n - 1];
        lemma_add_order(zero, s, x);
        lemma_exact_sum(zero, x, x);
    }
}

/// The sum of amounts is their sum: off by no more than a few steps for each of them.
pub proof fn law_the_sum_of_amounts_is_their_sum(xs: Seq<Double>)
    requires
        xs.len() <= 0x10_0000,
        are_amounts(xs),
        crate::watch::pyfmt::sum_spec(xs).finite(),
    ensures
        grain() * size(crate::watch::pyfmt::sum_spec(xs).amount() - exact_sum(xs, xs.len())) <= 20
            * xs.len() * (exact_sum(xs, xs.len()) + least()),
{
    double::lemma_scaled_zero();
    let n = xs.len();
    if n > 0 {
        let (s, c) = crate::watch::pyfmt::sum_state(xs, n);
        let r = crate::watch::pyfmt::sum_spec(xs);
        lemma_sum_not_nan(xs, n);
        assert(s.finite()) by {
            if s.infinite() && c.finite() {
                assert(s.add_spec(c) == s);
            }
        }
        lemma_sum_state(xs, n);
        let g = grain();
        let l = least();
        let a = exact_sum(xs, n);
        let sa = s.amount();
        let ca = c.amount();
        let ra = r.amount();
        assert(g == 0x20_0000_0000_0000 && l == 0x10_0000_0000_0000);
        if ca != 0 {
            lemma_add_error(s, c);
        }
        assert(g * size(ra - (sa + ca)) <= size(ra) + l);
        let m = n * (sa + l);
        assert(8 * n * (sa + l) == 8 * m) by (nonlinear_arith)
            requires
                m == n * (sa + l),
        ;
        assert(0 <= m <= 0x10_0000 * (sa + l)) by (nonlinear_arith)
            requires
                m == n * (sa + l),
                0 <= n <= 0x10_0000,
                sa + l >= 0,
        ;
        assert(g * size(sa - a) <= m);
        assert(g * size(ca) <= 8 * m);
        assert(sa <= 2 * a + l);
        assert(g * size(ra - a) <= size(ra) + l + 9 * m);
        let k = n * (a + l);
        assert(m <= 2 * k) by (nonlinear_arith)
            requires
                m == n * (sa + l),
                k == n * (a + l),
                sa <= 2 * a + l,
                n >= 0,
        ;
        assert(a + l <= k) by (nonlinear_arith)
            requires
                k == n * (a + l),
                n >= 1,
                a + l >= 0,
        ;
        assert(k <= 0x10_0000 * (a + l)) by (nonlinear_arith)
            requires
                k == n * (a + l),
                n <= 0x10_0000,
                a + l >= 0,
        ;
        assert(size(ra) <= 2 * a + l);
        assert(20 * n * (a + l) == 20 * k) by (nonlinear_arith)
            requires
                k == n * (a + l),
        ;
    }
}

/// A difference that a number holds is that number.
pub proof fn lemma_exact_difference(a: Double, b: Double, c: Double)
    requires
        a.finite(),
        b.finite(),
        c.finite(),
        a.amount() - b.amount() == c.amount(),
    ensures
        a.sub_spec(b).finite(),
        a.sub_spec(b).amount() == c.amount(),
{
    lemma_exact_sum(a, b.neg_spec(), c);
}

/// A difference is the exact one but for rounding, and has its sign.
pub proof fn lemma_sub_error(a: Double, b: Double)
    requires
        a.finite(),
        b.finite(),
        a.sub_spec(b).finite(),
    ensures
        grain() * size(a.sub_spec(b).amount() - (a.amount() - b.amount())) <= size(
            a.sub_spec(b).amount(),
        ) + least(),
{
    lemma_add_error(a, b.neg_spec());
}

/// A difference has the sign of the exact one.
pub proof fn lemma_sub_sign(a: Double, b: Double)
    requires
        a.finite(),
        b.finite(),
    ensures
        !a.sub_spec(b).nan(),
        a.sub_spec(b).amount() < 0 <==> a.amount() < b.amount(),
        a.sub_spec(b).amount() > 0 <==> a.amount() > b.amount(),
        a.sub_spec(b).amount() == -(b.sub_spec(a).amount()),
{
    crate::double::lemma_scaled_zero();
    let d = a.amount() - b.amount();
    if d != 0 {
        let m: nat = (if d < 0 {
            -d
        } else {
            d
        }) as nat;
        double::lemma_nearest_exists(m, 1);
        double::lemma_step(0);
        vstd::arithmetic::power2::lemma2_to64();
        assert(double::scaled(1) == 1);
        double::lemma_nearest_at_least(m, 1, 1);
        lemma_at_most(1, double::nearest(m, 1));
    }
}

/// Times at least one, a number keeps its sign and does not shrink.
pub proof fn lemma_times_more(x: Double, k: Double)
    requires
        x.finite(),
        k.finite(),
        k.amount() >= double::unit(),
    ensures
        !x.mul_spec(k).nan(),
        x.amount() < 0 ==> x.mul_spec(k).amount() <= x.amount(),
        x.amount() > 0 ==> x.mul_spec(k).amount() >= x.amount(),
        x.amount() == 0 ==> x.mul_spec(k).amount() == 0,
{
    crate::double::lemma_scaled_zero();
    lemma_one_is_exact();
    double::lemma_nearest_exists(double::scaled(x.mag()) * double::scaled(k.mag()), double::unit());
    let y = x.abs_spec();
    lemma_times_one(y);
    lemma_times_grows(Double::int_spec(1), k, y);
    if x.amount() == 0 {
        assert(x.amount() * k.amount() == 0 * double::unit()) by (nonlinear_arith)
            requires
                x.amount() == 0,
        ;
        lemma_exact_product(x, k, Double::zero_spec());
    }
}

/// The change from `b` to `a` in percent is below zero exactly where `a` is below `b`, nothing where
/// they are the same, and grows with `a`.
pub proof fn lemma_change(a: Double, b: Double)
    requires
        a.finite(),
        b.finite(),
        a.amount() >= 0,
        b.amount() > 0,
        a.div_spec(b).finite(),
    ensures
        ({
            let d = a.div_spec(b).sub_spec(Double::int_spec(1));
            let p = d.mul_spec(Double::int_spec(100));
            &&& d.finite()
            &&& !p.nan()
            &&& d.amount() < 0 <==> a.amount() < b.amount()
            &&& p.amount() < 0 <==> a.amount() < b.amount()
            &&& a.amount() == b.amount() ==> d.amount() == 0 && p.amount() == 0
        }),
{
    let q = a.div_spec(b);
    let one = Double::int_spec(1);
    lemma_one_is_exact();
    lemma_whole_is_exact(100);
    crate::double::lemma_scaled_zero();
    vstd::arithmetic::power2::lemma_pow2_pos(1074);
    if a.amount() < b.amount() {
        lemma_part_is_less(a, b);
    } else {
        lemma_whole_is_not_less(a, b);
    }
    let zero = Double::zero_spec();
    lemma_div_order(zero, a, b);
    lemma_nothing_over(b);
    lemma_sub_sign(q, one);
    lemma_less_one(q);
    let m = if q.amount() > double::unit() {
        q
    } else {
        one
    };
    lemma_add_within(q, one.neg_spec(), m);
    let d = q.sub_spec(one);
    assert(100 * double::unit() >= double::unit());
    lemma_times_more(d, Double::int_spec(100));
}

/// Nothing over something is nothing.
pub proof fn lemma_nothing_over(b: Double)
    requires
        b.finite(),
        b.amount() > 0,
    ensures
        Double::zero_spec().div_spec(b).finite(),
        Double::zero_spec().div_spec(b).amount() == 0,
{
    crate::double::lemma_scaled_zero();
    lemma_part_is_less(Double::zero_spec(), b);
    assert(Double::zero_spec().mag() == 0);
    assert(0 * double::unit() == 0);
    lemma_nearest_zero(double::scaled(b.mag()));
}

/// A mean is the exact one but for rounding.
pub proof fn lemma_mean(xs: Seq<Double>)
    requires
        0 < xs.len() <= 0x10_0000,
        are_amounts(xs),
        crate::watch::pyfmt::sum_spec(xs).finite(),
        crate::watch::pyfmt::sum_spec(xs).div_spec(Double::int_spec(xs.len() as int)).finite(),
    ensures
        ({
            let m = crate::watch::pyfmt::sum_spec(xs).div_spec(
                Double::int_spec(xs.len() as int),
            ).amount();
            let e = exact_sum(xs, xs.len());
            grain() * size(m * xs.len() - e) <= xs.len() * (size(m) + 20 * e + 21 * least())
        }),
{
    let n = xs.len() as int;
    let s = crate::watch::pyfmt::sum_spec(xs);
    let k = Double::int_spec(n);
    lemma_whole_is_exact(n);
    let u = double::unit() as int;
    vstd::arithmetic::power2::lemma_pow2_pos(1074);
    assert(n * u > 0) by (nonlinear_arith)
        requires
            n > 0,
            u > 0,
    ;
    law_the_sum_of_amounts_is_their_sum(xs);
    lemma_div_error(s, k);
    let m = s.div_spec(k).amount();
    let e = exact_sum(xs, xs.len());
    let x = m * n - s.amount();
    assert(m * (n * u) - s.amount() * u == x * u) by (nonlinear_arith)
        requires
            x == m * n - s.amount(),
    ;
    assert(size(x * u) == size(x) * u) by (nonlinear_arith)
        requires
            u > 0,
    ;
    let g = grain();
    let c = size(m) + least();
    assert(g * size(x) <= n * c) by (nonlinear_arith)
        requires
            g * (size(x) * u) <= (n * u) * c,
            u > 0,
    ;
    assert(n * (size(m) + 20 * e + 21 * least()) == n * c + 20 * n * (e + least()))
        by (nonlinear_arith)
        requires
            c == size(m) + least(),
    ;
}

/// A part of a whole, in percent: nothing for nothing, a hundred for the whole, and never more.
pub proof fn lemma_percent(part: Double, whole: Double)
    requires
        part.finite(),
        whole.finite(),
        0 <= part.amount() <= whole.amount(),
        whole.amount() > 0,
    ensures
        ({
            let p = part.div_spec(whole).mul_spec(Double::int_spec(100));
            &&& p.finite()
            &&& 0 <= p.amount() <= 100 * double::unit()
            &&& part.amount() == 0 ==> p.amount() == 0
            &&& part.amount() == whole.amount() ==> p.amount() == 100 * double::unit()
        }),
{
    let h = Double::int_spec(100);
    let one = Double::int_spec(1);
    let zero = Double::zero_spec();
    lemma_whole_is_exact(100);
    lemma_one_is_exact();
    crate::double::lemma_scaled_zero();
    vstd::arithmetic::power2::lemma_pow2_pos(1074);
    let q = part.div_spec(whole);
    lemma_div_order(zero, part, whole);
    lemma_nothing_over(whole);
    lemma_whole_is_not_less(whole, whole);
    lemma_div_order(part, whole, whole);
    lemma_infinite_is_last(one);
    let u = double::unit() as int;
    assert(q.finite()) by {
        if q.infinite() {
            assert(q.amount() == double::scaled(double::INFINITE as nat));
        }
    }
    lemma_mul_order(zero, q, h);
    lemma_mul_order(q, one, h);
    assert(u * (100 * u) == (100 * u) * u && 0 * (100 * u) == 0 * u) by (nonlinear_arith);
    lemma_exact_product(one, h, h);
    lemma_exact_product(zero, h, zero);
    lemma_infinite_is_last(h);
    let p = q.mul_spec(h);
    assert(p.finite()) by {
        lemma_infinite_is_last(p);
        if p.infinite() {
            assert(size(p.amount()) == double::scaled(double::INFINITE as nat));
        }
    }
    if part.amount() == 0 {
        lemma_div_order(part, zero, whole);
        assert(q.amount() == 0);
        assert(0 * (100 * u) == 0);
        lemma_exact_product(q, h, zero);
    }
    if part.amount() == whole.amount() {
        assert(q.amount() == u);
        lemma_exact_product(q, h, h);
    }
}

/// A number of cents is the amount rounded to them: not more than half a cent away but for
/// rounding, of the same sign, and an order is kept.
pub proof fn lemma_cents(x: Double)
    requires
        x.finite(),
        x.amount() >= 0,
        crate::watch::pyfmt::round_spec(x, 2).finite(),
    ensures
        ({
            let r = crate::watch::pyfmt::round_spec(x, 2).amount();
            &&& r >= 0
            &&& grain() * (200 * size(r - x.amount()) - double::unit()) <= 200 * (r + least())
            &&& x.amount() == 0 ==> r == 0
        }),
{
    let c = x.mag();
    let n = crate::decimal::num(c);
    let d = crate::decimal::den(c);
    let u = double::unit() as int;
    crate::decimal::lemma_fraction(c);
    double::lemma_scaled_zero();
    lemma_pow2_pos(1074);
    assert(crate::decimal::ten(2) == 100) by {
        reveal_with_fuel(crate::decimal::ten, 3);
    }
    assert(crate::decimal::ten(0) == 1);
    let q = crate::decimal::half_even(n * 100, d);
    assert(q * 1 == q && 1 * 100 == 100);
    let r = double::nearest((q * double::unit()) as nat, 100);
    double::lemma_nearest_exists((q * double::unit()) as nat, 100);
    assert(crate::decimal::raised(q, -2) == q);
    assert(crate::decimal::raised(1, 2) == 100);
    assert(crate::decimal::decimal_mag(q, -2) == r);
    lemma_nearest_error((q * double::unit()) as nat, 100);
    let e = 2 * q * d - 200 * n;
    assert(-d <= e <= d) by {
        let w = (n * 100) / d;
        let m = (n * 100) % d;
        vstd::arithmetic::div_mod::lemma_fundamental_div_mod((n * 100) as int, d as int);
        vstd::arithmetic::div_mod::lemma_mod_bound((n * 100) as int, d as int);
        assert(n * 100 == d * w + m);
        assert(2 * q * d == 2 * (d * w) || 2 * q * d == 2 * (d * w) + 2 * d) by (nonlinear_arith)
            requires
                q == w || q == w + 1,
        ;
        assert(q == w ==> 2 * q * d == 2 * (d * w)) by (nonlinear_arith);
        assert(q == w + 1 ==> 2 * q * d == 2 * (d * w) + 2 * d) by (nonlinear_arith);
    }
    let v = double::scaled(r) as int;
    let a = double::scaled(c) as int;
    // d * (2 q u - 200 a) is e u
    assert(d * (2 * q * u - 200 * a) == e * u) by (nonlinear_arith)
        requires
            e == 2 * q * d - 200 * n,
            n * u == a * d,
    ;
    let w = q * u;
    let f = 2 * w - 200 * a;
    assert(2 * q * u == 2 * w) by (nonlinear_arith)
        requires
            w == q * u,
    ;
    assert(size(f) <= u) by (nonlinear_arith)
        requires
            d * f == e * u,
            -d <= e <= d,
            d > 0,
            u > 0,
            size(f) == (if f < 0 { -f } else { f }),
    ;
    assert(200 * size(v - a) <= 2 * size(v * 100 - w) + size(f)) by {
        assert(2 * (v * 100 - w) + f == 200 * (v - a));
    }
    if x.amount() == 0 {
        assert(c == 0);
        assert(n == 0) by (nonlinear_arith)
            requires
                n * u == 0 * d,
                u > 0,
        ;
        assert(q == 0) by {
            vstd::arithmetic::div_mod::lemma_div_basics_1(d as int);
            vstd::arithmetic::div_mod::lemma_mod_self_0(d as int);
            assert(0int / (d as int) == 0);
            assert(0int % (d as int) == 0) by (nonlinear_arith)
                requires
                    d > 0,
            ;
        }
        assert(0 * u == 0);
        lemma_nearest_zero(100);
    }
}

/// A percentage of one, up to all of it.
proof fn lemma_fraction_of_one(pct: Double)
    requires
        pct.finite(),
        0 <= pct.amount() <= 100 * double::unit(),
    ensures
        ({
            let f = pct.div_spec(Double::int_spec(100));
            let g = Double::int_spec(1).sub_spec(f);
            &&& f.finite() && g.finite()
            &&& 0 <= f.amount() <= double::unit()
            &&& 0 <= g.amount() <= double::unit()
            &&& pct.amount() == 0 ==> g.amount() == double::unit() && f.amount() == 0
            &&& pct.amount() == 100 * double::unit() ==> g.amount() == 0 && f.amount()
                == double::unit()
        }),
{
    let h = Double::int_spec(100);
    let one = Double::int_spec(1);
    let zero = Double::zero_spec();
    lemma_whole_is_exact(100);
    lemma_one_is_exact();
    double::lemma_scaled_zero();
    lemma_pow2_pos(1074);
    let f = pct.div_spec(h);
    lemma_div_order(zero, pct, h);
    lemma_nothing_over(h);
    lemma_whole_is_not_less(h, h);
    lemma_div_order(pct, h, h);
    lemma_infinite_is_last(one);
    assert(f.finite()) by {
        if f.infinite() {
            assert(f.amount() == double::scaled(INFINITE as nat));
        }
    }
    if pct.amount() == 0 {
        lemma_div_order(pct, zero, h);
    }
    if pct.amount() == h.amount() {
        lemma_div_order(h, pct, h);
    }
    lemma_sub_sign(one, f);
    lemma_add_within(one, f.neg_spec(), one);
    if f.amount() == 0 {
        lemma_exact_difference(one, f, one);
    }
    if f.amount() == double::unit() {
        lemma_exact_difference(one, f, zero);
    }
}

/// A price less a percentage: never above it, the price itself less nothing, nothing less all of
/// it.
pub proof fn lemma_discount(x: Double, pct: Double)
    requires
        x.finite(),
        x.amount() >= 0,
        pct.finite(),
        0 <= pct.amount() <= 100 * double::unit(),
    ensures
        ({
            let r = x.mul_spec(
                Double::int_spec(1).sub_spec(pct.div_spec(Double::int_spec(100))),
            );
            &&& r.finite()
            &&& 0 <= r.amount() <= x.amount()
            &&& pct.amount() == 0 ==> r.amount() == x.amount()
            &&& pct.amount() == 100 * double::unit() ==> r.amount() == 0
        }),
{
    let g = Double::int_spec(1).sub_spec(pct.div_spec(Double::int_spec(100)));
    let one = Double::int_spec(1);
    let zero = Double::zero_spec();
    lemma_fraction_of_one(pct);
    lemma_one_is_exact();
    double::lemma_scaled_zero();
    lemma_times_grows(g, one, x);
    lemma_times_one(x);
    lemma_times_grows(zero, g, x);
    assert(x.amount() * 0 == 0 * double::unit());
    lemma_exact_product(x, zero, zero);
    let r = x.mul_spec(g);
    lemma_infinite_is_last(x);
    lemma_infinite_is_last(r);
    assert(r.finite()) by {
        if r.infinite() {
            assert(size(r.amount()) == double::scaled(INFINITE as nat));
        }
    }
    if pct.amount() == 0 {
        assert(x.amount() * g.amount() == x.amount() * double::unit());
        lemma_exact_product(x, g, x);
    }
    if g.amount() == 0 {
        assert(x.amount() * g.amount() == 0 * double::unit()) by (nonlinear_arith)
            requires
                g.amount() == 0,
        ;
        lemma_exact_product(x, g, zero);
    }
}

/// A larger percentage leaves no more of a price.
pub proof fn lemma_discount_order(x: Double, less: Double, more: Double)
    requires
        x.finite(),
        x.amount() >= 0,
        less.finite(),
        more.finite(),
        0 <= less.amount() <= more.amount() <= 100 * double::unit(),
    ensures
        x.mul_spec(
            Double::int_spec(1).sub_spec(more.div_spec(Double::int_spec(100))),
        ).le_spec(
            x.mul_spec(Double::int_spec(1).sub_spec(less.div_spec(Double::int_spec(100)))),
        ),
{
    let h = Double::int_spec(100);
    let one = Double::int_spec(1);
    lemma_whole_is_exact(100);
    lemma_one_is_exact();
    lemma_pow2_pos(1074);
    lemma_fraction_of_one(less);
    lemma_fraction_of_one(more);
    lemma_div_order(less, more, h);
    lemma_sub_order(less.div_spec(h), more.div_spec(h), one);
    lemma_times_grows(one.sub_spec(more.div_spec(h)), one.sub_spec(less.div_spec(h)), x);
}

/// A price plus a percentage: never below it, the price itself plus nothing, and more with more.
pub proof fn lemma_markup(x: Double, less: Double, more: Double)
    requires
        x.finite(),
        x.amount() >= 0,
        less.finite(),
        more.finite(),
        0 <= less.amount() <= more.amount() <= 100 * double::unit(),
    ensures
        ({
            let a = x.mul_spec(
                Double::int_spec(1).add_spec(less.div_spec(Double::int_spec(100))),
            );
            let b = x.mul_spec(
                Double::int_spec(1).add_spec(more.div_spec(Double::int_spec(100))),
            );
            &&& x.le_spec(a)
            &&& a.le_spec(b)
            &&& less.amount() == 0 ==> a.amount() == x.amount()
            &&& more.amount() == 100 * double::unit() ==> b.amount() <= x.mul_spec(
                Double::int_spec(2),
            ).amount() && b.amount() >= x.mul_spec(Double::int_spec(2)).amount()
        }),
{
    let h = Double::int_spec(100);
    let one = Double::int_spec(1);
    let two = Double::int_spec(2);
    let zero = Double::zero_spec();
    lemma_whole_is_exact(100);
    lemma_whole_is_exact(2);
    lemma_one_is_exact();
    double::lemma_scaled_zero();
    lemma_pow2_pos(1074);
    lemma_fraction_of_one(less);
    lemma_fraction_of_one(more);
    let f = less.div_spec(h);
    let g = more.div_spec(h);
    lemma_div_order(less, more, h);
    lemma_add_order(zero, f, one);
    lemma_add_order(f, g, one);
    lemma_add_swaps(f, one);
    lemma_add_swaps(g, one);
    lemma_exact_sum(zero, one, one);
    assert(f.amount() >= 0 && f.amount() <= double::unit());
    assert(two.amount() == 2 * double::unit());
    assert(one.amount() == double::unit());
    lemma_add_within(one, f, two);
    lemma_add_within(one, g, two);
    lemma_times_grows(one, one.add_spec(f), x);
    lemma_times_grows(one.add_spec(f), one.add_spec(g), x);
    lemma_times_one(x);
    if less.amount() == 0 {
        lemma_exact_sum(one, f, one);
        let k = one.add_spec(f);
        assert(x.amount() * k.amount() == x.amount() * double::unit());
        lemma_exact_product(x, k, x);
    }
    if more.amount() == 100 * double::unit() {
        lemma_exact_sum(one, g, two);
        lemma_times_grows(one.add_spec(g), two, x);
        lemma_times_grows(two, one.add_spec(g), x);
    }
}

/// The middle of two amounts is half of both, but for rounding.
pub proof fn lemma_middle(a: Double, b: Double)
    requires
        a.finite(),
        b.finite(),
        a.amount() >= 0,
        b.amount() >= 0,
        a.add_spec(b).finite(),
        a.add_spec(b).div_spec(Double::int_spec(2)).finite(),
    ensures
        ({
            let m = a.add_spec(b).div_spec(Double::int_spec(2)).amount();
            &&& m >= 0
            &&& grain() * size(2 * m - a.amount() - b.amount()) <= 2 * m + 2 * (a.amount()
                + b.amount()) + 8 * least()
        }),
{
    let s = a.add_spec(b);
    let two = Double::int_spec(2);
    let zero = Double::zero_spec();
    let u = double::unit() as int;
    lemma_whole_is_exact(2);
    double::lemma_scaled_zero();
    lemma_pow2_pos(1074);
    lemma_add_error(a, b);
    lemma_div_error(s, two);
    lemma_add_order(zero, a, b);
    lemma_exact_sum(zero, b, b);
    lemma_div_order(zero, s, two);
    lemma_nothing_over(two);
    let m = s.div_spec(two).amount();
    let x = 2 * m - s.amount();
    assert(m * (2 * u) - s.amount() * u == x * u) by (nonlinear_arith)
        requires
            x == 2 * m - s.amount(),
    ;
    assert(size(x * u) == size(x) * u) by (nonlinear_arith)
        requires
            u > 0,
    ;
    let g = grain();
    let c = m + least();
    assert(g * size(x) <= 2 * c) by (nonlinear_arith)
        requires
            g * (size(x) * u) <= (2 * u) * c,
            u > 0,
    ;
}

/// How far one price is below another, in percent: above zero exactly where it is below, nothing
/// where they are the same, all of it for nothing, and more the lower it is.
pub proof fn lemma_depth(price: Double, spot: Double)
    requires
        price.finite(),
        spot.finite(),
        price.amount() >= 0,
        spot.amount() > 0,
        price.div_spec(spot).finite(),
    ensures
        ({
            let d = Double::int_spec(1).sub_spec(price.div_spec(spot)).mul_spec(
                Double::int_spec(100),
            );
            &&& !d.nan()
            &&& d.amount() > 0 <==> price.amount() < spot.amount()
            &&& d.amount() <= 100 * double::unit()
            &&& price.amount() == spot.amount() ==> d.amount() == 0
            &&& price.amount() == 0 ==> d.amount() == 100 * double::unit()
        }),
{
    let q = price.div_spec(spot);
    let one = Double::int_spec(1);
    let h = Double::int_spec(100);
    let zero = Double::zero_spec();
    let u = double::unit() as int;
    lemma_one_is_exact();
    lemma_whole_is_exact(100);
    double::lemma_scaled_zero();
    lemma_pow2_pos(1074);
    lemma_change(price, spot);
    lemma_sub_sign(q, one);
    lemma_nothing_over(spot);
    lemma_div_order(zero, price, spot);
    let x = one.sub_spec(q);
    let m = if q.amount() > u {
        q
    } else {
        one
    };
    lemma_add_within(one, q.neg_spec(), m);
    lemma_times_more(x, h);
    lemma_sub_order(zero, q, one);
    lemma_exact_difference(one, zero, one);
    assert(x.amount() <= u);
    lemma_mul_order(x, one, h);
    assert(u * (100 * u) == (100 * u) * u) by (nonlinear_arith);
    lemma_exact_product(one, h, h);
    if price.amount() == 0 {
        lemma_div_order(price, zero, spot);
        lemma_exact_difference(one, q, one);
        lemma_exact_product(x, h, h);
    }
}

/// The lower of two prices is no less far below.
pub proof fn lemma_depth_order(low: Double, high: Double, spot: Double)
    requires
        low.finite(),
        high.finite(),
        spot.finite(),
        0 <= low.amount() <= high.amount(),
        spot.amount() > 0,
        high.div_spec(spot).finite(),
    ensures
        Double::int_spec(1).sub_spec(high.div_spec(spot)).mul_spec(
            Double::int_spec(100),
        ).le_spec(
            Double::int_spec(1).sub_spec(low.div_spec(spot)).mul_spec(Double::int_spec(100)),
        ),
{
    let one = Double::int_spec(1);
    let h = Double::int_spec(100);
    let zero = Double::zero_spec();
    let a = low.div_spec(spot);
    let b = high.div_spec(spot);
    lemma_one_is_exact();
    lemma_whole_is_exact(100);
    double::lemma_scaled_zero();
    lemma_pow2_pos(1074);
    lemma_div_order(low, high, spot);
    lemma_div_order(zero, low, spot);
    lemma_nothing_over(spot);
    lemma_infinite_is_last(b);
    assert(a.finite()) by {
        if a.infinite() {
            assert(a.amount() == double::scaled(INFINITE as nat));
        }
    }
    lemma_sub_order(a, b, one);
    let m = if b.amount() > one.amount() {
        b
    } else {
        one
    };
    lemma_add_within(one, a.neg_spec(), m);
    lemma_add_within(one, b.neg_spec(), m);
    lemma_mul_order(one.sub_spec(b), one.sub_spec(a), h);
}

/// A quotient that a number holds is that number.
pub proof fn lemma_exact_quotient(a: Double, b: Double, c: Double)
    requires
        a.finite(),
        b.finite(),
        c.finite(),
        a.amount() >= 0,
        b.amount() > 0,
        c.amount() >= 0,
        c.amount() * b.amount() == a.amount() * double::unit(),
    ensures
        a.div_spec(b).finite(),
        a.div_spec(b).amount() == c.amount(),
{
    double::lemma_scaled_zero();
    lemma_pow2_pos(1074);
    if a.amount() == 0 {
        lemma_nothing_over(b);
        lemma_div_order(a, Double::zero_spec(), b);
        lemma_div_order(Double::zero_spec(), a, b);
        lemma_infinite_is_last(c);
        let q = a.div_spec(b);
        if q.infinite() {
            assert(size(q.amount()) == double::scaled(INFINITE as nat));
        }
        let x = c.amount();
        let y = b.amount();
        assert(x == 0) by (nonlinear_arith)
            requires
                x * y == 0 * double::unit(),
                y > 0,
        ;
    } else {
        double::lemma_nearest_exact(c.mag(), double::scaled(b.mag()));
    }
}

/// A number of seconds that makes whole days is those days.
pub proof fn lemma_days(seconds: Double, days: Double)
    requires
        seconds.finite(),
        days.finite(),
        days.amount() >= 0,
        seconds.amount() == 86400 * days.amount(),
    ensures
        seconds.div_spec(Double::int_spec(86400)).finite(),
        seconds.div_spec(Double::int_spec(86400)).amount() == days.amount(),
{
    lemma_whole_is_exact(86400);
    lemma_pow2_pos(1074);
    let d = days.amount();
    let u = double::unit() as int;
    assert(d * (86400 * u) == (86400 * d) * u) by (nonlinear_arith);
    lemma_exact_quotient(seconds, Double::int_spec(86400), days);
}

/// The change from `b` to `a` is the exact one but for rounding: `b` times one and the change is
/// `a`.
pub proof fn lemma_change_error(a: Double, b: Double)
    requires
        a.finite(),
        b.finite(),
        a.amount() >= 0,
        b.amount() > 0,
        a.div_spec(b).sub_spec(Double::int_spec(1)).finite(),
    ensures
        ({
            let d = a.div_spec(b).sub_spec(Double::int_spec(1)).amount();
            let u = double::unit() as int;
            grain() * size((u + d) * b.amount() - a.amount() * u) <= b.amount() * (3 * size(d) + 2
                * u)
        }),
{
    let q = a.div_spec(b);
    let one = Double::int_spec(1);
    let g = q.sub_spec(one);
    double::lemma_scaled_zero();
    lemma_one_is_exact();
    if a.amount() < b.amount() {
        lemma_part_is_less(a, b);
    } else {
        lemma_whole_is_not_less(a, b);
    }
    lemma_less_one(q);
    lemma_div_error(a, b);
    lemma_add_error(q, one.neg_spec());
    let u = double::unit() as int;
    let s = b.amount();
    let p = a.amount();
    let gq = g.amount();
    let qq = q.amount();
    let k = grain();
    let l = least();
    lemma_pow2_pos(1074);
    assert(3 * l <= u) by {
        lemma2_to64();
        lemma2_to64_rest();
        lemma_pow2_strictly_increases(54, 1074);
    }
    let e1 = gq - (qq - u);
    let e2 = qq * s - p * u;
    assert(k * size(e1) <= size(gq) + l);
    assert(k * size(e2) <= s * (qq + l)) by {
        assert(qq >= 0);
    }
    assert(qq <= 2 * size(gq) + l + u) by {
        assert(size(e1) <= size(gq) + l) by (nonlinear_arith)
            requires
                k * size(e1) <= size(gq) + l,
                k >= 1,
                size(e1) >= 0,
        ;
    }
    let v = (u + gq) * s - p * u;
    assert(v == e1 * s + e2) by (nonlinear_arith)
        requires
            v == (u + gq) * s - p * u,
            e1 == gq - (qq - u),
            e2 == qq * s - p * u,
    ;
    assert(size(e1 * s) == size(e1) * s) by (nonlinear_arith)
        requires
            s > 0,
            size(e1) == (if e1 < 0 { -e1 } else { e1 }),
            size(e1 * s) == (if e1 * s < 0 { -(e1 * s) } else { e1 * s }),
    ;
    assert(size(v) <= size(e1) * s + size(e2));
    assert(k * size(v) <= s * (3 * size(gq) + 2 * u)) by (nonlinear_arith)
        requires
            size(v) <= size(e1) * s + size(e2),
            k * size(e1) <= size(gq) + l,
            k * size(e2) <= s * (qq + l),
            qq <= 2 * size(gq) + l + u,
            3 * l <= u,
            k > 0,
            s > 0,
    ;
}

/// The largest whole number that is not above an amount.
pub proof fn lemma_floor(x: Double)
    requires
        x.finite(),
        0 <= x.amount() < grain() * double::unit(),
    ensures
        x.floor_spec().finite(),
        x.floor_spec().amount() == (x.amount() / double::unit() as int) * double::unit(),
        x.floor_spec().amount() <= x.amount() < x.floor_spec().amount() + double::unit(),
{
    let u = double::unit() as int;
    let s = double::scaled(x.mag());
    double::lemma_scaled_zero();
    lemma_pow2_pos(1074);
    let a = x.amount();
    let w = a / u;
    vstd::arithmetic::div_mod::lemma_fundamental_div_mod(a, u);
    vstd::arithmetic::div_mod::lemma_mod_bound(a, u);
    assert(a == u * w + a % u);
    assert(u * w == w * u) by (nonlinear_arith);
    assert(0 <= w < grain()) by (nonlinear_arith)
        requires
            a == u * w + a % u,
            0 <= a % u < u,
            0 <= a < grain() * u,
            u > 0,
    ;
    lemma_whole_is_exact(w);
    if x.neg() {
        assert(s == 0);
        assert(w == 0) by (nonlinear_arith)
            requires
                0 == u * w + a % u,
                0 <= a % u < u,
                w >= 0,
                u > 0,
        ;
        assert(0nat % double::unit() == 0 && 0nat / double::unit() == 0) by {
            vstd::arithmetic::div_mod::lemma_small_mod(0, double::unit());
            vstd::arithmetic::div_mod::lemma_div_basics_1(u);
        }
        assert(0 * double::unit() == 0);
        lemma_nearest_zero(1);
    } else {
        assert(s / double::unit() == w);
    }
}

/// Whole seconds over the length of a slot, cut off: the number of the slot.
pub proof fn lemma_slots(ts: Double, n: nat, d: nat)
    requires
        ts.finite(),
        ts.amount() == n * double::unit(),
        n < 0x100_0000_0000,
        0 < d <= 4096,
    ensures
        ts.div_spec(Double::int_spec(d as int)).floor_spec().finite(),
        ts.div_spec(Double::int_spec(d as int)).floor_spec().amount() == (n / d) * double::unit(),
{
    let u = double::unit() as int;
    let k = Double::int_spec(d as int);
    let zero = Double::zero_spec();
    double::lemma_scaled_zero();
    lemma_pow2_pos(1074);
    lemma_whole_is_exact(d as int);
    let w = (n / d) as int;
    vstd::arithmetic::div_mod::lemma_fundamental_div_mod(n as int, d as int);
    vstd::arithmetic::div_mod::lemma_mod_bound(n as int, d as int);
    assert(d * w <= n < d * w + d);
    assert(w <= n) by (nonlinear_arith)
        requires
            d * w <= n,
            d >= 1,
            w >= 0,
    ;
    assert(d * u > 0) by (nonlinear_arith)
        requires
            d > 0,
            u > 0,
    ;
    // the slot's own start divides exactly
    let start = Double::int_spec(d * w);
    lemma_whole_is_exact(d * w);
    lemma_whole_is_exact(w);
    assert((w * u) * (d * u) == ((d * w) * u) * u) by (nonlinear_arith);
    assert((d * w) * u >= 0 && w * u >= 0) by (nonlinear_arith)
        requires
            w >= 0,
            u > 0,
    ;
    assert((d * w) * u <= n * u) by (nonlinear_arith)
        requires
            d * w <= n,
            u > 0,
    ;
    lemma_exact_quotient(start, k, Double::int_spec(w));
    lemma_div_order(start, ts, k);
    let q = ts.div_spec(k);
    // and so does the end of the last one
    let far = Double::int_spec(n as int);
    lemma_whole_is_exact(n as int);
    lemma_whole_is_exact(1);
    assert(0 <= d * n < grain()) by (nonlinear_arith)
        requires
            0 <= n < 0x100_0000_0000,
            0 < d <= 4096,
            grain() == 0x20_0000_0000_0000,
    ;
    let top = Double::int_spec((d * n) as int);
    lemma_whole_is_exact((d * n) as int);
    assert(n * u <= (d * n) * u) by (nonlinear_arith)
        requires
            d >= 1,
            n >= 0,
            u > 0,
    ;
    assert((n * u) * (d * u) == ((d * n) * u) * u) by (nonlinear_arith);
    assert(n * u >= 0 && (d * n) * u >= 0) by (nonlinear_arith)
        requires
            n >= 0,
            d >= 0,
            u > 0,
    ;
    lemma_exact_quotient(top, k, far);
    lemma_div_order(ts, top, k);
    lemma_infinite_is_last(far);
    assert(q.finite()) by {
        if q.infinite() {
            assert(size(q.amount()) == double::scaled(INFINITE as nat));
        }
    }
    let a = q.amount();
    lemma_div_error(ts, k);
    let e = a * (d * u) - (n * u) * u;
    let f = a * d - n * u;
    assert(e == f * u) by (nonlinear_arith)
        requires
            e == a * (d * u) - (n * u) * u,
            f == a * d - n * u,
    ;
    let l = least();
    let g = grain();
    assert(g * f <= d * (a + l)) by (nonlinear_arith)
        requires
            g * size(e) <= (d * u) * (a + l),
            e == f * u,
            size(e) >= e,
            u > 0,
            g > 0,
    ;
    assert(l <= u) by {
        lemma2_to64();
        lemma2_to64_rest();
        lemma_pow2_strictly_increases(52, 1074);
    }
    assert(a * d < n * u + u) by (nonlinear_arith)
        requires
            g * f <= d * (a + l),
            f == a * d - n * u,
            a <= n * u,
            l <= u,
            0 <= n < 0x100_0000_0000,
            0 < d <= 4096,
            u > 0,
            g == 0x20_0000_0000_0000,
    ;
    assert(a < (w + 1) * u) by (nonlinear_arith)
        requires
            a * d < n * u + u,
            n < d * w + d,
            d > 0,
            u > 0,
    ;
    assert((w + 1) * u == w * u + u) by (nonlinear_arith);
    assert((w + 1) * u <= g * u) by (nonlinear_arith)
        requires
            w + 1 <= g,
            u > 0,
    ;
    lemma_floor(q);
    let c = a / u;
    assert(a / u == w) by {
        vstd::arithmetic::div_mod::lemma_fundamental_div_mod(a, u);
        vstd::arithmetic::div_mod::lemma_mod_bound(a, u);
        assert(u * c == c * u) by (nonlinear_arith);
        assert(c == w) by (nonlinear_arith)
            requires
                c * u <= a < c * u + u,
                w * u <= a < w * u + u,
                u > 0,
        ;
    }
}

/// An amount in whole steps is less than a step below it, but for rounding.
pub proof fn lemma_whole_steps(x: Double, step: Double)
    requires
        x.finite(),
        step.finite(),
        x.amount() >= 0,
        step.amount() > 0,
        x.div_spec(step).finite(),
        0 <= x.div_spec(step).amount() < grain() * double::unit(),
        x.div_spec(step).floor_spec().mul_spec(step).finite(),
    ensures
        ({
            let r = x.div_spec(step).floor_spec().mul_spec(step).amount();
            &&& r >= 0
            &&& grain() * (x.amount() - r - step.amount()) <= 2 * x.amount() + 2 * step.amount() + r
                + least()
        }),
{
    let q = x.div_spec(step);
    let k = q.floor_spec();
    let u = double::unit() as int;
    let zero = Double::zero_spec();
    double::lemma_scaled_zero();
    lemma_pow2_pos(1074);
    lemma_div_error(x, step);
    lemma_floor(q);
    lemma_mul_error(k, step);
    let m = q.amount();
    let f = k.amount();
    let st = step.amount();
    let a = x.amount();
    let w = m / u;
    assert(f >= 0) by (nonlinear_arith)
        requires
            f == w * u,
            m < f + u,
            m >= 0,
            u > 0,
    ;
    lemma_mul_order(zero, k, step);
    assert(0 * st == 0 * u) by (nonlinear_arith);
    lemma_exact_product(zero, step, zero);
    let r = k.mul_spec(step).amount();
    let g = grain();
    let l = least();
    assert(l <= u) by {
        lemma2_to64();
        lemma2_to64_rest();
        lemma_pow2_strictly_increases(52, 1074);
    }
    let e1 = m * st - a * u;
    let e2 = r * u - f * st;
    let s1 = size(e1);
    let s2 = size(e2);
    assert(g * s1 <= st * (m + l));
    assert(g * s2 <= u * (r + l));
    assert(f * st >= m * st - u * st) by (nonlinear_arith)
        requires
            m < f + u,
            st > 0,
    ;
    let gap = a - r - st;
    assert(gap * u <= s1 + s2) by (nonlinear_arith)
        requires
            gap == a - r - st,
            e1 == m * st - a * u,
            e2 == r * u - f * st,
            s1 >= -e1,
            s2 >= -e2,
            f * st >= m * st - u * st,
    ;
    assert(g * (gap * u) <= st * (m + l) + u * (r + l)) by (nonlinear_arith)
        requires
            gap * u <= s1 + s2,
            g * s1 <= st * (m + l),
            g * s2 <= u * (r + l),
            g > 0,
    ;
    let p = m * st;
    assert(st * (m + l) == p + st * l) by (nonlinear_arith)
        requires
            p == m * st,
    ;
    assert(st * l <= st * u) by (nonlinear_arith)
        requires
            l <= u,
            st > 0,
    ;
    assert(p <= 2 * (a * u) + st * u) by (nonlinear_arith)
        requires
            g * s1 <= p + st * l,
            s1 >= e1,
            e1 == p - a * u,
            g == 0x20_0000_0000_0000,
            st * l <= st * u,
            a * u >= 0,
            st * u >= 0,
    {
        assert(g * e1 <= p + st * u);
    }
    assert(g * gap <= 2 * a + 2 * st + r + l) by (nonlinear_arith)
        requires
            g * (gap * u) <= p + st * l + u * (r + l),
            p <= 2 * (a * u) + st * u,
            st * l <= st * u,
            u > 0,
    ;
}

/// A whole number of units is that whole number.
pub proof fn lemma_whole_of(x: Double, k: int)
    requires
        x.finite(),
        k >= 0,
        x.amount() == k * double::unit(),
    ensures
        x.whole() == k,
{
    let u = double::unit() as int;
    double::lemma_scaled_zero();
    lemma_pow2_pos(1074);
    let s = double::scaled(x.mag()) as int;
    assert(k * u >= 0) by (nonlinear_arith)
        requires
            k >= 0,
            u > 0,
    ;
    assert(s == k * u);
    vstd::arithmetic::div_mod::lemma_div_multiples_vanish(k, u);
    assert(u * k == k * u) by (nonlinear_arith);
    assert(s / u == k);
    if x.neg() {
        assert(s == 0);
        assert(k == 0) by (nonlinear_arith)
            requires
                k * u == 0,
                u > 0,
        ;
    }
}

/// An amount in whole parts, of which `f` make one, is less than a part below it, but for rounding.
pub proof fn lemma_whole_parts(x: Double, f: Double)
    requires
        x.finite(),
        f.finite(),
        x.amount() >= 0,
        f.amount() > 0,
        x.mul_spec(f).finite(),
        0 <= x.mul_spec(f).amount() < grain() * double::unit(),
        x.mul_spec(f).floor_spec().div_spec(f).finite(),
    ensures
        ({
            let r = x.mul_spec(f).floor_spec().div_spec(f).amount();
            let u = double::unit() as int;
            let k = f.amount();
            &&& r >= 0
            &&& grain() * ((x.amount() - r) * k - u * u) <= 2 * (x.amount() * k) + k * r + k
                * least() + 2 * (u * least())
        }),
{
    let q = x.mul_spec(f);
    let w = q.floor_spec();
    let u = double::unit() as int;
    let zero = Double::zero_spec();
    double::lemma_scaled_zero();
    lemma_pow2_pos(1074);
    lemma_mul_error(x, f);
    lemma_floor(q);
    lemma_div_error(w, f);
    let m = q.amount();
    let h = w.amount();
    let k = f.amount();
    let a = x.amount();
    let c = m / u;
    assert(h >= 0) by (nonlinear_arith)
        requires
            h == c * u,
            m < h + u,
            m >= 0,
            u > 0,
    ;
    lemma_div_order(zero, w, f);
    lemma_nothing_over(f);
    let r = w.div_spec(f).amount();
    let g = grain();
    let l = least();
    let e1 = m * u - a * k;
    let e2 = r * k - h * u;
    let s1 = size(e1);
    let s2 = size(e2);
    assert(g * s1 <= u * (m + l));
    assert(g * s2 <= k * (r + l));
    assert(h * u >= m * u - u * u) by (nonlinear_arith)
        requires
            m < h + u,
            u > 0,
    ;
    let ak = a * k;
    let rk = r * k;
    let uu = u * u;
    let mu = m * u;
    assert(ak - rk - uu <= s1 + s2);
    assert((a - r) * k == ak - rk) by (nonlinear_arith)
        requires
            ak == a * k,
            rk == r * k,
    ;
    assert(u * (m + l) == mu + u * l) by (nonlinear_arith)
        requires
            mu == m * u,
    ;
    assert(k * (r + l) == k * r + k * l) by (nonlinear_arith);
    assert(ak >= 0 && u * l >= 0) by (nonlinear_arith)
        requires
            ak == a * k,
            a >= 0,
            k > 0,
            u > 0,
            l > 0,
    ;
    let ul = u * l;
    assert(mu <= 2 * ak + ul) by {
        assert(g * e1 <= mu + ul) by (nonlinear_arith)
            requires
                g * s1 <= mu + ul,
                e1 <= s1,
                g > 0,
        ;
    }
}

/// A fraction of up to two is off by no more than half a step.
pub proof fn lemma_over_ratio(n: nat, d: nat)
    requires
        0 < d,
        n <= 2 * d,
    ensures
        Double::ratio_spec(n, d).finite(),
        0 <= Double::ratio_spec(n, d).amount() <= 2 * double::unit(),
        grain() * size(Double::ratio_spec(n, d).amount() * d - n * double::unit()) <= d * (
        Double::ratio_spec(n, d).amount() + least()),
{
    let two = Double::int_spec(2);
    let u = double::unit();
    lemma_whole_is_exact(2);
    double::lemma_scaled_zero();
    lemma_pow2_pos(1074);
    lemma_infinite_is_last(two);
    let c = two.mag();
    assert(double::scaled(c) == 2 * u);
    assert(n * u <= (2 * u) * d) by (nonlinear_arith)
        requires
            n <= 2 * d,
    ;
    double::lemma_nearest_exists(n * u, d);
    double::lemma_nearest_at_most(n * u, d, c);
    lemma_at_most(double::nearest(n * u, d), c);
    lemma_nearest_error(n * u, d);
}

/// What is taken a little more than the whole of grows by that, but for rounding.
pub proof fn lemma_over_part(t: Double, n: nat, d: nat)
    requires
        t.finite(),
        t.amount() >= 0x100_0000,
        0 < d <= 0x1_0000,
        n <= 2 * d,
        t.mul_spec(Double::ratio_spec(n, d)).finite(),
    ensures
        0x10_0000 * d * t.mul_spec(Double::ratio_spec(n, d)).amount() >= (0x10_0000 * n - d)
            * t.amount(),
        0x10_0000 * d * t.mul_spec(Double::ratio_spec(n, d)).amount() <= (0x10_0000 * n + d)
            * t.amount(),
{
    let r = Double::ratio_spec(n, d);
    let u = double::unit() as int;
    lemma_over_ratio(n, d);
    lemma_pow2_pos(1074);
    double::lemma_scaled_zero();
    lemma_mul_error(t, r);
    let q = t.mul_spec(r);
    let a = t.amount();
    let b = r.amount();
    let p = q.amount();
    let zero = Double::zero_spec();
    lemma_times_grows(zero, r, t);
    assert(a * 0 == 0 * u);
    lemma_exact_product(t, zero, zero);
    let k = grain();
    let l = least();
    let e1 = p * u - a * b;
    let e2 = b * d - n * u;
    let s1 = size(e1);
    let s2 = size(e2);
    assert(k * s1 <= u * (p + l));
    assert(k * s2 <= d * (b + l));
    assert(l <= u) by {
        lemma2_to64();
        lemma2_to64_rest();
        lemma_pow2_strictly_increases(52, 1074);
    }
    let ab = a * b;
    assert(ab <= 2 * (a * u)) by (nonlinear_arith)
        requires
            ab == a * b,
            b <= 2 * u,
            a >= 0,
    ;
    assert(p <= 4 * a + l) by (nonlinear_arith)
        requires
            k * s1 <= u * (p + l),
            s1 >= p * u - ab,
            s1 >= 0,
            ab <= 2 * (a * u),
            k == 0x20_0000_0000_0000,
            p >= 0,
            a >= 0,
            l >= 0,
            u > 0,
    {
        assert(2 * s1 <= k * s1);
        assert(2 * (p * u) - 4 * (a * u) <= u * (p + l));
        assert(u * (p + l) == p * u + u * l);
        assert(p * u <= (4 * a + l) * u);
    }
    assert(p * u * d - a * n * u == e1 * d + a * e2) by (nonlinear_arith)
        requires
            e1 == p * u - a * b,
            e2 == b * d - n * u,
    ;
    assert(k * s1 <= u * (4 * a + 2 * l)) by (nonlinear_arith)
        requires
            k * s1 <= u * (p + l),
            p <= 4 * a + l,
            u > 0,
    ;
    assert(k * s2 <= 3 * d * u) by (nonlinear_arith)
        requires
            k * s2 <= d * (b + l),
            b <= 2 * u,
            l <= u,
            d > 0,
    ;
    let v = p * u * d - a * n * u;
    assert(size(v) <= s1 * d + a * s2) by (nonlinear_arith)
        requires
            v == e1 * d + a * e2,
            s1 == (if e1 < 0 { -e1 } else { e1 }),
            s2 == (if e2 < 0 { -e2 } else { e2 }),
            size(v) == (if v < 0 { -v } else { v }),
            a >= 0,
            d > 0,
    ;
    assert(k * size(v) <= (k * s1) * d + a * (k * s2)) by (nonlinear_arith)
        requires
            size(v) <= s1 * d + a * s2,
            k > 0,
    ;
    assert((k * s1) * d <= (u * (4 * a + 2 * l)) * d) by (nonlinear_arith)
        requires
            k * s1 <= u * (4 * a + 2 * l),
            d > 0,
    ;
    assert(a * (k * s2) <= a * (3 * d * u)) by (nonlinear_arith)
        requires
            k * s2 <= 3 * d * u,
            a >= 0,
    ;
    assert((u * (4 * a + 2 * l)) * d + a * (3 * d * u) == d * u * (7 * a + 2 * l))
        by (nonlinear_arith);
    assert(0x10_0000 * (7 * a + 2 * l) <= k * a) by {
        assert(l == 0x10_0000_0000_0000 && k == 0x20_0000_0000_0000);
    }
    let du = d * u;
    assert(du > 0) by (nonlinear_arith)
        requires
            du == d * u,
            d > 0,
            u > 0,
    ;
    assert(k * (0x10_0000 * size(v)) <= k * (du * a)) by (nonlinear_arith)
        requires
            k * size(v) <= du * (7 * a + 2 * l),
            0x10_0000 * (7 * a + 2 * l) <= k * a,
            du > 0,
    ;
    assert(0x10_0000 * size(v) <= du * a) by (nonlinear_arith)
        requires
            k * (0x10_0000 * size(v)) <= k * (du * a),
            k > 0,
    ;
    let x = p * d - a * n;
    assert(v == x * u) by (nonlinear_arith)
        requires
            v == p * u * d - a * n * u,
            x == p * d - a * n,
    ;
    assert(-(d * a) <= 0x10_0000 * x <= d * a) by (nonlinear_arith)
        requires
            0x10_0000 * size(v) <= du * a,
            v == x * u,
            size(v) >= v,
            size(v) >= -v,
            du == d * u,
            u > 0,
    ;
    assert(0x10_0000 * d * p - 0x10_0000 * n * a == 0x10_0000 * x) by (nonlinear_arith)
        requires
            x == p * d - a * n,
    ;
    assert((0x10_0000 * n - d) * a == 0x10_0000 * n * a - d * a) by (nonlinear_arith);
    assert((0x10_0000 * n + d) * a == 0x10_0000 * n * a + d * a) by (nonlinear_arith);
}

} // verus!
