//! Natural numbers of any size, held as 32-bit limbs, least significant first.
use vstd::arithmetic::div_mod::*;
use vstd::arithmetic::mul::*;
use vstd::arithmetic::power2::*;
use vstd::prelude::*;

verus! {

/// One more than the largest limb.
pub const LIMB: u64 = 0x1_0000_0000;

/// What one unit of limb `i` is worth.
pub open spec fn weight(i: nat) -> nat {
    pow2(32 * i)
}

/// The value of the first `n` limbs.
pub open spec fn prefix(s: Seq<u32>, n: nat) -> nat
    decreases n,
{
    if n == 0 {
        0
    } else {
        prefix(s, (n - 1) as nat) + (s[n - 1] as nat) * weight((n - 1) as nat)
    }
}

/// The value of the limbs from `i` up, in units of limb `i`.
pub open spec fn upper(s: Seq<u32>, i: nat) -> nat
    decreases s.len() - i,
{
    if i >= s.len() {
        0
    } else {
        s[i as int] as nat + LIMB as nat * upper(s, i + 1)
    }
}

/// A natural number.
pub struct Big {
    pub limbs: Vec<u32>,
}

impl View for Big {
    type V = nat;

    open spec fn view(&self) -> nat {
        prefix(self.limbs@, self.limbs@.len())
    }
}

spec fn limb(s: Seq<u32>, i: nat) -> nat {
    if i < s.len() {
        s[i as int] as nat
    } else {
        0
    }
}

spec fn padded(s: Seq<u32>, i: nat) -> nat {
    if i <= s.len() {
        prefix(s, i)
    } else {
        prefix(s, s.len())
    }
}

proof fn lemma_weight(i: nat)
    ensures
        weight(0) == 1,
        weight(i) > 0,
        weight(i + 1) == weight(i) * LIMB,
{
    lemma2_to64();
    lemma_pow2_pos(32 * i);
    lemma_pow2_adds(32 * i, 32);
    assert(32 * (i + 1) == 32 * i + 32);
}

proof fn lemma_prefix_agree(a: Seq<u32>, b: Seq<u32>, n: nat)
    requires
        n <= a.len(),
        n <= b.len(),
        forall|i: int| 0 <= i < n ==> a[i] == b[i],
    ensures
        prefix(a, n) == prefix(b, n),
    decreases n,
{
    if n > 0 {
        lemma_prefix_agree(a, b, (n - 1) as nat);
    }
}

proof fn lemma_prefix_push(s: Seq<u32>, x: u32)
    ensures
        prefix(s.push(x), s.len() + 1) == prefix(s, s.len()) + x as nat * weight(s.len()),
{
    lemma_prefix_agree(s.push(x), s, s.len());
    assert((s.len() + 1 - 1) as nat == s.len());
}

proof fn lemma_prefix_bound(s: Seq<u32>, n: nat)
    requires
        n <= s.len(),
    ensures
        prefix(s, n) < weight(n),
    decreases n,
{
    lemma_weight(0);
    if n > 0 {
        let m = (n - 1) as nat;
        lemma_prefix_bound(s, m);
        lemma_weight(m);
        let x = s[n - 1] as nat;
        let w = weight(m);
        assert(x * w + w <= w * LIMB) by (nonlinear_arith)
            requires
                x + 1 <= LIMB,
                w > 0,
        ;
    }
}

proof fn lemma_padded_step(s: Seq<u32>, i: nat)
    ensures
        padded(s, i + 1) == padded(s, i) + limb(s, i) * weight(i),
        limb(s, i) < LIMB,
        padded(s, 0) == 0,
{
    assert((i + 1 - 1) as nat == i);
}

proof fn lemma_padded_bound(s: Seq<u32>, n: nat)
    ensures
        padded(s, n) < weight(n),
    decreases n,
{
    if n <= s.len() {
        lemma_prefix_bound(s, n);
    } else {
        lemma_padded_bound(s, (n - 1) as nat);
        lemma_weight((n - 1) as nat);
        let w = weight((n - 1) as nat);
        assert(w <= w * LIMB) by (nonlinear_arith)
            requires
                w > 0,
        ;
    }
}

proof fn lemma_upper(s: Seq<u32>, i: nat)
    requires
        i <= s.len(),
    ensures
        prefix(s, i) + upper(s, i) * weight(i) == prefix(s, s.len()),
    decreases s.len() - i,
{
    if i < s.len() {
        lemma_upper(s, i + 1);
        lemma_weight(i);
        let x = s[i as int] as nat;
        let u = upper(s, i + 1);
        let w = weight(i);
        assert((x + LIMB as nat * u) * w == x * w + u * (w * LIMB)) by (nonlinear_arith);
        assert((i + 1 - 1) as nat == i);
    } else {
        assert(0 * weight(i) == 0);
    }
}

/// The value is its limbs read from the lowest up.
proof fn lemma_view_upper(s: Seq<u32>)
    ensures
        prefix(s, s.len()) == upper(s, 0),
{
    lemma_upper(s, 0);
    lemma_weight(0);
}

proof fn lemma_carry(w: nat, sum: nat, lo: nat, hi: nat)
    requires
        sum == lo + hi * LIMB,
    ensures
        sum * w == lo * w + hi * (w * LIMB),
{
    assert((lo + hi * LIMB) * w == lo * w + hi * (w * LIMB)) by (nonlinear_arith);
}

/// Powers of two that fit a limb.
fn two_to(k: u32) -> (p: u32)
    requires
        k < 32,
    ensures
        p == pow2(k as nat),
{
    proof {
        lemma2_to64();
    }
    let mut p: u32 = 1;
    let mut i: u32 = 0;
    while i < k
        invariant
            i <= k < 32,
            p == pow2(i as nat),
        decreases k - i,
    {
        proof {
            lemma_pow2_unfold((i + 1) as nat);
            lemma_pow2_strictly_increases((i + 1) as nat, 32);
            lemma2_to64();
        }
        p = p * 2;
        i = i + 1;
    }
    p
}

impl Big {
    /// `x` as a natural number.
    pub fn of(x: u64) -> (r: Big)
        ensures
            r@ == x,
    {
        let lo: u32 = (x % LIMB) as u32;
        let hi: u32 = (x / LIMB) as u32;
        let mut limbs: Vec<u32> = Vec::new();
        limbs.push(lo);
        limbs.push(hi);
        proof {
            lemma_weight(0);
            reveal_with_fuel(prefix, 3);
            let w = weight(1);
            assert(hi * w == hi * LIMB) by (nonlinear_arith)
                requires
                    w == LIMB,
            ;
        }
        Big { limbs }
    }

    /// A copy of this number.
    pub fn copy(&self) -> (r: Big)
        ensures
            r@ == self@,
    {
        let limbs = self.limbs.clone();
        assert(limbs@ =~= self.limbs@);
        Big { limbs }
    }

    fn at(&self, i: usize) -> (x: u32)
        ensures
            x as nat == limb(self.limbs@, i as nat),
    {
        if i < self.limbs.len() {
            self.limbs[i]
        } else {
            0
        }
    }

    /// The sum.
    pub fn plus(&self, o: &Big) -> (r: Big)
        ensures
            r@ == self@ + o@,
    {
        let n: usize = if self.limbs.len() < o.limbs.len() {
            o.limbs.len()
        } else {
            self.limbs.len()
        };
        let mut limbs: Vec<u32> = Vec::new();
        let mut carry: u64 = 0;
        let mut i: usize = 0;
        proof {
            lemma_padded_step(self.limbs@, 0);
            lemma_padded_step(o.limbs@, 0);
        }
        while i < n
            invariant
                i <= n,
                limbs@.len() == i,
                carry <= 1,
                prefix(limbs@, i as nat) + carry * weight(i as nat) == padded(self.limbs@, i as nat)
                    + padded(o.limbs@, i as nat),
            decreases n - i,
        {
            let sum: u64 = self.at(i) as u64 + o.at(i) as u64 + carry;
            let lo: u32 = (sum % LIMB) as u32;
            proof {
                lemma_padded_step(self.limbs@, i as nat);
                lemma_padded_step(o.limbs@, i as nat);
                lemma_weight(i as nat);
                lemma_prefix_push(limbs@, lo);
                let w = weight(i as nat);
                lemma_carry(w, sum as nat, lo as nat, (sum / LIMB) as nat);
                let x = limb(self.limbs@, i as nat);
                let y = limb(o.limbs@, i as nat);
                assert((x + y + carry) * w == x * w + y * w + carry * w) by (nonlinear_arith);
            }
            limbs.push(lo);
            carry = sum / LIMB;
            i = i + 1;
        }
        proof {
            lemma_prefix_push(limbs@, carry as u32);
        }
        limbs.push(carry as u32);
        Big { limbs }
    }

    /// The difference of a number and one that is no larger.
    pub fn minus(&self, o: &Big) -> (r: Big)
        requires
            o@ <= self@,
        ensures
            r@ == self@ - o@,
    {
        let n: usize = if self.limbs.len() < o.limbs.len() {
            o.limbs.len()
        } else {
            self.limbs.len()
        };
        let mut limbs: Vec<u32> = Vec::new();
        let mut borrow: u64 = 0;
        let mut i: usize = 0;
        proof {
            lemma_padded_step(self.limbs@, 0);
            lemma_padded_step(o.limbs@, 0);
        }
        while i < n
            invariant
                i <= n,
                limbs@.len() == i,
                borrow <= 1,
                prefix(limbs@, i as nat) + padded(o.limbs@, i as nat) == padded(
                    self.limbs@,
                    i as nat,
                ) + borrow * weight(i as nat),
            decreases n - i,
        {
            let x: u64 = self.at(i) as u64;
            let y: u64 = o.at(i) as u64 + borrow;
            let more: u64 = if x < y {
                1
            } else {
                0
            };
            let lo: u32 = (x + more * LIMB - y) as u32;
            proof {
                lemma_padded_step(self.limbs@, i as nat);
                lemma_padded_step(o.limbs@, i as nat);
                lemma_weight(i as nat);
                lemma_prefix_push(limbs@, lo);
                let w = weight(i as nat);
                let z = limb(o.limbs@, i as nat);
                assert(lo * w + z * w + borrow * w == x * w + more * (w * LIMB)) by (nonlinear_arith)
                    requires
                        lo + z + borrow == x + more * LIMB,
                ;
            }
            limbs.push(lo);
            borrow = more;
            i = i + 1;
        }
        proof {
            lemma_prefix_bound(limbs@, n as nat);
            if borrow == 1 {
                assert(false);
            }
        }
        Big { limbs }
    }

    /// `self * m + c`.
    pub fn times_plus(&self, m: u32, c: u32) -> (r: Big)
        ensures
            r@ == self@ * m + c,
    {
        let n: usize = self.limbs.len();
        let mut limbs: Vec<u32> = Vec::new();
        let mut carry: u64 = c as u64;
        let mut i: usize = 0;
        proof {
            lemma_weight(0);
            assert(prefix(self.limbs@, 0) * m == 0) by (nonlinear_arith)
                requires
                    prefix(self.limbs@, 0) == 0,
            ;
        }
        while i < n
            invariant
                i <= n,
                n == self.limbs@.len(),
                limbs@.len() == i,
                carry < LIMB,
                prefix(limbs@, i as nat) + carry * weight(i as nat) == prefix(
                    self.limbs@,
                    i as nat,
                ) * m + c,
            decreases n - i,
        {
            let x: u64 = self.limbs[i] as u64;
            let y: u64 = m as u64;
            assert(x * y + carry <= 0xffff_ffff * 0xffff_ffff + 0xffff_ffff) by (nonlinear_arith)
                requires
                    0 <= x <= 0xffff_ffff,
                    0 <= y <= 0xffff_ffff,
                    carry <= 0xffff_ffff,
            ;
            assert(x * y <= 0xffff_ffff * 0xffff_ffff) by (nonlinear_arith)
                requires
                    0 <= x <= 0xffff_ffff,
                    0 <= y <= 0xffff_ffff,
            ;
            let sum: u64 = x * y + carry;
            let lo: u32 = (sum % LIMB) as u32;
            proof {
                lemma_weight(i as nat);
                lemma_prefix_push(limbs@, lo);
                let w = weight(i as nat);
                lemma_carry(w, sum as nat, lo as nat, (sum / LIMB) as nat);
                let p = prefix(self.limbs@, i as nat);
                assert((x * y + carry) * w == (x * w) * y + carry * w) by (nonlinear_arith);
                assert((p + x * w) * y == p * y + (x * w) * y) by (nonlinear_arith);
                assert((i + 1 - 1) as nat == i as nat);
            }
            limbs.push(lo);
            carry = sum / LIMB;
            i = i + 1;
        }
        proof {
            lemma_prefix_push(limbs@, carry as u32);
        }
        limbs.push(carry as u32);
        Big { limbs }
    }

    /// This number with `low` put under its lowest limb.
    fn under(&self, low: u32) -> (r: Big)
        ensures
            r@ == self@ * LIMB + low,
    {
        let mut limbs: Vec<u32> = Vec::new();
        limbs.push(low);
        let mut i: usize = 0;
        proof {
            lemma_weight(0);
            lemma_prefix_push(Seq::empty(), low);
            assert(limbs@ =~= Seq::<u32>::empty().push(low));
            assert(low as nat * weight(0) == low);
        }
        while i < self.limbs.len()
            invariant
                i <= self.limbs@.len(),
                limbs@.len() == i + 1,
                prefix(limbs@, (i + 1) as nat) == prefix(self.limbs@, i as nat) * LIMB + low,
            decreases self.limbs@.len() - i,
        {
            proof {
                let x = self.limbs@[i as int];
                lemma_prefix_push(limbs@, x);
                lemma_weight(i as nat);
                let w = weight(i as nat);
                let p = prefix(self.limbs@, i as nat);
                assert((p + x * w) * LIMB == p * LIMB + x * (w * LIMB)) by (nonlinear_arith);
                assert((i + 1 - 1) as nat == i as nat);
            }
            limbs.push(self.limbs[i]);
            i = i + 1;
        }
        Big { limbs }
    }

    /// `self * 2^k`.
    pub fn shifted(&self, k: u32) -> (r: Big)
        ensures
            r@ == self@ * pow2(k as nat),
    {
        let p: u32 = two_to(k % 32);
        let mut r = self.times_plus(p, 0);
        let z: u32 = k / 32;
        let mut i: u32 = 0;
        proof {
            lemma_weight(0);
            assert(self@ * p * 1 == self@ * p);
        }
        while i < z
            invariant
                i <= z,
                r@ == (self@ * p) * weight(i as nat),
            decreases z - i,
        {
            proof {
                lemma_weight(i as nat);
                let w = weight(i as nat);
                let v = self@ * p;
                assert((v * w) * LIMB == v * (w * LIMB)) by (nonlinear_arith);
            }
            r = r.under(0);
            i = i + 1;
        }
        proof {
            lemma_pow2_adds((k % 32) as nat, (32 * z) as nat);
            assert((k % 32) as nat + (32 * z) as nat == k as nat);
            let w = weight(z as nat);
            assert(w == pow2((32 * z) as nat));
            assert((self@ * p) * w == self@ * (p * w)) by (nonlinear_arith);
        }
        r
    }

    /// `self * m`.
    pub fn times(&self, m: u64) -> (r: Big)
        ensures
            r@ == self@ * m,
    {
        let lo: u32 = (m % LIMB) as u32;
        let hi: u32 = (m / LIMB) as u32;
        let a = self.times_plus(lo, 0);
        let b = self.times_plus(hi, 0).under(0);
        proof {
            assert((self@ * hi) * LIMB + self@ * lo == self@ * (hi * LIMB + lo)) by (nonlinear_arith);
        }
        a.plus(&b)
    }

    /// Whether this number is the smaller one.
    pub fn less(&self, o: &Big) -> (r: bool)
        ensures
            r == (self@ < o@),
    {
        let n: usize = if self.limbs.len() < o.limbs.len() {
            o.limbs.len()
        } else {
            self.limbs.len()
        };
        let mut i: usize = n;
        while i > 0
            invariant
                i <= n,
                self@ - padded(self.limbs@, i as nat) == o@ - padded(o.limbs@, i as nat),
            decreases i,
        {
            i = i - 1;
            let x: u32 = self.at(i);
            let y: u32 = o.at(i);
            proof {
                lemma_padded_step(self.limbs@, i as nat);
                lemma_padded_step(o.limbs@, i as nat);
                lemma_padded_bound(self.limbs@, i as nat);
                lemma_padded_bound(o.limbs@, i as nat);
                let w = weight(i as nat);
                if x < y {
                    assert(x * w + w <= y * w) by (nonlinear_arith)
                        requires
                            x + 1 <= y,
                            w > 0,
                    ;
                } else if y < x {
                    assert(y * w + w <= x * w) by (nonlinear_arith)
                        requires
                            y + 1 <= x,
                            w > 0,
                    ;
                }
            }
            if x < y {
                return true;
            }
            if y < x {
                return false;
            }
        }
        proof {
            lemma_padded_step(self.limbs@, 0);
            lemma_padded_step(o.limbs@, 0);
        }
        false
    }

    /// Whether this number is zero.
    pub fn is_zero(&self) -> (r: bool)
        ensures
            r == (self@ == 0),
    {
        !Big::of(0).less(self)
    }

    /// Quotient and remainder by a limb.
    pub fn divide_small(&self, d: u32) -> (r: (Big, u32))
        requires
            d > 0,
        ensures
            r.0@ == self@ / d as nat,
            r.1 == self@ % d as nat,
    {
        let mut q = Big { limbs: Vec::new() };
        let mut rem: u64 = 0;
        let mut i: usize = self.limbs.len();
        assert(q@ * d + rem == 0) by (nonlinear_arith)
            requires
                q@ == 0,
                rem == 0,
        ;
        while i > 0
            invariant
                i <= self.limbs@.len(),
                rem < d,
                d > 0,
                upper(self.limbs@, i as nat) == q@ * d + rem,
            decreases i,
        {
            i = i - 1;
            let x: u64 = rem * LIMB + self.limbs[i] as u64;
            let t: u64 = x / (d as u64);
            proof {
                assert(t < LIMB) by (nonlinear_arith)
                    requires
                        t == x / (d as u64),
                        x < d * LIMB,
                        d > 0,
                ;
                let u = q@;
                lemma_fundamental_div_mod(x as int, d as int);
                assert(x == d * t + x % (d as u64)) by (nonlinear_arith)
                    requires
                        t == x / (d as u64),
                        d > 0,
                ;
                assert((u * d + rem) * LIMB + (x - rem * LIMB) == (u * LIMB + t) * d + (x - d * t))
                    by (nonlinear_arith);
            }
            q = q.under(t as u32);
            rem = x % (d as u64);
        }
        proof {
            lemma_view_upper(self.limbs@);
            lemma_fundamental_div_mod_converse(self@ as int, d as int, q@ as int, rem as int);
        }
        (q, rem as u32)
    }

    /// Quotient and remainder.
    pub fn divide(&self, d: &Big) -> (r: (Big, Big))
        requires
            d@ > 0,
        ensures
            r.0@ == self@ / d@,
            r.1@ == self@ % d@,
    {
        let mut q = Big { limbs: Vec::new() };
        let mut rem = Big { limbs: Vec::new() };
        let mut i: usize = self.limbs.len();
        assert(q@ * d@ + rem@ == 0) by (nonlinear_arith)
            requires
                q@ == 0,
                rem@ == 0,
        ;
        while i > 0
            invariant
                i <= self.limbs@.len(),
                rem@ < d@,
                upper(self.limbs@, i as nat) == q@ * d@ + rem@,
            decreases i,
        {
            i = i - 1;
            let limb: u32 = self.limbs[i];
            let x = rem.under(limb);
            let mut lo: u64 = 0;
            let mut hi: u64 = LIMB;
            assert(d@ * lo <= x@ < d@ * hi) by (nonlinear_arith)
                requires
                    lo == 0,
                    hi == LIMB,
                    x@ == rem@ * LIMB + limb,
                    rem@ + 1 <= d@,
                    limb < LIMB,
            ;
            while hi - lo > 1
                invariant
                    lo < hi <= LIMB,
                    d@ * lo <= x@ < d@ * hi,
                decreases hi - lo,
            {
                let mid: u64 = lo + (hi - lo) / 2;
                let t = d.times_plus(mid as u32, 0);
                if x.less(&t) {
                    hi = mid;
                } else {
                    lo = mid;
                }
            }
            let t = d.times_plus(lo as u32, 0);
            proof {
                assert(hi == lo + 1);
                assert(d@ * (lo + 1) == d@ * lo + d@) by (nonlinear_arith);
                let u = q@;
                let dd = d@;
                let rr = rem@;
                assert((u * dd + rr) * LIMB + limb == (u * LIMB + lo) * dd + (rr * LIMB + limb - dd
                    * lo)) by (nonlinear_arith);
            }
            q = q.under(lo as u32);
            rem = x.minus(&t);
        }
        proof {
            lemma_view_upper(self.limbs@);
            lemma_fundamental_div_mod_converse(self@ as int, d@ as int, q@ as int, rem@ as int);
        }
        (q, rem)
    }
}

} // verus!
