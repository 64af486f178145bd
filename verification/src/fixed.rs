//! Exact fixed-point scalar arithmetic.
//!
//! A scalar holds an `i64` that stands for the real number `v / SCALE`.
//! Every operation computes through wide intermediates, rounds quotients
//! toward zero, and saturates into `[-FX_MAX, FX_MAX]`, so each operation
//! is total and its result is pinned down exactly by a spec function.

use vstd::prelude::*;
use vstd::arithmetic::div_mod::lemma_div_nonincreasing;
use vstd::arithmetic::div_mod::lemma_div_is_ordered;
use vstd::arithmetic::div_mod::lemma_div_pos_is_pos;
use vstd::arithmetic::div_mod::lemma_div_by_multiple;
use vstd::arithmetic::div_mod::lemma_fundamental_div_mod;
use vstd::arithmetic::div_mod::lemma_mod_bound;

verus! {

/// Number of fixed-point units that stand for the real number one.
pub const SCALE: i64 = 1_000_000;

/// Saturation bound for every scalar: two to the sixty-second power.
pub const FX_MAX: i64 = 4_611_686_018_427_387_904;

/// Saturate an unbounded integer into the representable range.
pub open spec fn clip(x: int) -> int {
    if x > FX_MAX {
        FX_MAX as int
    } else if x < -(FX_MAX as int) {
        -(FX_MAX as int)
    } else {
        x
    }
}

/// Magnitude of an integer.
pub open spec fn sabs(x: int) -> int {
    if x < 0 {
        -x
    } else {
        x
    }
}

/// Quotient rounded toward zero; zero when the divisor is zero.
pub open spec fn tzdiv(x: int, d: int) -> int {
    if d == 0 {
        0
    } else {
        let q = sabs(x) / sabs(d);
        if (x < 0) == (d < 0) {
            q
        } else {
            -q
        }
    }
}

/// Integer square root: the largest `r` with `r * r <= n`.
pub open spec fn isqrt(n: nat) -> nat
    decreases n,
{
    if n == 0 {
        0
    } else {
        let r = isqrt((n - 1) as nat);
        if (r + 1) * (r + 1) <= n {
            r + 1
        } else {
            r
        }
    }
}

pub proof fn lemma_isqrt_bounds(n: nat)
    ensures
        isqrt(n) * isqrt(n) <= n,
        n < (isqrt(n) + 1) * (isqrt(n) + 1),
    decreases n,
{
    if n == 0 {
        assert(isqrt(n) == 0);
        assert((isqrt(n) + 1) * (isqrt(n) + 1) == 1) by (nonlinear_arith)
            requires
                isqrt(n) == 0,
        ;
    } else {
        lemma_isqrt_bounds((n - 1) as nat);
        let r = isqrt((n - 1) as nat);
        if (r + 1) * (r + 1) <= n {
            assert(isqrt(n) == r + 1);
            assert(n == (r + 1) * (r + 1));
            assert((r + 1) * (r + 1) < (r + 1 + 1) * (r + 1 + 1)) by (nonlinear_arith);
            assert(n < (isqrt(n) + 1) * (isqrt(n) + 1));
        } else {
            assert(isqrt(n) == r);
        }
    }
}

pub proof fn lemma_isqrt_is(n: nat, r: nat)
    requires
        r * r <= n,
        n < (r + 1) * (r + 1),
    ensures
        r == isqrt(n),
{
    lemma_isqrt_bounds(n);
    let s = isqrt(n);
    if r < s {
        assert(n < (r + 1) * (r + 1) && (r + 1) * (r + 1) <= s * s) by (nonlinear_arith)
            requires
                r < s,
                n < (r + 1) * (r + 1),
        ;
        assert(false);
    } else if s < r {
        assert(n < (s + 1) * (s + 1) && (s + 1) * (s + 1) <= r * r) by (nonlinear_arith)
            requires
                s < r,
                n < (s + 1) * (s + 1),
        ;
        assert(false);
    }
}

/// A fixed-point scalar.
#[derive(Clone, Copy, PartialEq, Eq, Structural, Debug)]
pub struct Fx {
    /// Raw units of one millionth.
    pub v: i64,
}

/// The scalar whose raw units saturate at `x`.
pub open spec fn fx(x: int) -> Fx {
    Fx { v: clip(x) as i64 }
}

pub open spec fn fxadd(a: Fx, b: Fx) -> Fx {
    fx(a.val() + b.val())
}

pub open spec fn fxsub(a: Fx, b: Fx) -> Fx {
    fx(a.val() - b.val())
}

pub open spec fn fxneg(a: Fx) -> Fx {
    fx(-a.val())
}

pub open spec fn fxmul(a: Fx, b: Fx) -> Fx {
    fx(tzdiv(a.val() * b.val(), SCALE as int))
}

pub open spec fn fxdiv(a: Fx, b: Fx) -> Fx {
    fx(tzdiv(a.val() * SCALE, b.val()))
}

pub open spec fn fxsqrt(a: Fx) -> Fx {
    if a.val() < 0 {
        Fx { v: 0 }
    } else {
        Fx { v: isqrt((a.val() * SCALE) as nat) as i64 }
    }
}

pub open spec fn fxmin(a: Fx, b: Fx) -> Fx {
    if a.val() <= b.val() {
        a
    } else {
        b
    }
}

pub open spec fn fxmax(a: Fx, b: Fx) -> Fx {
    if a.val() >= b.val() {
        a
    } else {
        b
    }
}

/// Scaling a nonnegative scalar by a factor drawn from `[0, 1]` keeps it
/// within `[0, its own value]`.
pub proof fn lemma_fxmul_unit(d: Fx, u: Fx)
    requires
        0 <= d.val(),
        0 <= u.val() <= SCALE,
    ensures
        0 <= fxmul(d, u).val() <= d.val(),
{
    let x = d.val() * u.val();
    assert(0 <= x && x <= d.val() * 1_000_000) by (nonlinear_arith)
        requires
            x == d.val() * u.val(),
            0 <= d.val(),
            0 <= u.val() <= 1_000_000,
    ;
    assert(tzdiv(x, SCALE as int) == x / (SCALE as int));
    lemma_div_pos_is_pos(x, SCALE as int);
    lemma_div_is_ordered(x, d.val() * SCALE, SCALE as int);
    lemma_div_by_multiple(d.val(), SCALE as int);
}

/// Fixed-point multiplication does not mind the order of its factors.
pub proof fn lemma_fxmul_comm(a: Fx, b: Fx)
    ensures
        fxmul(a, b) == fxmul(b, a),
{
    assert(a.val() * b.val() == b.val() * a.val()) by (nonlinear_arith);
}

/// Multiplying by one is the identity on values in `[0, 1]`.
pub proof fn lemma_fxmul_one(x: Fx)
    requires
        0 <= x.val() <= SCALE,
    ensures
        fxmul(fx(SCALE as int), x) == x,
{
    assert((SCALE as int) * x.val() == x.val() * SCALE) by (nonlinear_arith);
    lemma_div_by_multiple(x.val(), SCALE as int);
}

/// Scaling a sum of at most `n` unit values by the reciprocal of the
/// scalar standing for `n` lands back in the unit interval.
pub proof fn lemma_avg_in_unit(sum: Fx, nf: Fx, n: int)
    requires
        1 <= n,
        nf.val() == n * SCALE,
        0 <= sum.val() <= n * SCALE,
    ensures
        0 <= fxmul(sum, fxdiv(fx(SCALE as int), nf)).val() <= SCALE,
{
    let ss = SCALE as int * SCALE;
    let q = (SCALE as int * SCALE) / (n * SCALE);
    assert(n * SCALE >= SCALE) by (nonlinear_arith)
        requires
            n >= 1,
    ;
    assert(tzdiv(ss, n * SCALE) == q);
    lemma_div_pos_is_pos(ss, n * SCALE);
    lemma_div_nonincreasing(ss, n * SCALE);
    assert(fxdiv(fx(SCALE as int), nf).val() == q);

    // the reciprocal times n stays at or below one
    lemma_fundamental_div_mod(ss, n * SCALE);
    lemma_mod_bound(ss, n * SCALE);
    assert((n * SCALE) * q <= ss);
    assert((n * SCALE) * q == SCALE as int * (n * q)) by (nonlinear_arith);
    assert(n * q <= SCALE);

    let x = sum.val() * q;
    assert(0 <= x && x <= (n * SCALE) * q) by (nonlinear_arith)
        requires
            x == sum.val() * q,
            0 <= q,
            0 <= sum.val() <= n * SCALE,
    ;
    assert(SCALE as int * (n * q) <= SCALE as int * SCALE);
    assert(x <= ss);
    assert(tzdiv(x, SCALE as int) == x / (SCALE as int));
    lemma_div_pos_is_pos(x, SCALE as int);
    lemma_div_is_ordered(x, ss, SCALE as int);
    lemma_div_by_multiple(SCALE as int, SCALE as int);
    assert(ss / (SCALE as int) == SCALE);
}

/// A scalar times itself is never negative.
pub proof fn lemma_sq_nonneg(a: Fx)
    ensures
        fxmul(a, a).val() >= 0,
{
    let x = a.val() * a.val();
    assert(a.val() * a.val() >= 0) by (nonlinear_arith);
    lemma_div_pos_is_pos(x, SCALE as int);
}

/// The value of a fixed-point square root is the integer square root of
/// the scaled-up radicand, and in particular never negative.
pub proof fn lemma_fxsqrt_val(a: Fx)
    ensures
        a.val() >= 0 ==> fxsqrt(a).val() == isqrt((a.val() * SCALE) as nat),
        fxsqrt(a).val() >= 0,
{
    if a.val() >= 0 {
        let n = (a.val() * SCALE) as nat;
        lemma_isqrt_bounds(n);
        assert(n <= 9_223_372_036_854_775_807 * 1_000_000);
        if isqrt(n) >= 3_100_000_000_000 {
            assert(isqrt(n) * isqrt(n) >= 3_100_000_000_000 * 3_100_000_000_000)
                by (nonlinear_arith)
                requires
                    isqrt(n) >= 3_100_000_000_000nat,
            ;
            assert(false);
        }
        assert(isqrt(n) < 3_100_000_000_000);
    }
}

proof fn lemma_i64_prod_in_i128(a: int, b: int) by (nonlinear_arith)
    requires
        -0x8000_0000_0000_0000 <= a < 0x8000_0000_0000_0000,
        -0x8000_0000_0000_0000 <= b < 0x8000_0000_0000_0000,
    ensures
        -0x4000_0000_0000_0000_0000_0000_0000_0000 <= a * b
            <= 0x4000_0000_0000_0000_0000_0000_0000_0000,
{
}

impl Fx {
    /// The raw scaled units this scalar holds.
    pub open spec fn val(self) -> int {
        self.v as int
    }

    pub fn raw(self) -> (r: i64)
        ensures
            r as int == self.val(),
    {
        self.v
    }

    /// Build a scalar from raw units of one millionth, saturating.
    pub fn from_scaled(v: i64) -> (r: Fx)
        ensures
            r == fx(v as int),
    {
        if v > FX_MAX {
            Fx { v: FX_MAX }
        } else if v < -FX_MAX {
            Fx { v: -FX_MAX }
        } else {
            Fx { v }
        }
    }

    /// The scalar standing for the integer `x`.
    pub fn from_int(x: i64) -> (r: Fx)
        ensures
            r == fx(x * SCALE),
    {
        proof {
            lemma_i64_prod_in_i128(x as int, SCALE as int);
        }
        Self::clip_exec((x as i128) * (SCALE as i128))
    }

    pub fn zero() -> (r: Fx)
        ensures
            r == fx(0),
    {
        Fx { v: 0 }
    }

    pub fn one() -> (r: Fx)
        ensures
            r == fx(SCALE as int),
    {
        Fx { v: SCALE }
    }

    fn clip_exec(x: i128) -> (r: Fx)
        ensures
            r == fx(x as int),
    {
        if x > FX_MAX as i128 {
            Fx { v: FX_MAX }
        } else if x < -(FX_MAX as i128) {
            Fx { v: -FX_MAX }
        } else {
            Fx { v: x as i64 }
        }
    }

    pub fn add(self, o: Fx) -> (r: Fx)
        ensures
            r == fxadd(self, o),
    {
        Self::clip_exec(self.v as i128 + o.v as i128)
    }

    pub fn sub(self, o: Fx) -> (r: Fx)
        ensures
            r == fxsub(self, o),
    {
        Self::clip_exec(self.v as i128 - o.v as i128)
    }

    pub fn neg(self) -> (r: Fx)
        ensures
            r == fxneg(self),
    {
        Self::clip_exec(-(self.v as i128))
    }

    pub fn mul(self, o: Fx) -> (r: Fx)
        ensures
            r == fxmul(self, o),
    {
        proof {
            lemma_i64_prod_in_i128(self.v as int, o.v as int);
        }
        let p: i128 = (self.v as i128) * (o.v as i128);
        let neg: bool = p < 0;
        let m: u128 = if neg {
            (-p) as u128
        } else {
            p as u128
        };
        let q: u128 = m / (SCALE as u128);
        proof {
            lemma_div_nonincreasing(m as int, SCALE as int);
        }
        let qi: i128 = if neg {
            -(q as i128)
        } else {
            q as i128
        };
        Self::clip_exec(qi)
    }

    /// Fixed-point division, rounding toward zero.
    pub fn div(self, o: Fx) -> (r: Fx)
        requires
            o.val() != 0,
        ensures
            r == fxdiv(self, o),
    {
        proof {
            lemma_i64_prod_in_i128(self.v as int, SCALE as int);
        }
        let p: i128 = (self.v as i128) * (SCALE as i128);
        let neg: bool = p < 0;
        let m: u128 = if neg {
            (-p) as u128
        } else {
            p as u128
        };
        let dneg: bool = o.v < 0;
        let md: u128 = if o.v < 0 {
            (-(o.v as i128)) as u128
        } else {
            o.v as u128
        };
        let q: u128 = m / md;
        proof {
            lemma_div_nonincreasing(m as int, md as int);
        }
        let qi: i128 = if neg != dneg {
            -(q as i128)
        } else {
            q as i128
        };
        Self::clip_exec(qi)
    }

    /// Fixed-point square root: the exact integer square root of the
    /// value scaled back into units.
    pub fn sqrt(self) -> (r: Fx)
        requires
            self.val() >= 0,
        ensures
            r == fxsqrt(self),
    {
        let n: u128 = (self.v as u128) * (SCALE as u128);
        let mut lo: u128 = 0;
        let mut hi: u128 = 3_100_000_000_000;
        proof {
            assert(n < 3_100_000_000_000u128 * 3_100_000_000_000u128);
        }
        while lo + 1 < hi
            invariant
                lo * lo <= n,
                n < hi * hi,
                lo < hi,
                hi <= 3_100_000_000_000,
            decreases hi - lo,
        {
            let mid: u128 = lo + (hi - lo) / 2;
            proof {
                assert(mid * mid <= 3_100_000_000_000u128 * 3_100_000_000_000u128)
                    by (nonlinear_arith)
                    requires
                        mid <= 3_100_000_000_000u128,
                ;
            }
            if mid * mid <= n {
                lo = mid;
            } else {
                hi = mid;
            }
        }
        proof {
            lemma_isqrt_is(n as nat, lo as nat);
        }
        Fx { v: lo as i64 }
    }

    /// Magnitude of the scalar.
    pub fn abs(self) -> (r: Fx)
        ensures
            r == fx(sabs(self.val())),
    {
        if self.v < 0 {
            Self::clip_exec(-(self.v as i128))
        } else {
            Self::clip_exec(self.v as i128)
        }
    }

    pub fn min_of(self, o: Fx) -> (r: Fx)
        ensures
            r == fxmin(self, o),
    {
        if self.v <= o.v {
            self
        } else {
            o
        }
    }

    pub fn max_of(self, o: Fx) -> (r: Fx)
        ensures
            r == fxmax(self, o),
    {
        if self.v >= o.v {
            self
        } else {
            o
        }
    }

    pub fn lt(self, o: Fx) -> (r: bool)
        ensures
            r == (self.val() < o.val()),
    {
        self.v < o.v
    }

    pub fn le(self, o: Fx) -> (r: bool)
        ensures
            r == (self.val() <= o.val()),
    {
        self.v <= o.v
    }

    pub fn is_zero(self) -> (r: bool)
        ensures
            r == (self.val() == 0),
    {
        self.v == 0
    }
}

} // verus!
