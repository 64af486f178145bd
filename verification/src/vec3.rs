//! Three-component vector algebra over the fixed-point scalar.
//!
//! The same type serves as a point in space and as a linear color. Every
//! operation mirrors a spec function exactly, so contracts downstream can
//! speak of vector expressions as values.

use vstd::prelude::*;
use crate::fixed::Fx;
use crate::fixed::fx;
use crate::fixed::fxadd;
use crate::fixed::fxsub;
use crate::fixed::fxneg;
use crate::fixed::fxmul;
use crate::fixed::fxdiv;
use crate::fixed::fxsqrt;
use crate::fixed::fxmin;
use crate::fixed::fxmax;
use crate::fixed::isqrt;
use crate::fixed::lemma_isqrt_bounds;
use crate::fixed::SCALE;
use crate::rng::Rand;
use crate::rng::lcg_next;
use crate::rng::lcg3;
use crate::rng::unit_of;
use crate::rng::unit_in_of;

verus! {

/// A vector of three fixed-point scalars.
#[derive(Clone, Copy, PartialEq, Eq, Structural, Debug)]
pub struct Vec3(pub Fx, pub Fx, pub Fx);

/// A linear color: red, green and blue channels.
pub type Color = Vec3;

/// A position in space.
pub type Point3 = Vec3;

pub open spec fn vzero() -> Vec3 {
    Vec3(fx(0), fx(0), fx(0))
}

pub open spec fn vadd(a: Vec3, b: Vec3) -> Vec3 {
    Vec3(fxadd(a.0, b.0), fxadd(a.1, b.1), fxadd(a.2, b.2))
}

pub open spec fn vsub(a: Vec3, b: Vec3) -> Vec3 {
    Vec3(fxsub(a.0, b.0), fxsub(a.1, b.1), fxsub(a.2, b.2))
}

pub open spec fn vneg(a: Vec3) -> Vec3 {
    Vec3(fxneg(a.0), fxneg(a.1), fxneg(a.2))
}

/// Scale every component by the scalar `t`.
pub open spec fn vscale(a: Vec3, t: Fx) -> Vec3 {
    Vec3(fxmul(a.0, t), fxmul(a.1, t), fxmul(a.2, t))
}

/// Component-wise product, as used for color attenuation.
pub open spec fn vmul(a: Vec3, b: Vec3) -> Vec3 {
    Vec3(fxmul(a.0, b.0), fxmul(a.1, b.1), fxmul(a.2, b.2))
}

/// Division by a scalar: scaling by its reciprocal.
pub open spec fn vdivs(a: Vec3, t: Fx) -> Vec3 {
    vscale(a, fxdiv(fx(SCALE as int), t))
}

pub open spec fn vdot(a: Vec3, b: Vec3) -> Fx {
    fxadd(fxadd(fxmul(a.0, b.0), fxmul(a.1, b.1)), fxmul(a.2, b.2))
}

pub open spec fn vcross(a: Vec3, b: Vec3) -> Vec3 {
    Vec3(
        fxsub(fxmul(a.1, b.2), fxmul(a.2, b.1)),
        fxsub(fxmul(a.2, b.0), fxmul(a.0, b.2)),
        fxsub(fxmul(a.0, b.1), fxmul(a.1, b.0)),
    )
}

pub open spec fn vlen_sq(a: Vec3) -> Fx {
    vdot(a, a)
}

pub open spec fn vlen(a: Vec3) -> Fx {
    fxsqrt(vlen_sq(a))
}

pub open spec fn vunit(a: Vec3) -> Vec3 {
    vdivs(a, vlen(a))
}

/// Mirror reflection of `v` about `n`: `v - n * (v . n) * 2`.
pub open spec fn vreflect(v: Vec3, n: Vec3) -> Vec3 {
    vsub(v, vscale(vscale(n, vdot(v, n)), fx(2 * SCALE)))
}

/// Snell refraction of the unit vector `uv` at a surface with normal `n`,
/// with the ratio of refractive indices `eta`. The radicand is clamped at
/// zero so the square root stays defined where rounding would push the
/// perpendicular part a hair past unit length.
pub open spec fn vrefract(uv: Vec3, n: Vec3, eta: Fx) -> Vec3 {
    let cos_theta = fxmin(vdot(vneg(uv), n), fx(SCALE as int));
    let r_out_perp = vscale(vadd(uv, vscale(n, cos_theta)), eta);
    let k = fxmax(fxsub(fx(SCALE as int), vlen_sq(r_out_perp)), fx(0));
    let r_out_parallel = vscale(n, fxneg(fxsqrt(k)));
    vadd(r_out_perp, r_out_parallel)
}

/// The square of a difference with a doubled subtrahend.
proof fn lemma_sq_of_diff(a: int, t: int) by (nonlinear_arith)
    ensures
        (a - 2 * t) * (a - 2 * t) == a * a - 4 * (a * t) + 4 * (t * t),
{
}

/// The square of a product, regrouped into a product of squares.
proof fn lemma_sq_prod(p: int, m: int) by (nonlinear_arith)
    ensures
        (p * m) * (p * m) == p * p * (m * m),
{
}

/// A difference with a doubled subtrahend, times a factor.
proof fn lemma_dot_sub(a: int, t: int, n: int) by (nonlinear_arith)
    ensures
        (a - 2 * t) * n == a * n - 2 * (t * n),
{
}

/// Rotate the middle factor of a triple product to the outside.
proof fn lemma_rot(p: int, m: int, n: int) by (nonlinear_arith)
    ensures
        (p * m) * n == (p * n) * m,
{
}

/// A product times its own right factor, regrouped.
proof fn lemma_rot2(q: int, n: int) by (nonlinear_arith)
    ensures
        (q * n) * n == (n * n) * q,
{
}

/// A literal factor moves across a grouped product.
proof fn lemma_pull_lit(a: int, b: int) by (nonlinear_arith)
    ensures
        4 * a * b == 4 * (a * b),
        2 * a * b == 2 * (a * b),
{
}

/// Three products with a common factor collect into one.
proof fn lemma_distrib3(a: int, b: int, c: int, x: int) by (nonlinear_arith)
    ensures
        a * x + b * x + c * x == (a + b + c) * x,
{
}

/// The two groupings of one square times another agree.
proof fn lemma_swap_sq(q: int, m: int) by (nonlinear_arith)
    ensures
        q * (q * m) == m * (q * q),
{
}

proof fn lemma_comm(x: int, y: int) by (nonlinear_arith)
    ensures
        x * y == y * x,
{
}

/// Swap the inner factors across a product of two products.
proof fn lemma_shuffle(a: int, b: int, c: int, d: int)
    ensures
        (a * b) * (c * d) == (a * d) * (c * b),
{
    vstd::arithmetic::mul::lemma_mul_is_associative(a * b, c, d);
    vstd::arithmetic::mul::lemma_mul_is_associative(a, b, c);
    vstd::arithmetic::mul::lemma_mul_is_commutative(b, c);
    vstd::arithmetic::mul::lemma_mul_is_associative(a, c, b);
    vstd::arithmetic::mul::lemma_mul_is_associative(a * c, b, d);
    vstd::arithmetic::mul::lemma_mul_is_associative(a * d, c, b);
    vstd::arithmetic::mul::lemma_mul_is_associative(a, d, c);
    vstd::arithmetic::mul::lemma_mul_is_commutative(d, c);
    vstd::arithmetic::mul::lemma_mul_is_associative(a, c, d);
    vstd::arithmetic::mul::lemma_mul_is_associative(a * c, d, b);
    vstd::arithmetic::mul::lemma_mul_is_commutative(d, b);
}

/// Reflection preserves length and flips the normal component: over
/// exact arithmetic, with the homogeneous reflection
/// `R = v * (n . n) - n * (2 * (v . n))` of `v` about any nonzero `n`,
/// the squared length of `R` is `(n . n)^2` times that of `v`, and
/// `R . n == -(v . n) * (n . n)`. For a unit normal, where `n . n == 1`,
/// this is exactly: reflecting about `n` keeps `|v|` and satisfies
/// `reflect(v, n) . n == -(v . n)`. The executable `reflect` evaluates
/// this formula in fixed point, which rounds each product toward zero.
pub proof fn lemma_reflect_preserves_length(
    vx: int,
    vy: int,
    vz: int,
    nx: int,
    ny: int,
    nz: int,
)
    ensures
        ({
            let nn = nx * nx + ny * ny + nz * nz;
            let vn = vx * nx + vy * ny + vz * nz;
            let rx = vx * nn - 2 * vn * nx;
            let ry = vy * nn - 2 * vn * ny;
            let rz = vz * nn - 2 * vn * nz;
            &&& rx * rx + ry * ry + rz * rz == nn * nn * (vx * vx + vy * vy + vz * vz)
            &&& rx * nx + ry * ny + rz * nz == -(vn * nn)
        }),
{
    let nn = nx * nx + ny * ny + nz * nz;
    let vn = vx * nx + vy * ny + vz * nz;
    let rx = vx * nn - 2 * vn * nx;
    let ry = vy * nn - 2 * vn * ny;
    let rz = vz * nn - 2 * vn * nz;
    let s2 = vx * vx + vy * vy + vz * vz;

    // Squared length: expand each component's square with the two dot
    // products held opaque, then regroup the three sums.
    lemma_pull_lit(vn, nx);
    lemma_pull_lit(vn, ny);
    lemma_pull_lit(vn, nz);
    lemma_sq_of_diff(vx * nn, vn * nx);
    lemma_sq_of_diff(vy * nn, vn * ny);
    lemma_sq_of_diff(vz * nn, vn * nz);
    lemma_sq_prod(vx, nn);
    lemma_sq_prod(vy, nn);
    lemma_sq_prod(vz, nn);
    lemma_shuffle(vx, nn, vn, nx);
    lemma_shuffle(vy, nn, vn, ny);
    lemma_shuffle(vz, nn, vn, nz);
    lemma_sq_prod(vn, nx);
    lemma_sq_prod(vn, ny);
    lemma_sq_prod(vn, nz);
    lemma_comm(vn * vn, nx * nx);
    lemma_comm(vn * vn, ny * ny);
    lemma_comm(vn * vn, nz * nz);
    lemma_distrib3(vx * vx, vy * vy, vz * vz, nn * nn);
    lemma_distrib3(vx * nx, vy * ny, vz * nz, vn * nn);
    lemma_distrib3(nx * nx, ny * ny, nz * nz, vn * vn);
    lemma_swap_sq(vn, nn);
    lemma_comm(s2, nn * nn);
    assert(rx * rx + ry * ry + rz * rz == nn * nn * s2);

    // Normal component: expand each product, then regroup.
    lemma_dot_sub(vx * nn, vn * nx, nx);
    lemma_dot_sub(vy * nn, vn * ny, ny);
    lemma_dot_sub(vz * nn, vn * nz, nz);
    lemma_rot(vx, nn, nx);
    lemma_rot(vy, nn, ny);
    lemma_rot(vz, nn, nz);
    lemma_rot2(vn, nx);
    lemma_rot2(vn, ny);
    lemma_rot2(vn, nz);
    lemma_distrib3(vx * nx, vy * ny, vz * nz, nn);
    lemma_distrib3(nx * nx, ny * ny, nz * nz, vn);
    lemma_comm(nn, vn);
    assert(rx * nx + ry * ny + rz * nz == -(vn * nn));
}

/// A squared length is never negative.
pub proof fn lemma_vlen_sq_nonneg(a: Vec3)
    ensures
        vlen_sq(a).val() >= 0,
{
    crate::fixed::lemma_sq_nonneg(a.0);
    crate::fixed::lemma_sq_nonneg(a.1);
    crate::fixed::lemma_sq_nonneg(a.2);
}

/// A positive squared length forces a positive length.
pub proof fn lemma_len_positive(a: Vec3)
    requires
        vlen_sq(a).val() > 0,
    ensures
        vlen(a).val() > 0,
{
    let n = (vlen_sq(a).val() * SCALE) as nat;
    crate::fixed::lemma_fxsqrt_val(vlen_sq(a));
    lemma_isqrt_bounds(n);
    assert(n >= SCALE);
    if isqrt(n) == 0 {
        assert((isqrt(n) + 1) * (isqrt(n) + 1) == 1) by (nonlinear_arith)
            requires
                isqrt(n) == 0nat,
        ;
        assert(false);
    }
}

/// The point half a unit along the first axis sits strictly inside the
/// unit sphere, in the lens plane, and away from the center.
proof fn lemma_fallback_point()
    ensures
        ({
            let f = Vec3(fx(500_000), fx(0), fx(0));
            0 < vlen_sq(f).val() < SCALE && f.2.val() == 0
        }),
{
    assert(500_000int * 500_000 == 250_000_000_000) by (nonlinear_arith);
    assert(250_000int * 1_000_000 == 250_000_000_000) by (nonlinear_arith);
    vstd::arithmetic::div_mod::lemma_fundamental_div_mod_converse(
        250_000_000_000,
        1_000_000,
        250_000,
        0,
    );
    assert(0int * 0 == 0) by (nonlinear_arith);
    vstd::arithmetic::div_mod::lemma_div_of0(1_000_000);
}

/// The cube draw the sphere sampler tests: three scalars in `[-1, 1]`,
/// drawn from three consecutive states.
pub open spec fn cube_draw(s: u64) -> Vec3 {
    Vec3(
        unit_in_of(s, fx(-(SCALE as int)), fx(SCALE as int)),
        unit_in_of(lcg_next(s), fx(-(SCALE as int)), fx(SCALE as int)),
        unit_in_of(lcg_next(lcg_next(s)), fx(-(SCALE as int)), fx(SCALE as int)),
    )
}

/// Rejection sampling from state `s` with `tries` draws left: the first
/// cube draw strictly inside the unit sphere and off its center wins;
/// when every draw is rejected, a fixed interior point stands in.
#[verifier::opaque]
pub open spec fn sample_in_sphere(s: u64, tries: nat) -> (Vec3, u64)
    decreases tries,
{
    if tries == 0 {
        (Vec3(fx(500_000), fx(0), fx(0)), s)
    } else {
        let p = cube_draw(s);
        let s2 = lcg3(s);
        if 0 < vlen_sq(p).val() < SCALE {
            (p, s2)
        } else {
            sample_in_sphere(s2, (tries - 1) as nat)
        }
    }
}

/// The sphere draw scaled to unit length.
pub open spec fn sample_unit_vector(s: u64) -> (Vec3, u64) {
    let (p, s2) = sample_in_sphere(s, 64);
    (vunit(p), s2)
}

/// The lens-plane draw: two scalars in `[-1, 1]` and a zero third
/// component.
pub open spec fn disk_draw(s: u64) -> Vec3 {
    Vec3(
        unit_in_of(s, fx(-(SCALE as int)), fx(SCALE as int)),
        unit_in_of(lcg_next(s), fx(-(SCALE as int)), fx(SCALE as int)),
        fx(0),
    )
}

/// Rejection sampling in the lens plane from state `s` with `tries`
/// draws left, with the same fixed fallback.
#[verifier::opaque]
pub open spec fn sample_in_disk(s: u64, tries: nat) -> (Vec3, u64)
    decreases tries,
{
    if tries == 0 {
        (Vec3(fx(500_000), fx(0), fx(0)), s)
    } else {
        let p = disk_draw(s);
        let s2 = lcg_next(lcg_next(s));
        if vlen_sq(p).val() < SCALE {
            (p, s2)
        } else {
            sample_in_disk(s2, (tries - 1) as nat)
        }
    }
}

impl Vec3 {
    pub fn new(a: Fx, b: Fx, c: Fx) -> (r: Self)
        ensures
            r == Vec3(a, b, c),
    {
        Vec3(a, b, c)
    }

    pub fn x(self) -> (r: Fx)
        ensures
            r == self.0,
    {
        self.0
    }

    pub fn y(self) -> (r: Fx)
        ensures
            r == self.1,
    {
        self.1
    }

    pub fn z(self) -> (r: Fx)
        ensures
            r == self.2,
    {
        self.2
    }

    /// Component by position; only the three positions exist.
    pub fn index(self, i: usize) -> (r: Fx)
        requires
            i < 3,
        ensures
            r == (if i == 0 {
                self.0
            } else if i == 1 {
                self.1
            } else {
                self.2
            }),
    {
        if i == 0 {
            self.0
        } else if i == 1 {
            self.1
        } else {
            self.2
        }
    }

    pub fn add(self, o: Vec3) -> (r: Vec3)
        ensures
            r == vadd(self, o),
    {
        Vec3(self.0.add(o.0), self.1.add(o.1), self.2.add(o.2))
    }

    pub fn sub(self, o: Vec3) -> (r: Vec3)
        ensures
            r == vsub(self, o),
    {
        Vec3(self.0.sub(o.0), self.1.sub(o.1), self.2.sub(o.2))
    }

    pub fn neg(self) -> (r: Vec3)
        ensures
            r == vneg(self),
    {
        Vec3(self.0.neg(), self.1.neg(), self.2.neg())
    }

    pub fn scale(self, t: Fx) -> (r: Vec3)
        ensures
            r == vscale(self, t),
    {
        Vec3(self.0.mul(t), self.1.mul(t), self.2.mul(t))
    }

    pub fn mul(self, o: Vec3) -> (r: Vec3)
        ensures
            r == vmul(self, o),
    {
        Vec3(self.0.mul(o.0), self.1.mul(o.1), self.2.mul(o.2))
    }

    pub fn div(self, t: Fx) -> (r: Vec3)
        requires
            t.val() != 0,
        ensures
            r == vdivs(self, t),
    {
        self.scale(Fx::one().div(t))
    }

    pub fn dot(self, o: Vec3) -> (r: Fx)
        ensures
            r == vdot(self, o),
    {
        self.0.mul(o.0).add(self.1.mul(o.1)).add(self.2.mul(o.2))
    }

    pub fn cross(self, o: Vec3) -> (r: Vec3)
        ensures
            r == vcross(self, o),
    {
        Vec3(
            self.1.mul(o.2).sub(self.2.mul(o.1)),
            self.2.mul(o.0).sub(self.0.mul(o.2)),
            self.0.mul(o.1).sub(self.1.mul(o.0)),
        )
    }

    pub fn length_squared(self) -> (r: Fx)
        ensures
            r == vlen_sq(self),
    {
        self.dot(self)
    }

    pub fn length(self) -> (r: Fx)
        ensures
            r == vlen(self),
    {
        proof {
            lemma_vlen_sq_nonneg(self);
        }
        self.length_squared().sqrt()
    }

    /// The vector scaled to unit length; the caller owes a length that is
    /// not zero.
    pub fn unit_vector(self) -> (r: Vec3)
        requires
            vlen_sq(self).val() > 0,
        ensures
            r == vunit(self),
    {
        proof {
            lemma_len_positive(self);
        }
        let l = self.length();
        self.div(l)
    }

    /// True only when every component is below the degeneracy threshold in
    /// magnitude; the threshold sits under one fixed-point unit, so only
    /// the exact zero component passes it.
    pub fn near_zero(self) -> (r: bool)
        ensures
            r == (self == vzero()),
    {
        self.0.is_zero() && self.1.is_zero() && self.2.is_zero()
    }

    pub fn reflect(self, o: Vec3) -> (r: Vec3)
        ensures
            r == vreflect(self, o),
    {
        self.sub(o.scale(self.dot(o)).scale(Fx::from_int(2)))
    }

    pub fn refract(self, n: Vec3, eta: Fx) -> (r: Vec3)
        ensures
            r == vrefract(self, n, eta),
    {
        let cos_theta = self.neg().dot(n).min_of(Fx::one());
        let r_out_perp = self.add(n.scale(cos_theta)).scale(eta);
        let k = Fx::one().sub(r_out_perp.length_squared()).max_of(Fx::zero());
        let r_out_parallel = n.scale(k.sqrt().neg());
        r_out_perp.add(r_out_parallel)
    }

    /// Uniform vector in the unit cube `[0, 1]^3`.
    pub fn random(rng: &mut Rand) -> (r: Vec3)
        ensures
            r == Vec3(
                unit_of(old(rng).state),
                unit_of(lcg_next(old(rng).state)),
                unit_of(lcg_next(lcg_next(old(rng).state))),
            ),
            final(rng).state == lcg3(old(rng).state),
            0 <= r.0.val() <= SCALE,
            0 <= r.1.val() <= SCALE,
            0 <= r.2.val() <= SCALE,
    {
        let a = rng.next_unit();
        let b = rng.next_unit();
        let c = rng.next_unit();
        Vec3(a, b, c)
    }

    /// Uniform vector in the cube `[min, max]^3`.
    pub fn random_in(min: Fx, max: Fx, rng: &mut Rand) -> (r: Vec3)
        ensures
            r == Vec3(
                unit_in_of(old(rng).state, min, max),
                unit_in_of(lcg_next(old(rng).state), min, max),
                unit_in_of(lcg_next(lcg_next(old(rng).state)), min, max),
            ),
            final(rng).state == lcg3(old(rng).state),
            (-crate::fixed::FX_MAX <= min.val() && min.val() <= max.val() && max.val()
                <= crate::fixed::FX_MAX) ==> {
                &&& min.val() <= r.0.val() <= max.val()
                &&& min.val() <= r.1.val() <= max.val()
                &&& min.val() <= r.2.val() <= max.val()
            },
    {
        let a = rng.next_in(min, max);
        let b = rng.next_in(min, max);
        let c = rng.next_in(min, max);
        Vec3(a, b, c)
    }

    /// Rejection sampling over the cube until the draw falls strictly
    /// inside the unit sphere. Draws on the sphere's center are rejected
    /// too, so the result can always be normalized; after a bounded number
    /// of failed draws a fixed interior point stands in.
    #[verifier::rlimit(60)]
    pub fn random_in_unit_sphere(rng: &mut Rand) -> (r: Vec3)
        ensures
            ({
                let (q, s2) = sample_in_sphere(old(rng).state, 64);
                r == q && final(rng).state == s2
            }),
            0 < vlen_sq(r).val() < SCALE,
            -SCALE <= r.0.val() <= SCALE,
            -SCALE <= r.1.val() <= SCALE,
            -SCALE <= r.2.val() <= SCALE,
    {
        let ghost s0 = rng.state;
        let lo = Fx::from_int(-1);
        let hi = Fx::one();
        let mut i: u32 = 0;
        while i < 64
            invariant
                i <= 64,
                lo == fx(-(SCALE as int)),
                hi == fx(SCALE as int),
                s0 == old(rng).state,
                sample_in_sphere(s0, 64) == sample_in_sphere(rng.state, (64 - i) as nat),
            decreases 64 - i,
        {
            let ghost s_pre = rng.state;
            let p = Vec3::random_in(lo, hi, rng);
            let l = p.length_squared();
            proof {
                reveal(sample_in_sphere);
                assert(p == cube_draw(s_pre));
            }
            if 0 < l.raw() && l.raw() < SCALE {
                proof {
                    reveal(sample_in_sphere);
                    assert(sample_in_sphere(s_pre, (64 - i) as nat) == (p, rng.state));
                }
                return p;
            }
            proof {
                reveal(sample_in_sphere);
                assert(sample_in_sphere(s_pre, (64 - i) as nat) == sample_in_sphere(
                    rng.state,
                    (64 - i - 1) as nat,
                ));
            }
            i = i + 1;
        }
        proof {
            reveal(sample_in_sphere);
            assert(sample_in_sphere(s0, 64) == sample_in_sphere(rng.state, 0));
            lemma_fallback_point();
        }
        Vec3(Fx::from_scaled(500_000), Fx::zero(), Fx::zero())
    }

    /// A vector of unit length in a uniformly random direction.
    pub fn random_unit_vector(rng: &mut Rand) -> (r: Vec3)
        ensures
            ({
                let (u, s2) = sample_unit_vector(old(rng).state);
                r == u && final(rng).state == s2
            }),
    {
        let p = Self::random_in_unit_sphere(rng);
        p.unit_vector()
    }

    /// Rejection sampling in the lens plane: a vector with zero third
    /// component strictly inside the unit disk.
    #[verifier::rlimit(60)]
    pub fn random_in_unit_disk(rng: &mut Rand) -> (r: Vec3)
        ensures
            ({
                let (q, s2) = sample_in_disk(old(rng).state, 64);
                r == q && final(rng).state == s2
            }),
            vlen_sq(r).val() < SCALE,
            r.2.val() == 0,
            -SCALE <= r.0.val() <= SCALE,
            -SCALE <= r.1.val() <= SCALE,
    {
        let ghost s0 = rng.state;
        let lo = Fx::from_int(-1);
        let hi = Fx::one();
        let mut i: u32 = 0;
        while i < 64
            invariant
                i <= 64,
                lo == fx(-(SCALE as int)),
                hi == fx(SCALE as int),
                s0 == old(rng).state,
                sample_in_disk(s0, 64) == sample_in_disk(rng.state, (64 - i) as nat),
            decreases 64 - i,
        {
            let ghost s_pre = rng.state;
            let a = rng.next_in(lo, hi);
            let b = rng.next_in(lo, hi);
            let p = Vec3(a, b, Fx::zero());
            let l = p.length_squared();
            proof {
                reveal(sample_in_disk);
                assert(p == disk_draw(s_pre));
            }
            if l.raw() < SCALE {
                proof {
                    reveal(sample_in_disk);
                    assert(sample_in_disk(s_pre, (64 - i) as nat) == (p, rng.state));
                }
                return p;
            }
            proof {
                reveal(sample_in_disk);
                assert(sample_in_disk(s_pre, (64 - i) as nat) == sample_in_disk(
                    rng.state,
                    (64 - i - 1) as nat,
                ));
            }
            i = i + 1;
        }
        proof {
            reveal(sample_in_disk);
            assert(sample_in_disk(s0, 64) == sample_in_disk(rng.state, 0));
            lemma_fallback_point();
        }
        Vec3(Fx::from_scaled(500_000), Fx::zero(), Fx::zero())
    }
}

impl Default for Vec3 {
    /// The origin, also pure black as a color.
    fn default() -> (r: Self)
        ensures
            r == vzero(),
    {
        Vec3(Fx::zero(), Fx::zero(), Fx::zero())
    }
}

} // verus!
