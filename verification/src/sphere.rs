//! Analytic ray/sphere intersection.

use vstd::prelude::*;
use crate::fixed::Fx;
use crate::fixed::fx;
use crate::fixed::fxadd;
use crate::fixed::fxsub;
use crate::fixed::fxneg;
use crate::fixed::fxmul;
use crate::fixed::fxdiv;
use crate::fixed::fxsqrt;
use crate::fixed::isqrt;
use crate::fixed::tzdiv;
use crate::fixed::sabs;
use crate::fixed::clip;
use crate::fixed::lemma_isqrt_bounds;
use crate::fixed::lemma_fxsqrt_val;
use crate::fixed::SCALE;
use crate::fixed::FX_MAX;
use crate::hittable::HitRecord;
use crate::hittable::oriented;
use crate::material::MaterialEnum;
use crate::ray::Ray;
use crate::ray::ray_at;
use crate::vec3::Point3;
use crate::vec3::vsub;
use crate::vec3::vdot;
use crate::vec3::vdivs;
use crate::vec3::vlen_sq;
use crate::vec3::lemma_vlen_sq_nonneg;
use vstd::arithmetic::div_mod::lemma_div_pos_is_pos;
use vstd::arithmetic::div_mod::lemma_fundamental_div_mod;
use vstd::arithmetic::div_mod::lemma_mod_bound;
use vstd::arithmetic::mul::lemma_mul_inequality;

verus! {

/// A sphere: center, radius, and the material of its surface.
#[derive(Copy, Clone, PartialEq, Eq, Structural, Debug)]
pub struct Sphere {
    pub center: Point3,
    pub radius: Fx,
    pub mat: MaterialEnum,
}

/// The nearest intersection of the ray with the sphere within
/// `[t_min, t_max]`, by the quadratic formula on half the linear
/// coefficient: no hit when the discriminant is negative or both roots
/// fall outside the interval. Rays of zero squared length and spheres of
/// zero radius yield no hit, which keeps every division defined.
pub open spec fn sphere_hit(s: Sphere, r: Ray, t_min: Fx, t_max: Fx) -> Option<HitRecord> {
    let oc = vsub(r.orig, s.center);
    let a = vlen_sq(r.dir);
    let half_b = vdot(oc, r.dir);
    let c = fxsub(vlen_sq(oc), fxmul(s.radius, s.radius));
    let disc = fxsub(fxmul(half_b, half_b), fxmul(a, c));
    if s.radius.val() == 0 || a.val() == 0 || disc.val() < 0 {
        None
    } else {
        let sqrtd = fxsqrt(disc);
        let root1 = fxdiv(fxsub(fxneg(half_b), sqrtd), a);
        let root2 = fxdiv(fxadd(fxneg(half_b), sqrtd), a);
        let root = if root1.val() < t_min.val() || t_max.val() < root1.val() {
            root2
        } else {
            root1
        };
        if root.val() < t_min.val() || t_max.val() < root.val() {
            None
        } else {
            let p = ray_at(r, root);
            let outward = vdivs(vsub(p, s.center), s.radius);
            Some(
                oriented(
                    HitRecord { p, normal: outward, mat: s.mat, t: root, front_face: false },
                    r,
                    outward,
                ),
            )
        }
    }
}

impl Sphere {
    /// Nearest valid intersection, exactly as `sphere_hit` lays it out.
    pub fn hit(&self, r: Ray, t_min: Fx, t_max: Fx) -> (res: Option<HitRecord>)
        ensures
            res == sphere_hit(*self, r, t_min, t_max),
    {
        if self.radius.is_zero() {
            return None;
        }
        let oc = r.origin().sub(self.center);
        let a = r.direction().length_squared();
        if a.is_zero() {
            return None;
        }
        let half_b = oc.dot(r.direction());
        let c = oc.length_squared().sub(self.radius.mul(self.radius));
        let discriminant = half_b.mul(half_b).sub(a.mul(c));
        if discriminant.lt(Fx::zero()) {
            return None;
        }
        let sqrtd = discriminant.sqrt();

        // Take the smaller root first; if it falls outside the interval,
        // try the larger one.
        let root1 = half_b.neg().sub(sqrtd).div(a);
        let root = if root1.lt(t_min) || t_max.lt(root1) {
            half_b.neg().add(sqrtd).div(a)
        } else {
            root1
        };
        if root.lt(t_min) || t_max.lt(root) {
            return None;
        }

        let rec_p = r.at(root);
        let outward = rec_p.sub(self.center).div(self.radius);
        Some(
            HitRecord::new(rec_p, outward, self.mat, root, false).set_face_normal(r, outward),
        )
    }
}

/// Whatever a hit returns lies in the interval, carries the sphere's
/// material, and only rays of positive squared length ever hit.
pub proof fn lemma_sphere_hit_props(s: Sphere, r: Ray, t_min: Fx, t_max: Fx)
    ensures
        sphere_hit(s, r, t_min, t_max) matches Some(h) ==> {
            &&& t_min.val() <= h.t.val() <= t_max.val()
            &&& h.mat == s.mat
            &&& vlen_sq(r.dir).val() > 0
        },
{
    lemma_vlen_sq_nonneg(r.dir);
}

/// A ray that starts strictly outside a sphere and points away from it
/// never hits it, over any interval of strictly positive distances.
pub proof fn lemma_hit_none_outside_away(s: Sphere, r: Ray, t_min: Fx, t_max: Fx)
    requires
        vdot(vsub(r.orig, s.center), r.dir).val() >= 0,
        vlen_sq(vsub(r.orig, s.center)).val() > fxmul(s.radius, s.radius).val(),
        t_min.val() > 0,
    ensures
        sphere_hit(s, r, t_min, t_max) is None,
{
    let oc = vsub(r.orig, s.center);
    let a = vlen_sq(r.dir);
    let half_b = vdot(oc, r.dir);
    let c = fxsub(vlen_sq(oc), fxmul(s.radius, s.radius));
    let disc = fxsub(fxmul(half_b, half_b), fxmul(a, c));
    lemma_vlen_sq_nonneg(r.dir);
    if s.radius.val() == 0 || a.val() == 0 || disc.val() < 0 {
    } else {
        let hb = half_b.val();
        let av = a.val();
        assert(av > 0);
        assert(c.val() > 0);

        // The product coefficient keeps its sign through the rounding.
        assert(av * c.val() >= 0) by (nonlinear_arith)
            requires
                av > 0,
                c.val() > 0,
        ;
        lemma_div_pos_is_pos(av * c.val(), SCALE as int);
        assert(fxmul(a, c).val() >= 0);

        // The discriminant never exceeds the squared half coefficient.
        let m1 = fxmul(half_b, half_b).val();
        assert(hb * hb >= 0) by (nonlinear_arith);
        lemma_div_pos_is_pos(hb * hb, SCALE as int);
        assert(m1 <= tzdiv(hb * hb, SCALE as int));
        assert(disc.val() <= m1);

        // So its square root never exceeds the half coefficient itself.
        let n = (disc.val() * SCALE) as nat;
        lemma_fxsqrt_val(disc);
        lemma_isqrt_bounds(n);
        lemma_mul_inequality(disc.val(), m1, SCALE as int);
        lemma_mul_inequality(m1, tzdiv(hb * hb, SCALE as int), SCALE as int);
        lemma_fundamental_div_mod(hb * hb, SCALE as int);
        lemma_mod_bound(hb * hb, SCALE as int);
        assert(tzdiv(hb * hb, SCALE as int) * SCALE <= hb * hb);
        assert(n <= hb * hb);
        let sq = isqrt(n);
        if sq > hb {
            assert(sq * sq >= (hb + 1) * (hb + 1)) by (nonlinear_arith)
                requires
                    sq >= hb + 1,
                    hb >= 0,
            ;
            assert((hb + 1) * (hb + 1) > hb * hb) by (nonlinear_arith)
                requires
                    hb >= 0,
            ;
            assert(false);
        }
        let sqrtd = fxsqrt(disc);
        assert(sqrtd.val() <= hb);
        assert(sqrtd.val() >= 0);

        // Both candidate roots land at or below zero, under the interval.
        let x1 = fxsub(fxneg(half_b), sqrtd).val();
        let x2 = fxadd(fxneg(half_b), sqrtd).val();
        assert(x1 <= 0);
        assert(x2 <= 0);
        lemma_root_nonpos(x1, av);
        lemma_root_nonpos(x2, av);
    }
}

/// Dividing a nonpositive numerator by a positive squared length keeps
/// the quotient at or below zero.
proof fn lemma_root_nonpos(x: int, d: int)
    requires
        -(FX_MAX as int) <= x <= 0,
        d > 0,
    ensures
        clip(tzdiv(x * SCALE, d)) <= 0,
{
    assert(x * SCALE <= 0) by (nonlinear_arith)
        requires
            x <= 0,
    ;
    assert(sabs(x * SCALE) >= 0);
    lemma_div_pos_is_pos(sabs(x * SCALE), d);
}

} // verus!
