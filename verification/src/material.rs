//! Material scattering: how a surface answers an incoming ray.
//!
//! Each material's response splits into a deterministic core, whose
//! contract pins the outcome down exactly for a given random draw, and a
//! sampling wrapper that feeds it draws from the uniform source.

use vstd::prelude::*;
use crate::fixed::Fx;
use crate::fixed::fx;
use crate::fixed::fxadd;
use crate::fixed::fxsub;
use crate::fixed::fxmul;
use crate::fixed::fxdiv;
use crate::fixed::fxsqrt;
use crate::fixed::fxmin;
use crate::fixed::fxmax;
use crate::fixed::SCALE;
use crate::hittable::HitRecord;
use crate::ray::Ray;
use crate::rng::Rand;
use crate::rng::lcg_next;
use crate::rng::unit_of;
use crate::vec3::sample_in_sphere;
use crate::vec3::sample_unit_vector;
use crate::vec3::Color;
use crate::vec3::Vec3;
use crate::vec3::vadd;
use crate::vec3::vdot;
use crate::vec3::vneg;
use crate::vec3::vreflect;
use crate::vec3::vrefract;
use crate::vec3::vscale;
use crate::vec3::vunit;
use crate::vec3::vlen_sq;
use crate::vec3::vzero;
use vstd::arithmetic::div_mod::lemma_div_pos_is_pos;

verus! {

/// A color whose channels all lie in `[0, 1]`.
pub open spec fn color_in_unit(c: Color) -> bool {
    &&& 0 <= c.0.val() <= SCALE
    &&& 0 <= c.1.val() <= SCALE
    &&& 0 <= c.2.val() <= SCALE
}

/// Pure white: the attenuation of a surface that absorbs nothing.
pub open spec fn white() -> Color {
    Vec3(fx(SCALE as int), fx(SCALE as int), fx(SCALE as int))
}

/// Diffuse surface.
#[derive(Copy, Clone, PartialEq, Eq, Structural, Debug)]
pub struct Lambertian {
    pub albedo: Color,
}

/// Glossy reflector; `fuzz` perturbs the mirror direction.
#[derive(Copy, Clone, PartialEq, Eq, Structural, Debug)]
pub struct Metal {
    pub albedo: Color,
    pub fuzz: Fx,
}

/// Transparent refractor, described by its index of refraction.
#[derive(Copy, Clone, PartialEq, Eq, Structural, Debug)]
pub struct Dielectric {
    pub ir: Fx,
}

/// The closed set of materials a surface can carry.
#[derive(Copy, Clone, PartialEq, Eq, Structural, Debug)]
pub enum MaterialEnum {
    Lambertian(Lambertian),
    Metal(Metal),
    Dielectric(Dielectric),
}

/// The diffuse response to the draw `u`: scatter from the hit point along
/// `normal + u`, falling back to the bare normal when the sum degenerates;
/// the surface never absorbs.
pub open spec fn lambertian_scatter(m: Lambertian, rec: HitRecord, u: Vec3) -> Option<(Color, Ray)> {
    let d = vadd(rec.normal, u);
    let dir = if d == vzero() {
        rec.normal
    } else {
        d
    };
    Some((m.albedo, Ray { orig: rec.p, dir }))
}

/// The glossy response to the draw `p`: mirror the unit incident direction
/// and perturb it by `p * fuzz`; absorb when the result points into the
/// surface.
pub open spec fn metal_scatter(m: Metal, r_in: Ray, rec: HitRecord, p: Vec3) -> Option<
    (Color, Ray),
> {
    let reflected = vreflect(vunit(r_in.dir), rec.normal);
    let dir = vadd(reflected, vscale(p, m.fuzz));
    if vdot(dir, rec.normal).val() > 0 {
        Some((m.albedo, Ray { orig: rec.p, dir }))
    } else {
        None
    }
}

/// Schlick's polynomial approximation of the Fresnel reflectance.
pub open spec fn schlick(cosine: Fx, ref_idx: Fx) -> Fx {
    let r0 = fxdiv(fxsub(fx(SCALE as int), ref_idx), fxadd(fx(SCALE as int), ref_idx));
    let r0sq = fxmul(r0, r0);
    fxadd(r0sq, fxmul(fxsub(fx(SCALE as int), r0sq), pow5(fxsub(fx(SCALE as int), cosine))))
}

/// Fifth power by a left-to-right product chain.
pub open spec fn pow5(x: Fx) -> Fx {
    fxmul(fxmul(fxmul(fxmul(x, x), x), x), x)
}

/// The refractive response to the coin `coin`: refract by Snell's law
/// unless total internal reflection forbids it or the coin falls under the
/// Schlick reflectance, in which case reflect; never absorb, and attenuate
/// by nothing.
pub open spec fn dielectric_scatter(m: Dielectric, r_in: Ray, rec: HitRecord, coin: Fx) -> Option<
    (Color, Ray),
> {
    let ratio = if rec.front_face {
        fxdiv(fx(SCALE as int), m.ir)
    } else {
        m.ir
    };
    let unit_dir = vunit(r_in.dir);
    let cos_theta = fxmin(vdot(vneg(unit_dir), rec.normal), fx(SCALE as int));
    let sin_theta = fxsqrt(fxmax(fxsub(fx(SCALE as int), fxmul(cos_theta, cos_theta)), fx(0)));
    let cannot_refract = fxmul(ratio, sin_theta).val() > SCALE;
    let dir = if cannot_refract || schlick(cos_theta, ratio).val() > coin.val() {
        vreflect(unit_dir, rec.normal)
    } else {
        vrefract(unit_dir, rec.normal, ratio)
    };
    Some((white(), Ray { orig: rec.p, dir }))
}

/// The diffuse response from generator state `s`, with the state left
/// after the draw.
pub open spec fn lambertian_scatter_st(m: Lambertian, rec: HitRecord, s: u64) -> (
    Option<(Color, Ray)>,
    u64,
) {
    let (u, s2) = sample_unit_vector(s);
    (lambertian_scatter(m, rec, u), s2)
}

/// The glossy response from generator state `s`.
pub open spec fn metal_scatter_st(m: Metal, r_in: Ray, rec: HitRecord, s: u64) -> (
    Option<(Color, Ray)>,
    u64,
) {
    let (p, s2) = sample_in_sphere(s, 64);
    (metal_scatter(m, r_in, rec, p), s2)
}

/// The refractive response from generator state `s`.
pub open spec fn dielectric_scatter_st(m: Dielectric, r_in: Ray, rec: HitRecord, s: u64) -> (
    Option<(Color, Ray)>,
    u64,
) {
    (dielectric_scatter(m, r_in, rec, unit_of(s)), lcg_next(s))
}

/// The response of whichever material variant, from generator state `s`.
pub open spec fn scatter_st(mt: MaterialEnum, r_in: Ray, rec: HitRecord, s: u64) -> (
    Option<(Color, Ray)>,
    u64,
) {
    match mt {
        MaterialEnum::Lambertian(m) => lambertian_scatter_st(m, rec, s),
        MaterialEnum::Metal(m) => metal_scatter_st(m, r_in, rec, s),
        MaterialEnum::Dielectric(m) => dielectric_scatter_st(m, r_in, rec, s),
    }
}

impl Lambertian {
    /// The diffuse response for the given draw.
    pub fn scatter_with(&self, rec: HitRecord, u: Vec3) -> (r: Option<(Color, Ray)>)
        ensures
            r == lambertian_scatter(*self, rec, u),
    {
        let mut scatter_dir = rec.normal.add(u);
        if scatter_dir.near_zero() {
            scatter_dir = rec.normal;
        }
        Some((self.albedo, Ray::new(rec.p, scatter_dir)))
    }

    /// Diffuse scattering never absorbs: the attenuation is the albedo and
    /// the scattered ray leaves from the hit point.
    pub fn scatter(&self, _r_in: Ray, rec: HitRecord, rng: &mut Rand) -> (r: Option<(Color, Ray)>)
        ensures
            ({
                let (res, s2) = lambertian_scatter_st(*self, rec, old(rng).state);
                r == res && final(rng).state == s2
            }),
            r matches Some(ar) && ar.0 == self.albedo && ar.1.orig == rec.p,
    {
        let u = Vec3::random_unit_vector(rng);
        self.scatter_with(rec, u)
    }
}

impl Metal {
    /// Build a glossy reflector, clamping the fuzz at one.
    pub fn new(color: Color, fuzz: Fx) -> (m: Metal)
        ensures
            m.albedo == color,
            m.fuzz == (if fuzz.val() < SCALE {
                fuzz
            } else {
                fx(SCALE as int)
            }),
    {
        Metal {
            albedo: color,
            fuzz: if fuzz.lt(Fx::one()) {
                fuzz
            } else {
                Fx::one()
            },
        }
    }

    /// The glossy response for the given draw.
    pub fn scatter_with(&self, r_in: Ray, rec: HitRecord, p: Vec3) -> (r: Option<(Color, Ray)>)
        requires
            vlen_sq(r_in.dir).val() > 0,
        ensures
            r == metal_scatter(*self, r_in, rec, p),
    {
        let reflected = r_in.direction().unit_vector().reflect(rec.normal);
        let dir = reflected.add(p.scale(self.fuzz));
        let scattered = Ray::new(rec.p, dir);
        if Fx::zero().lt(scattered.direction().dot(rec.normal)) {
            Some((self.albedo, scattered))
        } else {
            None
        }
    }

    /// Glossy scattering absorbs exactly when the perturbed reflection
    /// points into the surface; otherwise the attenuation is the albedo.
    pub fn scatter(&self, r_in: Ray, rec: HitRecord, rng: &mut Rand) -> (r: Option<(Color, Ray)>)
        requires
            vlen_sq(r_in.dir).val() > 0,
        ensures
            ({
                let (res, s2) = metal_scatter_st(*self, r_in, rec, old(rng).state);
                r == res && final(rng).state == s2
            }),
            r matches Some(ar) ==> ar.0 == self.albedo && ar.1.orig == rec.p && vdot(
                ar.1.dir,
                rec.normal,
            ).val() > 0,
    {
        let p = Vec3::random_in_unit_sphere(rng);
        self.scatter_with(r_in, rec, p)
    }
}

impl Dielectric {
    pub fn new(ir: Fx) -> (m: Dielectric)
        ensures
            m.ir == ir,
    {
        Dielectric { ir }
    }

    /// Schlick's reflectance approximation.
    pub fn reflectance(cosine: Fx, ref_idx: Fx) -> (r: Fx)
        requires
            ref_idx.val() >= 0,
        ensures
            r == schlick(cosine, ref_idx),
    {
        let one = Fx::one();
        let r0 = one.sub(ref_idx).div(one.add(ref_idx));
        let r0 = r0.mul(r0);
        let f = one.sub(cosine);
        let f5 = f.mul(f).mul(f).mul(f).mul(f);
        r0.add(one.sub(r0).mul(f5))
    }

    /// The refractive response for the given coin.
    pub fn scatter_with(&self, r_in: Ray, rec: HitRecord, coin: Fx) -> (r: Option<(Color, Ray)>)
        requires
            self.ir.val() > 0,
            vlen_sq(r_in.dir).val() > 0,
        ensures
            r == dielectric_scatter(*self, r_in, rec, coin),
    {
        let one = Fx::one();
        let refraction_ratio = if rec.front_face {
            proof {
                lemma_div_pos_is_pos(1_000_000_000_000int, self.ir.val());
            }
            one.div(self.ir)
        } else {
            self.ir
        };
        let unit_direction = r_in.direction().unit_vector();
        let cos_theta = unit_direction.neg().dot(rec.normal).min_of(one);
        let sin_theta = one.sub(cos_theta.mul(cos_theta)).max_of(Fx::zero()).sqrt();
        let cannot_refract = one.lt(refraction_ratio.mul(sin_theta));
        let direction = if cannot_refract
            || coin.lt(Self::reflectance(cos_theta, refraction_ratio)) {
            unit_direction.reflect(rec.normal)
        } else {
            unit_direction.refract(rec.normal, refraction_ratio)
        };
        Some((Vec3::new(one, one, one), Ray::new(rec.p, direction)))
    }

    /// Refractive scattering never absorbs and never tints: the
    /// attenuation is exactly pure white.
    pub fn scatter(&self, r_in: Ray, rec: HitRecord, rng: &mut Rand) -> (r: Option<(Color, Ray)>)
        requires
            self.ir.val() > 0,
            vlen_sq(r_in.dir).val() > 0,
        ensures
            ({
                let (res, s2) = dielectric_scatter_st(*self, r_in, rec, old(rng).state);
                r == res && final(rng).state == s2
            }),
            r matches Some(ar) && ar.0 == white() && ar.1.orig == rec.p,
    {
        let coin = rng.next_unit();
        self.scatter_with(r_in, rec, coin)
    }
}

impl MaterialEnum {
    /// Validity of the material's parameters: color channels in `[0, 1]`,
    /// fuzz in `[0, 1]`, a positive index of refraction.
    pub open spec fn wf(self) -> bool {
        match self {
            MaterialEnum::Lambertian(m) => color_in_unit(m.albedo),
            MaterialEnum::Metal(m) => color_in_unit(m.albedo) && 0 <= m.fuzz.val() <= SCALE,
            MaterialEnum::Dielectric(m) => m.ir.val() > 0,
        }
    }

    /// Dispatch scattering to the variant. Every attenuation stays within
    /// `[0, 1]` per channel; a diffuse surface always scatters, a
    /// refractive one always scatters with a pure white attenuation, and a
    /// glossy one only along directions leaving the surface.
    pub fn scatter(&self, r_in: Ray, rec: HitRecord, rng: &mut Rand) -> (r: Option<(Color, Ray)>)
        requires
            self.wf(),
            vlen_sq(r_in.dir).val() > 0,
        ensures
            ({
                let (res, s2) = scatter_st(*self, r_in, rec, old(rng).state);
                r == res && final(rng).state == s2
            }),
            r matches Some(ar) ==> color_in_unit(ar.0) && ar.1.orig == rec.p,
            self matches MaterialEnum::Lambertian(m) ==> (r matches Some(ar) && ar.0 == m.albedo),
            self matches MaterialEnum::Metal(m) ==> (r matches Some(ar) ==> (ar.0 == m.albedo
                && vdot(ar.1.dir, rec.normal).val() > 0)),
            self matches MaterialEnum::Dielectric(m) ==> (r matches Some(ar) && ar.0 == white()),
    {
        match self {
            MaterialEnum::Lambertian(m) => m.scatter(r_in, rec, rng),
            MaterialEnum::Metal(m) => m.scatter(r_in, rec, rng),
            MaterialEnum::Dielectric(m) => m.scatter(r_in, rec, rng),
        }
    }
}

} // verus!
