//! The recursive radiance integrator and the per-pixel sampling loop.

use vstd::prelude::*;
use crate::camera::Camera;
use crate::camera::camera_ray;
use crate::fixed::Fx;
use crate::fixed::fx;
use crate::fixed::fxadd;
use crate::fixed::fxsub;
use crate::fixed::fxmul;
use crate::fixed::fxdiv;
use crate::fixed::fxmin;
use crate::fixed::fxmax;
use crate::fixed::fxsqrt;
use crate::fixed::lemma_fxsqrt_val;
use crate::fixed::SCALE;
use crate::fixed::FX_MAX;
use crate::hittable_list::HittableList;
use crate::hittable_list::list_hit;
use crate::hittable_list::lemma_list_hit_props;
use crate::material::white;
use crate::ray::Ray;
use crate::rng::Rand;
use crate::rng::lcg_next;
use crate::rng::unit_of;
use crate::material::scatter_st;
use crate::material::color_in_unit;
use crate::vec3::sample_in_disk;
use crate::fixed::lemma_fxmul_comm;
use crate::fixed::lemma_fxmul_one;
use crate::fixed::lemma_fxmul_unit;
use crate::fixed::lemma_avg_in_unit;
use crate::vec3::Color;
use crate::vec3::Vec3;
use crate::vec3::vadd;
use crate::vec3::vsub;
use crate::vec3::vscale;
use crate::vec3::vmul;
use crate::vec3::vdivs;
use crate::vec3::vunit;
use crate::vec3::vzero;
use crate::vec3::vlen_sq;
use crate::vec3::lemma_vlen_sq_nonneg;
use vstd::arithmetic::div_mod::lemma_div_by_multiple;
use vstd::arithmetic::div_mod::lemma_div_is_ordered;
use vstd::arithmetic::div_mod::lemma_div_pos_is_pos;
use vstd::arithmetic::div_mod::lemma_fundamental_div_mod_converse;

verus! {

/// Lower bound of every scene intersection: a thousandth of a unit, so a
/// bounced ray cannot immediately strike the surface it just left.
pub open spec fn t_eps() -> Fx {
    fx(1_000)
}

/// Upper bound standing in for an unbounded reach.
pub open spec fn t_inf() -> Fx {
    fx(FX_MAX as int)
}

/// The sky a ray that escapes the scene sees: white blended toward sky
/// blue by the height of the unit direction. The blend parameter is
/// clamped into `[0, 1]`: normalizing a direction of magnitude near the
/// resolution floor can overshoot unit length, and the clamp keeps the
/// gradient inside the unit color cube even then.
pub open spec fn background(r: Ray) -> Color {
    let unit_dir = vunit(r.dir);
    let t0 = fxmul(fx(500_000), fxadd(unit_dir.1, fx(SCALE as int)));
    let t = fxmin(fxmax(t0, fx(0)), fx(SCALE as int));
    vadd(
        vscale(white(), fxsub(fx(SCALE as int), t)),
        vscale(Vec3(fx(500_000), fx(700_000), fx(SCALE as int)), t),
    )
}

/// The background gradient stays inside the unit color cube.
pub proof fn lemma_background_in_unit(r: Ray)
    ensures
        color_in_unit(background(r)),
{
    let unit_dir = vunit(r.dir);
    let t0 = fxmul(fx(500_000), fxadd(unit_dir.1, fx(SCALE as int)));
    let t = fxmin(fxmax(t0, fx(0)), fx(SCALE as int));
    assert(0 <= t.val() <= SCALE);
    let omt = fxsub(fx(SCALE as int), t);
    assert(0 <= omt.val() <= SCALE);
    lemma_fxmul_one(omt);
    lemma_fxmul_one(t);
    lemma_fxmul_comm(fx(500_000), t);
    lemma_fxmul_unit(t, fx(500_000));
    lemma_fxmul_comm(fx(700_000), t);
    lemma_fxmul_unit(t, fx(700_000));
}

/// The radiance a ray gathers from the scene, from generator state `s`,
/// with the state left behind: black on an exhausted bounce budget or a
/// degenerate ray; the background gradient when nothing is hit; on a hit,
/// the material scatters, absorption yields black, and a scattered ray
/// contributes its own radiance attenuated component-wise.
#[verifier::opaque]
pub open spec fn ray_color_spec(ray: Ray, l: HittableList, depth: nat, s: u64) -> (Color, u64)
    decreases depth,
{
    if depth == 0 {
        (vzero(), s)
    } else if vlen_sq(ray.dir).val() == 0 {
        (vzero(), s)
    } else {
        match list_hit(l, ray, t_eps(), t_inf()) {
            Some(rec) => {
                let (res, s2) = scatter_st(rec.mat, ray, rec, s);
                match res {
                    Some(pair) => {
                        let (c2, s3) = ray_color_spec(pair.1, l, (depth - 1) as nat, s2);
                        (vmul(pair.0, c2), s3)
                    },
                    None => (vzero(), s2),
                }
            },
            None => (background(ray), s),
        }
    }
}

/// Accumulate the radiance a ray gathers from the scene: exactly
/// `ray_color_spec` at the generator's incoming state. An exhausted
/// bounce budget yields exact black, as does a degenerate ray of zero
/// squared length, whose direction could not be normalized. A ray that
/// hits nothing yields exactly the background gradient, and every result
/// stays inside the unit color cube.
pub fn ray_color(ray: Ray, world: &HittableList, depth: u32, rng: &mut Rand) -> (c: Color)
    requires
        world.wf(),
    ensures
        ({
            let (cc, s2) = ray_color_spec(ray, *world, depth as nat, old(rng).state);
            c == cc && final(rng).state == s2
        }),
        color_in_unit(c),
        depth == 0 ==> c == vzero(),
        depth > 0 && vlen_sq(ray.dir).val() == 0 ==> c == vzero(),
        (depth > 0 && vlen_sq(ray.dir).val() > 0 && list_hit(*world, ray, t_eps(), t_inf())
            is None) ==> c == background(ray),
    decreases depth,
{
    proof {
        reveal(ray_color_spec);
    }
    if depth == 0 {
        return Vec3::default();
    }
    if ray.direction().length_squared().is_zero() {
        return Vec3::default();
    }
    proof {
        lemma_vlen_sq_nonneg(ray.dir);
    }

    let res = world.hit(ray, Fx::from_scaled(1_000), Fx::from_scaled(FX_MAX));
    match res {
        Some(rec) => {
            proof {
                lemma_list_hit_props(
                    world.objects@,
                    ray,
                    fx(1_000),
                    fx(FX_MAX as int),
                    world.objects@.len() as int,
                );
            }
            match rec.mat.scatter(ray, rec, rng) {
                Some((attenuation, scattered)) => {
                    let bounced = ray_color(scattered, world, depth - 1, rng);
                    proof {
                        lemma_fxmul_unit(attenuation.0, bounced.0);
                        lemma_fxmul_unit(attenuation.1, bounced.1);
                        lemma_fxmul_unit(attenuation.2, bounced.2);
                    }
                    attenuation.mul(bounced)
                },
                None => Vec3::default(),
            }
        },
        None => {
            let unit_dir = ray.direction().unit_vector();
            let t = Fx::from_scaled(500_000).mul(unit_dir.y().add(Fx::one()));
            let t = t.max_of(Fx::zero()).min_of(Fx::one());
            let blue = Vec3::new(Fx::from_scaled(500_000), Fx::from_scaled(700_000), Fx::one());
            let whitev = Vec3::new(Fx::one(), Fx::one(), Fx::one());
            proof {
                lemma_background_in_unit(ray);
            }
            whitev.scale(Fx::one().sub(t)).add(blue.scale(t))
        },
    }
}

/// The gamma-free byte a channel maps to on output: square root of the
/// channel clamped into `[0, 0.999]`, scaled by 256 and truncated.
pub open spec fn byte_of(ch: Fx) -> int {
    fxmul(fxmin(fxsqrt(fxmax(ch, fx(0))), fx(999_000)), fx(256 * SCALE)).val() / (SCALE as int)
}

fn channel_byte(ch: Fx) -> (b: u32)
    ensures
        b as int == byte_of(ch),
        b < 256,
{
    let s = ch.max_of(Fx::zero()).sqrt();
    let cl = s.min_of(Fx::from_scaled(999_000));
    let m = cl.mul(Fx::from_int(256));
    proof {
        lemma_fxsqrt_val(fxmax(ch, fx(0)));
        let x = cl.val() * 256;
        assert(cl.val() * 256_000_000 == x * 1_000_000) by (nonlinear_arith)
            requires
                x == cl.val() * 256,
        ;
        assert(x >= 0 && x <= 255_744_000) by (nonlinear_arith)
            requires
                0 <= cl.val() <= 999_000,
                x == cl.val() * 256,
        ;
        lemma_div_by_multiple(x, 1_000_000);
        assert(m.val() == x);
        lemma_div_is_ordered(x, 255_744_000, 1_000_000);
        assert(255int * 1_000_000 + 744_000 == 255_744_000) by (nonlinear_arith);
        lemma_fundamental_div_mod_converse(255_744_000, 1_000_000, 255, 744_000);
        lemma_div_pos_is_pos(x, 1_000_000);
    }
    ((m.raw() as u64) / 1_000_000) as u32
}

/// The three output bytes of a pixel color, each below 256.
pub fn color_to_rgb(pixel_color: Color) -> (rgb: (u32, u32, u32))
    ensures
        rgb.0 as int == byte_of(pixel_color.0),
        rgb.1 as int == byte_of(pixel_color.1),
        rgb.2 as int == byte_of(pixel_color.2),
        rgb.0 < 256 && rgb.1 < 256 && rgb.2 < 256,
{
    (channel_byte(pixel_color.x()), channel_byte(pixel_color.y()), channel_byte(pixel_color.z()))
}

/// The radiance of one jittered camera sample through pixel `(i, j)`,
/// from generator state `s`: two draws jitter the image-plane
/// coordinates, the lens draw follows, and the ray's radiance is
/// accumulated.
pub open spec fn sample_radiance(
    cam: Camera,
    l: HittableList,
    i: u32,
    j: u32,
    image_width: u32,
    image_height: u32,
    depth: u32,
    s: u64,
) -> (Color, u64) {
    let u = fxdiv(fxadd(fx(j as int * SCALE), unit_of(s)), fx((image_width - 1) as int * SCALE));
    let v = fxdiv(
        fxadd(fx(i as int * SCALE), unit_of(lcg_next(s))),
        fx((image_height - 1) as int * SCALE),
    );
    let (rd, s2) = sample_in_disk(lcg_next(lcg_next(s)), 64);
    ray_color_spec(camera_ray(cam, u, v, rd), l, depth as nat, s2)
}

/// The sum of the first `spp` per-sample radiances of pixel `(i, j)`,
/// from generator state `s`.
#[verifier::opaque]
pub open spec fn pixel_sum(
    cam: Camera,
    l: HittableList,
    i: u32,
    j: u32,
    image_width: u32,
    image_height: u32,
    spp: nat,
    depth: u32,
    s: u64,
) -> (Color, u64)
    decreases spp,
{
    if spp == 0 {
        (vzero(), s)
    } else {
        let (prev, s2) = pixel_sum(cam, l, i, j, image_width, image_height, (spp - 1) as nat, depth, s);
        let (sc, s3) = sample_radiance(cam, l, i, j, image_width, image_height, depth, s2);
        (vadd(prev, sc), s3)
    }
}

/// Average the radiance of `samples_per_pixel` jittered camera rays
/// through pixel `(i, j)` of the image grid: exactly the sum that
/// `pixel_sum` accumulates from the generator's incoming state, divided
/// by the sample count — the scene's linear color for that pixel, not
/// yet gamma corrected, always inside the unit color cube.
#[verifier::rlimit(60)]
pub fn render_pixel(
    cam: &Camera,
    world: &HittableList,
    i: u32,
    j: u32,
    image_width: u32,
    image_height: u32,
    samples_per_pixel: u32,
    max_depth: u32,
    rng: &mut Rand,
) -> (c: Color)
    requires
        world.wf(),
        image_width >= 2,
        image_height >= 2,
        samples_per_pixel >= 1,
    ensures
        ({
            let (sum, s2) = pixel_sum(
                *cam,
                *world,
                i,
                j,
                image_width,
                image_height,
                samples_per_pixel as nat,
                max_depth,
                old(rng).state,
            );
            c == vdivs(sum, fx(samples_per_pixel as int * SCALE)) && final(rng).state == s2
        }),
        color_in_unit(c),
{
    proof {
        reveal(pixel_sum);
    }
    let ghost s0 = rng.state;
    let mut pixel_color = Vec3::default();
    let width_denom = Fx::from_int((image_width - 1) as i64);
    let height_denom = Fx::from_int((image_height - 1) as i64);
    let mut s: u32 = 0;
    while s < samples_per_pixel
        invariant
            s <= samples_per_pixel,
            world.wf(),
            image_width >= 2,
            image_height >= 2,
            s0 == old(rng).state,
            width_denom == fx((image_width - 1) as int * SCALE),
            height_denom == fx((image_height - 1) as int * SCALE),
            ({
                let (sum, sst) = pixel_sum(
                    *cam,
                    *world,
                    i,
                    j,
                    image_width,
                    image_height,
                    s as nat,
                    max_depth,
                    s0,
                );
                pixel_color == sum && rng.state == sst
            }),
            0 <= pixel_color.0.val() <= s as int * SCALE,
            0 <= pixel_color.1.val() <= s as int * SCALE,
            0 <= pixel_color.2.val() <= s as int * SCALE,
        decreases samples_per_pixel - s,
    {
        proof {
            reveal(pixel_sum);
        }
        let u = Fx::from_int(j as i64).add(rng.next_unit()).div(width_denom);
        let v = Fx::from_int(i as i64).add(rng.next_unit()).div(height_denom);
        let r = cam.get_ray(u, v, rng);
        let sample = ray_color(r, world, max_depth, rng);
        pixel_color = pixel_color.add(sample);
        s = s + 1;
    }
    let denom = Fx::from_int(samples_per_pixel as i64);
    proof {
        reveal(pixel_sum);
        lemma_avg_in_unit(pixel_color.0, denom, samples_per_pixel as int);
        lemma_avg_in_unit(pixel_color.1, denom, samples_per_pixel as int);
        lemma_avg_in_unit(pixel_color.2, denom, samples_per_pixel as int);
    }
    pixel_color.div(denom)
}

} // verus!
