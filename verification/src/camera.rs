//! The camera: maps normalized image-plane coordinates and lens jitter
//! into world-space rays, encoding orientation, field of view, aspect
//! ratio and depth of field.

use vstd::prelude::*;
use crate::fixed::Fx;
use crate::fixed::fx;
use crate::fixed::fxdiv;
use crate::fixed::fxmul;
use crate::fixed::SCALE;
use crate::ray::Ray;
use crate::rng::Rand;
use crate::vec3::Point3;
use crate::vec3::Vec3;
use crate::vec3::vadd;
use crate::vec3::vsub;
use crate::vec3::vcross;
use crate::vec3::vdivs;
use crate::vec3::vscale;
use crate::vec3::vunit;
use crate::vec3::vlen_sq;

verus! {

/// The derived viewport frame, computed once at construction.
#[derive(Copy, Clone, PartialEq, Eq, Structural, Debug)]
pub struct Camera {
    pub origin: Point3,
    pub lower_left_corner: Point3,
    pub horizontal: Vec3,
    pub vertical: Vec3,
    pub u: Vec3,
    pub v: Vec3,
    pub w: Vec3,
    pub lens_radius: Fx,
}

/// The frame a camera derives from its inputs. `tan_half_vfov` is the
/// tangent of half the vertical field of view, already evaluated by the
/// caller: the viewport is twice that tall at unit distance.
pub open spec fn camera_frame(
    lookfrom: Point3,
    lookat: Point3,
    vup: Vec3,
    tan_half_vfov: Fx,
    aspect_ratio: Fx,
    aperture: Fx,
    focus_dist: Fx,
) -> Camera {
    let viewport_height = fxmul(fx(2 * SCALE), tan_half_vfov);
    let viewport_width = fxmul(aspect_ratio, viewport_height);
    let w = vunit(vsub(lookfrom, lookat));
    let u = vunit(vcross(vup, w));
    let v = vcross(w, u);
    let origin = lookfrom;
    let horizontal = vscale(vscale(u, viewport_width), focus_dist);
    let vertical = vscale(vscale(v, viewport_height), focus_dist);
    Camera {
        origin,
        lower_left_corner: vsub(
            vsub(vsub(origin, vdivs(horizontal, fx(2 * SCALE))), vdivs(vertical, fx(2 * SCALE))),
            vscale(w, focus_dist),
        ),
        horizontal,
        vertical,
        u,
        v,
        w,
        lens_radius: fxdiv(aperture, fx(2 * SCALE)),
    }
}

/// The ray for image-plane coordinates `(s, t)` and the lens draw `rd`:
/// the origin jittered across the aperture, aimed at the focus plane.
pub open spec fn camera_ray(cam: Camera, s: Fx, t: Fx, rd: Vec3) -> Ray {
    let rds = vscale(rd, cam.lens_radius);
    let offset = vadd(vscale(cam.u, rds.0), vscale(cam.v, rds.1));
    Ray {
        orig: vadd(cam.origin, offset),
        dir: vsub(
            vsub(
                vadd(
                    vadd(cam.lower_left_corner, vscale(cam.horizontal, s)),
                    vscale(cam.vertical, t),
                ),
                cam.origin,
            ),
            offset,
        ),
    }
}

impl Camera {
    /// Build the viewport frame. The two positivity demands keep the
    /// orthonormal basis defined: the view direction may not vanish, and
    /// the up vector may not be parallel to it.
    pub fn new(
        lookfrom: Point3,
        lookat: Point3,
        vup: Vec3,
        tan_half_vfov: Fx,
        aspect_ratio: Fx,
        aperture: Fx,
        focus_dist: Fx,
    ) -> (cam: Camera)
        requires
            vlen_sq(vsub(lookfrom, lookat)).val() > 0,
            vlen_sq(vcross(vup, vunit(vsub(lookfrom, lookat)))).val() > 0,
        ensures
            cam == camera_frame(
                lookfrom,
                lookat,
                vup,
                tan_half_vfov,
                aspect_ratio,
                aperture,
                focus_dist,
            ),
    {
        let two = Fx::from_int(2);
        let viewport_height = two.mul(tan_half_vfov);
        let viewport_width = aspect_ratio.mul(viewport_height);

        let w = lookfrom.sub(lookat).unit_vector();
        let u = vup.cross(w).unit_vector();
        let v = w.cross(u);

        let origin = lookfrom;
        let horizontal = u.scale(viewport_width).scale(focus_dist);
        let vertical = v.scale(viewport_height).scale(focus_dist);

        Camera {
            origin,
            lower_left_corner: origin.sub(horizontal.div(two)).sub(vertical.div(two)).sub(
                w.scale(focus_dist),
            ),
            horizontal,
            vertical,
            u,
            v,
            w,
            lens_radius: aperture.div(two),
        }
    }

    /// The ray for `(s, t)` under the given lens draw.
    pub fn get_ray_with(&self, s: Fx, t: Fx, rd: Vec3) -> (r: Ray)
        ensures
            r == camera_ray(*self, s, t, rd),
    {
        let rds = rd.scale(self.lens_radius);
        let offset = self.u.scale(rds.x()).add(self.v.scale(rds.y()));
        Ray::new(
            self.origin.add(offset),
            self.lower_left_corner.add(self.horizontal.scale(s)).add(self.vertical.scale(t)).sub(
                self.origin,
            ).sub(offset),
        )
    }

    /// The ray for `(s, t)`, jittered across the lens by a draw from the
    /// unit disk.
    pub fn get_ray(&self, s: Fx, t: Fx, rng: &mut Rand) -> (r: Ray)
        ensures
            ({
                let (rd, s2) = crate::vec3::sample_in_disk(old(rng).state, 64);
                r == camera_ray(*self, s, t, rd) && final(rng).state == s2
            }),
    {
        let rd = Vec3::random_in_unit_disk(rng);
        self.get_ray_with(s, t, rd)
    }
}

} // verus!
