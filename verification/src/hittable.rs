//! The record a successful ray/surface intersection produces.

use vstd::prelude::*;
use crate::fixed::Fx;
use crate::material::MaterialEnum;
use crate::ray::Ray;
use crate::vec3::Point3;
use crate::vec3::Vec3;
use crate::vec3::vdot;
use crate::vec3::vneg;

verus! {

/// What a hit yields: the point, the normal oriented against the incident
/// ray, the surface's material, the parametric distance, and whether the
/// outer face was struck. Only a successful intersection builds one.
#[derive(Copy, Clone, PartialEq, Eq, Structural, Debug)]
pub struct HitRecord {
    pub p: Point3,
    pub normal: Vec3,
    pub mat: MaterialEnum,
    pub t: Fx,
    pub front_face: bool,
}

/// The record with its normal flipped to face the incident ray: the front
/// face is struck exactly when the ray runs against the outward normal.
pub open spec fn oriented(rec: HitRecord, r: Ray, outward_normal: Vec3) -> HitRecord {
    let ff = vdot(r.dir, outward_normal).val() < 0;
    HitRecord {
        p: rec.p,
        normal: if ff {
            outward_normal
        } else {
            vneg(outward_normal)
        },
        mat: rec.mat,
        t: rec.t,
        front_face: ff,
    }
}

impl HitRecord {
    pub fn new(p: Point3, normal: Vec3, mat: MaterialEnum, t: Fx, front_face: bool) -> (r: Self)
        ensures
            r == (HitRecord { p, normal, mat, t, front_face }),
    {
        HitRecord { p, normal, mat, t, front_face }
    }

    pub fn set_face_normal(self, r: Ray, outward_normal: Vec3) -> (h: HitRecord)
        ensures
            h == oriented(self, r, outward_normal),
    {
        let front_face = r.direction().dot(outward_normal).lt(Fx::zero());
        HitRecord {
            p: self.p,
            normal: (if front_face {
                outward_normal
            } else {
                outward_normal.neg()
            }),
            mat: self.mat,
            t: self.t,
            front_face,
        }
    }
}

} // verus!
