//! The scene aggregate: an unordered collection of primitives, answering
//! a ray with the nearest valid hit over all of them.

use vstd::prelude::*;
use crate::fixed::Fx;
use crate::fixed::fx;
use crate::fixed::lemma_fxmul_unit;
use crate::fixed::SCALE;
use crate::hittable::HitRecord;
use crate::material::Dielectric;
use crate::material::Lambertian;
use crate::material::Metal;
use crate::material::MaterialEnum;
use crate::ray::Ray;
use crate::rng::Rand;
use crate::sphere::Sphere;
use crate::sphere::sphere_hit;
use crate::sphere::lemma_sphere_hit_props;
use crate::vec3::Color;
use crate::vec3::Point3;
use crate::vec3::Vec3;
use crate::vec3::vlen_sq;

verus! {

/// The closed set of primitives a scene can hold.
#[derive(Copy, Clone, PartialEq, Eq, Structural, Debug)]
pub enum HittableEnum {
    Sphere(Sphere),
}

/// What the primitive answers for the ray over the interval.
pub open spec fn obj_hit(o: HittableEnum, r: Ray, t_min: Fx, t_max: Fx) -> Option<HitRecord> {
    match o {
        HittableEnum::Sphere(s) => sphere_hit(s, r, t_min, t_max),
    }
}

impl HittableEnum {
    /// Validity of the primitive: its material parameters are valid.
    pub open spec fn wf(self) -> bool {
        match self {
            HittableEnum::Sphere(s) => s.mat.wf(),
        }
    }

    pub fn hit(&self, r: Ray, t_min: Fx, t_max: Fx) -> (res: Option<HitRecord>)
        ensures
            res == obj_hit(*self, r, t_min, t_max),
    {
        match self {
            HittableEnum::Sphere(s) => s.hit(r, t_min, t_max),
        }
    }
}

/// The nearest hit among the first `i` primitives: each primitive is only
/// tried against the interval shrunk to the nearest hit found so far, and
/// a later primitive replaces the record only when it is strictly nearer,
/// so at an equal nearest distance the primitive seen first wins.
pub open spec fn list_hit_upto(
    objs: Seq<HittableEnum>,
    r: Ray,
    t_min: Fx,
    t_max: Fx,
    i: int,
) -> Option<HitRecord>
    decreases i,
{
    if i <= 0 {
        None
    } else {
        let prev = list_hit_upto(objs, r, t_min, t_max, i - 1);
        let bound = match prev {
            Some(h) => h.t,
            None => t_max,
        };
        match obj_hit(objs[i - 1], r, t_min, bound) {
            Some(h) => match prev {
                Some(hp) => if h.t.val() < hp.t.val() {
                    Some(h)
                } else {
                    prev
                },
                None => Some(h),
            },
            None => prev,
        }
    }
}

/// The nearest hit over the whole scene.
pub open spec fn list_hit(l: HittableList, r: Ray, t_min: Fx, t_max: Fx) -> Option<HitRecord> {
    list_hit_upto(l.objects@, r, t_min, t_max, l.objects@.len() as int)
}

/// A scan result lies in the interval and only rays of positive squared
/// length produce one; when every primitive is valid, the hit carries a
/// valid material.
pub proof fn lemma_list_hit_props(objs: Seq<HittableEnum>, r: Ray, t_min: Fx, t_max: Fx, i: int)
    requires
        0 <= i <= objs.len(),
    ensures
        list_hit_upto(objs, r, t_min, t_max, i) matches Some(h) ==> {
            &&& t_min.val() <= h.t.val() <= t_max.val()
            &&& vlen_sq(r.dir).val() > 0
        },
        (forall|j: int| 0 <= j < i ==> (#[trigger] objs[j]).wf()) ==> (list_hit_upto(
            objs,
            r,
            t_min,
            t_max,
            i,
        ) matches Some(h) ==> h.mat.wf()),
    decreases i,
{
    if i > 0 {
        lemma_list_hit_props(objs, r, t_min, t_max, i - 1);
        let prev = list_hit_upto(objs, r, t_min, t_max, i - 1);
        let bound = match prev {
            Some(h) => h.t,
            None => t_max,
        };
        match objs[i - 1] {
            HittableEnum::Sphere(s) => {
                lemma_sphere_hit_props(s, r, t_min, bound);
            },
        }
    }
}

/// The large diffuse ground sphere of the showcase scene.
pub open spec fn ground_sphere() -> HittableEnum {
    HittableEnum::Sphere(
        Sphere {
            center: Vec3(fx(0), fx(-1000 * SCALE), fx(0)),
            radius: fx(1000 * SCALE),
            mat: MaterialEnum::Lambertian(
                Lambertian { albedo: Vec3(fx(500_000), fx(500_000), fx(500_000)) },
            ),
        },
    )
}

/// The large glass sphere of the showcase scene.
pub open spec fn big_glass_sphere() -> HittableEnum {
    HittableEnum::Sphere(
        Sphere {
            center: Vec3(fx(0), fx(SCALE as int), fx(0)),
            radius: fx(SCALE as int),
            mat: MaterialEnum::Dielectric(Dielectric { ir: fx(1_500_000) }),
        },
    )
}

/// The large diffuse sphere of the showcase scene.
pub open spec fn big_diffuse_sphere() -> HittableEnum {
    HittableEnum::Sphere(
        Sphere {
            center: Vec3(fx(-4 * SCALE), fx(SCALE as int), fx(0)),
            radius: fx(SCALE as int),
            mat: MaterialEnum::Lambertian(
                Lambertian { albedo: Vec3(fx(400_000), fx(200_000), fx(100_000)) },
            ),
        },
    )
}

/// The large metal sphere of the showcase scene.
pub open spec fn big_metal_sphere() -> HittableEnum {
    HittableEnum::Sphere(
        Sphere {
            center: Vec3(fx(4 * SCALE), fx(SCALE as int), fx(0)),
            radius: fx(SCALE as int),
            mat: MaterialEnum::Metal(
                Metal { albedo: Vec3(fx(700_000), fx(600_000), fx(500_000)), fuzz: fx(0) },
            ),
        },
    )
}

/// The point the small spheres keep their distance from.
pub open spec fn scene_anchor() -> Point3 {
    Vec3(fx(4 * SCALE), fx(200_000), fx(0))
}

/// Shape of every small sphere the showcase scene scatters about: radius
/// a fifth of a unit, resting at that height, and away from the anchor.
pub open spec fn small_sphere_ok(o: HittableEnum) -> bool {
    match o {
        HittableEnum::Sphere(s) => {
            &&& s.radius == fx(200_000)
            &&& s.center.1 == fx(200_000)
            &&& crate::vec3::vlen(crate::vec3::vsub(s.center, scene_anchor())).val() > 900_000
        },
    }
}

/// A scene: the primitives it owns, appended at construction time and
/// read-only during rendering.
pub struct HittableList {
    pub objects: Vec<HittableEnum>,
}

impl HittableList {
    /// Validity of the scene: every primitive in it is valid.
    pub open spec fn wf(self) -> bool {
        forall|j: int| 0 <= j < self.objects@.len() ==> (#[trigger] self.objects@[j]).wf()
    }

    pub fn add(&mut self, e: HittableEnum)
        ensures
            final(self).objects@ == old(self).objects@.push(e),
    {
        self.objects.push(e);
    }

    /// Nearest valid hit over the scene, scanning the primitives while
    /// shrinking the upper bound of the interval to the nearest hit
    /// found; at an equal nearest distance the primitive seen first wins.
    pub fn hit(&self, r: Ray, t_min: Fx, t_max: Fx) -> (res: Option<HitRecord>)
        ensures
            res == list_hit(*self, r, t_min, t_max),
    {
        let mut closest_so_far = t_max;
        let mut hit_record: Option<HitRecord> = None;
        let n = self.objects.len();
        let mut idx: usize = 0;
        while idx < n
            invariant
                idx <= n,
                n == self.objects@.len(),
                hit_record == list_hit_upto(self.objects@, r, t_min, t_max, idx as int),
                closest_so_far == (match hit_record {
                    Some(h) => h.t,
                    None => t_max,
                }),
            decreases n - idx,
        {
            let object = &self.objects[idx];
            let res = object.hit(r, t_min, closest_so_far);
            match res {
                Some(x) => {
                    let nearer = match &hit_record {
                        Some(hp) => x.t.lt(hp.t),
                        None => true,
                    };
                    if nearer {
                        closest_so_far = x.t;
                        hit_record = Some(x);
                    }
                },
                None => (),
            }
            idx = idx + 1;
        }
        hit_record
    }

    /// A scene of many small spheres scattered over a ground sphere, with
    /// three large ones; every material drawn is valid, so the scene is.
    /// The ground sphere comes first, the three large spheres last, and
    /// everything between is a small sphere resting near the ground away
    /// from the anchor.
    pub fn random_scene(rng: &mut Rand) -> (world: HittableList)
        ensures
            world.wf(),
            4 <= world.objects@.len() <= 488,
            world.objects@[0] == ground_sphere(),
            world.objects@[world.objects@.len() - 3] == big_glass_sphere(),
            world.objects@[world.objects@.len() - 2] == big_diffuse_sphere(),
            world.objects@[world.objects@.len() - 1] == big_metal_sphere(),
            forall|k: int|
                1 <= k < world.objects@.len() - 3 ==> small_sphere_ok(
                    #[trigger] world.objects@[k],
                ),
    {
        let mut world = HittableList::default();

        let ground_material = MaterialEnum::Lambertian(
            Lambertian {
                albedo: Color::new(
                    Fx::from_scaled(500_000),
                    Fx::from_scaled(500_000),
                    Fx::from_scaled(500_000),
                ),
            },
        );
        world.add(
            HittableEnum::Sphere(
                Sphere {
                    center: Point3::new(Fx::zero(), Fx::from_int(-1000), Fx::zero()),
                    radius: Fx::from_int(1000),
                    mat: ground_material,
                },
            ),
        );

        let mut a: i32 = -11;
        while a < 11
            invariant
                world.wf(),
                -11 <= a <= 11,
                1 <= world.objects@.len() <= 1 + 22 * (a + 11),
                world.objects@[0] == ground_sphere(),
                forall|k: int|
                    1 <= k < world.objects@.len() ==> small_sphere_ok(
                        #[trigger] world.objects@[k],
                    ),
            decreases 11 - a,
        {
            let mut b: i32 = -11;
            while b < 11
                invariant
                    world.wf(),
                    -11 <= a < 11,
                    -11 <= b <= 11,
                    1 <= world.objects@.len() <= 1 + 22 * (a + 11) + (b + 11),
                    world.objects@[0] == ground_sphere(),
                    forall|k: int|
                        1 <= k < world.objects@.len() ==> small_sphere_ok(
                            #[trigger] world.objects@[k],
                        ),
                decreases 11 - b,
            {
                let choose_mat = rng.next_unit();
                let center = Point3::new(
                    Fx::from_int(a as i64).add(Fx::from_scaled(900_000).mul(rng.next_unit())),
                    Fx::from_scaled(200_000),
                    Fx::from_int(b as i64).add(Fx::from_scaled(900_000).mul(rng.next_unit())),
                );

                let anchor = Point3::new(
                    Fx::from_int(4),
                    Fx::from_scaled(200_000),
                    Fx::zero(),
                );
                if Fx::from_scaled(900_000).lt(center.sub(anchor).length()) {
                    if choose_mat.lt(Fx::from_scaled(800_000)) {
                        let c1 = Color::random(rng);
                        let c2 = Color::random(rng);
                        let albedo = c1.mul(c2);
                        proof {
                            lemma_fxmul_unit(c1.0, c2.0);
                            lemma_fxmul_unit(c1.1, c2.1);
                            lemma_fxmul_unit(c1.2, c2.2);
                        }
                        let sphere_material = MaterialEnum::Lambertian(Lambertian { albedo });
                        world.add(
                            HittableEnum::Sphere(
                                Sphere {
                                    center,
                                    radius: Fx::from_scaled(200_000),
                                    mat: sphere_material,
                                },
                            ),
                        );
                    } else if choose_mat.lt(Fx::from_scaled(950_000)) {
                        let albedo = Color::random_in(Fx::from_scaled(500_000), Fx::one(), rng);
                        let fuzz = rng.next_in(Fx::zero(), Fx::from_scaled(500_000));
                        let mat = MaterialEnum::Metal(Metal::new(albedo, fuzz));
                        world.add(
                            HittableEnum::Sphere(
                                Sphere { center, radius: Fx::from_scaled(200_000), mat },
                            ),
                        );
                    } else {
                        let mat = MaterialEnum::Dielectric(
                            Dielectric::new(Fx::from_scaled(1_500_000)),
                        );
                        world.add(
                            HittableEnum::Sphere(
                                Sphere { center, radius: Fx::from_scaled(200_000), mat },
                            ),
                        );
                    }
                }
                b = b + 1;
            }
            a = a + 1;
        }

        world.add(
            HittableEnum::Sphere(
                Sphere {
                    center: Point3::new(Fx::zero(), Fx::one(), Fx::zero()),
                    radius: Fx::one(),
                    mat: MaterialEnum::Dielectric(Dielectric::new(Fx::from_scaled(1_500_000))),
                },
            ),
        );

        world.add(
            HittableEnum::Sphere(
                Sphere {
                    center: Point3::new(Fx::from_int(-4), Fx::one(), Fx::zero()),
                    radius: Fx::one(),
                    mat: MaterialEnum::Lambertian(
                        Lambertian {
                            albedo: Color::new(
                                Fx::from_scaled(400_000),
                                Fx::from_scaled(200_000),
                                Fx::from_scaled(100_000),
                            ),
                        },
                    ),
                },
            ),
        );

        world.add(
            HittableEnum::Sphere(
                Sphere {
                    center: Point3::new(Fx::from_int(4), Fx::one(), Fx::zero()),
                    radius: Fx::one(),
                    mat: MaterialEnum::Metal(
                        Metal::new(
                            Color::new(
                                Fx::from_scaled(700_000),
                                Fx::from_scaled(600_000),
                                Fx::from_scaled(500_000),
                            ),
                            Fx::zero(),
                        ),
                    ),
                },
            ),
        );

        world
    }
}

impl Default for HittableList {
    /// The empty scene.
    fn default() -> (r: Self)
        ensures
            r.objects@.len() == 0,
    {
        HittableList { objects: Vec::new() }
    }
}

} // verus!
