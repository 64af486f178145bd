use raytrace::Fx;
use raytrace::HittableEnum;
use raytrace::HittableList;
use raytrace::Lambertian;
use raytrace::MaterialEnum;
use raytrace::Rand;
use raytrace::Ray;
use raytrace::Sphere;
use raytrace::Vec3;

fn v(a: i64, b: i64, c: i64) -> Vec3 {
    Vec3::new(Fx::from_int(a), Fx::from_int(b), Fx::from_int(c))
}

fn gray() -> MaterialEnum {
    MaterialEnum::Lambertian(Lambertian {
        albedo: Vec3::new(
            Fx::from_scaled(500_000),
            Fx::from_scaled(500_000),
            Fx::from_scaled(500_000),
        ),
    })
}

fn unit_sphere_at(center: Vec3) -> Sphere {
    Sphere { center, radius: Fx::one(), mat: gray() }
}

fn inf() -> Fx {
    Fx::from_scaled(i64::MAX)
}

#[test]
fn ray_evaluates_at_distance() {
    let r = Ray::new(v(1, 2, 3), v(0, 0, 2));
    assert_eq!(r.at(Fx::from_int(2)).z().raw(), 7_000_000);
    assert_eq!(r.origin().x().raw(), 1_000_000);
    assert_eq!(r.direction().z().raw(), 2_000_000);
}

#[test]
fn ray_at_center_hits_at_distance_minus_radius() {
    let s = unit_sphere_at(v(0, 0, 0));
    let r = Ray::new(v(0, 0, -5), v(0, 0, 1));
    let h = s.hit(r, Fx::zero(), inf()).expect("must hit");
    // |origin - center| - radius == 5 - 1 == 4
    assert_eq!(h.t.raw(), 4_000_000);
    assert_eq!(h.p.z().raw(), -1_000_000);
    // the oriented normal runs against the incident direction
    assert_eq!(h.normal.z().raw(), -1_000_000);
    assert_eq!(h.normal.x().raw(), 0);
    assert!(h.front_face);
}

#[test]
fn ray_outside_pointing_away_misses() {
    let s = unit_sphere_at(v(0, 0, 0));
    let r = Ray::new(v(0, 0, 5), v(0, 0, 1));
    assert!(s.hit(r, Fx::from_scaled(1_000), inf()).is_none());
}

#[test]
fn ray_passing_above_misses() {
    let s = unit_sphere_at(v(0, 0, 0));
    let r = Ray::new(v(0, 5, -5), v(0, 0, 1));
    assert!(s.hit(r, Fx::from_scaled(1_000), inf()).is_none());
}

#[test]
fn ray_from_inside_takes_larger_root_and_flips_normal() {
    let s = unit_sphere_at(v(0, 0, 0));
    let r = Ray::new(v(0, 0, 0), v(0, 0, 1));
    let h = s.hit(r, Fx::from_scaled(1_000), inf()).expect("must hit");
    assert_eq!(h.t.raw(), 1_000_000);
    assert!(!h.front_face);
    // outward normal (0, 0, 1) is flipped to face the ray
    assert_eq!(h.normal.z().raw(), -1_000_000);
}

#[test]
fn hit_respects_the_upper_bound() {
    let s = unit_sphere_at(v(0, 0, 0));
    let r = Ray::new(v(0, 0, -5), v(0, 0, 1));
    assert!(s.hit(r, Fx::zero(), Fx::from_int(3)).is_none());
    assert!(s.hit(r, Fx::zero(), Fx::from_int(5)).is_some());
}

#[test]
fn scene_returns_the_nearest_hit_in_any_order() {
    let near = HittableEnum::Sphere(unit_sphere_at(v(0, 0, -3)));
    let far = HittableEnum::Sphere(unit_sphere_at(v(0, 0, -8)));
    let r = Ray::new(v(0, 0, 0), v(0, 0, -1));

    let mut world = HittableList { objects: Vec::new() };
    world.add(near);
    world.add(far);
    let h = world.hit(r, Fx::from_scaled(1_000), inf()).expect("must hit");
    assert_eq!(h.t.raw(), 2_000_000);

    let mut world2 = HittableList { objects: Vec::new() };
    world2.add(far);
    world2.add(near);
    let h2 = world2.hit(r, Fx::from_scaled(1_000), inf()).expect("must hit");
    assert_eq!(h2.t.raw(), 2_000_000);
}

#[test]
fn equal_distance_tie_keeps_the_first_primitive() {
    let first = HittableEnum::Sphere(Sphere {
        center: v(0, 0, 0),
        radius: Fx::one(),
        mat: gray(),
    });
    let metal_mat = raytrace::MaterialEnum::Metal(raytrace::Metal::new(
        Vec3::new(Fx::one(), Fx::one(), Fx::one()),
        Fx::zero(),
    ));
    let second = HittableEnum::Sphere(Sphere {
        center: v(0, 0, 0),
        radius: Fx::one(),
        mat: metal_mat,
    });
    let r = Ray::new(v(0, 0, -5), v(0, 0, 1));
    let mut world = HittableList { objects: Vec::new() };
    world.add(first);
    world.add(second);
    let h = world.hit(r, Fx::from_scaled(1_000), inf()).expect("must hit");
    assert_eq!(h.t.raw(), 4_000_000);
    assert_eq!(h.mat, gray());

    let mut world2 = HittableList { objects: Vec::new() };
    world2.add(second);
    world2.add(first);
    let h2 = world2.hit(r, Fx::from_scaled(1_000), inf()).expect("must hit");
    assert_eq!(h2.mat, metal_mat);
}

#[test]
fn empty_scene_hits_nothing() {
    let world = HittableList { objects: Vec::new() };
    let r = Ray::new(v(0, 0, 0), v(0, 0, -1));
    assert!(world.hit(r, Fx::from_scaled(1_000), inf()).is_none());
}

#[test]
fn add_appends_primitives() {
    let mut world = HittableList { objects: Vec::new() };
    assert_eq!(world.objects.len(), 0);
    world.add(HittableEnum::Sphere(unit_sphere_at(v(0, 0, -3))));
    assert_eq!(world.objects.len(), 1);
}

#[test]
fn random_scene_builds_a_populated_world() {
    let mut rng = Rand::new(7);
    let world = HittableList::random_scene(&mut rng);
    let n = world.objects.len();
    assert!((4..=488).contains(&n));
    // the ground sphere comes first and the three large ones last
    let HittableEnum::Sphere(ground) = world.objects[0];
    assert_eq!(ground.radius.raw(), 1_000_000_000);
    assert_eq!(ground.center.y().raw(), -1_000_000_000);
    let HittableEnum::Sphere(glass) = world.objects[n - 3];
    assert!(matches!(glass.mat, MaterialEnum::Dielectric(_)));
    let HittableEnum::Sphere(metal) = world.objects[n - 1];
    assert!(matches!(metal.mat, MaterialEnum::Metal(_)));
    // everything between is a small sphere resting near the ground
    for k in 1..n - 3 {
        let HittableEnum::Sphere(s) = world.objects[k];
        assert_eq!(s.radius.raw(), 200_000);
        assert_eq!(s.center.y().raw(), 200_000);
    }
}
