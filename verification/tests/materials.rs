use raytrace::Dielectric;
use raytrace::Fx;
use raytrace::HitRecord;
use raytrace::Lambertian;
use raytrace::MaterialEnum;
use raytrace::Metal;
use raytrace::Rand;
use raytrace::Ray;
use raytrace::Vec3;

fn v(a: i64, b: i64, c: i64) -> Vec3 {
    Vec3::new(Fx::from_int(a), Fx::from_int(b), Fx::from_int(c))
}

fn white() -> Vec3 {
    v(1, 1, 1)
}

fn rec_at_origin(mat: MaterialEnum) -> HitRecord {
    HitRecord::new(v(0, 0, 0), v(0, 0, -1), mat, Fx::one(), true)
}

#[test]
fn lambertian_scatter_always_returns_some() {
    let m = Lambertian { albedo: white() };
    let rec = rec_at_origin(MaterialEnum::Lambertian(m));
    let mut rng = Rand::new(3);
    for _ in 0..50 {
        let (att, scattered) = m
            .scatter(Ray::new(v(0, 0, -3), v(0, 0, 1)), rec, &mut rng)
            .expect("diffuse never absorbs");
        assert_eq!(att.x().raw(), 1_000_000);
        assert_eq!(scattered.origin().x().raw(), rec.p.x().raw());
    }
}

#[test]
fn lambertian_degenerate_sum_falls_back_to_the_normal() {
    let m = Lambertian { albedo: white() };
    let rec = rec_at_origin(MaterialEnum::Lambertian(m));
    let (_, scattered) = m.scatter_with(rec, rec.normal.neg()).expect("still scatters");
    assert_eq!(scattered.direction().z().raw(), rec.normal.z().raw());
}

#[test]
fn metal_mirror_reflection_without_fuzz() {
    let m = Metal::new(white(), Fx::zero());
    let rec = rec_at_origin(MaterialEnum::Metal(m));
    let r_in = Ray::new(v(0, 0, -3), v(0, 0, 1));
    let (att, scattered) = m.scatter_with(r_in, rec, v(0, 0, 0)).expect("mirror reflects");
    assert_eq!(att.y().raw(), 1_000_000);
    assert_eq!(scattered.direction().z().raw(), -1_000_000);
}

#[test]
fn metal_absorbs_when_perturbed_into_the_surface() {
    let m = Metal::new(white(), Fx::one());
    let rec = rec_at_origin(MaterialEnum::Metal(m));
    // a grazing ray: its reflection lies in the surface plane
    let r_in = Ray::new(v(-3, 0, 0), v(1, 0, 0));
    let into = Vec3::new(Fx::zero(), Fx::zero(), Fx::from_scaled(500_000));
    assert!(m.scatter_with(r_in, rec, into).is_none());
    let away = Vec3::new(Fx::zero(), Fx::zero(), Fx::from_scaled(-500_000));
    assert!(m.scatter_with(r_in, rec, away).is_some());
}

#[test]
fn metal_new_clamps_fuzz_to_one() {
    let m = Metal::new(white(), Fx::from_int(3));
    assert_eq!(m.fuzz.raw(), 1_000_000);
    let m2 = Metal::new(white(), Fx::from_scaled(250_000));
    assert_eq!(m2.fuzz.raw(), 250_000);
}

#[test]
fn dielectric_scatter_is_always_fully_transparent() {
    let m = Dielectric::new(Fx::from_scaled(1_500_000));
    let rec = rec_at_origin(MaterialEnum::Dielectric(m));
    let mut rng = Rand::new(11);
    for _ in 0..50 {
        let (att, scattered) = m
            .scatter(Ray::new(v(0, 0, -3), v(0, 0, 1)), rec, &mut rng)
            .expect("dielectric never absorbs");
        assert_eq!(
            (att.x().raw(), att.y().raw(), att.z().raw()),
            (1_000_000, 1_000_000, 1_000_000)
        );
        assert_eq!(scattered.origin().z().raw(), 0);
    }
}

#[test]
fn schlick_reflectance_at_normal_incidence() {
    // r0 = ((1 - 1.5) / (1 + 1.5))^2 == 0.04, and the fifth-power term
    // vanishes at cosine one
    let r = Dielectric::reflectance(Fx::one(), Fx::from_scaled(1_500_000));
    assert_eq!(r.raw(), 40_000);
}

#[test]
fn material_enum_dispatches_to_its_variant() {
    let lam = MaterialEnum::Lambertian(Lambertian { albedo: white() });
    let rec = rec_at_origin(lam);
    let mut rng = Rand::new(5);
    let out = lam.scatter(Ray::new(v(0, 0, -3), v(0, 0, 1)), rec, &mut rng);
    assert!(out.is_some());
}
