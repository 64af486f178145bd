use raytrace::Camera;
use raytrace::Fx;
use raytrace::Rand;
use raytrace::Vec3;

fn v(a: i64, b: i64, c: i64) -> Vec3 {
    Vec3::new(Fx::from_int(a), Fx::from_int(b), Fx::from_int(c))
}

#[test]
fn generator_is_deterministic_for_a_seed() {
    let mut a = Rand::new(42);
    let mut b = Rand::new(42);
    for _ in 0..20 {
        assert_eq!(a.next_unit().raw(), b.next_unit().raw());
    }
    let mut c = Rand::new(43);
    let first_differs = Rand::new(42).next_unit().raw() != c.next_unit().raw();
    assert!(first_differs);
}

#[test]
fn unit_draws_stay_in_the_unit_interval() {
    let mut rng = Rand::new(12345);
    for _ in 0..200 {
        let u = rng.next_unit().raw();
        assert!((0..=1_000_000).contains(&u));
    }
}

#[test]
fn ranged_draws_stay_in_their_range() {
    let mut rng = Rand::new(5);
    let lo = Fx::from_scaled(-250_000);
    let hi = Fx::from_scaled(750_000);
    for _ in 0..200 {
        let x = rng.next_in(lo, hi).raw();
        assert!((-250_000..=750_000).contains(&x));
    }
}

#[test]
fn sphere_draws_land_strictly_inside_the_unit_sphere() {
    let mut rng = Rand::new(8);
    for _ in 0..100 {
        let p = Vec3::random_in_unit_sphere(&mut rng);
        let l = p.length_squared().raw();
        assert!(l > 0 && l < 1_000_000);
    }
}

#[test]
fn unit_direction_draws_are_normalized() {
    let mut rng = Rand::new(8);
    for _ in 0..100 {
        let u = Vec3::random_unit_vector(&mut rng);
        let l = u.length().raw();
        assert!((l - 1_000_000).abs() <= 2_000, "length {} off unit", l);
    }
}

#[test]
fn disk_draws_stay_in_the_lens_plane() {
    let mut rng = Rand::new(21);
    for _ in 0..100 {
        let p = Vec3::random_in_unit_disk(&mut rng);
        assert_eq!(p.z().raw(), 0);
        assert!(p.length_squared().raw() < 1_000_000);
    }
}

#[test]
fn pinhole_camera_aims_at_the_view_center() {
    let cam = Camera::new(
        v(0, 0, 1),
        v(0, 0, 0),
        v(0, 1, 0),
        Fx::one(),
        Fx::one(),
        Fx::zero(),
        Fx::one(),
    );
    let half = Fx::from_scaled(500_000);
    let r = cam.get_ray_with(half, half, v(0, 0, 0));
    assert_eq!(r.origin().x().raw(), 0);
    assert_eq!(r.origin().z().raw(), 1_000_000);
    assert_eq!(
        (r.direction().x().raw(), r.direction().y().raw(), r.direction().z().raw()),
        (0, 0, -1_000_000)
    );
}

#[test]
fn camera_rays_are_deterministic_for_a_seed() {
    let cam = Camera::new(
        v(3, 2, 1),
        v(0, 0, 0),
        v(0, 1, 0),
        Fx::one(),
        Fx::from_scaled(1_777_777),
        Fx::from_scaled(100_000),
        Fx::from_int(2),
    );
    let half = Fx::from_scaled(500_000);
    let mut r1 = Rand::new(99);
    let mut r2 = Rand::new(99);
    let a = cam.get_ray(half, half, &mut r1);
    let b = cam.get_ray(half, half, &mut r2);
    assert_eq!(a.direction().x().raw(), b.direction().x().raw());
    assert_eq!(a.direction().y().raw(), b.direction().y().raw());
    assert_eq!(a.direction().z().raw(), b.direction().z().raw());
    assert_eq!(a.origin().y().raw(), b.origin().y().raw());
}
