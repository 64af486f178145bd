use raytrace::Camera;
use raytrace::Fx;
use raytrace::HittableEnum;
use raytrace::HittableList;
use raytrace::Lambertian;
use raytrace::MaterialEnum;
use raytrace::Rand;
use raytrace::Ray;
use raytrace::Sphere;
use raytrace::Vec3;
use raytrace::color_to_rgb;
use raytrace::ray_color;
use raytrace::render_pixel;

fn v(a: i64, b: i64, c: i64) -> Vec3 {
    Vec3::new(Fx::from_int(a), Fx::from_int(b), Fx::from_int(c))
}

fn raw3(w: Vec3) -> (i64, i64, i64) {
    (w.x().raw(), w.y().raw(), w.z().raw())
}

fn empty_world() -> HittableList {
    HittableList { objects: Vec::new() }
}

fn white_sphere_world() -> HittableList {
    let mut world = empty_world();
    world.add(HittableEnum::Sphere(Sphere {
        center: v(0, 0, 0),
        radius: Fx::one(),
        mat: MaterialEnum::Lambertian(Lambertian { albedo: v(1, 1, 1) }),
    }));
    world
}

#[test]
fn zero_depth_returns_exact_black() {
    let mut rng = Rand::new(1);
    let r = Ray::new(v(0, 0, -3), v(0, 0, 1));
    let c = ray_color(r, &white_sphere_world(), 0, &mut rng);
    assert_eq!(raw3(c), (0, 0, 0));
    let c2 = ray_color(r, &empty_world(), 0, &mut rng);
    assert_eq!(raw3(c2), (0, 0, 0));
}

#[test]
fn escaping_ray_sees_the_exact_gradient() {
    let mut rng = Rand::new(1);
    let up = ray_color(Ray::new(v(0, 0, 0), v(0, 1, 0)), &empty_world(), 8, &mut rng);
    assert_eq!(raw3(up), (500_000, 700_000, 1_000_000));
    let down = ray_color(Ray::new(v(0, 0, 0), v(0, -1, 0)), &empty_world(), 8, &mut rng);
    assert_eq!(raw3(down), (1_000_000, 1_000_000, 1_000_000));
}

#[test]
fn tiny_direction_background_stays_in_the_unit_cube() {
    // normalizing a direction of magnitude near the resolution floor
    // overshoots unit length; the clamped blend keeps every channel in
    // range even then
    let mut rng = Rand::new(1);
    let dir = Vec3::new(Fx::zero(), Fx::from_scaled(-1_413), Fx::zero());
    let c = ray_color(Ray::new(v(0, 0, 0), dir), &empty_world(), 8, &mut rng);
    let (cr, cg, cb) = raw3(c);
    assert!((0..=1_000_000).contains(&cr));
    assert!((0..=1_000_000).contains(&cg));
    assert!((0..=1_000_000).contains(&cb));
}

#[test]
fn degenerate_ray_returns_black() {
    let mut rng = Rand::new(1);
    let c = ray_color(Ray::new(v(0, 0, 0), v(0, 0, 0)), &empty_world(), 8, &mut rng);
    assert_eq!(raw3(c), (0, 0, 0));
}

#[test]
fn single_bounce_budget_on_a_lit_sphere_is_black() {
    let mut rng = Rand::new(9);
    let r = Ray::new(v(0, 0, -3), v(0, 0, 1));
    let c = ray_color(r, &white_sphere_world(), 1, &mut rng);
    assert_eq!(raw3(c), (0, 0, 0));
}

#[test]
fn two_bounces_on_a_white_sphere_yield_light_within_unit_range() {
    let mut rng = Rand::new(9);
    let r = Ray::new(v(0, 0, -3), v(0, 0, 1));
    let c = ray_color(r, &white_sphere_world(), 2, &mut rng);
    let (cr, cg, cb) = raw3(c);
    assert!(cr > 0 && cg > 0 && cb > 0, "expected a lit result, got {:?}", (cr, cg, cb));
    assert!(cr <= 1_000_000 && cg <= 1_000_000 && cb <= 1_000_000);
}

#[test]
fn render_pixel_with_no_bounce_budget_is_black() {
    let cam = Camera::new(
        v(0, 0, 1),
        v(0, 0, 0),
        v(0, 1, 0),
        Fx::one(),
        Fx::one(),
        Fx::zero(),
        Fx::one(),
    );
    let mut rng = Rand::new(4);
    let c = render_pixel(&cam, &white_sphere_world(), 3, 5, 16, 9, 4, 0, &mut rng);
    assert_eq!(raw3(c), (0, 0, 0));
}

#[test]
fn render_pixel_averages_into_the_unit_range() {
    let cam = Camera::new(
        v(0, 0, 3),
        v(0, 0, 0),
        v(0, 1, 0),
        Fx::one(),
        Fx::one(),
        Fx::zero(),
        Fx::from_int(3),
    );
    let mut rng = Rand::new(4);
    let c = render_pixel(&cam, &white_sphere_world(), 4, 4, 9, 9, 8, 4, &mut rng);
    let (cr, cg, cb) = raw3(c);
    assert!(cr >= 0 && cg >= 0 && cb >= 0);
    assert!(cr <= 1_000_000 && cg <= 1_000_000 && cb <= 1_000_000);
}

#[test]
fn color_bytes_follow_the_gamma_formula() {
    assert_eq!(color_to_rgb(v(0, 0, 0)), (0, 0, 0));
    // a full channel clamps at 0.999 and lands on byte 255
    assert_eq!(color_to_rgb(v(1, 1, 1)), (255, 255, 255));
    // 0.25 has square root 0.5, and 0.5 * 256 == 128
    let quarter = Vec3::new(
        Fx::from_scaled(250_000),
        Fx::from_scaled(250_000),
        Fx::from_scaled(250_000),
    );
    assert_eq!(color_to_rgb(quarter), (128, 128, 128));
    // negative channels clamp to zero instead of spilling
    assert_eq!(color_to_rgb(v(-1, -1, -1)), (0, 0, 0));
}
