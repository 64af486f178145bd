use raytrace::Fx;
use raytrace::Vec3;

fn v(a: i64, b: i64, c: i64) -> Vec3 {
    Vec3::new(Fx::from_int(a), Fx::from_int(b), Fx::from_int(c))
}

fn raw3(w: Vec3) -> (i64, i64, i64) {
    (w.x().raw(), w.y().raw(), w.z().raw())
}

#[test]
fn vector_componentwise_arithmetic() {
    assert_eq!(raw3(v(1, 2, 3).add(v(4, 5, 6))), (5_000_000, 7_000_000, 9_000_000));
    assert_eq!(raw3(v(4, 5, 6).sub(v(1, 2, 3))), (3_000_000, 3_000_000, 3_000_000));
    assert_eq!(raw3(v(1, -2, 3).neg()), (-1_000_000, 2_000_000, -3_000_000));
    assert_eq!(raw3(v(1, 2, 3).scale(Fx::from_int(2))), (2_000_000, 4_000_000, 6_000_000));
    assert_eq!(raw3(v(1, 2, 3).mul(v(2, 3, 4))), (2_000_000, 6_000_000, 12_000_000));
    assert_eq!(raw3(v(1, 2, 3).div(Fx::from_int(2))), (500_000, 1_000_000, 1_500_000));
}

#[test]
fn vector_dot_cross_length() {
    assert_eq!(v(1, 2, 3).dot(v(4, -5, 6)).raw(), 12_000_000);
    assert_eq!(raw3(v(1, 0, 0).cross(v(0, 1, 0))), (0, 0, 1_000_000));
    assert_eq!(v(3, 4, 0).length_squared().raw(), 25_000_000);
    assert_eq!(v(3, 4, 0).length().raw(), 5_000_000);
}

#[test]
fn vector_component_access() {
    let w = v(7, 8, 9);
    assert_eq!(w.index(0).raw(), w.x().raw());
    assert_eq!(w.index(1).raw(), w.y().raw());
    assert_eq!(w.index(2).raw(), w.z().raw());
}

#[test]
fn unit_vector_of_pythagorean_triple_is_exact() {
    let u = v(3, 4, 0).unit_vector();
    assert_eq!(raw3(u), (600_000, 800_000, 0));
    assert_eq!(u.length().raw(), 1_000_000);
}

#[test]
fn unit_vector_has_length_one_within_tolerance() {
    let cases = [v(1, 1, 1), v(2, -3, 7), v(-5, 11, -2), v(100, 1, 0)];
    for w in cases {
        let l = w.unit_vector().length().raw();
        assert!((l - 1_000_000).abs() <= 100, "length {} off unit", l);
    }
}

#[test]
fn near_zero_only_for_the_zero_vector() {
    assert!(Vec3::new(Fx::zero(), Fx::zero(), Fx::zero()).near_zero());
    assert!(!Vec3::new(Fx::from_scaled(1), Fx::zero(), Fx::zero()).near_zero());
    assert!(!v(1, 0, 0).near_zero());
}

#[test]
fn reflect_about_vertical_normal() {
    let r = v(1, -1, 0).reflect(v(0, 1, 0));
    assert_eq!(raw3(r), (1_000_000, 1_000_000, 0));
    // the reflection preserves the squared length here exactly
    assert_eq!(r.length_squared().raw(), v(1, -1, 0).length_squared().raw());
    // and its normal component is the negated incident one
    assert_eq!(r.dot(v(0, 1, 0)).raw(), -v(1, -1, 0).dot(v(0, 1, 0)).raw());
}

#[test]
fn refract_straight_through_at_equal_indices() {
    let uv = v(0, 0, 1);
    let n = v(0, 0, -1);
    let out = uv.refract(n, Fx::one());
    assert_eq!(raw3(out), (0, 0, 1_000_000));
}

#[test]
fn default_vector_is_black() {
    let d: Vec3 = Default::default();
    assert_eq!(raw3(d), (0, 0, 0));
}
