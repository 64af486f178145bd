use raytrace::fixed::Fx;
use raytrace::fixed::FX_MAX;
use raytrace::fixed::SCALE;

fn fxs(v: i64) -> Fx {
    Fx::from_scaled(v)
}

#[test]
fn scalar_construction_and_raw() {
    assert_eq!(fxs(250_000).raw(), 250_000);
    assert_eq!(Fx::from_int(3).raw(), 3_000_000);
    assert_eq!(Fx::from_int(-2).raw(), -2_000_000);
    assert_eq!(Fx::zero().raw(), 0);
    assert_eq!(Fx::one().raw(), SCALE);
}

#[test]
fn scalar_add_sub_neg() {
    assert_eq!(fxs(1_500_000).add(fxs(250_000)).raw(), 1_750_000);
    assert_eq!(fxs(1_500_000).sub(fxs(250_000)).raw(), 1_250_000);
    assert_eq!(fxs(-750_000).neg().raw(), 750_000);
}

#[test]
fn scalar_mul_rounds_toward_zero() {
    // 1.5 * 1.5 == 2.25 exactly
    assert_eq!(fxs(1_500_000).mul(fxs(1_500_000)).raw(), 2_250_000);
    // a product below one unit truncates to zero
    assert_eq!(fxs(1).mul(fxs(500_000)).raw(), 0);
    // and truncation is toward zero on the negative side too
    assert_eq!(fxs(-1).mul(fxs(500_000)).raw(), 0);
    assert_eq!(fxs(-1_500_000).mul(fxs(1_500_000)).raw(), -2_250_000);
}

#[test]
fn scalar_div_rounds_toward_zero() {
    assert_eq!(Fx::one().div(Fx::from_int(3)).raw(), 333_333);
    assert_eq!(Fx::from_int(-1).div(Fx::from_int(3)).raw(), -333_333);
    assert_eq!(Fx::from_int(7).div(Fx::from_int(2)).raw(), 3_500_000);
}

#[test]
fn scalar_sqrt_is_integer_square_root() {
    assert_eq!(Fx::from_int(4).sqrt().raw(), 2_000_000);
    assert_eq!(Fx::from_int(2).sqrt().raw(), 1_414_213);
    assert_eq!(Fx::zero().sqrt().raw(), 0);
}

#[test]
fn scalar_comparisons_and_clamps() {
    assert!(fxs(1).lt(fxs(2)));
    assert!(!fxs(2).lt(fxs(2)));
    assert!(fxs(2).le(fxs(2)));
    assert_eq!(fxs(-5).abs().raw(), 5);
    assert_eq!(fxs(3).min_of(fxs(7)).raw(), 3);
    assert_eq!(fxs(3).max_of(fxs(7)).raw(), 7);
    assert!(fxs(0).is_zero());
    assert!(!fxs(1).is_zero());
}

#[test]
fn scalar_saturates_at_the_bound() {
    assert_eq!(Fx::from_scaled(i64::MAX).raw(), FX_MAX);
    assert_eq!(Fx::from_scaled(i64::MIN).raw(), -FX_MAX);
    let big = Fx::from_scaled(FX_MAX);
    assert_eq!(big.add(big).raw(), FX_MAX);
    assert_eq!(big.neg().sub(big).raw(), -FX_MAX);
}
