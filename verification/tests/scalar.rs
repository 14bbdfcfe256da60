use celestial::scalar::{isqrt, Scalar};
use celestial::vector::Vec2;

fn raw(x: i64) -> Scalar {
    Scalar::from_raw(x)
}

#[test]
fn whole_units_are_millionths() {
    assert_eq!(Scalar::from_int(5), Some(raw(5_000_000)));
    assert_eq!(Scalar::from_int(-3), Some(raw(-3_000_000)));
    assert_eq!(Scalar::from_int(0), Some(Scalar::zero()));
    assert_eq!(Scalar::from_int(9_223_372_036_854), Some(raw(9_223_372_036_854_000_000)));
    assert_eq!(Scalar::from_int(9_223_372_036_855), None);
    assert_eq!(Scalar::from_int(i64::MIN), None);
}

#[test]
fn addition_and_subtraction_are_exact_or_absent() {
    assert_eq!(raw(1_500_000).add(raw(2_250_000)), Some(raw(3_750_000)));
    assert_eq!(raw(1_500_000).sub(raw(2_250_000)), Some(raw(-750_000)));
    assert_eq!(raw(i64::MAX).add(raw(1)), None);
    assert_eq!(raw(i64::MAX).add(raw(0)), Some(raw(i64::MAX)));
    assert_eq!(raw(-i64::MAX).sub(raw(1)), None);
    assert_eq!(raw(i64::MIN).add(raw(1)), Some(raw(-i64::MAX)));
}

#[test]
fn the_range_is_symmetric() {
    assert_eq!(raw(i64::MIN).neg(), None);
    assert_eq!(raw(i64::MAX).neg(), Some(raw(-i64::MAX)));
    assert_eq!(raw(-i64::MAX).neg(), Some(raw(i64::MAX)));
    assert_eq!(raw(0).sub(raw(i64::MIN)), None);
    assert_eq!(raw(i64::MIN).mul(raw(1_000_000)), None);
}

#[test]
fn products_round_toward_zero() {
    assert_eq!(raw(2_500_000).mul(raw(4_000_000)), Some(raw(10_000_000)));
    assert_eq!(raw(1).mul(raw(999_999)), Some(raw(0)));
    assert_eq!(raw(-1).mul(raw(999_999)), Some(raw(0)));
    assert_eq!(raw(3).mul(raw(500_000)), Some(raw(1)));
    assert_eq!(raw(-3).mul(raw(500_000)), Some(raw(-1)));
    assert_eq!(raw(-3).mul(raw(-500_000)), Some(raw(1)));
    assert_eq!(raw(i64::MAX).mul(raw(1_000_001)), None);
    assert_eq!(raw(i64::MAX).mul(raw(1_000_000)), Some(raw(i64::MAX)));
}

#[test]
fn quotients_round_toward_zero() {
    assert_eq!(raw(10_000_000).div(raw(4_000_000)), Some(raw(2_500_000)));
    assert_eq!(raw(1_000_000).div(raw(3_000_000)), Some(raw(333_333)));
    assert_eq!(raw(-1_000_000).div(raw(3_000_000)), Some(raw(-333_333)));
    assert_eq!(raw(1_000_000).div(raw(-3_000_000)), Some(raw(-333_333)));
    assert_eq!(raw(-1_000_000).div(raw(-3_000_000)), Some(raw(333_333)));
    assert_eq!(raw(0).div(raw(-3_000_000)), Some(raw(0)));
}

#[test]
fn division_by_zero_or_out_of_range_is_absent() {
    assert_eq!(raw(1_000_000).div(raw(0)), None);
    assert_eq!(raw(0).div(raw(0)), None);
    assert_eq!(raw(i64::MAX).div(raw(999_999)), None);
    assert_eq!(raw(i64::MAX).div(raw(1_000_000)), Some(raw(i64::MAX)));
}

#[test]
fn square_roots_round_down() {
    assert_eq!(raw(4_000_000).sqrt(), Some(raw(2_000_000)));
    assert_eq!(raw(2_000_000).sqrt(), Some(raw(1_414_213)));
    assert_eq!(raw(0).sqrt(), Some(raw(0)));
    assert_eq!(raw(1).sqrt(), Some(raw(1_000)));
    assert_eq!(raw(-1).sqrt(), None);
    assert_eq!(raw(i64::MAX).sqrt(), Some(raw(3_037_000_499_976)));
}

#[test]
fn integer_square_root_is_the_floor() {
    assert_eq!(isqrt(0), 0);
    assert_eq!(isqrt(1), 1);
    assert_eq!(isqrt(3), 1);
    assert_eq!(isqrt(4), 2);
    assert_eq!(isqrt(99), 9);
    assert_eq!(isqrt(100), 10);
    assert_eq!(isqrt(u128::MAX), 18_446_744_073_709_551_615);
    let widest: u128 = 18_446_744_073_709_551_615;
    assert_eq!(isqrt(widest * widest), widest);
    assert_eq!(isqrt(widest * widest - 1), widest - 1);
}

#[test]
fn comparisons_follow_the_raw_values() {
    assert!(raw(1).is_positive());
    assert!(!raw(0).is_positive());
    assert!(!raw(-1).is_positive());
    assert!(raw(-1).less_than(raw(0)));
    assert!(!raw(5).less_than(raw(5)));
    assert_eq!(raw(42).raw(), 42);
}

#[test]
fn vector_sums_differences_and_opposites() {
    let a = Vec2::new(raw(1_000_000), raw(-2_000_000));
    let b = Vec2::new(raw(500_000), raw(250_000));
    assert_eq!(a.add(b), Some(Vec2::new(raw(1_500_000), raw(-1_750_000))));
    assert_eq!(a.sub(b), Some(Vec2::new(raw(500_000), raw(-2_250_000))));
    assert_eq!(a.neg(), Some(Vec2::new(raw(-1_000_000), raw(2_000_000))));
    assert_eq!(Vec2::new(raw(i64::MAX), raw(0)).add(Vec2::new(raw(1), raw(0))), None);
    assert_eq!(Vec2::zero(), Vec2::new(raw(0), raw(0)));
}

#[test]
fn vector_scaling() {
    let a = Vec2::new(raw(3_000_000), raw(-4_000_000));
    assert_eq!(a.scale(raw(500_000)), Some(Vec2::new(raw(1_500_000), raw(-2_000_000))));
    assert_eq!(a.div(raw(2_000_000)), Some(Vec2::new(raw(1_500_000), raw(-2_000_000))));
    assert_eq!(a.div(raw(0)), None);
}

#[test]
fn vector_lengths() {
    let a = Vec2::new(raw(3_000_000), raw(-4_000_000));
    assert_eq!(a.length(), Some(raw(5_000_000)));
    assert_eq!(a.length_squared(), Some(raw(25_000_000)));
    assert_eq!(Vec2::new(raw(1_000_000), raw(1_000_000)).length(), Some(raw(1_414_213)));
    assert_eq!(Vec2::zero().length(), Some(raw(0)));
    // The length of the longest vector is more than the largest scalar.
    assert_eq!(Vec2::new(raw(i64::MAX), raw(i64::MAX)).length(), None);
    assert_eq!(Vec2::new(raw(i64::MIN), raw(0)).length(), None);
    assert_eq!(Vec2::new(raw(i64::MAX), raw(0)).length(), Some(raw(i64::MAX)));
}

#[test]
fn unit_vectors() {
    let a = Vec2::new(raw(3_000_000), raw(-4_000_000));
    assert_eq!(a.normalize(), Some(Vec2::new(raw(600_000), raw(-800_000))));
    assert_eq!(Vec2::new(raw(0), raw(7)).normalize(), Some(Vec2::new(raw(0), raw(1_000_000))));
    assert_eq!(Vec2::zero().normalize(), None);
}

#[test]
fn cross_products() {
    let a = Vec2::new(raw(2_000_000), raw(0));
    let b = Vec2::new(raw(0), raw(10_000_000));
    assert_eq!(a.cross(b), Some(raw(20_000_000)));
    assert_eq!(b.cross(a), Some(raw(-20_000_000)));
    assert_eq!(a.cross(a), Some(raw(0)));
    let big = Vec2::new(raw(i64::MIN), raw(i64::MIN));
    let other = Vec2::new(raw(i64::MAX), raw(i64::MIN));
    assert_eq!(big.cross(other), None);
}
