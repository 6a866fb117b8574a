use particle_life::fixed::{isqrt, narrow, Fixed, SCALE};
use particle_life::vector::{magnitude, Vec2};

fn fx(raw: i64) -> Fixed {
    Fixed::from_raw(raw)
}

#[test]
fn scale_is_a_million() {
    assert_eq!(SCALE, 1_000_000);
    assert_eq!(Fixed::from_int(3).raw, 3_000_000);
    assert_eq!(Fixed::from_int(-7).raw, -7_000_000);
    assert_eq!(Fixed::from_int(i32::MAX).raw, 2_147_483_647_000_000);
    assert_eq!(Fixed::zero().raw, 0);
}

#[test]
fn isqrt_rounds_down() {
    assert_eq!(isqrt(0), 0);
    assert_eq!(isqrt(1), 1);
    assert_eq!(isqrt(3), 1);
    assert_eq!(isqrt(4), 2);
    assert_eq!(isqrt(99), 9);
    assert_eq!(isqrt(100), 10);
    assert_eq!(isqrt(1_000_000_000_000), 1_000_000);
    assert_eq!(isqrt(999_999_999_999), 999_999);
}

#[test]
fn isqrt_of_the_largest_number() {
    assert_eq!(isqrt(u128::MAX), u64::MAX);
    assert_eq!(isqrt((u64::MAX as u128) * (u64::MAX as u128)), u64::MAX);
    assert_eq!(isqrt((u64::MAX as u128) * (u64::MAX as u128) - 1), u64::MAX - 1);
}

#[test]
fn narrow_saturates() {
    assert_eq!(narrow(5), 5);
    assert_eq!(narrow(-5), -5);
    assert_eq!(narrow(i64::MAX as i128 + 1), i64::MAX);
    assert_eq!(narrow(i64::MIN as i128 - 1), i64::MIN);
    assert_eq!(narrow(i128::MAX), i64::MAX);
    assert_eq!(narrow(i128::MIN), i64::MIN);
}

#[test]
fn sums_and_differences() {
    assert_eq!(fx(1_500_000).plus(fx(2_250_000)), fx(3_750_000));
    assert_eq!(fx(1_500_000).minus(fx(2_250_000)), fx(-750_000));
    assert_eq!(fx(1_500_000).negated(), fx(-1_500_000));
}

#[test]
fn sums_saturate() {
    assert_eq!(fx(i64::MAX).plus(fx(1)), fx(i64::MAX));
    assert_eq!(fx(i64::MIN).minus(fx(1)), fx(i64::MIN));
    assert_eq!(fx(i64::MIN).negated(), fx(i64::MAX));
    assert_eq!(fx(i64::MAX).minus(fx(i64::MIN)), fx(i64::MAX));
}

#[test]
fn products_round_toward_zero() {
    assert_eq!(fx(1_500_000).times(fx(2_000_000)), fx(3_000_000));
    assert_eq!(fx(3).times(fx(500_000)), fx(1));
    assert_eq!(fx(-3).times(fx(500_000)), fx(-1));
    assert_eq!(fx(1).times(fx(999_999)), fx(0));
    assert_eq!(fx(-1).times(fx(999_999)), fx(0));
    assert_eq!(fx(-2_000_000).times(fx(-2_000_000)), fx(4_000_000));
}

#[test]
fn products_saturate() {
    assert_eq!(fx(i64::MAX).times(fx(2_000_000)), fx(i64::MAX));
    assert_eq!(fx(i64::MAX).times(fx(-2_000_000)), fx(i64::MIN));
    assert_eq!(fx(i64::MIN).times(fx(i64::MIN)), fx(i64::MAX));
}

#[test]
fn quotients_round_toward_zero() {
    assert_eq!(fx(1_000_000).over(fx(4_000_000)), fx(250_000));
    assert_eq!(fx(1_000_000).over(fx(3_000_000)), fx(333_333));
    assert_eq!(fx(-1_000_000).over(fx(3_000_000)), fx(-333_333));
    assert_eq!(fx(1_000_000).over(fx(-3_000_000)), fx(-333_333));
    assert_eq!(fx(-1_000_000).over(fx(-3_000_000)), fx(333_333));
    assert_eq!(fx(7_000_000).over(fx(2_000_000)), fx(3_500_000));
}

#[test]
fn quotients_saturate() {
    assert_eq!(fx(i64::MAX).over(fx(1)), fx(i64::MAX));
    assert_eq!(fx(i64::MIN).over(fx(1)), fx(i64::MIN));
    assert_eq!(fx(i64::MIN).over(fx(-1)), fx(i64::MAX));
}

#[test]
fn square_roots() {
    assert_eq!(Fixed::from_int(100).sqrt(), Fixed::from_int(10));
    assert_eq!(Fixed::from_int(4).sqrt(), Fixed::from_int(2));
    assert_eq!(Fixed::from_int(2).sqrt(), fx(1_414_213));
    assert_eq!(fx(250_000).sqrt(), fx(500_000));
    assert_eq!(fx(0).sqrt(), fx(0));
    assert_eq!(fx(-4_000_000).sqrt(), fx(0));
    assert_eq!(fx(i64::MAX).sqrt(), fx(3_037_000_499_976));
}

#[test]
fn magnitudes() {
    assert_eq!(magnitude(0), 0);
    assert_eq!(magnitude(-5), 5);
    assert_eq!(magnitude(5), 5);
    assert_eq!(magnitude(i64::MIN), 1u128 << 63);
}

#[test]
fn vector_arithmetic() {
    let a = Vec2::new(fx(3_000_000), fx(-4_000_000));
    let b = Vec2::new(fx(1_000_000), fx(1_000_000));
    assert_eq!(a.plus(b), Vec2::new(fx(4_000_000), fx(-3_000_000)));
    assert_eq!(a.minus(b), Vec2::new(fx(2_000_000), fx(-5_000_000)));
    assert_eq!(a.negated(), Vec2::new(fx(-3_000_000), fx(4_000_000)));
    assert_eq!(a.scaled(fx(500_000)), Vec2::new(fx(1_500_000), fx(-2_000_000)));
    assert_eq!(a.shrunk(fx(2_000_000)), Vec2::new(fx(1_500_000), fx(-2_000_000)));
    assert_eq!(Vec2::zero(), Vec2::new(fx(0), fx(0)));
}

#[test]
fn lengths() {
    let a = Vec2::new(fx(3_000_000), fx(-4_000_000));
    assert_eq!(a.length_squared(), 25_000_000_000_000);
    assert_eq!(a.length(), fx(5_000_000));
    assert_eq!(Vec2::new(fx(1_000_000), fx(1_000_000)).length(), fx(1_414_213));
    assert_eq!(Vec2::zero().length(), fx(0));
}

#[test]
fn length_of_the_longest_vector_saturates() {
    let far = Vec2::new(fx(i64::MIN), fx(i64::MIN));
    assert_eq!(far.length_squared(), 1u128 << 127);
    assert_eq!(far.length(), fx(i64::MAX));
}

#[test]
fn directions() {
    let a = Vec2::new(fx(3_000_000), fx(-4_000_000));
    assert_eq!(a.normalized(), Vec2::new(fx(600_000), fx(-800_000)));
    assert_eq!(Vec2::new(fx(0), fx(7)).normalized(), Vec2::new(fx(0), fx(1_000_000)));
    assert_eq!(Vec2::zero().normalized(), Vec2::zero());
}
