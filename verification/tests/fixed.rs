use xpbd::fixed::{isqrt, saturate, scale_ratio, Fixed, SCALE};
use xpbd::vec2::Vec2;

fn raw(value: i64) -> Fixed {
    Fixed::from_raw(value)
}

#[test]
fn isqrt_rounds_down() {
    assert_eq!(isqrt(0), 0);
    assert_eq!(isqrt(1), 1);
    assert_eq!(isqrt(2), 1);
    assert_eq!(isqrt(3), 1);
    assert_eq!(isqrt(4), 2);
    assert_eq!(isqrt(99), 9);
    assert_eq!(isqrt(100), 10);
    assert_eq!(isqrt(1_000_000_000_000_000_000), 1_000_000_000);
    assert_eq!(isqrt(u128::MAX), u64::MAX);
    assert_eq!(isqrt((u64::MAX as u128) * (u64::MAX as u128) - 1), u64::MAX - 1);
}

#[test]
fn from_int_and_from_ratio() {
    assert_eq!(Fixed::from_int(20), raw(20 * SCALE));
    assert_eq!(Fixed::from_int(-3), raw(-3 * SCALE));
    assert_eq!(Fixed::from_ratio(9, 10), raw(900_000_000));
    assert_eq!(Fixed::from_ratio(1, 3), raw(333_333_333));
    assert_eq!(Fixed::from_ratio(-1, 3), raw(-333_333_333));
    assert_eq!(Fixed::from_ratio(i64::MAX, 1), raw(i64::MAX));
}

#[test]
fn sums_are_held_in_range() {
    assert_eq!(raw(5).add(raw(-7)), raw(-2));
    assert_eq!(raw(i64::MAX).add(raw(1)), raw(i64::MAX));
    assert_eq!(raw(i64::MIN).add(raw(-1)), raw(i64::MIN));
    assert_eq!(raw(i64::MIN).sub(raw(1)), raw(i64::MIN));
    assert_eq!(raw(i64::MAX).sub(raw(-1)), raw(i64::MAX));
    assert_eq!(raw(3).sub(raw(5)), raw(-2));
    assert_eq!(raw(i64::MIN).neg(), raw(i64::MAX));
    assert_eq!(raw(7).neg(), raw(-7));
    assert_eq!(raw(i64::MIN).abs(), raw(i64::MAX));
    assert_eq!(raw(-7).abs(), raw(7));
    assert_eq!(raw(7).abs(), raw(7));
}

#[test]
fn products_round_toward_zero() {
    assert_eq!(raw(1_500_000_000).mul(raw(2_000_000_000)), raw(3_000_000_000));
    assert_eq!(raw(1).mul(raw(999_999_999)), raw(0));
    assert_eq!(raw(-1).mul(raw(999_999_999)), raw(0));
    assert_eq!(raw(3).mul(raw(500_000_000)), raw(1));
    assert_eq!(raw(-3).mul(raw(500_000_000)), raw(-1));
    assert_eq!(raw(i64::MAX).mul(raw(i64::MAX)), raw(i64::MAX));
    assert_eq!(raw(i64::MIN).mul(raw(i64::MAX)), raw(i64::MIN));
    assert_eq!(raw(7).mul_int(-3), raw(-21));
    assert_eq!(raw(i64::MAX).mul_int(2), raw(i64::MAX));
    assert_eq!(raw(7).div_int(2), raw(3));
    assert_eq!(raw(-7).div_int(2), raw(-3));
}

#[test]
fn signum_of_zero_is_one() {
    assert_eq!(raw(0).signum(), raw(SCALE));
    assert_eq!(raw(1).signum(), raw(SCALE));
    assert_eq!(raw(-1).signum(), raw(-SCALE));
}

#[test]
fn ratios_round_toward_zero_and_saturate() {
    assert_eq!(scale_ratio(7, 2, 3), raw(4));
    assert_eq!(scale_ratio(-7, 2, 3), raw(-4));
    assert_eq!(scale_ratio(i64::MAX, i64::MAX, 1), raw(i64::MAX));
    assert_eq!(scale_ratio(i64::MIN, i64::MAX, 1), raw(i64::MIN));
    assert_eq!(saturate(i128::MAX), raw(i64::MAX));
    assert_eq!(saturate(i128::MIN), raw(i64::MIN));
    assert_eq!(saturate(-5), raw(-5));
}

#[test]
fn vector_operations_work_by_component() {
    let a = Vec2::new(raw(3), raw(-4));
    let b = Vec2::new(raw(10), raw(20));
    assert_eq!(a.add(b), Vec2::new(raw(13), raw(16)));
    assert_eq!(a.sub(b), Vec2::new(raw(-7), raw(-24)));
    assert_eq!(a.neg(), Vec2::new(raw(-3), raw(4)));
    assert_eq!(a.abs(), Vec2::new(raw(3), raw(4)));
    assert_eq!(a.mul_int(600), Vec2::new(raw(1800), raw(-2400)));
    assert_eq!(b.div_int(3), Vec2::new(raw(3), raw(6)));
    assert_eq!(a.scale(raw(2 * SCALE)), Vec2::new(raw(6), raw(-8)));
    assert_eq!(a.length_squared(), 25);
    assert_eq!(a.length(), raw(5));
    assert_eq!(Vec2::splat(raw(2)), Vec2::new(raw(2), raw(2)));
    assert_eq!(Vec2::zero(), Vec2::new(raw(0), raw(0)));
}

#[test]
fn dot_product_rounds_each_product() {
    let a = Vec2::new(raw(3 * SCALE), raw(4 * SCALE));
    let b = Vec2::new(raw(2 * SCALE), raw(-SCALE));
    assert_eq!(a.dot(b), raw(2 * SCALE));
    let tiny = Vec2::new(raw(1), raw(1));
    let half = Vec2::new(raw(SCALE / 2), raw(SCALE / 2));
    assert_eq!(tiny.dot(half), raw(0));
}

#[test]
fn length_at_the_ends_of_the_range() {
    let corner = Vec2::new(raw(i64::MIN), raw(i64::MIN));
    assert_eq!(corner.length_squared(), 1u128 << 127);
    assert_eq!(corner.length(), raw(i64::MAX));
}

#[test]
fn normalize_or_zero_gives_directions() {
    assert_eq!(Vec2::zero().normalize_or_zero(), Vec2::zero());
    assert_eq!(Vec2::new(raw(3), raw(4)).normalize_or_zero(), Vec2::new(raw(600_000_000), raw(800_000_000)));
    assert_eq!(Vec2::new(raw(1), raw(1)).normalize_or_zero(), Vec2::new(raw(707_106_781), raw(707_106_781)));
    assert_eq!(Vec2::new(raw(-7), raw(0)).normalize_or_zero(), Vec2::new(raw(-SCALE), raw(0)));
    assert_eq!(
        Vec2::new(raw(i64::MIN), raw(i64::MIN)).normalize_or_zero(),
        Vec2::new(raw(-707_106_781), raw(-707_106_781))
    );
    assert_eq!(
        Vec2::new(raw(i64::MAX), raw(0)).normalize_or_zero(),
        Vec2::new(raw(SCALE), raw(0))
    );
    assert_eq!(
        Vec2::new(raw(1), raw(i64::MIN)).normalize_or_zero(),
        Vec2::new(raw(0), raw(-SCALE))
    );
}
