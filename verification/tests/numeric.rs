use shadow_oracle::arith::{clamp_i64, clamp_u64, mul_div, rescale, scale_magnitude};
use shadow_oracle::{
    depeg_confidence, ema_step, ema_step_unsigned, percentage_shift, to_decimal,
    to_decimal_unsigned, to_scaled, to_scaled_unsigned, Decimal,
};

fn parts(amount: Decimal) -> (i64, u32) {
    (amount.mantissa(), amount.scale())
}

#[test]
fn to_scaled_multiplies_and_cuts_off() {
    assert_eq!(to_scaled(Decimal::new(100, 0), 8), 10_000_000_000);
    assert_eq!(to_scaled(Decimal::new(1, 1), 8), 10_000_000);
    assert_eq!(to_scaled(Decimal::new(15, 1), 0), 1);
    assert_eq!(to_scaled(Decimal::new(-15, 1), 0), -1);
    assert_eq!(to_scaled(Decimal::new(19, 1), 0), 1);
    assert_eq!(to_scaled(Decimal::new(-19, 1), 0), -1);
    assert_eq!(to_scaled(Decimal::new(9, 1), 0), 0);
    assert_eq!(to_scaled(Decimal::new(0, 5), 3), 0);
    assert_eq!(to_scaled(Decimal::new(123_456_789, 8), 8), 123_456_789);
    assert_eq!(to_scaled(Decimal::new(123_456_789, 8), 6), 1_234_567);
    assert_eq!(to_scaled(Decimal::new(123_456_789, 8), 10), 12_345_678_900);
}

#[test]
fn to_scaled_clamps() {
    assert_eq!(to_scaled(Decimal::new(i64::MAX, 0), 1), i64::MAX);
    assert_eq!(to_scaled(Decimal::new(i64::MIN, 0), 1), i64::MIN);
    assert_eq!(to_scaled(Decimal::new(1, 0), u32::MAX), i64::MAX);
    assert_eq!(to_scaled(Decimal::new(-1, 0), u32::MAX), i64::MIN);
    assert_eq!(to_scaled_unsigned(Decimal::new(-1, 0), 8), 0);
    assert_eq!(to_scaled_unsigned(Decimal::new(i64::MAX, 0), 1), u64::MAX);
    assert_eq!(to_scaled_unsigned(Decimal::new(i64::MAX, 0), 0), i64::MAX as u64);
    assert_eq!(Decimal::new(1, 0).to_scaled(38), 10i128.pow(38));
    assert_eq!(Decimal::new(2, 0).to_scaled(38), i128::MAX);
    assert_eq!(Decimal::new(-2, 0).to_scaled(38), i128::MIN);
    assert_eq!(Decimal::new(i64::MIN, 16).to_scaled(0), -922);
}

#[test]
fn to_decimal_keeps_up_to_sixteen_digits() {
    assert_eq!(parts(to_decimal(10_050_000_000, 8)), (10_050_000_000, 8));
    assert_eq!(parts(to_decimal(-7, 0)), (-7, 0));
    assert_eq!(parts(to_decimal(5, 16)), (5, 16));
    assert_eq!(parts(to_decimal(12_345, 18)), (123, 16));
    assert_eq!(parts(to_decimal(-12_345, 18)), (-123, 16));
    assert_eq!(parts(to_decimal(i64::MIN, 17)), (i64::MIN / 10, 16));
    assert_eq!(parts(to_decimal(i64::MAX, u32::MAX)), (0, 16));
    assert_eq!(parts(to_decimal_unsigned(5_000_000, 8)), (5_000_000, 8));
    // beyond 64 signed bits a digit goes, and the mantissa is clamped only with none left
    assert_eq!(parts(to_decimal_unsigned(u64::MAX, 8)), (1_844_674_407_370_955_161, 7));
    assert_eq!(parts(to_decimal_unsigned(u64::MAX, 0)), (i64::MAX, 0));
    assert_eq!(parts(to_decimal_unsigned(12_345, 18)), (123, 16));
    assert_eq!(parts(to_decimal_unsigned(0, u32::MAX)), (0, 16));
}

#[test]
fn round_trip_stays_within_one_unit() {
    // 123.456789 at two digits is 123.45, less than one hundredth away, on the side of zero
    let value = Decimal::new(123_456_789, 6);
    let scaled = to_scaled(value, 2);
    assert_eq!(scaled, 12_345);
    let back = to_decimal(scaled, 2);
    assert_eq!(parts(back), (12_345, 2));
    let difference = value.mantissa() * 100 - back.mantissa() * 1_000_000;
    assert!(0 <= difference && difference < 1_000_000);
    // with digits to spare nothing is lost
    let scaled = to_scaled(value, 8);
    assert_eq!(scaled, 12_345_678_900);
    assert_eq!(to_scaled(to_decimal(scaled, 8), 6), 123_456_789);
    // negative amounts move toward zero too
    let value = Decimal::new(-123_456_789, 6);
    assert_eq!(to_scaled(value, 2), -12_345);
    // the other way round is exact
    for scaled in [0i64, 1, -1, 10_000_000_000, i64::MAX, i64::MIN] {
        assert_eq!(to_scaled(to_decimal(scaled, 8), 8), scaled);
    }
}

#[test]
fn ema_step_is_the_weighted_mean_cut_off() {
    assert_eq!(ema_step(100, 200, 9), 110);
    assert_eq!(ema_step(100, 105, 9), 100);
    assert_eq!(ema_step(-100, -105, 9), -100);
    assert_eq!(ema_step(-100, -200, 9), -110);
    assert_eq!(ema_step(0, 9, 9), 0);
    assert_eq!(ema_step(0, 10, 9), 1);
    assert_eq!(ema_step(-1, 1, 9), 0);
    assert_eq!(ema_step(7, 7, 9), 7);
    assert_eq!(ema_step(5, 100, 0), 100);
    assert_eq!(ema_step(i64::MAX, i64::MAX, 9), i64::MAX);
    assert_eq!(ema_step(i64::MIN, i64::MIN, u32::MAX), i64::MIN);
    assert_eq!(ema_step(i64::MAX, i64::MIN, 1), 0);
    assert_eq!(ema_step_unsigned(100, 200, 9), 110);
    assert_eq!(ema_step_unsigned(u64::MAX, u64::MAX, 9), u64::MAX);
    assert_eq!(ema_step_unsigned(u64::MAX, 0, 9), u64::MAX / 10 * 9 + 4);
    assert_eq!(ema_step_unsigned(0, 9, 9), 0);
}

#[test]
fn ema_approaches_a_constant_value() {
    // from above a positive value the average reaches the value itself
    let mut average = 1_000i64;
    let mut gap = average - 500;
    for _ in 0..500 {
        average = ema_step(average, 500, 9);
        assert!(average >= 500);
        assert!(average - 500 <= gap);
        gap = average - 500;
    }
    assert_eq!(average, 500);
    // from below it stops within the weight: rounding toward zero holds it back
    let mut average = 0i64;
    let mut gap = 500 - average;
    for _ in 0..500 {
        average = ema_step(average, 500, 9);
        assert!(average <= 500);
        assert!(500 - average <= gap);
        gap = 500 - average;
    }
    assert_eq!(average, 491);
    // a gap within the weight, below the value, stays
    assert_eq!(ema_step(0, 9, 9), 0);
}

#[test]
fn percentage_shift_lowers_by_the_share() {
    assert_eq!(percentage_shift(10_000_000_000, Decimal::new(50, 0)), 5_000_000_000);
    assert_eq!(percentage_shift(15_000_000_000, Decimal::new(50, 0)), 7_500_000_000);
    assert_eq!(percentage_shift(1_000, Decimal::new(125, 1)), 875);
    assert_eq!(percentage_shift(3, Decimal::new(50, 0)), 1);
    assert_eq!(percentage_shift(-3, Decimal::new(50, 0)), -1);
    assert_eq!(percentage_shift(1, Decimal::new(1, 16)), 0);
    assert_eq!(percentage_shift(1_000, Decimal::new(0, 0)), 1_000);
    assert_eq!(percentage_shift(1_000, Decimal::new(100, 0)), 0);
    assert_eq!(percentage_shift(1_000, Decimal::new(150, 0)), -500);
    assert_eq!(percentage_shift(1_000, Decimal::new(-50, 0)), 1_500);
    assert_eq!(percentage_shift(i64::MAX, Decimal::new(-100, 0)), i64::MAX);
    assert_eq!(percentage_shift(i64::MAX, Decimal::new(300, 0)), i64::MIN);
    assert_eq!(percentage_shift(i64::MIN, Decimal::new(i64::MIN, 16)), i64::MIN);
    let price = Decimal::new(10_000_000_000, 8);
    assert_eq!(parts(price.shifted_by(Decimal::new(50, 0))), (500_000_000_000, 10));
    assert_eq!(parts(Decimal::new(1, 0).shifted_by(Decimal::new(50, 0))), (50, 2));
    assert_eq!(parts(Decimal::new(1, 0).shifted_by(Decimal::new(125, 1))), (875, 3));
    assert_eq!(parts(Decimal::new(-3, 1).shifted_by(Decimal::new(150, 0))), (150, 3));
    // more digits than sixteen: the last are dropped toward zero
    assert_eq!(
        parts(Decimal::new(1_111_111_111_111_111, 15).shifted_by(Decimal::new(50, 0))),
        (5_555_555_555_555_555, 16)
    );
    assert_eq!(
        parts(Decimal::new(i64::MAX, 0).shifted_by(Decimal::new(-100, 0))),
        (i64::MAX, 0)
    );
    assert_eq!(parts(price.times(5)), (50_000_000_000, 8));
    assert_eq!(
        parts(Decimal::new(2_000_000_000_000_000_000, 16).times(5)),
        (1_000_000_000_000_000_000, 15)
    );
    assert_eq!(parts(Decimal::new(i64::MAX, 3).times(5)), (4_611_686_018_427_387_903, 2));
    assert_eq!(parts(Decimal::new(i64::MAX, 0).times(5)), (i64::MAX, 0));
    assert_eq!(parts(Decimal::new(i64::MIN, 3).times(u64::MAX)), (i64::MIN, 0));
    assert_eq!(parts(Decimal::fit(i128::MIN, 40)), (-170_141_183_460_469, 16));
}

#[test]
fn depeg_confidence_grows_with_the_distance() {
    // |1 - 0.95| * 0.1 + 0.001 = 0.006
    assert_eq!(parts(depeg_confidence(Decimal::new(95, 2))), (6, 3));
    assert_eq!(parts(depeg_confidence(Decimal::new(105, 2))), (6, 3));
    assert_eq!(parts(depeg_confidence(Decimal::new(1, 0))), (1, 3));
    assert_eq!(parts(depeg_confidence(Decimal::new(2, 0))), (101, 3));
    assert_eq!(parts(depeg_confidence(Decimal::new(-1, 0))), (201, 3));
    assert_eq!(parts(depeg_confidence(Decimal::new(5, 1))), (51, 3));
    assert_eq!(parts(depeg_confidence(Decimal::new(999, 3))), (11, 4));
    assert_eq!(parts(depeg_confidence(Decimal::new(95_000_000, 8))), (6_000_000, 9));
    // at full scale the last digit of the distance is cut off
    assert_eq!(
        parts(depeg_confidence(Decimal::new(9_999_999_999_999_995, 16))),
        (10_000_000_000_000, 16)
    );
    assert_eq!(
        parts(depeg_confidence(Decimal::new(9_999_999_999_999_985, 16))),
        (10_000_000_000_001, 16)
    );
    assert_eq!(parts(depeg_confidence(Decimal::new(i64::MIN, 0))), (i64::MAX, 3));
}

#[test]
fn rescale_is_exact_where_it_fits() {
    assert_eq!(rescale(5, 0, 3), 5_000);
    assert_eq!(rescale(5_999, 3, 0), 5);
    assert_eq!(rescale(-5_999, 3, 0), -5);
    assert_eq!(rescale(0, 7, 1_000_000), 0);
    assert_eq!(rescale(i128::MIN, 0, 0), i128::MIN);
    assert_eq!(rescale(i128::MIN, 1, 0), i128::MIN / 10);
    assert_eq!(rescale(i128::MIN, u32::MAX, 0), 0);
    assert_eq!(rescale(i128::MAX, 0, 1), i128::MAX);
    assert_eq!(rescale(-1, 0, 39), i128::MIN);
    assert_eq!(scale_magnitude(u128::MAX, 0, 0), Some(u128::MAX));
    assert_eq!(scale_magnitude(u128::MAX, 0, 1), None);
    assert_eq!(scale_magnitude(u128::MAX, 38, 0), Some(3));
    assert_eq!(scale_magnitude(7, 2, 5), Some(7_000));
    assert_eq!(mul_div(7, -3, 2), -10);
    assert_eq!(mul_div(-7, -3, 2), 10);
    assert_eq!(clamp_i64(i128::MAX), i64::MAX);
    assert_eq!(clamp_i64(-5), -5);
    assert_eq!(clamp_u64(-5), 0);
    assert_eq!(clamp_u64(i128::MAX), u64::MAX);
}

#[test]
fn decimals_cut_digits_beyond_sixteen() {
    assert_eq!(parts(Decimal::new(1_234, 18)), (12, 16));
    assert_eq!(parts(Decimal::new(-1_299, 18)), (-12, 16));
    assert_eq!(parts(Decimal::new(1, 16)), (1, 16));
    assert_eq!(Decimal::new(5, 1), Decimal::new(5, 1));
    assert_ne!(Decimal::new(5, 1), Decimal::new(50, 2));
}
