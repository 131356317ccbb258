use launch_angle::fixed::{Fixed, MAX_RAW, NAN_RAW, SCALE};

fn fx(raw: i64) -> Fixed {
    Fixed::from_raw(raw)
}

#[test]
fn whole_numbers_and_ratios_are_exact_decimals() {
    assert_eq!(SCALE, 1_000_000_000_000);
    assert_eq!(Fixed::from_int(90).raw, 90_000_000_000_000);
    assert_eq!(Fixed::from_int(-3).raw, -3_000_000_000_000);
    assert_eq!(Fixed::from_ratio(21, 10).raw, 2_100_000_000_000);
    assert_eq!(Fixed::from_ratio(2, 100_000).raw, 20_000_000);
    assert_eq!(Fixed::from_ratio(-1, 3).raw, -333_333_333_333);
    assert_eq!(Fixed::from_ratio(1, -3).raw, -333_333_333_333);
    assert_eq!(Fixed::from_ratio(-1, -3).raw, 333_333_333_333);
    assert_eq!(Fixed::zero().raw, 0);
}

#[test]
fn out_of_range_constructions_are_not_numbers() {
    assert!(Fixed::from_int(9_223_373).is_nan());
    assert!(!Fixed::from_int(9_223_372).is_nan());
    assert!(Fixed::from_int(-9_223_373).is_nan());
    assert!(Fixed::from_ratio(1, 0).is_nan());
    assert!(Fixed::from_ratio(i64::MAX, 1).is_nan());
    assert!(Fixed::from_raw(NAN_RAW).is_nan());
    assert!(Fixed::nan().is_nan());
    assert_eq!(Fixed::nan().raw, i64::MIN);
    assert!(!Fixed::from_raw(MAX_RAW).is_nan());
    assert!(!Fixed::from_raw(-MAX_RAW).is_nan());
}

#[test]
fn sums_and_differences() {
    assert_eq!(fx(5).add(fx(-7)), fx(-2));
    assert_eq!(fx(5).sub(fx(-7)), fx(12));
    assert_eq!(fx(MAX_RAW).add(fx(0)), fx(MAX_RAW));
    assert!(fx(MAX_RAW).add(fx(1)).is_nan());
    assert!(fx(-MAX_RAW).sub(fx(1)).is_nan());
    assert_eq!(fx(-MAX_RAW).add(fx(MAX_RAW)), fx(0));
}

#[test]
fn product_is_cut_off_toward_zero() {
    let third = Fixed::from_ratio(1, 3);
    assert_eq!(third.mul(third).raw, 111_111_111_110);
    assert_eq!(third.neg().mul(third).raw, -111_111_111_110);
    assert_eq!(third.mul(third.neg()).raw, -111_111_111_110);
    assert_eq!(third.neg().mul(third.neg()).raw, 111_111_111_110);
    assert_eq!(fx(1).mul(fx(999_999_999_999)).raw, 0);
    assert_eq!(fx(-1).mul(fx(999_999_999_999)).raw, 0);
    assert_eq!(Fixed::from_ratio(21, 10).mul(Fixed::from_int(2)).raw, 4_200_000_000_000);
    assert_eq!(Fixed::from_ratio(98, 10).mul(Fixed::from_ratio(2, 100_000)).raw, 196_000_000);
}

#[test]
fn product_out_of_range_is_not_a_number() {
    assert!(Fixed::from_int(9_000_000).mul(Fixed::from_int(9_000_000)).is_nan());
    assert!(fx(MAX_RAW).mul(fx(MAX_RAW)).is_nan());
    assert_eq!(fx(MAX_RAW).mul(Fixed::from_int(1)), fx(MAX_RAW));
    assert_eq!(fx(MAX_RAW).mul(Fixed::from_int(-1)), fx(-MAX_RAW));
}

#[test]
fn quotient_is_cut_off_toward_zero() {
    assert_eq!(Fixed::from_int(1).div(Fixed::from_int(3)).raw, 333_333_333_333);
    assert_eq!(Fixed::from_int(-1).div(Fixed::from_int(3)).raw, -333_333_333_333);
    assert_eq!(Fixed::from_int(1).div(Fixed::from_int(-3)).raw, -333_333_333_333);
    assert_eq!(Fixed::from_int(-2).div(Fixed::from_int(-3)).raw, 666_666_666_666);
    assert_eq!(Fixed::from_int(45).div(Fixed::from_int(90)).raw, 500_000_000_000);
    assert_eq!(
        Fixed::from_ratio(1293, 1000).div(Fixed::from_ratio(15, 10)).raw,
        862_000_000_000
    );
    assert!(Fixed::from_int(1).div(Fixed::zero()).is_nan());
    assert!(Fixed::from_int(9_000_000).div(fx(1)).is_nan());
}

#[test]
fn sign_and_size() {
    assert_eq!(fx(-5).abs(), fx(5));
    assert_eq!(fx(5).abs(), fx(5));
    assert_eq!(fx(-MAX_RAW).abs(), fx(MAX_RAW));
    assert_eq!(fx(5).neg(), fx(-5));
    assert_eq!(fx(0).neg(), fx(0));
    assert_eq!(fx(7).half(), fx(3));
    assert_eq!(fx(-7).half(), fx(-3));
    assert_eq!(fx(20_000_000).half(), fx(10_000_000));
    assert_eq!(Fixed::from_ratio(-29, 10).whole(), -2);
    assert_eq!(Fixed::from_ratio(29, 10).whole(), 2);
    assert_eq!(Fixed::from_int(80).whole(), 80);
    assert_eq!(Fixed::nan().whole(), 0);
}

#[test]
fn not_a_number_passes_through_arithmetic() {
    let nan = Fixed::nan();
    let one = Fixed::from_int(1);
    assert!(nan.add(one).is_nan());
    assert!(one.add(nan).is_nan());
    assert!(nan.sub(one).is_nan());
    assert!(one.sub(nan).is_nan());
    assert!(nan.mul(Fixed::zero()).is_nan());
    assert!(Fixed::zero().mul(nan).is_nan());
    assert!(nan.div(one).is_nan());
    assert!(one.div(nan).is_nan());
    assert!(nan.neg().is_nan());
    assert!(nan.abs().is_nan());
    assert!(nan.half().is_nan());
}

#[test]
fn comparisons_with_not_a_number_are_false() {
    let nan = Fixed::nan();
    let one = Fixed::from_int(1);
    assert!(!nan.lt(one) && !nan.le(one) && !nan.gt(one) && !nan.ge(one));
    assert!(!one.lt(nan) && !one.le(nan) && !one.gt(nan) && !one.ge(nan));
    assert!(!nan.le(nan) && !nan.ge(nan));
    assert!(!nan.same_sign(one) && !one.same_sign(nan) && !nan.same_sign(nan));
}

#[test]
fn comparisons_of_numbers() {
    let a = Fixed::from_ratio(-1, 2);
    let b = Fixed::from_ratio(1, 2);
    assert!(a.lt(b) && a.le(b) && !a.gt(b) && !a.ge(b));
    assert!(b.gt(a) && b.ge(a) && !b.lt(a) && !b.le(a));
    assert!(a.le(a) && a.ge(a) && !a.lt(a) && !a.gt(a));
}

#[test]
fn zero_counts_as_positive() {
    let zero = Fixed::zero();
    assert!(zero.same_sign(Fixed::from_int(1)));
    assert!(!zero.same_sign(Fixed::from_int(-1)));
    assert!(Fixed::from_int(-1).same_sign(Fixed::from_raw(-1)));
    assert!(!Fixed::from_int(-1).same_sign(Fixed::from_raw(1)));
}
