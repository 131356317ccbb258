use launch_angle::fixed::Fixed;
use launch_angle::math_helpers::MathHelpers;

#[test]
fn rounding_goes_to_the_nearest_step() {
    let step = Fixed::from_ratio(1, 10);
    assert_eq!(Fixed::from_ratio(234, 1000).round_nearest(step), Fixed::from_ratio(2, 10));
    assert_eq!(Fixed::from_ratio(251, 1000).round_nearest(step), Fixed::from_ratio(3, 10));
    assert_eq!(Fixed::from_ratio(-234, 1000).round_nearest(step), Fixed::from_ratio(-2, 10));
    assert_eq!(Fixed::from_raw(49_999_999_999).round_nearest(step), Fixed::zero());
    assert_eq!(Fixed::from_raw(-49_999_999_999).round_nearest(step), Fixed::zero());
}

#[test]
fn halves_round_away_from_zero() {
    let step = Fixed::from_ratio(1, 10);
    assert_eq!(Fixed::from_ratio(25, 100).round_nearest(step), Fixed::from_ratio(3, 10));
    assert_eq!(Fixed::from_ratio(-25, 100).round_nearest(step), Fixed::from_ratio(-3, 10));
    assert_eq!(Fixed::from_ratio(5, 100).round_nearest(step), Fixed::from_ratio(1, 10));
    assert_eq!(Fixed::from_int(3).round_nearest(Fixed::from_int(2)), Fixed::from_int(4));
    assert_eq!(Fixed::from_int(-3).round_nearest(Fixed::from_int(2)), Fixed::from_int(-4));
}

#[test]
fn the_sign_of_the_step_plays_no_part() {
    let value = Fixed::from_ratio(234, 1000);
    assert_eq!(
        value.round_nearest(Fixed::from_ratio(-1, 10)),
        value.round_nearest(Fixed::from_ratio(1, 10))
    );
    assert_eq!(
        Fixed::from_ratio(-25, 100).round_nearest(Fixed::from_ratio(-1, 10)),
        Fixed::from_ratio(-3, 10)
    );
}

#[test]
fn rounding_an_on_step_value_returns_it_unchanged() {
    let steps = [Fixed::from_ratio(1, 10), Fixed::from_ratio(1, 2), Fixed::from_int(1)];
    for step in steps {
        for count in -200i64..=200 {
            let on_step = Fixed::from_raw(count * step.raw);
            assert_eq!(on_step.round_nearest(step), on_step);
        }
    }
}

#[test]
fn rounding_twice_is_rounding_once() {
    let steps = [Fixed::from_ratio(1, 10), Fixed::from_ratio(1, 2), Fixed::from_int(1)];
    for step in steps {
        for k in -300i64..=300 {
            let value = Fixed::from_raw(k * 37_000_000_001);
            let once = value.round_nearest(step);
            assert_eq!(once.round_nearest(step), once);
            assert_eq!(once.raw % step.raw, 0);
            assert!(2 * (once.raw - value.raw).abs() <= step.raw);
        }
    }
}

#[test]
fn rounding_passes_not_a_number_on() {
    let step = Fixed::from_ratio(1, 10);
    assert!(Fixed::nan().round_nearest(step).is_nan());
    assert!(Fixed::from_int(1).round_nearest(Fixed::nan()).is_nan());
}

#[test]
fn rounding_out_of_range_is_not_a_number() {
    let top = Fixed::from_raw(i64::MAX);
    assert!(top.round_nearest(Fixed::from_int(6_000_000)).is_nan());
    assert_eq!(top.round_nearest(Fixed::from_int(1_000_000)), Fixed::from_int(9_000_000));
    assert_eq!(top.round_nearest(Fixed::from_raw(1)), top);
}
