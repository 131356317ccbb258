use launch_angle::constants::{Decomposition, Physics};
use launch_angle::fixed::Fixed;
use launch_angle::integrators::physics_helpers::{
    calculate_drag_factors, calculate_initial_velocities, calculate_initial_velocities_linear,
    drag_deceleration, launch_velocities, vertical_weight,
};
use launch_angle::integrators::trigonometry::sine_cosine;

fn fx(raw: i64) -> Fixed {
    Fixed::from_raw(raw)
}

#[test]
fn sine_and_cosine_are_exact_at_the_quarter_turns() {
    assert_eq!(sine_cosine(Fixed::from_int(0)), (fx(0), fx(1_000_000_000_000)));
    assert_eq!(sine_cosine(Fixed::from_int(90)), (fx(1_000_000_000_000), fx(0)));
    assert_eq!(sine_cosine(Fixed::from_int(180)), (fx(0), fx(-1_000_000_000_000)));
    assert_eq!(sine_cosine(Fixed::from_int(270)), (fx(-1_000_000_000_000), fx(0)));
    assert_eq!(sine_cosine(Fixed::from_int(360)), (fx(0), fx(1_000_000_000_000)));
    assert_eq!(sine_cosine(Fixed::from_int(-90)), (fx(-1_000_000_000_000), fx(0)));
}

#[test]
fn sine_and_cosine_at_chosen_angles() {
    assert_eq!(sine_cosine(Fixed::from_int(30)), (fx(500_000_000_000), fx(866_025_403_785)));
    assert_eq!(sine_cosine(Fixed::from_int(60)), (fx(866_025_403_785), fx(500_000_000_000)));
    assert_eq!(sine_cosine(Fixed::from_int(45)), (fx(707_106_781_186), fx(707_106_781_187)));
    assert_eq!(sine_cosine(Fixed::from_int(120)), (fx(866_025_403_785), fx(-500_000_000_000)));
    assert_eq!(sine_cosine(Fixed::from_int(-30)), (fx(-500_000_000_000), fx(866_025_403_785)));
    assert_eq!(sine_cosine(Fixed::from_int(225)), (fx(-707_106_781_186), fx(-707_106_781_187)));
    assert_eq!(
        sine_cosine(Fixed::from_ratio(375, 10)),
        (fx(608_761_429_008), fx(793_353_340_293))
    );
}

#[test]
fn sine_and_cosine_are_close_to_the_true_values() {
    for tenth in -7200i64..=7200 {
        let (sine, cosine) = sine_cosine(Fixed::from_ratio(tenth, 10));
        let radians = (tenth as f64 / 10.0).to_radians();
        assert!((sine.raw as f64 / 1e12 - radians.sin()).abs() < 1e-11);
        assert!((cosine.raw as f64 / 1e12 - radians.cos()).abs() < 1e-11);
        assert!(sine.raw.abs() <= 1_000_000_000_000);
        assert!(cosine.raw.abs() <= 1_000_000_000_000);
    }
}

#[test]
fn sine_and_cosine_of_not_a_number() {
    let (sine, cosine) = sine_cosine(Fixed::nan());
    assert!(sine.is_nan() && cosine.is_nan());
}

#[test]
fn initial_velocities_at_the_ends_trigonometric() {
    for speed in [Fixed::from_int(10), Fixed::from_ratio(75, 10), Fixed::from_int(-4), fx(1)] {
        assert_eq!(calculate_initial_velocities(Fixed::from_int(0), speed), (speed, fx(0)));
        assert_eq!(calculate_initial_velocities(Fixed::from_int(90), speed), (fx(0), speed));
    }
}

#[test]
fn initial_velocities_at_the_ends_linear() {
    for speed in [Fixed::from_int(10), Fixed::from_ratio(75, 10), Fixed::from_int(-4), fx(1)] {
        assert_eq!(calculate_initial_velocities_linear(Fixed::from_int(0), speed), (speed, fx(0)));
        assert_eq!(
            calculate_initial_velocities_linear(Fixed::from_int(90), speed),
            (fx(0), speed)
        );
    }
}

#[test]
fn initial_velocities_between_the_ends() {
    let speed = Fixed::from_int(10);
    assert_eq!(
        calculate_initial_velocities(Fixed::from_int(30), speed),
        (fx(8_660_254_037_850), fx(5_000_000_000_000))
    );
    assert_eq!(
        calculate_initial_velocities_linear(Fixed::from_int(30), speed),
        (fx(6_666_666_666_670), fx(3_333_333_333_330))
    );
}

#[test]
fn the_named_decomposition_is_used() {
    let angle = Fixed::from_int(30);
    let speed = Fixed::from_int(10);
    assert_eq!(
        launch_velocities(Decomposition::Trigonometric, angle, speed),
        calculate_initial_velocities(angle, speed)
    );
    assert_eq!(
        launch_velocities(Decomposition::Linear, angle, speed),
        calculate_initial_velocities_linear(angle, speed)
    );
    assert_ne!(
        launch_velocities(Decomposition::Linear, angle, speed),
        launch_velocities(Decomposition::Trigonometric, angle, speed)
    );
}

#[test]
fn vertical_weight_is_the_share_of_a_right_angle() {
    assert_eq!(vertical_weight(Fixed::from_int(0)), fx(0));
    assert_eq!(vertical_weight(Fixed::from_int(45)), fx(500_000_000_000));
    assert_eq!(vertical_weight(Fixed::from_int(90)), fx(1_000_000_000_000));
    assert_eq!(vertical_weight(Fixed::from_int(180)), fx(2_000_000_000_000));
    assert_eq!(vertical_weight(Fixed::from_int(-45)), fx(-500_000_000_000));
}

#[test]
fn drag_factors_of_the_standard_projectile() {
    let physics = Physics::standard();
    assert_eq!(
        calculate_drag_factors(&physics, Fixed::from_int(0)),
        (fx(28_284_375_000), fx(104_733_000_000))
    );
    assert_eq!(
        calculate_drag_factors(&physics, Fixed::from_int(90)),
        (fx(104_733_000_000), fx(28_284_375_000))
    );
    assert_eq!(
        calculate_drag_factors(&physics, Fixed::from_int(45)),
        (fx(62_319_906_250), fx(62_319_906_250))
    );
    assert_eq!(
        calculate_drag_factors(&physics, Fixed::from_int(30)),
        (fx(50_043_888_885), fx(75_526_763_887))
    );
}

#[test]
fn drag_factors_without_air_or_mass() {
    let mut physics = Physics::standard();
    physics.air_density = Fixed::zero();
    assert_eq!(calculate_drag_factors(&physics, Fixed::from_int(30)), (fx(0), fx(0)));
    let mut massless = Physics::standard();
    massless.projectile.mass = Fixed::zero();
    let (x, y) = calculate_drag_factors(&massless, Fixed::from_int(30));
    assert!(x.is_nan() && y.is_nan());
}

#[test]
fn drag_factors_are_not_negative_in_range() {
    let physics = Physics::standard();
    for degree in 0i64..=90 {
        let (x, y) = calculate_drag_factors(&physics, Fixed::from_int(degree));
        assert!(x.raw >= 0 && !x.is_nan());
        assert!(y.raw >= 0 && !y.is_nan());
    }
}

#[test]
fn drag_opposes_motion_on_both_axes() {
    let physics = Physics::standard();
    for degree in [0i64, 15, 45, 75, 90] {
        let (x_factor, y_factor) = calculate_drag_factors(&physics, Fixed::from_int(degree));
        for factor in [x_factor, y_factor] {
            for speed in [fx(1), Fixed::from_ratio(1, 1000), Fixed::from_int(3), Fixed::from_int(12)] {
                let forward = drag_deceleration(factor, speed);
                let backward = drag_deceleration(factor, speed.neg());
                assert!(forward.raw >= 0);
                assert!(backward.raw <= 0);
                assert_eq!(backward, forward.neg());
                assert!(speed.sub(forward).raw <= speed.raw);
                assert!(speed.neg().sub(backward).raw >= speed.neg().raw);
            }
            assert_eq!(drag_deceleration(factor, Fixed::zero()), Fixed::zero());
        }
    }
}

#[test]
fn drag_deceleration_is_factor_times_speed_times_size() {
    let factor = Fixed::from_ratio(5, 100);
    assert_eq!(drag_deceleration(factor, Fixed::from_int(3)), fx(450_000_000_000));
    assert_eq!(drag_deceleration(factor, Fixed::from_int(-3)), fx(-450_000_000_000));
    assert_eq!(drag_deceleration(Fixed::zero(), Fixed::from_int(3)), fx(0));
    assert!(drag_deceleration(factor, Fixed::nan()).is_nan());
    assert!(drag_deceleration(Fixed::nan(), Fixed::from_int(3)).is_nan());
}

#[test]
fn outside_the_range_the_weights_run_on() {
    let physics = Physics::standard();
    assert_eq!(
        calculate_drag_factors(&physics, Fixed::from_int(180)),
        (fx(214_691_875_000), fx(-14_654_000_000))
    );
    assert_eq!(
        calculate_drag_factors(&physics, Fixed::from_int(-45)),
        (fx(2_626_406_250), fx(155_523_656_250))
    );
    assert_eq!(
        calculate_drag_factors(&physics, Fixed::from_int(135)),
        (fx(155_523_656_250), fx(2_626_406_250))
    );
    assert_eq!(
        calculate_initial_velocities_linear(Fixed::from_int(180), Fixed::from_int(10)),
        (Fixed::from_int(-10), Fixed::from_int(20))
    );
    assert_eq!(
        calculate_initial_velocities(Fixed::from_int(180), Fixed::from_int(10)),
        (Fixed::from_int(-10), fx(0))
    );
    let (_, y_factor) = calculate_drag_factors(&physics, Fixed::from_int(180));
    assert!(drag_deceleration(y_factor, Fixed::from_int(3)).raw < 0);
}

#[test]
fn a_quarter_turn_on_swaps_sine_and_cosine() {
    for tenth in -3600i64..=3600 {
        let angle = Fixed::from_ratio(tenth * 7, 10);
        let (sine, cosine) = sine_cosine(angle);
        assert_eq!(sine_cosine(angle.add(Fixed::from_int(90))), (cosine, sine.neg()));
    }
}
