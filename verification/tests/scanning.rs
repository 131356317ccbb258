use launch_angle::constants::Physics;
use launch_angle::fixed::Fixed;
use launch_angle::integrators::leapfrog;
use launch_angle::solvers::bisection::{
    solve, Bracket, RootPolicy, SearchStrategy, SolverOutcome, SolverSettings,
};
use launch_angle::solvers::scanning::{scan, scan_angle, scan_count, stride};
use std::cell::RefCell;

fn fx(raw: i64) -> Fixed {
    Fixed::from_raw(raw)
}

fn scanning(step: Fixed, policy: RootPolicy) -> SolverSettings {
    SolverSettings { strategy: SearchStrategy::Scan { step, policy }, ..SolverSettings::standard() }
}

fn solve_for(error: impl Fn(Fixed) -> Fixed, settings: &SolverSettings) -> SolverOutcome {
    let zero = Fixed::zero();
    solve(zero, zero, zero, zero, zero, settings, |angle, _, _, _, _, _| error(angle))
}

fn scan_for(error: impl Fn(Fixed) -> Fixed, step: Fixed, policy: RootPolicy) -> Option<Bracket> {
    let zero = Fixed::zero();
    let measure = |angle: Fixed, _: Fixed, _: Fixed, _: Fixed, _: Fixed, _: Fixed| error(angle);
    scan(zero, zero, zero, zero, zero, step, policy, &measure)
}

fn two_roots(angle: Fixed) -> Fixed {
    angle.sub(Fixed::from_int(23)).mul(angle.sub(Fixed::from_int(67))).div(Fixed::from_int(100))
}

#[test]
fn the_scan_steps_tile_the_range() {
    assert_eq!(scan_count(Fixed::from_int(10)), 9);
    assert_eq!(scan_count(Fixed::from_int(40)), 3);
    assert_eq!(scan_count(Fixed::from_int(7)), 13);
    assert_eq!(scan_count(Fixed::from_int(90)), 1);
    assert_eq!(scan_count(fx(89_999_999_999_999)), 2);
    assert_eq!(scan_count(fx(1)), 90_000_000_000_000);
    let forty = Fixed::from_int(40);
    assert_eq!(scan_angle(forty, 0), Fixed::from_int(0));
    assert_eq!(scan_angle(forty, 1), Fixed::from_int(40));
    assert_eq!(scan_angle(forty, 2), Fixed::from_int(80));
    assert_eq!(scan_angle(forty, 3), Fixed::from_int(90));
    assert_eq!(scan_angle(Fixed::from_int(7), 12), Fixed::from_int(84));
    assert_eq!(scan_angle(Fixed::from_int(7), 13), Fixed::from_int(90));
}

#[test]
fn a_step_that_is_no_positive_number_covers_the_whole_range() {
    for step in [Fixed::nan(), Fixed::zero(), Fixed::from_int(-1), Fixed::from_int(100)] {
        assert_eq!(stride(step), 90_000_000_000_000);
        assert_eq!(scan_count(step), 1);
        assert_eq!(scan_angle(step, 0), Fixed::from_int(0));
        assert_eq!(scan_angle(step, 1), Fixed::from_int(90));
    }
    assert_eq!(stride(Fixed::from_int(5)), 5_000_000_000_000);
}

#[test]
fn the_policy_picks_among_the_sign_changes() {
    let step = Fixed::from_int(10);
    assert_eq!(
        scan_for(two_roots, step, RootPolicy::HighestAngleRoot),
        Some(Bracket {
            a: Fixed::from_int(60),
            b: Fixed::from_int(70),
            a_error: fx(-2_590_000_000_000),
            b_error: fx(1_410_000_000_000),
        })
    );
    assert_eq!(
        scan_for(two_roots, step, RootPolicy::FirstRoot),
        Some(Bracket {
            a: Fixed::from_int(20),
            b: Fixed::from_int(30),
            a_error: fx(1_410_000_000_000),
            b_error: fx(-2_590_000_000_000),
        })
    );
    let wide = Fixed::from_int(40);
    assert_eq!(
        scan_for(two_roots, wide, RootPolicy::HighestAngleRoot),
        Some(Bracket {
            a: Fixed::from_int(40),
            b: Fixed::from_int(80),
            a_error: fx(-4_590_000_000_000),
            b_error: fx(7_410_000_000_000),
        })
    );
    assert_eq!(
        scan_for(two_roots, wide, RootPolicy::FirstRoot),
        Some(Bracket {
            a: Fixed::from_int(0),
            b: Fixed::from_int(40),
            a_error: fx(15_410_000_000_000),
            b_error: fx(-4_590_000_000_000),
        })
    );
}

#[test]
fn the_policy_decides_which_root_is_found() {
    let step = Fixed::from_int(10);
    assert_eq!(
        solve_for(two_roots, &scanning(step, RootPolicy::HighestAngleRoot)),
        SolverOutcome::Converged { angle: fx(67_000_122_070_312), residual: fx(53_711_086) }
    );
    assert_eq!(
        solve_for(two_roots, &scanning(step, RootPolicy::FirstRoot)),
        SolverOutcome::Converged { angle: fx(22_999_877_929_687), residual: fx(53_711_086) }
    );
    assert_eq!(
        solve_for(two_roots, &SolverSettings::standard()),
        SolverOutcome::Converged { angle: fx(22_999_877_929_687), residual: fx(53_711_086) }
    );
}

#[test]
fn a_scan_too_coarse_to_see_a_sign_change_finds_nothing() {
    let whole = Fixed::from_int(90);
    assert_eq!(scan_for(two_roots, whole, RootPolicy::HighestAngleRoot), None);
    assert_eq!(
        solve_for(two_roots, &scanning(whole, RootPolicy::HighestAngleRoot)),
        SolverOutcome::Infeasible
    );
    assert_eq!(
        solve_for(two_roots, &scanning(Fixed::nan(), RootPolicy::FirstRoot)),
        SolverOutcome::Infeasible
    );
}

#[test]
fn without_a_sign_change_a_scan_is_infeasible() {
    let step = Fixed::from_int(10);
    for policy in [RootPolicy::FirstRoot, RootPolicy::HighestAngleRoot] {
        assert_eq!(solve_for(|_| Fixed::from_int(1), &scanning(step, policy)), SolverOutcome::Infeasible);
        assert_eq!(solve_for(|_| fx(5), &scanning(step, policy)), SolverOutcome::Infeasible);
        assert_eq!(
            solve_for(|angle| angle.sub(Fixed::from_int(30)).abs(), &scanning(step, policy)),
            SolverOutcome::Infeasible
        );
    }
    assert_eq!(
        solve_for(|_| fx(5), &SolverSettings::standard()),
        SolverOutcome::Converged { angle: fx(0), residual: fx(5) }
    );
}

#[test]
fn a_probe_that_is_not_a_number_is_left_out_of_the_choice() {
    let step = Fixed::from_int(10);
    let blind_at =
        |blind: i64| move |angle: Fixed| if angle == Fixed::from_int(blind) { Fixed::nan() } else { two_roots(angle) };
    let low = Some(Bracket {
        a: Fixed::from_int(20),
        b: Fixed::from_int(30),
        a_error: fx(1_410_000_000_000),
        b_error: fx(-2_590_000_000_000),
    });
    assert_eq!(scan_for(blind_at(60), step, RootPolicy::HighestAngleRoot), low);
    assert_eq!(scan_for(blind_at(70), step, RootPolicy::HighestAngleRoot), low);
    assert_eq!(
        solve_for(blind_at(60), &scanning(step, RootPolicy::HighestAngleRoot)),
        SolverOutcome::Converged { angle: fx(22_999_877_929_687), residual: fx(53_711_086) }
    );
    assert_eq!(scan_for(|_| Fixed::nan(), step, RootPolicy::FirstRoot), None);
}

#[test]
fn a_scan_probes_each_meeting_point_once() {
    let seen = RefCell::new(Vec::new());
    let found = scan_for(
        |angle| {
            seen.borrow_mut().push(angle.whole());
            Fixed::from_int(1)
        },
        Fixed::from_int(40),
        RootPolicy::HighestAngleRoot,
    );
    assert_eq!(found, None);
    assert_eq!(*seen.borrow(), vec![90, 80, 40, 0]);
    seen.borrow_mut().clear();
    let found = scan_for(
        |angle| {
            seen.borrow_mut().push(angle.whole());
            two_roots(angle)
        },
        Fixed::from_int(10),
        RootPolicy::FirstRoot,
    );
    assert!(found.is_some());
    assert_eq!(*seen.borrow(), vec![0, 10, 20, 30]);
}

#[test]
fn the_low_root_of_a_cell_by_scan() {
    let mut physics = Physics::standard();
    physics.timestep = Fixed::from_ratio(1, 1000);
    let outcome = solve(
        fx(0),
        fx(0),
        Fixed::from_int(4),
        Fixed::from_ratio(21, 10),
        Fixed::from_int(10),
        &scanning(Fixed::from_int(5), RootPolicy::FirstRoot),
        |angle, velocity, x1, y1, x2, y2| {
            leapfrog::integrate(&physics, angle, velocity, x1, y1, x2, y2)
        },
    );
    assert_eq!(
        outcome,
        SolverOutcome::Converged { angle: fx(43_415_527_343_750), residual: fx(-51_377_488) }
    );
}

#[test]
fn cells_out_of_reach_by_scan() {
    let mut physics = Physics::standard();
    physics.timestep = Fixed::from_ratio(1, 1000);
    let settings = scanning(Fixed::from_int(5), RootPolicy::HighestAngleRoot);
    let far = solve(
        fx(0),
        fx(0),
        Fixed::from_int(8),
        Fixed::from_ratio(21, 10),
        Fixed::from_ratio(75, 10),
        &settings,
        |angle, velocity, x1, y1, x2, y2| {
            leapfrog::integrate(&physics, angle, velocity, x1, y1, x2, y2)
        },
    );
    assert_eq!(far, SolverOutcome::Infeasible);
    let at_the_launch_point = solve(
        fx(0),
        fx(0),
        fx(0),
        Fixed::from_ratio(21, 10),
        Fixed::from_int(10),
        &settings,
        |angle, velocity, x1, y1, x2, y2| {
            leapfrog::integrate(&physics, angle, velocity, x1, y1, x2, y2)
        },
    );
    assert_eq!(at_the_launch_point, SolverOutcome::Infeasible);
}
