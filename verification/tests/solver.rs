use launch_angle::fixed::Fixed;
use launch_angle::solvers::bisection::{
    bisect, refine_bracket, solve, whole_range, within, Bracket, SearchStrategy, SolverOutcome,
    SolverSettings,
};
use std::cell::Cell;

fn fx(raw: i64) -> Fixed {
    Fixed::from_raw(raw)
}

fn settings() -> SolverSettings {
    SolverSettings::standard()
}

fn solve_for(error: impl Fn(Fixed) -> Fixed, settings: &SolverSettings) -> SolverOutcome {
    let zero = Fixed::zero();
    solve(zero, zero, zero, zero, zero, settings, |angle, _, _, _, _, _| error(angle))
}

#[test]
fn standard_settings() {
    assert_eq!(settings().tolerance, Fixed::from_ratio(1, 10_000));
    assert_eq!(settings().limit, 64);
    assert_eq!(settings().strategy, SearchStrategy::WholeRange);
}

#[test]
fn the_whole_range_is_measured_at_its_ends() {
    let zero = Fixed::zero();
    let thirty = Fixed::from_int(30);
    let measure = |angle: Fixed, _: Fixed, _: Fixed, _: Fixed, _: Fixed, _: Fixed| angle.sub(thirty);
    let bracket = whole_range(zero, zero, zero, zero, zero, &measure);
    assert_eq!(
        bracket,
        Bracket {
            a: Fixed::from_int(0),
            b: Fixed::from_int(90),
            a_error: Fixed::from_int(-30),
            b_error: Fixed::from_int(60),
        }
    );
    assert!(bracket.straddles());
}

#[test]
fn any_interval_in_range_can_be_bisected() {
    let zero = Fixed::zero();
    let thirty = Fixed::from_int(30);
    let measure = |angle: Fixed, _: Fixed, _: Fixed, _: Fixed, _: Fixed, _: Fixed| angle.sub(thirty);
    let start = Bracket {
        a: Fixed::from_int(20),
        b: Fixed::from_int(40),
        a_error: Fixed::from_int(-10),
        b_error: Fixed::from_int(10),
    };
    assert_eq!(
        bisect(zero, zero, zero, zero, zero, start, &settings(), &measure),
        SolverOutcome::Converged { angle: thirty, residual: fx(0) }
    );
    let away = Bracket {
        a: Fixed::from_int(40),
        b: Fixed::from_int(50),
        a_error: Fixed::from_int(10),
        b_error: Fixed::from_int(20),
    };
    assert_eq!(
        bisect(zero, zero, zero, zero, zero, away, &settings(), &measure),
        SolverOutcome::Infeasible
    );
}

#[test]
fn a_rising_line_converges_on_its_root() {
    let root = Fixed::from_int(30);
    let outcome = solve_for(|angle| angle.sub(root), &settings());
    assert_eq!(
        outcome,
        SolverOutcome::Converged { angle: fx(30_000_057_220_458), residual: fx(57_220_458) }
    );
}

#[test]
fn a_falling_line_converges_on_its_root() {
    let root = Fixed::from_int(60);
    let outcome = solve_for(|angle| root.sub(angle), &settings());
    assert_eq!(
        outcome,
        SolverOutcome::Converged { angle: fx(59_999_942_779_540), residual: fx(57_220_460) }
    );
}

#[test]
fn the_angle_found_is_within_tolerance_of_the_root() {
    let tolerance = settings().tolerance;
    for thousandth in (0i64..=90_000).step_by(997) {
        let root = Fixed::from_ratio(thousandth, 1000);
        match solve_for(|angle| angle.sub(root), &settings()) {
            SolverOutcome::Converged { angle, residual } => {
                assert!(angle.sub(root).abs().le(tolerance));
                assert_eq!(residual, angle.sub(root));
            }
            SolverOutcome::Infeasible => panic!("no angle for root {}", thousandth),
        }
    }
}

#[test]
fn an_odd_root_converges() {
    let root = fx(12_345_678_900_000);
    assert_eq!(
        solve_for(|angle| angle.sub(root), &settings()),
        SolverOutcome::Converged { angle: fx(12_345_714_569_091), residual: fx(35_669_091) }
    );
}

#[test]
fn roots_at_the_ends_are_found_without_a_midpoint() {
    let probes = Cell::new(0u32);
    let at_zero = solve_for(
        |angle| {
            probes.set(probes.get() + 1);
            angle
        },
        &settings(),
    );
    assert_eq!(at_zero, SolverOutcome::Converged { angle: fx(0), residual: fx(0) });
    assert_eq!(probes.get(), 2);
    let top = Fixed::from_int(90);
    assert_eq!(
        solve_for(|angle| angle.sub(top), &settings()),
        SolverOutcome::Converged { angle: top, residual: fx(0) }
    );
}

#[test]
fn a_constant_positive_error_is_infeasible() {
    assert_eq!(solve_for(|_| Fixed::from_int(1), &settings()), SolverOutcome::Infeasible);
    assert_eq!(solve_for(|_| Fixed::from_int(-1), &settings()), SolverOutcome::Infeasible);
    assert_eq!(solve_for(|_| fx(100_000_001), &settings()), SolverOutcome::Infeasible);
}

#[test]
fn an_infeasible_search_uses_its_whole_budget() {
    let probes = Cell::new(0u32);
    let outcome = solve_for(
        |_| {
            probes.set(probes.get() + 1);
            Fixed::from_int(1)
        },
        &settings(),
    );
    assert_eq!(outcome, SolverOutcome::Infeasible);
    assert_eq!(probes.get(), 2 + 65);
}

#[test]
fn a_constant_error_within_tolerance_is_a_hit_at_the_first_end() {
    assert_eq!(
        solve_for(|_| fx(100_000_000), &settings()),
        SolverOutcome::Converged { angle: fx(0), residual: fx(100_000_000) }
    );
}

#[test]
fn of_two_ends_within_tolerance_the_first_is_returned() {
    let forty = Fixed::from_int(40);
    assert_eq!(
        solve_for(|angle| angle.sub(forty).mul(fx(1_000_000)), &settings()),
        SolverOutcome::Converged { angle: fx(0), residual: fx(-40_000_000) }
    );
    let fifty = Fixed::from_int(50);
    assert_eq!(fifty.sub(Fixed::from_int(90)).mul(fx(1_000_000)), fx(-40_000_000));
    assert_eq!(
        solve_for(|angle| fifty.sub(angle).mul(fx(1_000_000)), &settings()),
        SolverOutcome::Converged { angle: fx(0), residual: fx(50_000_000) }
    );
}

#[test]
fn the_interval_that_the_halvings_lead_to() {
    let zero = Fixed::zero();
    let root = fx(12_345_678_900_000);
    let measure = |angle: Fixed, _: Fixed, _: Fixed, _: Fixed, _: Fixed, _: Fixed| angle.sub(root);
    let short = SolverSettings { limit: 3, ..settings() };
    let start = whole_range(zero, zero, zero, zero, zero, &measure);
    let last = refine_bracket(zero, zero, zero, zero, zero, start, &short, &measure);
    assert_eq!(
        last,
        Bracket {
            a: fx(11_250_000_000_000),
            b: fx(16_875_000_000_000),
            a_error: fx(-1_095_678_900_000),
            b_error: fx(4_529_321_100_000),
        }
    );
    assert!(last.straddles());
    assert_eq!(last.conclude(short.tolerance), SolverOutcome::Infeasible);
    assert_eq!(last.closest(), Some((fx(11_250_000_000_000), fx(-1_095_678_900_000))));
    let none = SolverSettings { limit: 0, ..settings() };
    let once = refine_bracket(zero, zero, zero, zero, zero, start, &none, &measure);
    assert_eq!(once.a, fx(0));
    assert_eq!(once.b, Fixed::from_int(45));
}

#[test]
fn halving_keeps_the_sign_change() {
    let start = Bracket {
        a: Fixed::from_int(0),
        b: Fixed::from_int(90),
        a_error: Fixed::from_int(-2),
        b_error: Fixed::from_int(3),
    };
    for error in [-5i64, -1, 0, 1, 7] {
        let next = start.narrow(start.midpoint(), Fixed::from_int(error));
        assert!(next.straddles());
    }
    let falling = Bracket { a_error: Fixed::from_int(2), b_error: Fixed::from_int(-3), ..start };
    for error in [-5i64, -1, 0, 1, 7] {
        let next = falling.narrow(falling.midpoint(), Fixed::from_int(error));
        assert!(next.straddles());
    }
}

#[test]
fn a_probe_that_is_not_a_number_ends_the_search() {
    let thirty = Fixed::from_int(30);
    let outcome = solve_for(
        |angle| if angle == Fixed::from_int(45) { Fixed::nan() } else { angle.sub(thirty) },
        &settings(),
    );
    assert_eq!(outcome, SolverOutcome::Infeasible);
    assert_eq!(solve_for(|_| Fixed::nan(), &settings()), SolverOutcome::Infeasible);
}

#[test]
fn an_end_that_is_not_a_number_does_not_hide_a_hit_at_the_other() {
    let outcome = solve_for(|angle| if angle.raw == 0 { Fixed::nan() } else { fx(5) }, &settings());
    assert_eq!(outcome, SolverOutcome::Converged { angle: Fixed::from_int(90), residual: fx(5) });
    let probes = Cell::new(0u32);
    let outcome = solve_for(
        |angle| {
            probes.set(probes.get() + 1);
            if angle.raw == 0 {
                Fixed::nan()
            } else {
                Fixed::from_int(5)
            }
        },
        &settings(),
    );
    assert_eq!(outcome, SolverOutcome::Infeasible);
    assert_eq!(probes.get(), 2);
}

#[test]
fn the_limit_bounds_the_midpoints_tried() {
    let root = fx(12_345_678_900_000);
    let probes = Cell::new(0u32);
    let short = SolverSettings { limit: 3, ..settings() };
    let outcome = solve_for(
        |angle| {
            probes.set(probes.get() + 1);
            angle.sub(root)
        },
        &short,
    );
    assert_eq!(outcome, SolverOutcome::Infeasible);
    assert_eq!(probes.get(), 2 + 4);
    let longer = SolverSettings { limit: 12, ..settings() };
    assert_eq!(solve_for(|angle| angle.sub(root), &longer), SolverOutcome::Infeasible);
    let enough = SolverSettings { limit: 18, ..settings() };
    assert_eq!(
        solve_for(|angle| angle.sub(root), &enough),
        SolverOutcome::Converged { angle: fx(12_345_714_569_091), residual: fx(35_669_091) }
    );
}

#[test]
fn with_no_tolerance_only_an_exact_root_converges() {
    let exact = SolverSettings { tolerance: Fixed::zero(), ..settings() };
    let root = fx(30_000_000_000_001);
    assert_eq!(
        solve_for(|angle| angle.sub(root), &exact),
        SolverOutcome::Converged { angle: root, residual: fx(0) }
    );
    let thirty = Fixed::from_int(30);
    assert_eq!(
        solve_for(|angle| angle.sub(thirty).mul(Fixed::from_int(2)).add(fx(1)), &exact),
        SolverOutcome::Infeasible
    );
}

#[test]
fn the_probes_get_the_launch_and_the_target() {
    let x1 = Fixed::from_int(1);
    let y1 = Fixed::from_int(2);
    let x2 = Fixed::from_int(3);
    let y2 = Fixed::from_int(4);
    let velocity = Fixed::from_int(5);
    let outcome = solve(x1, y1, x2, y2, velocity, &settings(), |angle, v, a, b, c, d| {
        assert_eq!((v, a, b, c, d), (velocity, x1, y1, x2, y2));
        angle.sub(Fixed::from_int(30))
    });
    assert!(matches!(outcome, SolverOutcome::Converged { .. }));
}

#[test]
fn within_tolerance() {
    let tolerance = Fixed::from_ratio(1, 10_000);
    assert!(within(fx(100_000_000), tolerance));
    assert!(within(fx(-100_000_000), tolerance));
    assert!(within(fx(0), tolerance));
    assert!(!within(fx(100_000_001), tolerance));
    assert!(!within(fx(-100_000_001), tolerance));
    assert!(!within(Fixed::nan(), tolerance));
    assert!(!within(fx(0), Fixed::nan()));
    assert!(!within(fx(0), fx(-1)));
}

#[test]
fn bracket_midpoint_and_narrowing() {
    let bracket = Bracket {
        a: Fixed::from_int(0),
        b: Fixed::from_int(90),
        a_error: Fixed::from_int(-2),
        b_error: Fixed::from_int(3),
    };
    let c = bracket.midpoint();
    assert_eq!(c, Fixed::from_int(45));
    let upper = bracket.narrow(c, Fixed::from_int(-1));
    assert_eq!(
        upper,
        Bracket { a: c, b: Fixed::from_int(90), a_error: Fixed::from_int(-1), b_error: Fixed::from_int(3) }
    );
    let lower = bracket.narrow(c, Fixed::from_int(1));
    assert_eq!(
        lower,
        Bracket { a: Fixed::from_int(0), b: c, a_error: Fixed::from_int(-2), b_error: Fixed::from_int(1) }
    );
    let at_zero = bracket.narrow(c, Fixed::zero());
    assert_eq!(at_zero.b, c);
    let lost = bracket.narrow(c, Fixed::nan());
    assert_eq!(lost.a, bracket.a);
    assert!(lost.b_error.is_nan());
    let odd = Bracket { a: fx(1), b: fx(4), ..bracket };
    assert_eq!(odd.midpoint(), fx(2));
    let tight = Bracket { a: fx(7), b: fx(8), ..bracket };
    assert_eq!(tight.midpoint(), fx(7));
}

#[test]
fn bracket_settled_and_conclusion() {
    let tolerance = Fixed::from_ratio(1, 10_000);
    let open = Bracket {
        a: Fixed::from_int(10),
        b: Fixed::from_int(11),
        a_error: Fixed::from_int(-2),
        b_error: Fixed::from_int(3),
    };
    assert!(!open.settled(tolerance));
    assert_eq!(open.conclude(tolerance), SolverOutcome::Infeasible);
    assert_eq!(open.closest(), Some((Fixed::from_int(10), Fixed::from_int(-2))));
    let hit = Bracket { b_error: fx(-20_000_000), ..open };
    assert!(hit.settled(tolerance));
    assert_eq!(
        hit.conclude(tolerance),
        SolverOutcome::Converged { angle: Fixed::from_int(11), residual: fx(-20_000_000) }
    );
    let both = Bracket { a_error: fx(50_000_000), b_error: fx(-20_000_000), ..open };
    assert_eq!(
        both.conclude(tolerance),
        SolverOutcome::Converged { angle: Fixed::from_int(10), residual: fx(50_000_000) }
    );
    assert_eq!(both.closest(), Some((Fixed::from_int(11), fx(-20_000_000))));
    let tie = Bracket { a_error: fx(20_000_000), b_error: fx(-20_000_000), ..open };
    assert_eq!(tie.closest(), Some((Fixed::from_int(10), fx(20_000_000))));
    let lost = Bracket { a_error: Fixed::nan(), ..open };
    assert!(lost.settled(tolerance));
    assert_eq!(lost.closest(), Some((Fixed::from_int(11), Fixed::from_int(3))));
    assert_eq!(lost.conclude(tolerance), SolverOutcome::Infeasible);
    assert!(open.straddles());
    assert!(!lost.straddles());
    assert!(!Bracket { a_error: fx(0), ..open }.straddles());
    assert!(Bracket { a_error: fx(0), b_error: fx(-1), ..open }.straddles());
    let blind = Bracket { a_error: Fixed::nan(), b_error: Fixed::nan(), ..open };
    assert_eq!(blind.closest(), None);
    assert_eq!(blind.conclude(tolerance), SolverOutcome::Infeasible);
}
