use launch_angle::constants::{Axis, Grid, Physics, SimulationConfig};
use launch_angle::fixed::Fixed;
use launch_angle::integrators::target_height::{GroundPolicy, Stepper};
use launch_angle::integrators::{euler, leapfrog, target_height};
use launch_angle::simulation_helpers::simulate_single_cpu;
use launch_angle::solvers::bisection::{
    solve, RootPolicy, SearchStrategy, SolverOutcome, SolverSettings,
};

fn fx(raw: i64) -> Fixed {
    Fixed::from_raw(raw)
}

fn height_on_the_parabola(angle: Fixed, speed: f64, gravity: f64, x: f64) -> f64 {
    let radians = (angle.raw as f64 / 1e12).to_radians();
    x * radians.tan() - gravity * x * x / (2.0 * speed * speed * radians.cos().powi(2))
}

#[test]
fn without_drag_the_angle_found_puts_the_parabola_through_the_target() {
    let mut physics = Physics::standard();
    physics.air_density = Fixed::zero();
    assert_eq!(physics.gravity, Fixed::from_ratio(98, 10));
    let outcome = solve(
        fx(0),
        fx(0),
        Fixed::from_int(4),
        Fixed::from_ratio(21, 10),
        Fixed::from_int(10),
        &SolverSettings::standard(),
        |angle, velocity, x1, y1, x2, y2| {
            leapfrog::integrate(&physics, angle, velocity, x1, y1, x2, y2)
        },
    );
    match outcome {
        SolverOutcome::Converged { angle, residual } => {
            assert_eq!(angle, fx(40_989_990_234_375));
            assert_eq!(residual, fx(-77_959_439));
            let height = height_on_the_parabola(angle, 10.0, 9.8, 4.0);
            assert!((height - 2.1).abs() < 1e-4);
        }
        SolverOutcome::Infeasible => panic!("no angle found"),
    }
}

#[test]
fn with_drag_the_standard_cell_has_its_angle() {
    let physics = Physics::standard();
    let target = (Fixed::from_int(4), Fixed::from_ratio(21, 10));
    let by_leapfrog = solve(
        fx(0),
        fx(0),
        target.0,
        target.1,
        Fixed::from_int(10),
        &SolverSettings::standard(),
        |angle, velocity, x1, y1, x2, y2| {
            leapfrog::integrate(&physics, angle, velocity, x1, y1, x2, y2)
        },
    );
    assert_eq!(
        by_leapfrog,
        SolverOutcome::Converged { angle: fx(43_409_729_003_906), residual: fx(38_971_823) }
    );
    let by_euler = solve(
        fx(0),
        fx(0),
        target.0,
        target.1,
        Fixed::from_int(10),
        &SolverSettings::standard(),
        |angle, velocity, x1, y1, x2, y2| {
            euler::integrate(&physics, angle, velocity, x1, y1, x2, y2)
        },
    );
    assert_eq!(
        by_euler,
        SolverOutcome::Converged { angle: fx(43_409_729_003_906), residual: fx(-28_108_222) }
    );
}

#[test]
fn zero_distance_is_infeasible_at_every_velocity() {
    let physics = Physics::standard();
    for tenth in 75i64..=125 {
        let outcome = solve(
            fx(0),
            fx(0),
            fx(0),
            Fixed::from_ratio(21, 10),
            Fixed::from_ratio(tenth, 10),
            &SolverSettings::standard(),
            |angle, velocity, x1, y1, x2, y2| {
                leapfrog::integrate(&physics, angle, velocity, x1, y1, x2, y2)
            },
        );
        assert_eq!(outcome, SolverOutcome::Infeasible);
    }
}

#[test]
fn the_zero_distance_column_of_a_sweep_is_incomplete() {
    let config = SimulationConfig {
        physics: Physics::standard(),
        grid: Grid {
            distance: Axis { min: fx(0), max: fx(0), step: Fixed::from_ratio(1, 10) },
            velocity: Axis {
                min: Fixed::from_ratio(75, 10),
                max: Fixed::from_ratio(125, 10),
                step: Fixed::from_ratio(1, 10),
            },
            target_height: Fixed::from_ratio(21, 10),
        },
        solver: SolverSettings::standard(),
    };
    let report = simulate_single_cpu(&config);
    assert_eq!(report.results, vec![]);
    assert_eq!(report.incomplete, 51);
}

#[test]
fn a_target_out_of_reach_is_infeasible() {
    let physics = Physics::standard();
    let outcome = solve(
        fx(0),
        fx(0),
        Fixed::from_int(8),
        Fixed::from_ratio(21, 10),
        Fixed::from_ratio(75, 10),
        &SolverSettings::standard(),
        |angle, velocity, x1, y1, x2, y2| {
            leapfrog::integrate(&physics, angle, velocity, x1, y1, x2, y2)
        },
    );
    assert_eq!(outcome, SolverOutcome::Infeasible);
}

#[test]
fn the_standard_cell_has_a_high_root_too() {
    let physics = Physics::standard();
    let settings = SolverSettings {
        strategy: SearchStrategy::Scan {
            step: Fixed::from_int(5),
            policy: RootPolicy::HighestAngleRoot,
        },
        ..SolverSettings::standard()
    };
    let outcome = solve(
        fx(0),
        fx(0),
        Fixed::from_int(4),
        Fixed::from_ratio(21, 10),
        Fixed::from_int(10),
        &settings,
        |angle, velocity, x1, y1, x2, y2| {
            leapfrog::integrate(&physics, angle, velocity, x1, y1, x2, y2)
        },
    );
    assert_eq!(
        outcome,
        SolverOutcome::Converged { angle: fx(71_104_431_152_343), residual: fx(50_456_168) }
    );
}

#[test]
fn zero_distance_is_hit_straight_up_when_the_flight_is_followed_to_the_height() {
    let physics = Physics::standard();
    for policy in [GroundPolicy::Distance, GroundPolicy::NotANumber] {
        for tenth in [75i64, 100, 125] {
            let outcome = solve(
                fx(0),
                fx(0),
                fx(0),
                Fixed::from_ratio(21, 10),
                Fixed::from_ratio(tenth, 10),
                &SolverSettings::standard(),
                |angle, velocity, x1, y1, x2, y2| {
                    target_height::integrate(
                        &physics,
                        Stepper::Leapfrog,
                        policy,
                        angle,
                        velocity,
                        x1,
                        y1,
                        x2,
                        y2,
                    )
                },
            );
            assert_eq!(
                outcome,
                SolverOutcome::Converged { angle: Fixed::from_int(90), residual: fx(0) }
            );
        }
    }
}
