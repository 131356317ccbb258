use crate::constants::{Axis, Grid, Physics, SimulationConfig};
use crate::fixed::Fixed;
use crate::integrators::leapfrog;
use crate::math_helpers::MathHelpers;
use crate::solvers::bisection::{
    follows, solve, spec_solve, SolverOutcome, SolverSettings, ANGLE_MAX_RAW, ANGLE_MIN_RAW,
};
use vstd::prelude::*;

verus! {

/// A grid cell for which a launch angle was found.
#[derive(Clone, Copy, Debug, PartialEq, Eq, Structural)]
pub struct GridCellResult {
    pub distance: Fixed,
    pub velocity: Fixed,
    pub angle: Fixed,
}

/// What a sweep hands over: the cells with an angle, in the order of the
/// grid, and the number of cells without one.
#[derive(Debug)]
pub struct SweepReport {
    pub results: Vec<GridCellResult>,
    pub incomplete: u32,
}

/// Why a configuration cannot be swept.
#[derive(Clone, Copy, Debug, PartialEq, Eq, Structural)]
pub enum ConfigError {
    /// The step of the distance axis is zero.
    ZeroDistanceStep,
    /// The step of the velocity axis is zero.
    ZeroVelocityStep,
    /// The grid has more cells than can be counted.
    GridTooLarge,
}

impl Axis {
    /// The number of values on the axis: one, and one more for each whole
    /// step that fits between `min` and `max`. An axis whose ends or step
    /// are not numbers, or whose step points away from `max`, has one value.
    pub open spec fn spec_steps(self) -> u64 {
        let whole = self.max.sub(self.min).div(self.step).whole();
        if whole < 0 {
            1
        } else {
            (whole + 1) as u64
        }
    }

    /// The value at place `index` of the axis: `min` and `index` steps,
    /// rounded to the nearest multiple of the step.
    pub open spec fn spec_value(self, index: u32) -> Fixed {
        self.step.mul(Fixed::from_int(index as i64)).add(self.min).spec_round_nearest(self.step)
    }

    /// Returns the number of values on the axis.
    #[verifier::when_used_as_spec(spec_steps)]
    pub fn steps(self) -> (r: u64)
        ensures
            r == self.spec_steps(),
            1 <= r <= 9_223_373,
    {
        let whole: i64 = self.max.sub(self.min).div(self.step).whole();
        if whole < 0 {
            1
        } else {
            (whole + 1) as u64
        }
    }

    /// Returns the value at place `index` of the axis.
    pub fn value(self, index: u32) -> (r: Fixed)
        requires
            self.step.raw != 0,
        ensures
            r == self.spec_value(index),
    {
        self.step.mul(Fixed::from_int(index as i64)).add(self.min).round_nearest(self.step)
    }
}

impl Grid {
    /// The number of cells.
    pub open spec fn spec_total(self) -> u64 {
        (self.distance.steps() * self.velocity.steps()) as u64
    }

    /// The grid can be swept: neither step is zero, and the cells can be
    /// counted in 32 bits.
    pub open spec fn valid(self) -> bool {
        &&& self.distance.step.raw != 0
        &&& self.velocity.step.raw != 0
        &&& self.distance.steps() * self.velocity.steps() <= u32::MAX
    }

    /// The distance of cell `n`, the cells counted with the distance as the
    /// outer loop and the velocity as the inner one.
    pub open spec fn cell_distance(self, n: int) -> Fixed {
        self.distance.spec_value((n / (self.velocity.steps() as int)) as u32)
    }

    /// The velocity of cell `n`.
    pub open spec fn cell_velocity(self, n: int) -> Fixed {
        self.velocity.spec_value((n % (self.velocity.steps() as int)) as u32)
    }

    /// Returns the number of cells.
    #[verifier::when_used_as_spec(spec_total)]
    pub fn total(self) -> (r: u64)
        ensures
            r == self.spec_total(),
            r == self.distance.steps() * self.velocity.steps(),
    {
        let d: u64 = self.distance.steps();
        let v: u64 = self.velocity.steps();
        assert(d * v <= 9_223_373 * 9_223_373) by (nonlinear_arith)
            requires
                d <= 9_223_373,
                v <= 9_223_373,
        ;
        d * v
    }

    /// Tells whether the grid can be swept, and if not, why not.
    pub fn check(self) -> (r: Result<(), ConfigError>)
        ensures
            r is Ok <==> self.valid(),
            r == Err::<(), ConfigError>(ConfigError::ZeroDistanceStep) <==> self.distance.step.raw
                == 0,
            r == Err::<(), ConfigError>(ConfigError::ZeroVelocityStep) <==> self.distance.step.raw
                != 0 && self.velocity.step.raw == 0,
            r == Err::<(), ConfigError>(ConfigError::GridTooLarge) <==> self.distance.step.raw != 0
                && self.velocity.step.raw != 0 && self.distance.steps() * self.velocity.steps()
                > u32::MAX,
    {
        if self.distance.step.raw == 0 {
            Err(ConfigError::ZeroDistanceStep)
        } else if self.velocity.step.raw == 0 {
            Err(ConfigError::ZeroVelocityStep)
        } else if self.total() > 0xffff_ffff {
            Err(ConfigError::GridTooLarge)
        } else {
            Ok(())
        }
    }
}

/// What the search comes to for cell `n` when the miss at every angle is the
/// one that `model` gives: the launch is from the origin, the target is at
/// the cell's distance and at the grid's target height.
pub open spec fn cell_outcome(
    model: spec_fn(Fixed, Fixed, Fixed, Fixed, Fixed, Fixed) -> Fixed,
    grid: Grid,
    settings: SolverSettings,
    n: int,
) -> SolverOutcome {
    spec_solve(
        model,
        Fixed::zero(),
        Fixed::zero(),
        grid.cell_distance(n),
        grid.target_height,
        grid.cell_velocity(n),
        settings,
    )
}

/// The results of the first `n` cells: one entry for each cell with an
/// angle, in the order of the cells.
pub open spec fn sweep_results(
    model: spec_fn(Fixed, Fixed, Fixed, Fixed, Fixed, Fixed) -> Fixed,
    grid: Grid,
    settings: SolverSettings,
    n: int,
) -> Seq<GridCellResult>
    decreases n,
{
    if n <= 0 {
        Seq::empty()
    } else {
        let before = sweep_results(model, grid, settings, n - 1);
        match cell_outcome(model, grid, settings, n - 1) {
            SolverOutcome::Converged { angle, residual } => before.push(
                GridCellResult {
                    distance: grid.cell_distance(n - 1),
                    velocity: grid.cell_velocity(n - 1),
                    angle,
                },
            ),
            SolverOutcome::Infeasible => before,
        }
    }
}

/// The number of cells without an angle among the first `n`.
pub open spec fn sweep_incomplete(
    model: spec_fn(Fixed, Fixed, Fixed, Fixed, Fixed, Fixed) -> Fixed,
    grid: Grid,
    settings: SolverSettings,
    n: int,
) -> int
    decreases n,
{
    if n <= 0 {
        0
    } else {
        sweep_incomplete(model, grid, settings, n - 1) + if cell_outcome(
            model,
            grid,
            settings,
            n - 1,
        ) is Infeasible {
            1int
        } else {
            0int
        }
    }
}

/// `integrate` can be called for cell `n` of `grid` at every angle from 0 to
/// 90 degrees.
pub open spec fn accepts_cell<F: Fn(Fixed, Fixed, Fixed, Fixed, Fixed, Fixed) -> Fixed>(
    integrate: F,
    grid: Grid,
    n: int,
) -> bool {
    forall|angle: Fixed|
        ANGLE_MIN_RAW <= angle.raw <= ANGLE_MAX_RAW ==> #[trigger] integrate.requires(
            (
                angle,
                grid.cell_velocity(n),
                Fixed::zero(),
                Fixed::zero(),
                grid.cell_distance(n),
                grid.target_height,
            ),
        )
}

/// The miss that leapfrog integration under `physics` gives, as a function
/// of the launch and the target.
pub open spec fn leapfrog_model(physics: Physics) -> spec_fn(
    Fixed,
    Fixed,
    Fixed,
    Fixed,
    Fixed,
    Fixed,
) -> Fixed {
    |angle: Fixed, velocity: Fixed, x1: Fixed, y1: Fixed, x2: Fixed, y2: Fixed|
        leapfrog::spec_integrate(physics, angle, velocity, x1, y1, x2, y2)
}

/// A sweep under way: the cells are solved one at a time, in the order of
/// the grid, and the number of cells done can be read in between.
pub struct Sweep {
    pub grid: Grid,
    pub settings: SolverSettings,
    pub done: u32,
    pub results: Vec<GridCellResult>,
    pub incomplete: u32,
}

impl Sweep {
    /// The grid is valid, no more cells are done than it has, and each cell
    /// done is either among the results or counted as incomplete.
    pub open spec fn wf(self) -> bool {
        &&& self.grid.valid()
        &&& self.done <= self.grid.spec_total()
        &&& self.results@.len() + self.incomplete == self.done
    }

    /// The sweep holds what the first `done` cells give when the miss at
    /// every angle is the one that `model` gives.
    pub open spec fn agrees(
        self,
        model: spec_fn(Fixed, Fixed, Fixed, Fixed, Fixed, Fixed) -> Fixed,
    ) -> bool {
        &&& self.results@ == sweep_results(model, self.grid, self.settings, self.done as int)
        &&& self.incomplete == sweep_incomplete(model, self.grid, self.settings, self.done as int)
    }

    /// A sweep of `grid` with no cell done yet.
    pub fn new(grid: Grid, settings: SolverSettings) -> (sweep: Sweep)
        requires
            grid.valid(),
        ensures
            sweep.wf(),
            sweep.grid == grid,
            sweep.settings == settings,
            sweep.done == 0,
            sweep.results@ == Seq::<GridCellResult>::empty(),
            sweep.incomplete == 0,
    {
        let total: u64 = grid.total();
        Sweep {
            grid,
            settings,
            done: 0,
            results: Vec::with_capacity(total as usize),
            incomplete: 0,
        }
    }

    /// The number of cells of the grid.
    pub fn total(&self) -> (r: u32)
        requires
            self.wf(),
        ensures
            r == self.grid.spec_total(),
    {
        self.grid.total() as u32
    }

    /// The number of cells done.
    pub fn completed(&self) -> (r: u32)
        ensures
            r == self.done,
    {
        self.done
    }

    /// Every cell is done.
    pub fn is_finished(&self) -> (r: bool)
        requires
            self.wf(),
        ensures
            r == (self.done == self.grid.spec_total()),
    {
        self.done as u64 == self.grid.total()
    }

    /// Solves the next cell: searches for its launch angle with `integrate`
    /// as the measure of the miss, and appends the cell to the results if
    /// one is found, or counts it as incomplete.
    pub fn advance<F: Fn(Fixed, Fixed, Fixed, Fixed, Fixed, Fixed) -> Fixed>(
        &mut self,
        integrate: &F,
    )
        requires
            old(self).wf(),
            old(self).done < old(self).grid.spec_total(),
            accepts_cell(*integrate, old(self).grid, old(self).done as int),
        ensures
            final(self).wf(),
            final(self).grid == old(self).grid,
            final(self).settings == old(self).settings,
            final(self).done == old(self).done + 1,
            forall|model: spec_fn(Fixed, Fixed, Fixed, Fixed, Fixed, Fixed) -> Fixed|
                follows(*integrate, model) && #[trigger] old(self).agrees(model)
                    ==> final(self).agrees(model),
    {
        let steps: u64 = self.grid.velocity.steps();
        let n: u64 = self.done as u64;
        let distance = self.grid.distance.value((n / steps) as u32);
        let velocity = self.grid.velocity.value((n % steps) as u32);
        let outcome = solve(
            Fixed::zero(),
            Fixed::zero(),
            distance,
            self.grid.target_height,
            velocity,
            &self.settings,
            integrate,
        );
        match outcome {
            SolverOutcome::Converged { angle, residual } => {
                self.results.push(GridCellResult { distance, velocity, angle });
            },
            SolverOutcome::Infeasible => {
                self.incomplete = self.incomplete + 1;
            },
        }
        self.done = self.done + 1;
    }

    /// The results so far and the number of cells without one.
    pub fn into_report(self) -> (report: SweepReport)
        ensures
            report.results@ == self.results@,
            report.incomplete == self.incomplete,
    {
        SweepReport { results: self.results, incomplete: self.incomplete }
    }
}

/// Solves every cell of `grid`, the distance as the outer loop and the
/// velocity as the inner one, both ascending, with `integrate` as the measure
/// of the miss. The cells for which an angle is found make up the results, in
/// that order; the others are counted.
pub fn sweep<F: Fn(Fixed, Fixed, Fixed, Fixed, Fixed, Fixed) -> Fixed>(
    grid: Grid,
    settings: SolverSettings,
    integrate: F,
) -> (report: SweepReport)
    requires
        grid.valid(),
        forall|n: int| 0 <= n < grid.spec_total() ==> #[trigger] accepts_cell(integrate, grid, n),
    ensures
        report.results@.len() + report.incomplete == grid.spec_total(),
        forall|model: spec_fn(Fixed, Fixed, Fixed, Fixed, Fixed, Fixed) -> Fixed|
            follows(integrate, model) ==> {
                &&& report.results@ == #[trigger] sweep_results(
                    model,
                    grid,
                    settings,
                    grid.spec_total() as int,
                )
                &&& report.incomplete == sweep_incomplete(
                    model,
                    grid,
                    settings,
                    grid.spec_total() as int,
                )
            },
{
    let mut state = Sweep::new(grid, settings);
    while !state.is_finished()
        invariant
            state.wf(),
            state.grid == grid,
            state.settings == settings,
            forall|n: int|
                0 <= n < grid.spec_total() ==> #[trigger] accepts_cell(integrate, grid, n),
            forall|model: spec_fn(Fixed, Fixed, Fixed, Fixed, Fixed, Fixed) -> Fixed|
                follows(integrate, model) ==> #[trigger] state.agrees(model),
        decreases grid.spec_total() - state.done,
    {
        let ghost before = state;
        state.advance(&integrate);
        assert forall|model: spec_fn(Fixed, Fixed, Fixed, Fixed, Fixed, Fixed) -> Fixed|
            follows(integrate, model) implies #[trigger] state.agrees(model) by {
            assert(before.agrees(model));
        }
    }
    proof {
        assert forall|model: spec_fn(Fixed, Fixed, Fixed, Fixed, Fixed, Fixed) -> Fixed|
            follows(integrate, model) implies state.results@ == #[trigger] sweep_results(
            model,
            grid,
            settings,
            grid.spec_total() as int,
        ) && state.incomplete == sweep_incomplete(model, grid, settings, grid.spec_total() as int) by {
            assert(state.agrees(model));
        }
    }
    state.into_report()
}

/// A full simulation which runs single-threaded on the CPU: the sweep of the
/// configured grid with leapfrog integration under the configured physics.
pub fn simulate_single_cpu(config: &SimulationConfig) -> (report: SweepReport)
    requires
        config.grid.valid(),
    ensures
        report.results@ == sweep_results(
            leapfrog_model(config.physics),
            config.grid,
            config.solver,
            config.grid.spec_total() as int,
        ),
        report.incomplete == sweep_incomplete(
            leapfrog_model(config.physics),
            config.grid,
            config.solver,
            config.grid.spec_total() as int,
        ),
        report.results@.len() + report.incomplete == config.grid.spec_total(),
{
    let physics = &config.physics;
    let integrate = |
        angle: Fixed,
        velocity: Fixed,
        x1: Fixed,
        y1: Fixed,
        x2: Fixed,
        y2: Fixed,
    | -> (error: Fixed)
        ensures
            error == leapfrog::spec_integrate(*physics, angle, velocity, x1, y1, x2, y2),
        { leapfrog::integrate(physics, angle, velocity, x1, y1, x2, y2) };
    let report = sweep(config.grid, config.solver, integrate);
    proof {
        assert(follows(integrate, leapfrog_model(config.physics)));
    }
    report
}

/// Runs the simulation that `config` describes, after checking that its grid
/// can be swept.
pub fn run_simulation(config: &SimulationConfig) -> (r: Result<SweepReport, ConfigError>)
    ensures
        match r {
            Ok(report) => {
                &&& config.grid.valid()
                &&& report.results@.len() + report.incomplete == config.grid.spec_total()
                &&& report.results@ == sweep_results(
                    leapfrog_model(config.physics),
                    config.grid,
                    config.solver,
                    config.grid.spec_total() as int,
                )
                &&& report.incomplete == sweep_incomplete(
                    leapfrog_model(config.physics),
                    config.grid,
                    config.solver,
                    config.grid.spec_total() as int,
                )
            },
            Err(error) => {
                &&& !config.grid.valid()
                &&& error == ConfigError::ZeroDistanceStep <==> config.grid.distance.step.raw == 0
                &&& error == ConfigError::ZeroVelocityStep <==> config.grid.distance.step.raw != 0
                    && config.grid.velocity.step.raw == 0
                &&& error == ConfigError::GridTooLarge <==> config.grid.distance.step.raw != 0
                    && config.grid.velocity.step.raw != 0
            },
        },
{
    match config.grid.check() {
        Ok(()) => Ok(simulate_single_cpu(config)),
        Err(error) => Err(error),
    }
}

} // verus!
