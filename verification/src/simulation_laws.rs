use crate::constants::{Axis, Grid, Physics};
use crate::fixed::{lemma_mul_by_whole, magnitude, Fixed};
use crate::integrators::leapfrog;
use crate::integrators::physics_helpers::spec_drag_factors;
use crate::integrators::target_height;
use crate::integrators::target_height::{GroundPolicy, Stepper};
use crate::math_helpers::{
    lemma_nearest_multiple_ascends, lemma_round_nearest_keeps_grid_values, nearest_multiple,
    MathHelpers,
};
use crate::simulation_helpers::{cell_outcome, leapfrog_model, sweep_incomplete, sweep_results};
use crate::solvers::bisection::{
    spec_solve, spec_within, SolverOutcome, SolverSettings, ANGLE_MAX_RAW, ANGLE_MIN_RAW,
};
use crate::solvers::convergence::lemma_no_hit_is_infeasible;
use vstd::prelude::*;

verus! {

/// A value of an axis that is a number is the start and a whole number of
/// steps, exactly, rounded to the nearest multiple of the step. The step is
/// a number other than zero.
pub proof fn lemma_axis_value_is_rounded_sum(axis: Axis, index: u32)
    requires
        axis.step.raw != 0,
        !axis.spec_value(index).is_nan(),
    ensures
        !axis.step.is_nan(),
        !axis.min.is_nan(),
        !Fixed::of(axis.min.raw + index * axis.step.raw).is_nan(),
        axis.spec_value(index) == Fixed::of(
            nearest_multiple(
                axis.min.raw + index * axis.step.raw,
                magnitude(axis.step.raw as int),
            ),
        ),
{
    lemma_mul_by_whole(axis.step, index as i64);
}

/// On an axis that starts on a multiple of its step, every value is the
/// start and a whole number of steps, exactly: rounding changes nothing. The
/// step is a number other than zero, `min` is `count` steps, and the value
/// is in range.
pub proof fn lemma_axis_values_on_step(axis: Axis, count: int, index: u32)
    requires
        !axis.step.is_nan(),
        axis.step.raw != 0,
        axis.min.raw == count * axis.step.raw,
        !axis.min.is_nan(),
        index <= 9_223_372,
        !Fixed::of(index * axis.step.raw).is_nan(),
        !Fixed::of((count + index) * axis.step.raw).is_nan(),
    ensures
        axis.spec_value(index) == Fixed::of(axis.min.raw + index * axis.step.raw),
{
    let step = axis.step.raw as int;
    lemma_mul_by_whole(axis.step, index as i64);
    assert(step * index == index * step) by (nonlinear_arith);
    assert((count + index) * step == count * step + index * step) by (nonlinear_arith);
    lemma_round_nearest_keeps_grid_values(count + index, axis.step);
}

/// The values of an axis with a positive step ascend: of two values that
/// are numbers, the one at the later place is the higher.
pub proof fn lemma_axis_values_ascend(axis: Axis, earlier: u32, later: u32)
    requires
        axis.step.raw > 0,
        earlier < later,
        !axis.spec_value(earlier).is_nan(),
        !axis.spec_value(later).is_nan(),
    ensures
        axis.spec_value(earlier).raw < axis.spec_value(later).raw,
{
    lemma_axis_value_is_rounded_sum(axis, earlier);
    lemma_axis_value_is_rounded_sum(axis, later);
    lemma_rounded_sums_ascend(axis.min.raw as int, axis.step.raw as int, earlier as int, later as int);
}

/// Of the rounded sums of a start and whole numbers of a positive step, the
/// one with more steps is the higher.
proof fn lemma_rounded_sums_ascend(start: int, step: int, earlier: int, later: int)
    requires
        step > 0,
        earlier < later,
    ensures
        nearest_multiple(start + earlier * step, step) < nearest_multiple(
            start + later * step,
            step,
        ),
    decreases later - earlier,
{
    assert(start + later * step == start + (later - 1) * step + step) by (nonlinear_arith);
    lemma_nearest_multiple_ascends(start + (later - 1) * step, step);
    if earlier < later - 1 {
        lemma_rounded_sums_ascend(start, step, earlier, later - 1);
    }
}

/// Every cell is accounted for: among the first `n` cells, those with an
/// angle and those without add up to `n`.
pub proof fn lemma_sweep_counts(
    model: spec_fn(Fixed, Fixed, Fixed, Fixed, Fixed, Fixed) -> Fixed,
    grid: Grid,
    settings: SolverSettings,
    n: int,
)
    requires
        n >= 0,
    ensures
        sweep_results(model, grid, settings, n).len() + sweep_incomplete(model, grid, settings, n)
            == n,
        sweep_incomplete(model, grid, settings, n) >= 0,
    decreases n,
{
    if n > 0 {
        lemma_sweep_counts(model, grid, settings, n - 1);
    }
}

/// The cells with an angle among the first `n`, by their numbers, ascending.
pub open spec fn sweep_cells(
    model: spec_fn(Fixed, Fixed, Fixed, Fixed, Fixed, Fixed) -> Fixed,
    grid: Grid,
    settings: SolverSettings,
    n: int,
) -> Seq<int>
    decreases n,
{
    if n <= 0 {
        Seq::empty()
    } else {
        let before = sweep_cells(model, grid, settings, n - 1);
        if cell_outcome(model, grid, settings, n - 1) is Converged {
            before.push(n - 1)
        } else {
            before
        }
    }
}

/// The results follow the order of the grid. Each result belongs to a cell
/// of its own among the first `n`, it holds that cell's distance and
/// velocity and the angle found for it, and a result that comes later in the
/// sequence belongs to a cell that comes later in the grid, the distance
/// being the outer loop and the velocity the inner one.
pub proof fn lemma_sweep_keeps_grid_order(
    model: spec_fn(Fixed, Fixed, Fixed, Fixed, Fixed, Fixed) -> Fixed,
    grid: Grid,
    settings: SolverSettings,
    n: int,
)
    requires
        n >= 0,
    ensures
        sweep_cells(model, grid, settings, n).len() == sweep_results(model, grid, settings, n).len(),
        forall|k: int|
            0 <= k < sweep_cells(model, grid, settings, n).len() ==> {
                let cell = #[trigger] sweep_cells(model, grid, settings, n)[k];
                let result = sweep_results(model, grid, settings, n)[k];
                &&& 0 <= cell < n
                &&& result.distance == grid.cell_distance(cell)
                &&& result.velocity == grid.cell_velocity(cell)
                &&& cell_outcome(model, grid, settings, cell) is Converged
                &&& cell_outcome(model, grid, settings, cell)->angle == result.angle
            },
        forall|j: int, k: int|
            0 <= j < k < sweep_cells(model, grid, settings, n).len() ==> sweep_cells(
                model,
                grid,
                settings,
                n,
            )[j] < sweep_cells(model, grid, settings, n)[k],
        forall|cell: int|
            0 <= cell < n && cell_outcome(model, grid, settings, cell) is Converged
                ==> sweep_cells(model, grid, settings, n).contains(cell),
    decreases n,
{
    if n > 0 {
        lemma_sweep_keeps_grid_order(model, grid, settings, n - 1);
        let before = sweep_cells(model, grid, settings, n - 1);
        let now = sweep_cells(model, grid, settings, n);
        assert forall|cell: int|
            0 <= cell < n && cell_outcome(model, grid, settings, cell) is Converged implies now.contains(
            cell,
        ) by {
            if cell < n - 1 {
                assert(before.contains(cell));
                let k = choose|k: int| 0 <= k < before.len() && before[k] == cell;
                assert(now[k] == cell);
            } else {
                assert(now[now.len() - 1] == cell);
            }
        }
    }
}

/// Every distance and every velocity of the grid is a number, and both
/// steps are positive.
pub open spec fn ascending(grid: Grid) -> bool {
    &&& grid.distance.step.raw > 0
    &&& grid.velocity.step.raw > 0
    &&& forall|i: u32| i < grid.distance.steps() ==> !(#[trigger] grid.distance.spec_value(i)).is_nan()
    &&& forall|j: u32| j < grid.velocity.steps() ==> !(#[trigger] grid.velocity.spec_value(j)).is_nan()
}

/// Of two cells of such a grid, the later has the higher distance, or the
/// same distance and the higher velocity.
pub proof fn lemma_cells_ascend(grid: Grid, earlier: int, later: int)
    requires
        grid.valid(),
        ascending(grid),
        0 <= earlier < later < grid.spec_total(),
    ensures
        grid.cell_distance(earlier).raw < grid.cell_distance(later).raw || (grid.cell_distance(
            earlier,
        ) == grid.cell_distance(later) && grid.cell_velocity(earlier).raw < grid.cell_velocity(
            later,
        ).raw),
{
    let rows = grid.distance.steps() as int;
    let columns = grid.velocity.steps() as int;
    let row_a = earlier / columns;
    let row_b = later / columns;
    let column_a = earlier % columns;
    let column_b = later % columns;
    assert(0 <= row_a <= row_b < rows && 0 <= column_a < columns && 0 <= column_b < columns && (row_a
        == row_b ==> column_a < column_b)) by (nonlinear_arith)
        requires
            columns > 0,
            0 <= earlier < later < rows * columns,
            row_a == earlier / columns,
            row_b == later / columns,
            column_a == earlier % columns,
            column_b == later % columns,
    ;
    if row_a < row_b {
        lemma_axis_values_ascend(grid.distance, row_a as u32, row_b as u32);
    } else {
        lemma_axis_values_ascend(grid.velocity, column_a as u32, column_b as u32);
    }
}

/// The results ascend. On a grid whose distances and velocities are numbers
/// and whose steps are positive, a result that comes later in the sequence
/// has the higher distance, or the same distance and the higher velocity.
pub proof fn lemma_sweep_results_ascend(
    model: spec_fn(Fixed, Fixed, Fixed, Fixed, Fixed, Fixed) -> Fixed,
    grid: Grid,
    settings: SolverSettings,
    n: int,
    earlier: int,
    later: int,
)
    requires
        grid.valid(),
        ascending(grid),
        0 <= n <= grid.spec_total(),
        0 <= earlier < later < sweep_results(model, grid, settings, n).len(),
    ensures
        ({
            let first = sweep_results(model, grid, settings, n)[earlier];
            let second = sweep_results(model, grid, settings, n)[later];
            first.distance.raw < second.distance.raw || (first.distance == second.distance
                && first.velocity.raw < second.velocity.raw)
        }),
{
    lemma_sweep_keeps_grid_order(model, grid, settings, n);
    let cells = sweep_cells(model, grid, settings, n);
    assert(0 <= cells[earlier] < n);
    assert(0 <= cells[later] < n);
    lemma_cells_ascend(grid, cells[earlier], cells[later]);
}

/// A target at the launch point's own distance cannot be hit. With the
/// target no farther along than the launch point, the projectile has arrived
/// before it moves, the miss at every angle is the height of the launch
/// point above the target, and unless that is within tolerance the search
/// reports the target as infeasible, at every velocity.
pub proof fn lemma_zero_distance_is_infeasible(
    physics: Physics,
    velocity: Fixed,
    target_height: Fixed,
    settings: SolverSettings,
)
    requires
        !spec_within(Fixed::zero().sub(target_height), settings.tolerance),
    ensures
        spec_solve(
            leapfrog_model(physics),
            Fixed::zero(),
            Fixed::zero(),
            Fixed::zero(),
            target_height,
            velocity,
            settings,
        ) == SolverOutcome::Infeasible,
{
    let zero = Fixed::zero();
    assert forall|angle: Fixed| ANGLE_MIN_RAW <= angle.raw <= ANGLE_MAX_RAW implies !spec_within(
        #[trigger] leapfrog_model(physics)(angle, velocity, zero, zero, zero, target_height),
        settings.tolerance,
    ) by {
        leapfrog::lemma_no_flight(physics, angle, velocity, zero, zero, zero, target_height);
    }
    lemma_no_hit_is_infeasible(
        leapfrog_model(physics),
        zero,
        zero,
        zero,
        target_height,
        velocity,
        settings,
    );
}

/// The miss that a flight followed to the target's height gives, as a
/// function of the launch and the target.
pub open spec fn target_height_model(
    physics: Physics,
    stepper: Stepper,
    policy: GroundPolicy,
) -> spec_fn(Fixed, Fixed, Fixed, Fixed, Fixed, Fixed) -> Fixed {
    |angle: Fixed, velocity: Fixed, x1: Fixed, y1: Fixed, x2: Fixed, y2: Fixed|
        target_height::spec_integrate(physics, stepper, policy, angle, velocity, x1, y1, x2, y2)
}

/// A target straight above the launch point is hit straight up. Where
/// flights are followed to the target's height, and the launch under
/// 90 degrees comes as high as the target, the search from the whole range
/// converges: on 90 degrees with no miss at all, unless the miss at 0 degrees
/// is within tolerance already. The tolerance is a number that is not
/// negative.
pub proof fn lemma_zero_distance_is_hit_straight_up(
    physics: Physics,
    stepper: Stepper,
    policy: GroundPolicy,
    velocity: Fixed,
    target_height: Fixed,
    settings: SolverSettings,
)
    requires
        settings.strategy is WholeRange,
        settings.tolerance.raw >= 0,
        !velocity.is_nan(),
        !spec_drag_factors(physics, Fixed { raw: ANGLE_MAX_RAW }).0.is_nan(),
        !physics.timestep.is_nan(),
        target_height::spec_fly(
            physics,
            stepper,
            Fixed { raw: ANGLE_MAX_RAW },
            velocity,
            Fixed::zero(),
            Fixed::zero(),
            Fixed::zero(),
            target_height,
        ) is Hit,
    ensures
        ({
            let model = target_height_model(physics, stepper, policy);
            let zero = Fixed::zero();
            let flat = model(Fixed { raw: ANGLE_MIN_RAW }, velocity, zero, zero, zero, target_height);
            spec_solve(model, zero, zero, zero, target_height, velocity, settings) == (if spec_within(
                flat,
                settings.tolerance,
            ) {
                SolverOutcome::Converged { angle: Fixed { raw: ANGLE_MIN_RAW }, residual: flat }
            } else {
                SolverOutcome::Converged { angle: Fixed { raw: ANGLE_MAX_RAW }, residual: zero }
            })
        }),
{
    let zero = Fixed::zero();
    target_height::lemma_straight_up_meets_the_target_above(
        physics,
        stepper,
        velocity,
        zero,
        zero,
        target_height,
    );
}

} // verus!
