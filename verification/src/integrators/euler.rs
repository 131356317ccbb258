use crate::constants::Physics;
use crate::fixed::{lemma_mul_sign, Fixed};
use crate::integrators::physics_helpers::{
    calculate_drag_factors, drag_deceleration, lemma_no_factor_no_drag, spec_drag_deceleration,
    spec_drag_factors,
};
use crate::integrators::trajectory::TrajectoryState;
use vstd::prelude::*;

verus! {

/// One Euler step: the velocity changes by the acceleration at the start of
/// the step times the time step, and the position then moves by the new
/// velocity times the time step. The acceleration is drag against the
/// motion on both axes, and gravity downward.
pub open spec fn spec_step(
    physics: Physics,
    x_drag_factor: Fixed,
    y_drag_factor: Fixed,
    state: TrajectoryState,
) -> TrajectoryState {
    let dx_velocity = spec_drag_deceleration(x_drag_factor, state.x_velocity);
    let dy_velocity = physics.gravity.add(spec_drag_deceleration(y_drag_factor, state.y_velocity));
    let x_velocity = state.x_velocity.sub(dx_velocity.mul(physics.timestep));
    let y_velocity = state.y_velocity.sub(dy_velocity.mul(physics.timestep));
    TrajectoryState {
        x: state.x.add(x_velocity.mul(physics.timestep)),
        y: state.y.add(y_velocity.mul(physics.timestep)),
        x_velocity,
        y_velocity,
    }
}

/// The miss at the end of the flight that starts in `state`: steps are taken
/// while the projectile is in flight; when it no longer is, its height above
/// `y2` is the result. A flight that has not ended after `steps` steps gives
/// "not a number".
pub open spec fn flight(
    physics: Physics,
    x_drag_factor: Fixed,
    y_drag_factor: Fixed,
    state: TrajectoryState,
    x2: Fixed,
    y2: Fixed,
    steps: nat,
) -> Fixed
    decreases steps,
{
    if !state.in_flight(x2) {
        state.miss(y2)
    } else if steps == 0 {
        Fixed::nan()
    } else {
        flight(
            physics,
            x_drag_factor,
            y_drag_factor,
            spec_step(physics, x_drag_factor, y_drag_factor, state),
            x2,
            y2,
            (steps - 1) as nat,
        )
    }
}

/// The miss of a launch from `(x1, y1)` at `velocity` under `angle` degrees,
/// aimed at `(x2, y2)`, as Euler integration gives it.
pub open spec fn spec_integrate(
    physics: Physics,
    angle: Fixed,
    velocity: Fixed,
    x1: Fixed,
    y1: Fixed,
    x2: Fixed,
    y2: Fixed,
) -> Fixed {
    let (x_drag_factor, y_drag_factor) = spec_drag_factors(physics, angle);
    flight(
        physics,
        x_drag_factor,
        y_drag_factor,
        TrajectoryState::spec_launch(physics, angle, velocity, x1, y1),
        x2,
        y2,
        physics.max_steps as nat,
    )
}

/// Takes one Euler step from `state`.
pub fn step(
    physics: &Physics,
    x_drag_factor: Fixed,
    y_drag_factor: Fixed,
    state: TrajectoryState,
) -> (next: TrajectoryState)
    ensures
        next == spec_step(*physics, x_drag_factor, y_drag_factor, state),
{
    let dx_velocity = drag_deceleration(x_drag_factor, state.x_velocity);
    let dy_velocity = physics.gravity.add(drag_deceleration(y_drag_factor, state.y_velocity));
    let x_velocity = state.x_velocity.sub(dx_velocity.mul(physics.timestep));
    let y_velocity = state.y_velocity.sub(dy_velocity.mul(physics.timestep));
    TrajectoryState {
        x: state.x.add(x_velocity.mul(physics.timestep)),
        y: state.y.add(y_velocity.mul(physics.timestep)),
        x_velocity,
        y_velocity,
    }
}

/// Euler integration with a fixed time step.
fn euler(
    physics: &Physics,
    angle: Fixed,
    velocity: Fixed,
    x1: Fixed,
    y1: Fixed,
    x2: Fixed,
    y2: Fixed,
) -> (error: Fixed)
    ensures
        error == spec_integrate(*physics, angle, velocity, x1, y1, x2, y2),
{
    let (x_drag_factor, y_drag_factor) = calculate_drag_factors(physics, angle);
    let mut state = TrajectoryState::launch(physics, angle, velocity, x1, y1);
    let mut left: u64 = physics.max_steps;
    while left > 0 && state.in_flight(x2)
        invariant
            spec_integrate(*physics, angle, velocity, x1, y1, x2, y2) == flight(
                *physics,
                x_drag_factor,
                y_drag_factor,
                state,
                x2,
                y2,
                left as nat,
            ),
        decreases left,
    {
        state = step(physics, x_drag_factor, y_drag_factor, state);
        left = left - 1;
    }
    if state.in_flight(x2) {
        Fixed::nan()
    } else {
        state.miss(y2)
    }
}

/// Follows a launch from `(x1, y1)` at `velocity` under `angle` degrees by
/// Euler steps until the projectile has come as far as `x2` or fallen below
/// the ground, and returns how far above the height `y2` it then is.
///
/// The result is "not a number" where the flight takes more than
/// `physics.max_steps` steps or leaves the range of the numbers.
#[must_use]
pub fn integrate(
    physics: &Physics,
    angle: Fixed,
    velocity: Fixed,
    x1: Fixed,
    y1: Fixed,
    x2: Fixed,
    y2: Fixed,
) -> (error: Fixed)
    ensures
        error == spec_integrate(*physics, angle, velocity, x1, y1, x2, y2),
{
    euler(physics, angle, velocity, x1, y1, x2, y2)
}

/// Without drag a step is a step of free fall. Where both drag factors are
/// zero, a step leaves the horizontal velocity as it is and takes gravity
/// times the time step off the vertical velocity; the position moves for a
/// time step at the new velocities. The velocities, gravity and the time
/// step are numbers, and the squares of the velocities are in range.
pub proof fn lemma_step_without_drag(physics: Physics, state: TrajectoryState)
    requires
        !physics.gravity.is_nan(),
        !physics.timestep.is_nan(),
        !state.x_velocity.abs().mul(state.x_velocity).is_nan(),
        !state.y_velocity.abs().mul(state.y_velocity).is_nan(),
    ensures
        ({
            let y_velocity = state.y_velocity.sub(physics.gravity.mul(physics.timestep));
            spec_step(physics, Fixed::zero(), Fixed::zero(), state) == TrajectoryState {
                x: state.x.add(state.x_velocity.mul(physics.timestep)),
                y: state.y.add(y_velocity.mul(physics.timestep)),
                x_velocity: state.x_velocity,
                y_velocity,
            }
        }),
{
    let zero = Fixed::zero();
    lemma_mul_sign(zero, physics.timestep);
    assert(zero.mul(physics.timestep) == zero);
    assert(state.x_velocity.sub(zero) == state.x_velocity);
    lemma_no_factor_no_drag(state.x_velocity);
    lemma_no_factor_no_drag(state.y_velocity);
    assert(physics.gravity.add(zero) == physics.gravity);
}

/// A launch that is not in flight at the start takes no step. Where the
/// launch point is already as far as `x2`, or below the ground, or not a
/// pair of numbers, the miss is the height of the launch point above `y2`,
/// whatever the angle and the velocity.
pub proof fn lemma_no_flight(
    physics: Physics,
    angle: Fixed,
    velocity: Fixed,
    x1: Fixed,
    y1: Fixed,
    x2: Fixed,
    y2: Fixed,
)
    requires
        !(x1.lt(x2) && y1.ge(Fixed::zero())),
    ensures
        spec_integrate(physics, angle, velocity, x1, y1, x2, y2) == (if x1.is_nan() {
            Fixed::nan()
        } else {
            y1.sub(y2)
        }),
{
}

} // verus!
