use crate::constants::Physics;
use crate::fixed::{lemma_mul_sign, Fixed};
use crate::integrators::physics_helpers::{
    calculate_drag_factors, drag_deceleration, lemma_no_factor_no_drag, spec_drag_deceleration,
    spec_drag_factors,
};
use crate::integrators::trajectory::TrajectoryState;
use vstd::prelude::*;

verus! {

/// A trajectory state together with the deceleration on each axis that the
/// next step starts from.
#[derive(Clone, Copy, Debug, PartialEq, Eq, Structural)]
pub struct LeapfrogState {
    pub body: TrajectoryState,
    pub dx_velocity: Fixed,
    pub dy_velocity: Fixed,
}

/// `body` with the decelerations that its velocities give: drag against the
/// motion on both axes, and gravity downward.
pub open spec fn spec_with_decelerations(
    physics: Physics,
    x_drag_factor: Fixed,
    y_drag_factor: Fixed,
    body: TrajectoryState,
) -> LeapfrogState {
    LeapfrogState {
        body,
        dx_velocity: spec_drag_deceleration(x_drag_factor, body.x_velocity),
        dy_velocity: spec_drag_deceleration(y_drag_factor, body.y_velocity).add(physics.gravity),
    }
}

/// One leapfrog step: half a time step of the deceleration that the step
/// starts from is taken off the velocity, the position moves by that
/// velocity for a whole time step, the deceleration is worked out anew from
/// that velocity, and half a time step of the new deceleration is taken off
/// the velocity.
pub open spec fn spec_step(
    physics: Physics,
    x_drag_factor: Fixed,
    y_drag_factor: Fixed,
    state: LeapfrogState,
) -> LeapfrogState {
    let half_step = physics.timestep.half();
    let x_velocity = state.body.x_velocity.sub(state.dx_velocity.mul(half_step));
    let y_velocity = state.body.y_velocity.sub(state.dy_velocity.mul(half_step));
    let x = state.body.x.add(x_velocity.mul(physics.timestep));
    let y = state.body.y.add(y_velocity.mul(physics.timestep));
    let dx_velocity = spec_drag_deceleration(x_drag_factor, x_velocity);
    let dy_velocity = spec_drag_deceleration(y_drag_factor, y_velocity).add(physics.gravity);
    LeapfrogState {
        body: TrajectoryState {
            x,
            y,
            x_velocity: x_velocity.sub(dx_velocity.mul(half_step)),
            y_velocity: y_velocity.sub(dy_velocity.mul(half_step)),
        },
        dx_velocity,
        dy_velocity,
    }
}

/// The miss at the end of the flight that starts in `state`: steps are taken
/// while the projectile is in flight; when it no longer is, its height above
/// `y2` is the result. A flight that has not ended after `steps` steps gives
/// "not a number".
pub open spec fn flight(
    physics: Physics,
    x_drag_factor: Fixed,
    y_drag_factor: Fixed,
    state: LeapfrogState,
    x2: Fixed,
    y2: Fixed,
    steps: nat,
) -> Fixed
    decreases steps,
{
    if !state.body.in_flight(x2) {
        state.body.miss(y2)
    } else if steps == 0 {
        Fixed::nan()
    } else {
        flight(
            physics,
            x_drag_factor,
            y_drag_factor,
            spec_step(physics, x_drag_factor, y_drag_factor, state),
            x2,
            y2,
            (steps - 1) as nat,
        )
    }
}

/// The miss of a launch from `(x1, y1)` at `velocity` under `angle` degrees,
/// aimed at `(x2, y2)`, as leapfrog integration gives it.
pub open spec fn spec_integrate(
    physics: Physics,
    angle: Fixed,
    velocity: Fixed,
    x1: Fixed,
    y1: Fixed,
    x2: Fixed,
    y2: Fixed,
) -> Fixed {
    let (x_drag_factor, y_drag_factor) = spec_drag_factors(physics, angle);
    flight(
        physics,
        x_drag_factor,
        y_drag_factor,
        spec_with_decelerations(
            physics,
            x_drag_factor,
            y_drag_factor,
            TrajectoryState::spec_launch(physics, angle, velocity, x1, y1),
        ),
        x2,
        y2,
        physics.max_steps as nat,
    )
}

/// Joins to `body` the decelerations that its velocities give.
pub fn with_decelerations(
    physics: &Physics,
    x_drag_factor: Fixed,
    y_drag_factor: Fixed,
    body: TrajectoryState,
) -> (state: LeapfrogState)
    ensures
        state == spec_with_decelerations(*physics, x_drag_factor, y_drag_factor, body),
{
    LeapfrogState {
        body,
        dx_velocity: drag_deceleration(x_drag_factor, body.x_velocity),
        dy_velocity: drag_deceleration(y_drag_factor, body.y_velocity).add(physics.gravity),
    }
}

/// Takes one leapfrog step from `state`.
pub fn step(
    physics: &Physics,
    x_drag_factor: Fixed,
    y_drag_factor: Fixed,
    state: LeapfrogState,
) -> (next: LeapfrogState)
    ensures
        next == spec_step(*physics, x_drag_factor, y_drag_factor, state),
{
    let half_step = physics.timestep.half();
    let x_velocity = state.body.x_velocity.sub(state.dx_velocity.mul(half_step));
    let y_velocity = state.body.y_velocity.sub(state.dy_velocity.mul(half_step));
    let x = state.body.x.add(x_velocity.mul(physics.timestep));
    let y = state.body.y.add(y_velocity.mul(physics.timestep));
    let dx_velocity = drag_deceleration(x_drag_factor, x_velocity);
    let dy_velocity = drag_deceleration(y_drag_factor, y_velocity).add(physics.gravity);
    LeapfrogState {
        body: TrajectoryState {
            x,
            y,
            x_velocity: x_velocity.sub(dx_velocity.mul(half_step)),
            y_velocity: y_velocity.sub(dy_velocity.mul(half_step)),
        },
        dx_velocity,
        dy_velocity,
    }
}

/// Leapfrog integration with a fixed time step.
fn leapfrog(
    physics: &Physics,
    angle: Fixed,
    velocity: Fixed,
    x1: Fixed,
    y1: Fixed,
    x2: Fixed,
    y2: Fixed,
) -> (error: Fixed)
    ensures
        error == spec_integrate(*physics, angle, velocity, x1, y1, x2, y2),
{
    let (x_drag_factor, y_drag_factor) = calculate_drag_factors(physics, angle);
    let mut state = with_decelerations(
        physics,
        x_drag_factor,
        y_drag_factor,
        TrajectoryState::launch(physics, angle, velocity, x1, y1),
    );
    let mut left: u64 = physics.max_steps;
    while left > 0 && state.body.in_flight(x2)
        invariant
            spec_integrate(*physics, angle, velocity, x1, y1, x2, y2) == flight(
                *physics,
                x_drag_factor,
                y_drag_factor,
                state,
                x2,
                y2,
                left as nat,
            ),
        decreases left,
    {
        state = step(physics, x_drag_factor, y_drag_factor, state);
        left = left - 1;
    }
    if state.body.in_flight(x2) {
        Fixed::nan()
    } else {
        state.body.miss(y2)
    }
}

/// Follows a launch from `(x1, y1)` at `velocity` under `angle` degrees by
/// leapfrog steps until the projectile has come as far as `x2` or fallen
/// below the ground, and returns how far above the height `y2` it then is.
///
/// The result is "not a number" where the flight takes more than
/// `physics.max_steps` steps or leaves the range of the numbers.
pub fn integrate(
    physics: &Physics,
    angle: Fixed,
    velocity: Fixed,
    x1: Fixed,
    y1: Fixed,
    x2: Fixed,
    y2: Fixed,
) -> (error: Fixed)
    ensures
        error == spec_integrate(*physics, angle, velocity, x1, y1, x2, y2),
{
    leapfrog(physics, angle, velocity, x1, y1, x2, y2)
}

/// Without drag a step is a step of free fall. Where both drag factors are
/// zero, and the state holds no deceleration but gravity, a step leaves the
/// horizontal velocity as it is and takes gravity times half the time step
/// off the vertical velocity twice; the position moves for a whole time step
/// at the horizontal velocity and at the vertical velocity of the middle of
/// the step. The velocities and gravity are numbers, and the squares of the
/// velocities are in range.
pub proof fn lemma_step_without_drag(physics: Physics, state: LeapfrogState)
    requires
        state.dx_velocity == Fixed::zero(),
        state.dy_velocity == physics.gravity,
        !physics.gravity.is_nan(),
        !physics.timestep.is_nan(),
        !state.body.x_velocity.abs().mul(state.body.x_velocity).is_nan(),
        ({
            let middle = state.body.y_velocity.sub(physics.gravity.mul(physics.timestep.half()));
            !middle.abs().mul(middle).is_nan()
        }),
    ensures
        ({
            let drop = physics.gravity.mul(physics.timestep.half());
            let middle = state.body.y_velocity.sub(drop);
            spec_step(physics, Fixed::zero(), Fixed::zero(), state) == LeapfrogState {
                body: TrajectoryState {
                    x: state.body.x.add(state.body.x_velocity.mul(physics.timestep)),
                    y: state.body.y.add(middle.mul(physics.timestep)),
                    x_velocity: state.body.x_velocity,
                    y_velocity: middle.sub(drop),
                },
                dx_velocity: Fixed::zero(),
                dy_velocity: physics.gravity,
            }
        }),
{
    let zero = Fixed::zero();
    let half_step = physics.timestep.half();
    let drop = physics.gravity.mul(half_step);
    let middle = state.body.y_velocity.sub(drop);
    lemma_mul_sign(zero, half_step);
    assert(zero.mul(half_step) == zero);
    assert(state.body.x_velocity.sub(zero) == state.body.x_velocity);
    lemma_no_factor_no_drag(state.body.x_velocity);
    lemma_no_factor_no_drag(middle);
    assert(zero.add(physics.gravity) == physics.gravity);
}

/// A launch that is not in flight at the start takes no step. Where the
/// launch point is already as far as `x2`, or below the ground, or not a
/// pair of numbers, the miss is the height of the launch point above `y2`,
/// whatever the angle and the velocity.
pub proof fn lemma_no_flight(
    physics: Physics,
    angle: Fixed,
    velocity: Fixed,
    x1: Fixed,
    y1: Fixed,
    x2: Fixed,
    y2: Fixed,
)
    requires
        !(x1.lt(x2) && y1.ge(Fixed::zero())),
    ensures
        spec_integrate(physics, angle, velocity, x1, y1, x2, y2) == (if x1.is_nan() {
            Fixed::nan()
        } else {
            y1.sub(y2)
        }),
{
}

} // verus!
