use crate::constants::Physics;
use crate::fixed::Fixed;
use crate::integrators::physics_helpers::{launch_velocities, spec_launch_velocities};
use vstd::prelude::*;

verus! {

/// Where the projectile is and how it moves, at one instant.
#[derive(Clone, Copy, Debug, PartialEq, Eq, Structural)]
pub struct TrajectoryState {
    pub x: Fixed,
    pub y: Fixed,
    pub x_velocity: Fixed,
    pub y_velocity: Fixed,
}

impl TrajectoryState {
    /// The state at launch from `(x1, y1)` at `velocity` under `angle`
    /// degrees.
    pub open spec fn spec_launch(
        physics: Physics,
        angle: Fixed,
        velocity: Fixed,
        x1: Fixed,
        y1: Fixed,
    ) -> TrajectoryState {
        let (x_velocity, y_velocity) = spec_launch_velocities(
            physics.decomposition,
            angle,
            velocity,
        );
        TrajectoryState { x: x1, y: y1, x_velocity, y_velocity }
    }

    /// The projectile has neither come as far as `x2` nor fallen below the
    /// ground. A position that is not a number is not in flight.
    pub open spec fn spec_in_flight(self, x2: Fixed) -> bool {
        self.x.lt(x2) && self.y.ge(Fixed::zero())
    }

    /// How far above the height `y2` the projectile is, negative below it;
    /// "not a number" if its position is not a pair of numbers.
    pub open spec fn spec_miss(self, y2: Fixed) -> Fixed {
        if self.x.is_nan() {
            Fixed::nan()
        } else {
            self.y.sub(y2)
        }
    }

    /// Returns the state at launch.
    pub fn launch(physics: &Physics, angle: Fixed, velocity: Fixed, x1: Fixed, y1: Fixed) -> (r:
        TrajectoryState)
        ensures
            r == TrajectoryState::spec_launch(*physics, angle, velocity, x1, y1),
    {
        let (x_velocity, y_velocity) = launch_velocities(physics.decomposition, angle, velocity);
        TrajectoryState { x: x1, y: y1, x_velocity, y_velocity }
    }

    /// Tells whether the projectile is still in flight toward `x2`.
    #[verifier::when_used_as_spec(spec_in_flight)]
    pub fn in_flight(self, x2: Fixed) -> (r: bool)
        ensures
            r == self.spec_in_flight(x2),
    {
        self.x.lt(x2) && self.y.ge(Fixed::zero())
    }

    /// Returns how far above the height `y2` the projectile is.
    #[verifier::when_used_as_spec(spec_miss)]
    pub fn miss(self, y2: Fixed) -> (r: Fixed)
        ensures
            r == self.spec_miss(y2),
    {
        if self.x.is_nan() {
            Fixed::nan()
        } else {
            self.y.sub(y2)
        }
    }
}

} // verus!
