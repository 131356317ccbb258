use crate::constants::Physics;
use crate::fixed::{lemma_mul_sign, lemma_product_magnitude, magnitude, Fixed, SCALE};
use crate::integrators::euler;
use crate::integrators::leapfrog;
use crate::integrators::leapfrog::LeapfrogState;
use crate::integrators::physics_helpers::{
    calculate_drag_factors, lemma_initial_velocities_at_ends, spec_drag_factors,
};
use crate::integrators::trigonometry::QUARTER_RAW;
use crate::integrators::trajectory::TrajectoryState;
use vstd::prelude::*;

verus! {

/// The stepping algorithm of a flight.
#[derive(Clone, Copy, Debug, PartialEq, Eq, Structural)]
pub enum Stepper {
    Euler,
    Leapfrog,
}

/// What the miss of a flight is that came to the ground without reaching the
/// target's height.
#[derive(Clone, Copy, Debug, PartialEq, Eq, Structural)]
pub enum GroundPolicy {
    /// The distance from the point of impact to the target.
    Distance,
    /// "Not a number".
    NotANumber,
}

/// How a flight toward the target's height ended.
#[derive(Clone, Copy, Debug, PartialEq, Eq, Structural)]
pub enum FlightEnd {
    /// The projectile came to the target's height, `error` past the target;
    /// before the target where `error` is negative.
    Hit { error: Fixed },
    /// The projectile came to the ground at `x`, before the target, without
    /// reaching its height.
    GroundedShort { x: Fixed },
    /// The projectile came to the ground at `x`, at or past the target,
    /// without reaching its height.
    GroundedPast { x: Fixed },
    /// The flight took too many steps or left the range of the numbers.
    Lost,
}

/// Where the straight line from `prev` to `cur` is at the height `height`.
pub open spec fn spec_crossing_x(
    prev: TrajectoryState,
    cur: TrajectoryState,
    height: Fixed,
) -> Fixed {
    prev.x.add(cur.x.sub(prev.x).mul(height.sub(prev.y)).div(cur.y.sub(prev.y)))
}

/// The projectile at height `y` has come to the height `y2`: from below if
/// it was launched below it, from above or from that height if not.
pub open spec fn spec_reached(y: Fixed, below: bool, y2: Fixed) -> bool {
    if below {
        y.ge(y2)
    } else {
        y.lt(y2)
    }
}

/// The end of a flight on the ground at `x`.
pub open spec fn spec_grounded(x: Fixed, x2: Fixed) -> FlightEnd {
    if x.is_nan() || x2.is_nan() {
        FlightEnd::Lost
    } else if x.lt(x2) {
        FlightEnd::GroundedShort { x }
    } else {
        FlightEnd::GroundedPast { x }
    }
}

/// The end of a flight at the target's height at `x`.
pub open spec fn spec_hit(x: Fixed, x2: Fixed) -> FlightEnd {
    if x.sub(x2).is_nan() {
        FlightEnd::Lost
    } else {
        FlightEnd::Hit { error: x.sub(x2) }
    }
}

/// How the flight ends with the step from `prev` to `cur`, if it does: lost
/// where the position is no pair of numbers; at the target's height where
/// that is reached, at the place where the straight line between the two
/// positions meets it; on the ground where the projectile has fallen below
/// it, at the place where that line meets the ground.
pub open spec fn spec_ended(
    prev: TrajectoryState,
    cur: TrajectoryState,
    below: bool,
    x2: Fixed,
    y2: Fixed,
) -> Option<FlightEnd> {
    if cur.x.is_nan() || cur.y.is_nan() {
        Some(FlightEnd::Lost)
    } else if spec_reached(cur.y, below, y2) {
        Some(spec_hit(spec_crossing_x(prev, cur, y2), x2))
    } else if cur.y.lt(Fixed::zero()) {
        Some(spec_grounded(spec_crossing_x(prev, cur, Fixed::zero()), x2))
    } else {
        None
    }
}

/// One step of the algorithm that `stepper` names.
pub open spec fn spec_advance(
    physics: Physics,
    stepper: Stepper,
    x_drag_factor: Fixed,
    y_drag_factor: Fixed,
    state: LeapfrogState,
) -> LeapfrogState {
    match stepper {
        Stepper::Euler => LeapfrogState {
            body: euler::spec_step(physics, x_drag_factor, y_drag_factor, state.body),
            dx_velocity: state.dx_velocity,
            dy_velocity: state.dy_velocity,
        },
        Stepper::Leapfrog => leapfrog::spec_step(physics, x_drag_factor, y_drag_factor, state),
    }
}

/// The end of the flight that goes on from `state`: steps are taken until
/// one of them ends the flight; a flight that has not ended after `steps`
/// steps is lost.
pub open spec fn height_flight(
    physics: Physics,
    stepper: Stepper,
    x_drag_factor: Fixed,
    y_drag_factor: Fixed,
    state: LeapfrogState,
    below: bool,
    x2: Fixed,
    y2: Fixed,
    steps: nat,
) -> FlightEnd
    decreases steps,
{
    if steps == 0 {
        FlightEnd::Lost
    } else {
        let next = spec_advance(physics, stepper, x_drag_factor, y_drag_factor, state);
        match spec_ended(state.body, next.body, below, x2, y2) {
            Some(end) => end,
            None => height_flight(
                physics,
                stepper,
                x_drag_factor,
                y_drag_factor,
                next,
                below,
                x2,
                y2,
                (steps - 1) as nat,
            ),
        }
    }
}

/// How the flight of a launch from `(x1, y1)` at `velocity` under `angle`
/// degrees ends that is followed until it comes to the height `y2` or to the
/// ground. A launch from below the ground is on the ground where it is; a
/// launch or a target that is no pair of numbers is lost.
pub open spec fn spec_fly(
    physics: Physics,
    stepper: Stepper,
    angle: Fixed,
    velocity: Fixed,
    x1: Fixed,
    y1: Fixed,
    x2: Fixed,
    y2: Fixed,
) -> FlightEnd {
    if x1.is_nan() || y1.is_nan() || x2.is_nan() || y2.is_nan() {
        FlightEnd::Lost
    } else if y1.lt(Fixed::zero()) {
        spec_grounded(x1, x2)
    } else {
        let (x_drag_factor, y_drag_factor) = spec_drag_factors(physics, angle);
        height_flight(
            physics,
            stepper,
            x_drag_factor,
            y_drag_factor,
            leapfrog::spec_with_decelerations(
                physics,
                x_drag_factor,
                y_drag_factor,
                TrajectoryState::spec_launch(physics, angle, velocity, x1, y1),
            ),
            y1.lt(y2),
            x2,
            y2,
            physics.max_steps as nat,
        )
    }
}

/// The miss that stands for the end of a flight: how far past the target the
/// projectile came to its height; for a flight that came to the ground, what
/// `policy` names, the distance being that from the point of impact to the
/// target at `(x2, y2)`; "not a number" for a flight that was lost.
pub open spec fn spec_miss_of(end: FlightEnd, policy: GroundPolicy, x2: Fixed, y2: Fixed) -> Fixed {
    match end {
        FlightEnd::Hit { error } => error,
        FlightEnd::GroundedShort { x } | FlightEnd::GroundedPast { x } => match policy {
            GroundPolicy::Distance => x.sub(x2).hypot(y2),
            GroundPolicy::NotANumber => Fixed::nan(),
        },
        FlightEnd::Lost => Fixed::nan(),
    }
}

/// The miss of a launch that is followed to the target's height or to the
/// ground.
pub open spec fn spec_integrate(
    physics: Physics,
    stepper: Stepper,
    policy: GroundPolicy,
    angle: Fixed,
    velocity: Fixed,
    x1: Fixed,
    y1: Fixed,
    x2: Fixed,
    y2: Fixed,
) -> Fixed {
    spec_miss_of(spec_fly(physics, stepper, angle, velocity, x1, y1, x2, y2), policy, x2, y2)
}

/// Returns where the straight line from `prev` to `cur` is at the height
/// `height`.
#[verifier::when_used_as_spec(spec_crossing_x)]
pub fn crossing_x(prev: TrajectoryState, cur: TrajectoryState, height: Fixed) -> (x: Fixed)
    ensures
        x == spec_crossing_x(prev, cur, height),
{
    prev.x.add(cur.x.sub(prev.x).mul(height.sub(prev.y)).div(cur.y.sub(prev.y)))
}

/// Tells whether a projectile at height `y` has come to the height `y2`.
#[verifier::when_used_as_spec(spec_reached)]
pub fn reached(y: Fixed, below: bool, y2: Fixed) -> (r: bool)
    ensures
        r == spec_reached(y, below, y2),
{
    if below {
        y.ge(y2)
    } else {
        y.lt(y2)
    }
}

/// Returns the end of a flight on the ground at `x`.
#[verifier::when_used_as_spec(spec_grounded)]
pub fn grounded(x: Fixed, x2: Fixed) -> (end: FlightEnd)
    ensures
        end == spec_grounded(x, x2),
{
    if x.is_nan() || x2.is_nan() {
        FlightEnd::Lost
    } else if x.lt(x2) {
        FlightEnd::GroundedShort { x }
    } else {
        FlightEnd::GroundedPast { x }
    }
}

/// Returns the end of a flight at the target's height at `x`.
#[verifier::when_used_as_spec(spec_hit)]
pub fn hit(x: Fixed, x2: Fixed) -> (end: FlightEnd)
    ensures
        end == spec_hit(x, x2),
{
    let error = x.sub(x2);
    if error.is_nan() {
        FlightEnd::Lost
    } else {
        FlightEnd::Hit { error }
    }
}

/// Returns how the flight ends with the step from `prev` to `cur`, if it
/// does.
#[verifier::when_used_as_spec(spec_ended)]
pub fn ended(prev: TrajectoryState, cur: TrajectoryState, below: bool, x2: Fixed, y2: Fixed) -> (r:
    Option<FlightEnd>)
    ensures
        r == spec_ended(prev, cur, below, x2, y2),
{
    if cur.x.is_nan() || cur.y.is_nan() {
        Some(FlightEnd::Lost)
    } else if reached(cur.y, below, y2) {
        Some(hit(crossing_x(prev, cur, y2), x2))
    } else if cur.y.lt(Fixed::zero()) {
        Some(grounded(crossing_x(prev, cur, Fixed::zero()), x2))
    } else {
        None
    }
}

/// Takes one step of the algorithm that `stepper` names.
pub fn advance(
    physics: &Physics,
    stepper: Stepper,
    x_drag_factor: Fixed,
    y_drag_factor: Fixed,
    state: LeapfrogState,
) -> (next: LeapfrogState)
    ensures
        next == spec_advance(*physics, stepper, x_drag_factor, y_drag_factor, state),
{
    match stepper {
        Stepper::Euler => LeapfrogState {
            body: euler::step(physics, x_drag_factor, y_drag_factor, state.body),
            dx_velocity: state.dx_velocity,
            dy_velocity: state.dy_velocity,
        },
        Stepper::Leapfrog => leapfrog::step(physics, x_drag_factor, y_drag_factor, state),
    }
}

/// Follows a launch from `(x1, y1)` at `velocity` under `angle` degrees, by
/// steps of the algorithm that `stepper` names, until the projectile comes to
/// the height `y2` or to the ground, and tells which it was and where.
pub fn fly(
    physics: &Physics,
    stepper: Stepper,
    angle: Fixed,
    velocity: Fixed,
    x1: Fixed,
    y1: Fixed,
    x2: Fixed,
    y2: Fixed,
) -> (end: FlightEnd)
    ensures
        end == spec_fly(*physics, stepper, angle, velocity, x1, y1, x2, y2),
{
    if x1.is_nan() || y1.is_nan() || x2.is_nan() || y2.is_nan() {
        return FlightEnd::Lost;
    }
    if y1.lt(Fixed::zero()) {
        return grounded(x1, x2);
    }
    let below = y1.lt(y2);
    let (x_drag_factor, y_drag_factor) = calculate_drag_factors(physics, angle);
    let mut state = leapfrog::with_decelerations(
        physics,
        x_drag_factor,
        y_drag_factor,
        TrajectoryState::launch(physics, angle, velocity, x1, y1),
    );
    let mut left: u64 = physics.max_steps;
    while left > 0
        invariant
            spec_fly(*physics, stepper, angle, velocity, x1, y1, x2, y2) == height_flight(
                *physics,
                stepper,
                x_drag_factor,
                y_drag_factor,
                state,
                below,
                x2,
                y2,
                left as nat,
            ),
        decreases left,
    {
        let next = advance(physics, stepper, x_drag_factor, y_drag_factor, state);
        match ended(state.body, next.body, below, x2, y2) {
            Some(end) => {
                return end;
            },
            None => {},
        }
        state = next;
        left = left - 1;
    }
    FlightEnd::Lost
}

/// Returns the miss that stands for the end of a flight.
#[verifier::when_used_as_spec(spec_miss_of)]
pub fn miss_of(end: FlightEnd, policy: GroundPolicy, x2: Fixed, y2: Fixed) -> (error: Fixed)
    ensures
        error == spec_miss_of(end, policy, x2, y2),
{
    match end {
        FlightEnd::Hit { error } => error,
        FlightEnd::GroundedShort { x } | FlightEnd::GroundedPast { x } => match policy {
            GroundPolicy::Distance => x.sub(x2).hypot(y2),
            GroundPolicy::NotANumber => Fixed::nan(),
        },
        FlightEnd::Lost => Fixed::nan(),
    }
}

/// Follows a launch from `(x1, y1)` at `velocity` under `angle` degrees until
/// the projectile comes to the height `y2` or to the ground, and returns how
/// far past `x2` it came to that height, or what `policy` names for a flight
/// that came to the ground first.
///
/// The result is "not a number" where the flight takes more than
/// `physics.max_steps` steps or leaves the range of the numbers.
pub fn integrate(
    physics: &Physics,
    stepper: Stepper,
    policy: GroundPolicy,
    angle: Fixed,
    velocity: Fixed,
    x1: Fixed,
    y1: Fixed,
    x2: Fixed,
    y2: Fixed,
) -> (error: Fixed)
    ensures
        error == spec_integrate(*physics, stepper, policy, angle, velocity, x1, y1, x2, y2),
{
    miss_of(fly(physics, stepper, angle, velocity, x1, y1, x2, y2), policy, x2, y2)
}

/// The place where a flight is taken to have met a height lies between the
/// two samples that the height lies between. If `height` is no lower than
/// the lower and no higher than the higher of the heights of `prev` and
/// `cur`, which differ, and the differences that the rule of proportion
/// works with are in range, the place is a number that is no farther from
/// `prev.x` than `cur.x` is, on the same side.
pub proof fn lemma_crossing_lies_between(prev: TrajectoryState, cur: TrajectoryState, height: Fixed)
    requires
        !cur.x.sub(prev.x).is_nan(),
        !cur.y.sub(prev.y).is_nan(),
        !height.is_nan(),
        prev.y.raw != cur.y.raw,
        prev.y.raw <= height.raw <= cur.y.raw || cur.y.raw <= height.raw <= prev.y.raw,
        !cur.x.sub(prev.x).mul(height.sub(prev.y)).is_nan(),
    ensures
        !spec_crossing_x(prev, cur, height).is_nan(),
        prev.x.raw <= spec_crossing_x(prev, cur, height).raw <= cur.x.raw || cur.x.raw
            <= spec_crossing_x(prev, cur, height).raw <= prev.x.raw,
{
    let s = SCALE as int;
    let dx = cur.x.sub(prev.x);
    let dh = height.sub(prev.y);
    let dy = cur.y.sub(prev.y);
    let t = dx.mul(dh);
    let q = t.div(dy);
    let adx = magnitude(dx.raw as int);
    let adh = magnitude(dh.raw as int);
    let ady = magnitude(dy.raw as int);
    assert(dh.raw == height.raw - prev.y.raw);
    assert(adh <= ady);
    lemma_product_magnitude(dx.raw as int, dh.raw as int);
    let at = magnitude(t.raw as int);
    assert(at == (adx * adh) / s);
    lemma_product_magnitude(t.raw as int, s);
    let size = (at * s) / ady;
    assert(size <= adx) by (nonlinear_arith)
        requires
            at == (adx * adh) / s,
            size == (at * s) / ady,
            0 <= adh <= ady,
            ady > 0,
            adx >= 0,
            s > 0,
    {
        assert(at * s <= adx * adh);
        assert(adx * adh <= adx * ady);
        assert(size * ady <= at * s);
        if size > adx {
            assert(size * ady >= (adx + 1) * ady);
        }
    }
    assert(size >= 0) by (nonlinear_arith)
        requires
            size == (at * s) / ady,
            at >= 0,
            s > 0,
            ady > 0,
    ;
    assert(magnitude(t.raw * s) == at * s);
    assert(magnitude(q.raw as int) == size);
    assert(at == 0 ==> size == 0) by (nonlinear_arith)
        requires
            size == (at * s) / ady,
            ady > 0,
    ;
    assert(adx == 0 || adh == 0 ==> at == 0) by (nonlinear_arith)
        requires
            at == (adx * adh) / s,
            adx >= 0,
            adh >= 0,
            s > 0,
    ;
    assert((t.raw * s >= 0) == (t.raw >= 0)) by (nonlinear_arith)
        requires
            s > 0,
    ;
}

/// A flight without horizontal velocity stays where it is launched, as long
/// as the horizontal drag factor and the time step are numbers: it ends at
/// the target's height with no miss against a target at its own place, or
/// on the ground at its own place, or is lost.
proof fn lemma_flight_without_horizontal_velocity(
    physics: Physics,
    stepper: Stepper,
    x_drag_factor: Fixed,
    y_drag_factor: Fixed,
    state: LeapfrogState,
    below: bool,
    y2: Fixed,
    steps: nat,
)
    requires
        !state.body.x.is_nan(),
        state.body.x_velocity == Fixed::zero(),
        state.dx_velocity == Fixed::zero(),
        !x_drag_factor.is_nan(),
        !physics.timestep.is_nan(),
    ensures
        match height_flight(
            physics,
            stepper,
            x_drag_factor,
            y_drag_factor,
            state,
            below,
            state.body.x,
            y2,
            steps,
        ) {
            FlightEnd::Hit { error } => error == Fixed::zero(),
            FlightEnd::GroundedShort { x } => false,
            FlightEnd::GroundedPast { x } => x == state.body.x,
            FlightEnd::Lost => true,
        },
    decreases steps,
{
    if steps > 0 {
        let zero = Fixed::zero();
        let x = state.body.x;
        let next = spec_advance(physics, stepper, x_drag_factor, y_drag_factor, state);
        lemma_mul_sign(zero, physics.timestep);
        lemma_mul_sign(zero, physics.timestep.half());
        lemma_mul_sign(zero, zero);
        lemma_mul_sign(zero, x_drag_factor);
        assert(zero.abs() == zero);
        assert(zero.sub(zero) == zero);
        assert(x.add(zero) == x);
        assert(next.body.x == x);
        assert(next.body.x_velocity == zero);
        assert(stepper is Leapfrog ==> next.dx_velocity == zero);
        assert(x.sub(x) == zero);
        assert forall|height: Fixed|
            !(#[trigger] spec_crossing_x(state.body, next.body, height)).is_nan() implies spec_crossing_x(
            state.body,
            next.body,
            height,
        ) == x by {
            let rise = height.sub(state.body.y);
            let climb = next.body.y.sub(state.body.y);
            lemma_mul_sign(zero, rise);
            assert(zero.mul(rise).div(climb).raw == 0) by {
                assert(0int / magnitude(climb.raw as int) == 0) by (nonlinear_arith)
                    requires
                        magnitude(climb.raw as int) > 0,
                ;
                assert(0 * SCALE == 0);
            }
        }
        if spec_ended(state.body, next.body, below, x, y2) is None {
            lemma_flight_without_horizontal_velocity(
                physics,
                stepper,
                x_drag_factor,
                y_drag_factor,
                next,
                below,
                y2,
                (steps - 1) as nat,
            );
        }
    }
}

/// A launch straight up stays above the launch point. Launched under
/// 90 degrees and followed to the height of a target straight above the
/// launch point, the projectile meets the target with no miss at all if it
/// comes as high as that; if not, it comes to the ground where it was
/// launched. The velocity is a number, and so are the horizontal drag factor
/// and the time step.
pub proof fn lemma_straight_up_meets_the_target_above(
    physics: Physics,
    stepper: Stepper,
    velocity: Fixed,
    x1: Fixed,
    y1: Fixed,
    y2: Fixed,
)
    requires
        !velocity.is_nan(),
        !spec_drag_factors(physics, Fixed { raw: QUARTER_RAW }).0.is_nan(),
        !physics.timestep.is_nan(),
    ensures
        match spec_fly(physics, stepper, Fixed { raw: QUARTER_RAW }, velocity, x1, y1, x1, y2) {
            FlightEnd::Hit { error } => error == Fixed::zero(),
            FlightEnd::GroundedShort { x } => false,
            FlightEnd::GroundedPast { x } => x == x1,
            FlightEnd::Lost => true,
        },
{
    let angle = Fixed { raw: QUARTER_RAW };
    let zero = Fixed::zero();
    if !(x1.is_nan() || y1.is_nan() || y2.is_nan()) && !y1.lt(zero) {
        let (x_drag_factor, y_drag_factor) = spec_drag_factors(physics, angle);
        lemma_initial_velocities_at_ends(physics.decomposition, velocity);
        let body = TrajectoryState::spec_launch(physics, angle, velocity, x1, y1);
        assert(body.x_velocity == zero);
        lemma_mul_sign(zero, zero);
        lemma_mul_sign(zero, x_drag_factor);
        assert(zero.abs() == zero);
        lemma_flight_without_horizontal_velocity(
            physics,
            stepper,
            x_drag_factor,
            y_drag_factor,
            leapfrog::spec_with_decelerations(physics, x_drag_factor, y_drag_factor, body),
            y1.lt(y2),
            y2,
            physics.max_steps as nat,
        );
    }
}

} // verus!
