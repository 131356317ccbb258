use crate::constants::{Decomposition, Physics};
use crate::fixed::{lemma_mul_one, lemma_mul_sign, magnitude, Fixed, SCALE};
use crate::integrators::trigonometry::{
    lemma_sine_cosine_bounds, sine_cosine, spec_sine_cosine, QUARTER_RAW,
};
use vstd::prelude::*;

verus! {

/// The share of a right angle that `angle`, in degrees, takes up: 0 at
/// 0 degrees, 1 at 90. It is not held between the two.
pub open spec fn spec_vertical_weight(angle: Fixed) -> Fixed {
    angle.div(Fixed::from_int(90))
}

/// Returns the share of a right angle that `angle` takes up.
#[verifier::when_used_as_spec(spec_vertical_weight)]
pub fn vertical_weight(angle: Fixed) -> (w: Fixed)
    ensures
        w == spec_vertical_weight(angle),
{
    angle.div(Fixed::from_int(90))
}

/// The horizontal and the vertical part of a launch at `velocity` under
/// `angle` degrees: the velocity times the cosine, and times the sine.
pub open spec fn spec_initial_velocities(angle: Fixed, velocity: Fixed) -> (Fixed, Fixed) {
    let (sine, cosine) = spec_sine_cosine(angle);
    (velocity.mul(cosine), velocity.mul(sine))
}

/// The horizontal and the vertical part of a launch at `velocity` under
/// `angle` degrees, the velocity shared out in proportion to the angle: the
/// vertical part gets `angle / 90` of it and the horizontal part the rest.
pub open spec fn spec_initial_velocities_linear(angle: Fixed, velocity: Fixed) -> (Fixed, Fixed) {
    let y_weight = spec_vertical_weight(angle);
    let x_weight = Fixed::from_int(1).sub(y_weight);
    (velocity.mul(x_weight), velocity.mul(y_weight))
}

/// The split that `decomposition` names.
pub open spec fn spec_launch_velocities(
    decomposition: Decomposition,
    angle: Fixed,
    velocity: Fixed,
) -> (Fixed, Fixed) {
    match decomposition {
        Decomposition::Trigonometric => spec_initial_velocities(angle, velocity),
        Decomposition::Linear => spec_initial_velocities_linear(angle, velocity),
    }
}

/// The drag factor of each axis for a launch under `angle` degrees.
///
/// Drag coefficient and cross section of an axis are each a mix of the
/// projectile's two, weighted by the angle's share of a right angle: at
/// 0 degrees the horizontal axis has the x values and the vertical axis the
/// y values, at 90 degrees the other way round. The factor is their product
/// times `air_density / (2 * mass)`, so that `factor * v * |v|` is the
/// deceleration at velocity `v`.
pub open spec fn spec_drag_factors(physics: Physics, angle: Fixed) -> (Fixed, Fixed) {
    let y_weight = spec_vertical_weight(angle);
    let x_weight = Fixed::from_int(1).sub(y_weight);
    let p = physics.projectile;
    let constant = physics.air_density.div(p.mass.mul(Fixed::from_int(2)));
    let x_drag_coefficient = p.x_drag_coefficient.mul(x_weight).add(
        p.y_drag_coefficient.mul(y_weight),
    );
    let x_surface_area = p.x_surface_area.mul(x_weight).add(p.y_surface_area.mul(y_weight));
    let y_drag_coefficient = p.x_drag_coefficient.mul(y_weight).add(
        p.y_drag_coefficient.mul(x_weight),
    );
    let y_surface_area = p.x_surface_area.mul(y_weight).add(p.y_surface_area.mul(x_weight));
    (
        x_drag_coefficient.mul(x_surface_area).mul(constant),
        y_drag_coefficient.mul(y_surface_area).mul(constant),
    )
}

/// The deceleration by drag at `velocity`: `factor * velocity * |velocity|`,
/// which has the sign of the velocity, so that taking it away from the
/// velocity slows the motion in either direction.
pub open spec fn spec_drag_deceleration(factor: Fixed, velocity: Fixed) -> Fixed {
    velocity.abs().mul(velocity).mul(factor)
}

/// Returns the x velocity and the y velocity of a launch at `velocity` under
/// `angle` degrees, by cosine and sine.
#[verifier::when_used_as_spec(spec_initial_velocities)]
pub fn calculate_initial_velocities(angle: Fixed, velocity: Fixed) -> (r: (Fixed, Fixed))
    ensures
        r == spec_initial_velocities(angle, velocity),
{
    let (sine, cosine) = sine_cosine(angle);
    (velocity.mul(cosine), velocity.mul(sine))
}

/// Returns the x velocity and the y velocity of a launch at `velocity` under
/// `angle` degrees, shared out in proportion to the angle.
#[verifier::when_used_as_spec(spec_initial_velocities_linear)]
pub fn calculate_initial_velocities_linear(angle: Fixed, velocity: Fixed) -> (r: (Fixed, Fixed))
    ensures
        r == spec_initial_velocities_linear(angle, velocity),
{
    let y_weight = vertical_weight(angle);
    let x_weight = Fixed::from_int(1).sub(y_weight);
    (velocity.mul(x_weight), velocity.mul(y_weight))
}

/// Returns the x velocity and the y velocity of a launch, split the way
/// `decomposition` names.
#[verifier::when_used_as_spec(spec_launch_velocities)]
pub fn launch_velocities(decomposition: Decomposition, angle: Fixed, velocity: Fixed) -> (r: (
    Fixed,
    Fixed,
))
    ensures
        r == spec_launch_velocities(decomposition, angle, velocity),
{
    match decomposition {
        Decomposition::Trigonometric => calculate_initial_velocities(angle, velocity),
        Decomposition::Linear => calculate_initial_velocities_linear(angle, velocity),
    }
}

/// Returns the x drag factor and the y drag factor for a launch under
/// `angle` degrees.
pub fn calculate_drag_factors(physics: &Physics, angle: Fixed) -> (r: (Fixed, Fixed))
    ensures
        r == spec_drag_factors(*physics, angle),
{
    let y_weight = vertical_weight(angle);
    let x_weight = Fixed::from_int(1).sub(y_weight);
    let p = &physics.projectile;
    let constant = physics.air_density.div(p.mass.mul(Fixed::from_int(2)));
    let x_drag_coefficient = p.x_drag_coefficient.mul(x_weight).add(
        p.y_drag_coefficient.mul(y_weight),
    );
    let x_surface_area = p.x_surface_area.mul(x_weight).add(p.y_surface_area.mul(y_weight));
    let y_drag_coefficient = p.x_drag_coefficient.mul(y_weight).add(
        p.y_drag_coefficient.mul(x_weight),
    );
    let y_surface_area = p.x_surface_area.mul(y_weight).add(p.y_surface_area.mul(x_weight));
    (
        x_drag_coefficient.mul(x_surface_area).mul(constant),
        y_drag_coefficient.mul(y_surface_area).mul(constant),
    )
}

/// Returns the deceleration by drag at `velocity`.
#[verifier::when_used_as_spec(spec_drag_deceleration)]
pub fn drag_deceleration(factor: Fixed, velocity: Fixed) -> (r: Fixed)
    ensures
        r == spec_drag_deceleration(factor, velocity),
{
    velocity.abs().mul(velocity).mul(factor)
}

/// Drag opposes the motion. For a drag factor that is not negative, the
/// deceleration at a forward velocity is not negative, at a backward
/// velocity not positive, and at rest zero; and at the opposite velocity it
/// is the opposite deceleration. So the change of velocity that an
/// integrator makes of it, which is the deceleration taken away, never
/// points the way the projectile moves.
pub proof fn lemma_drag_opposes_motion(factor: Fixed, velocity: Fixed)
    requires
        !factor.is_nan(),
        factor.raw >= 0,
        !velocity.is_nan(),
    ensures
        spec_drag_deceleration(factor, velocity.neg()) == spec_drag_deceleration(
            factor,
            velocity,
        ).neg(),
        !spec_drag_deceleration(factor, velocity).is_nan() ==> {
            let d = spec_drag_deceleration(factor, velocity).raw;
            &&& velocity.raw > 0 ==> d >= 0
            &&& velocity.raw < 0 ==> d <= 0
            &&& velocity.raw == 0 ==> d == 0
        },
{
    let size = velocity.abs();
    assert(velocity.neg().abs() == size);
    lemma_mul_sign(size, velocity);
    let square = size.mul(velocity);
    if !square.is_nan() {
        lemma_mul_sign(square, factor);
        assert(square.neg().mul(factor) == square.mul(factor).neg());
    }
}

/// Without a drag factor there is no drag: the deceleration is zero at every
/// velocity whose square is in range.
pub proof fn lemma_no_factor_no_drag(velocity: Fixed)
    requires
        !velocity.abs().mul(velocity).is_nan(),
    ensures
        spec_drag_deceleration(Fixed { raw: 0 }, velocity) == (Fixed { raw: 0 }),
{
    lemma_mul_sign(velocity.abs().mul(velocity), Fixed { raw: 0 });
}

/// The drag factors of a physical projectile are not negative. For an angle
/// from 0 to 90 degrees, and a projectile whose coefficients, cross sections
/// and mass and the air density are numbers that are not negative, each drag
/// factor is zero or more, unless it is not a number.
pub proof fn lemma_drag_factors_not_negative(physics: Physics, angle: Fixed)
    requires
        0 <= angle.raw <= QUARTER_RAW,
        physics.air_density.raw >= 0,
        physics.projectile.mass.raw >= 0,
        physics.projectile.x_surface_area.raw >= 0,
        physics.projectile.y_surface_area.raw >= 0,
        physics.projectile.x_drag_coefficient.raw >= 0,
        physics.projectile.y_drag_coefficient.raw >= 0,
    ensures
        !spec_drag_factors(physics, angle).0.is_nan() ==> spec_drag_factors(physics, angle).0.raw
            >= 0,
        !spec_drag_factors(physics, angle).1.is_nan() ==> spec_drag_factors(physics, angle).1.raw
            >= 0,
{
    let p = physics.projectile;
    let y_weight = spec_vertical_weight(angle);
    lemma_vertical_weight_range(angle);
    let x_weight = Fixed::from_int(1).sub(y_weight);
    let two = Fixed::from_int(2);
    let doubled = p.mass.mul(two);
    lemma_mul_sign(p.mass, two);
    let constant = physics.air_density.div(doubled);
    if !constant.is_nan() {
        assert(constant.raw >= 0) by {
            let n = physics.air_density.raw * SCALE;
            assert(n >= 0) by (nonlinear_arith)
                requires
                    n == physics.air_density.raw * SCALE,
                    physics.air_density.raw >= 0,
            ;
            assert(magnitude(n) / magnitude(doubled.raw as int) >= 0) by (nonlinear_arith)
                requires
                    magnitude(n) >= 0,
                    magnitude(doubled.raw as int) > 0,
            ;
        }
        lemma_mix_not_negative(p.x_drag_coefficient, x_weight, p.y_drag_coefficient, y_weight);
        lemma_mix_not_negative(p.x_surface_area, x_weight, p.y_surface_area, y_weight);
        lemma_mix_not_negative(p.x_drag_coefficient, y_weight, p.y_drag_coefficient, x_weight);
        lemma_mix_not_negative(p.x_surface_area, y_weight, p.y_surface_area, x_weight);
        let xc = p.x_drag_coefficient.mul(x_weight).add(p.y_drag_coefficient.mul(y_weight));
        let xa = p.x_surface_area.mul(x_weight).add(p.y_surface_area.mul(y_weight));
        let yc = p.x_drag_coefficient.mul(y_weight).add(p.y_drag_coefficient.mul(x_weight));
        let ya = p.x_surface_area.mul(y_weight).add(p.y_surface_area.mul(x_weight));
        if !xc.is_nan() && !xa.is_nan() {
            lemma_mul_sign(xc, xa);
            if !xc.mul(xa).is_nan() {
                lemma_mul_sign(xc.mul(xa), constant);
            }
        }
        if !yc.is_nan() && !ya.is_nan() {
            lemma_mul_sign(yc, ya);
            if !yc.mul(ya).is_nan() {
                lemma_mul_sign(yc.mul(ya), constant);
            }
        }
    }
}

/// Drag opposes the motion on both axes. For a launch angle from 0 to
/// 90 degrees and a projectile whose coefficients, cross sections and mass
/// and the air density are numbers that are not negative, the deceleration
/// by drag on either axis, where it is a number, is not negative at a forward
/// velocity, not positive at a backward velocity, and zero at rest.
pub proof fn lemma_drag_opposes_motion_on_both_axes(
    physics: Physics,
    angle: Fixed,
    x_velocity: Fixed,
    y_velocity: Fixed,
)
    requires
        0 <= angle.raw <= QUARTER_RAW,
        physics.air_density.raw >= 0,
        physics.projectile.mass.raw >= 0,
        physics.projectile.x_surface_area.raw >= 0,
        physics.projectile.y_surface_area.raw >= 0,
        physics.projectile.x_drag_coefficient.raw >= 0,
        physics.projectile.y_drag_coefficient.raw >= 0,
        !x_velocity.is_nan(),
        !y_velocity.is_nan(),
    ensures
        ({
            let (x_factor, y_factor) = spec_drag_factors(physics, angle);
            let dx = spec_drag_deceleration(x_factor, x_velocity);
            let dy = spec_drag_deceleration(y_factor, y_velocity);
            &&& !dx.is_nan() ==> {
                &&& x_velocity.raw > 0 ==> dx.raw >= 0
                &&& x_velocity.raw < 0 ==> dx.raw <= 0
                &&& x_velocity.raw == 0 ==> dx.raw == 0
            }
            &&& !dy.is_nan() ==> {
                &&& y_velocity.raw > 0 ==> dy.raw >= 0
                &&& y_velocity.raw < 0 ==> dy.raw <= 0
                &&& y_velocity.raw == 0 ==> dy.raw == 0
            }
        }),
{
    let (x_factor, y_factor) = spec_drag_factors(physics, angle);
    lemma_drag_factors_not_negative(physics, angle);
    if !x_factor.is_nan() {
        lemma_drag_opposes_motion(x_factor, x_velocity);
    }
    if !y_factor.is_nan() {
        lemma_drag_opposes_motion(y_factor, y_velocity);
    }
}

/// From 0 to 90 degrees the vertical weight runs from 0 to 1, and takes
/// exactly these two values at the ends.
pub proof fn lemma_vertical_weight_range(angle: Fixed)
    requires
        0 <= angle.raw <= QUARTER_RAW,
    ensures
        0 <= spec_vertical_weight(angle).raw <= SCALE,
        0 <= Fixed::from_int(1).sub(spec_vertical_weight(angle)).raw <= SCALE,
        angle.raw == 0 ==> spec_vertical_weight(angle).raw == 0,
        angle.raw == QUARTER_RAW ==> spec_vertical_weight(angle).raw == SCALE,
{
    let n = angle.raw * SCALE;
    assert(n == angle.raw * 1_000_000_000_000);
    assert(0 <= n / 90_000_000_000_000 <= 1_000_000_000_000 && (angle.raw == 0 ==> n
        / 90_000_000_000_000 == 0) && (angle.raw == 90_000_000_000_000 ==> n / 90_000_000_000_000
        == 1_000_000_000_000)) by (nonlinear_arith)
        requires
            n == angle.raw * 1_000_000_000_000,
            0 <= angle.raw <= 90_000_000_000_000,
    ;
}

/// A mix of two values that are not negative, with weights that are not
/// negative, is not negative.
proof fn lemma_mix_not_negative(a: Fixed, wa: Fixed, b: Fixed, wb: Fixed)
    requires
        a.raw >= 0,
        b.raw >= 0,
        wa.raw >= 0,
        wb.raw >= 0,
    ensures
        !a.mul(wa).add(b.mul(wb)).is_nan() ==> a.mul(wa).add(b.mul(wb)).raw >= 0,
{
    lemma_mul_sign(a, wa);
    lemma_mul_sign(b, wb);
}

/// A launch is split without loss at the ends of the range. At 0 degrees the
/// whole velocity is horizontal and at 90 degrees the whole velocity is
/// vertical, whichever of the two ways of splitting is used.
pub proof fn lemma_initial_velocities_at_ends(decomposition: Decomposition, velocity: Fixed)
    requires
        !velocity.is_nan(),
    ensures
        spec_launch_velocities(decomposition, Fixed { raw: 0 }, velocity) == (
            velocity,
            Fixed { raw: 0 },
        ),
        spec_launch_velocities(decomposition, Fixed { raw: QUARTER_RAW }, velocity) == (
            Fixed { raw: 0 },
            velocity,
        ),
{
    let flat = Fixed { raw: 0 };
    let upright = Fixed { raw: QUARTER_RAW };
    let one = Fixed { raw: SCALE };
    lemma_sine_cosine_bounds(flat);
    lemma_sine_cosine_bounds(upright);
    lemma_vertical_weight_range(flat);
    lemma_vertical_weight_range(upright);
    lemma_mul_one(velocity);
    lemma_mul_sign(velocity, flat);
    assert(Fixed::from_int(1) == one);
    assert(Fixed::from_int(1).sub(one) == flat);
    assert(Fixed::from_int(1).sub(flat) == one);
}

} // verus!
