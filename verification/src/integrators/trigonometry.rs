use crate::fixed::{Fixed, SCALE};
use vstd::prelude::*;

verus! {

/// Half a turn in radians, in raw units: pi to twelve decimals.
pub const PI_RAW: i64 = 3_141_592_653_590;

/// A quarter turn in degrees, in raw units.
pub const QUARTER_RAW: i64 = 90_000_000_000_000;

/// Half a quarter turn in degrees, in raw units.
pub const EIGHTH_RAW: i64 = 45_000_000_000_000;

/// A full turn in degrees, in raw units.
pub const TURN_RAW: i64 = 360_000_000_000_000;

/// One factor of a power series written in nested form,
/// `1 - z * inner / divisor`, all in raw units.
pub open spec fn nested_factor(z: int, inner: int, divisor: int) -> int {
    SCALE - (z * inner) / (divisor * SCALE)
}

/// The sine of `x` radians by its power series up to the thirteenth power,
/// in raw units, for `x` between zero and an eighth of a turn.
pub open spec fn sine_series(x: int) -> int {
    let z = (x * x) / (SCALE as int);
    let t6 = nested_factor(z, SCALE as int, 156);
    let t5 = nested_factor(z, t6, 110);
    let t4 = nested_factor(z, t5, 72);
    let t3 = nested_factor(z, t4, 42);
    let t2 = nested_factor(z, t3, 20);
    let t1 = nested_factor(z, t2, 6);
    (x * t1) / (SCALE as int)
}

/// The cosine of `x` radians by its power series up to the fourteenth power,
/// in raw units, for `x` between zero and an eighth of a turn.
pub open spec fn cosine_series(x: int) -> int {
    let z = (x * x) / (SCALE as int);
    let t7 = nested_factor(z, SCALE as int, 182);
    let t6 = nested_factor(z, t7, 132);
    let t5 = nested_factor(z, t6, 90);
    let t4 = nested_factor(z, t5, 56);
    let t3 = nested_factor(z, t4, 30);
    let t2 = nested_factor(z, t3, 12);
    nested_factor(z, t2, 2)
}

/// Raw degrees, between zero and an eighth of a turn, as raw radians.
pub open spec fn to_radians(degrees: int) -> int {
    (degrees * PI_RAW) / (180 * SCALE)
}

/// Sine and cosine, in raw units, of an angle of `degrees` raw units that
/// lies in the first quarter turn. Past the middle of the quarter the two
/// series change places, so that neither is asked for more than an eighth of
/// a turn.
pub open spec fn quarter_sine_cosine(degrees: int) -> (int, int) {
    if degrees <= EIGHTH_RAW {
        let x = to_radians(degrees);
        (sine_series(x), cosine_series(x))
    } else {
        let x = to_radians(QUARTER_RAW - degrees);
        (cosine_series(x), sine_series(x))
    }
}

/// Sine and cosine of any angle in degrees: the angle is brought into one
/// turn, and the quarter it falls into decides which of the two values of
/// the first quarter stands where, and with which sign.
pub open spec fn spec_sine_cosine(angle: Fixed) -> (Fixed, Fixed) {
    if angle.is_nan() {
        (Fixed::nan(), Fixed::nan())
    } else {
        let turned = angle.raw as int % (TURN_RAW as int);
        let (s, c) = quarter_sine_cosine(turned % (QUARTER_RAW as int));
        placed(turned / (QUARTER_RAW as int), s, c)
    }
}

/// Sine and cosine of an angle in the quarter turn numbered `quarter`, from
/// the sine `s` and cosine `c` of the angle as far past the start of that
/// quarter as the angle itself is past the start of the first.
pub open spec fn placed(quarter: int, s: int, c: int) -> (Fixed, Fixed) {
    if quarter == 0 {
        (Fixed::of(s), Fixed::of(c))
    } else if quarter == 1 {
        (Fixed::of(c), Fixed::of(-s))
    } else if quarter == 2 {
        (Fixed::of(-s), Fixed::of(-c))
    } else {
        (Fixed::of(-c), Fixed::of(s))
    }
}

/// Within the range of the series every nested factor lies between zero and
/// one.
pub proof fn lemma_nested_factor_bounds(z: int, inner: int, divisor: int)
    requires
        0 <= z <= SCALE,
        0 <= inner <= SCALE,
        divisor >= 1,
    ensures
        0 <= nested_factor(z, inner, divisor) <= SCALE,
        0 <= z * inner <= SCALE * SCALE,
        z == 0 ==> nested_factor(z, inner, divisor) == SCALE,
{
    let s = SCALE as int;
    assert(0 <= z * inner <= s * s) by (nonlinear_arith)
        requires
            0 <= z <= s,
            0 <= inner <= s,
    ;
    let d = divisor * s;
    assert(d >= s) by (nonlinear_arith)
        requires
            divisor >= 1,
            s > 0,
            d == divisor * s,
    ;
    let p = z * inner;
    assert(0 <= p / d <= s) by (nonlinear_arith)
        requires
            0 <= p <= s * s,
            d >= s,
            s > 0,
    ;
    assert(z == 0 ==> p == 0) by (nonlinear_arith)
        requires
            p == z * inner,
    ;
    assert(0int / d == 0) by (nonlinear_arith)
        requires
            d > 0,
    ;
}

/// Both series stay between zero and one on their range, and give the exact
/// values at zero.
pub proof fn lemma_series_bounds(x: int)
    requires
        0 <= x <= SCALE,
    ensures
        0 <= sine_series(x) <= SCALE,
        0 <= cosine_series(x) <= SCALE,
        0 <= (x * x) / (SCALE as int) <= SCALE,
        x == 0 ==> sine_series(x) == 0 && cosine_series(x) == SCALE,
{
    let s = SCALE as int;
    let z = (x * x) / s;
    assert(0 <= z <= s && (x == 0 ==> z == 0)) by (nonlinear_arith)
        requires
            0 <= x <= s,
            s > 0,
            z == (x * x) / s,
    ;
    let t6 = nested_factor(z, s, 156);
    lemma_nested_factor_bounds(z, s, 156);
    let t5 = nested_factor(z, t6, 110);
    lemma_nested_factor_bounds(z, t6, 110);
    let t4 = nested_factor(z, t5, 72);
    lemma_nested_factor_bounds(z, t5, 72);
    let t3 = nested_factor(z, t4, 42);
    lemma_nested_factor_bounds(z, t4, 42);
    let t2 = nested_factor(z, t3, 20);
    lemma_nested_factor_bounds(z, t3, 20);
    let t1 = nested_factor(z, t2, 6);
    lemma_nested_factor_bounds(z, t2, 6);
    assert(0 <= (x * t1) / s <= s && (x == 0 ==> (x * t1) / s == 0)) by (nonlinear_arith)
        requires
            0 <= x <= s,
            0 <= t1 <= s,
            s > 0,
    ;
    let c7 = nested_factor(z, s, 182);
    lemma_nested_factor_bounds(z, s, 182);
    let c6 = nested_factor(z, c7, 132);
    lemma_nested_factor_bounds(z, c7, 132);
    let c5 = nested_factor(z, c6, 90);
    lemma_nested_factor_bounds(z, c6, 90);
    let c4 = nested_factor(z, c5, 56);
    lemma_nested_factor_bounds(z, c5, 56);
    let c3 = nested_factor(z, c4, 30);
    lemma_nested_factor_bounds(z, c4, 30);
    let c2 = nested_factor(z, c3, 12);
    lemma_nested_factor_bounds(z, c3, 12);
    lemma_nested_factor_bounds(z, c2, 2);
}

/// An eighth of a turn and less is less than one radian.
pub proof fn lemma_radians_bounds(degrees: int)
    requires
        0 <= degrees <= EIGHTH_RAW,
    ensures
        0 <= to_radians(degrees) <= SCALE,
        degrees == 0 ==> to_radians(degrees) == 0,
{
    assert(0 <= (degrees * 3_141_592_653_590) / 180_000_000_000_000 <= 1_000_000_000_000
        && (degrees == 0 ==> (degrees * 3_141_592_653_590) / 180_000_000_000_000 == 0))
        by (nonlinear_arith)
        requires
            0 <= degrees <= 45_000_000_000_000,
    ;
}

/// In the first quarter turn sine and cosine lie between zero and one.
pub proof fn lemma_quarter_bounds(degrees: int)
    requires
        0 <= degrees < QUARTER_RAW,
    ensures
        0 <= quarter_sine_cosine(degrees).0 <= SCALE,
        0 <= quarter_sine_cosine(degrees).1 <= SCALE,
        degrees == 0 ==> quarter_sine_cosine(degrees) == (0int, SCALE as int),
{
    if degrees <= EIGHTH_RAW {
        lemma_radians_bounds(degrees);
        lemma_series_bounds(to_radians(degrees));
    } else {
        lemma_radians_bounds(QUARTER_RAW - degrees);
        lemma_series_bounds(to_radians(QUARTER_RAW - degrees));
    }
}

/// Sine and cosine of every angle that is a number lie between minus one
/// and one, and at 0 and 90 degrees they are exact.
pub proof fn lemma_sine_cosine_bounds(angle: Fixed)
    requires
        !angle.is_nan(),
    ensures
        -SCALE <= spec_sine_cosine(angle).0.raw <= SCALE,
        -SCALE <= spec_sine_cosine(angle).1.raw <= SCALE,
        angle.raw == 0 ==> spec_sine_cosine(angle) == (Fixed { raw: 0 }, Fixed { raw: SCALE }),
        angle.raw == QUARTER_RAW ==> spec_sine_cosine(angle) == (
            Fixed { raw: SCALE },
            Fixed { raw: 0 },
        ),
{
    let turned = angle.raw as int % (TURN_RAW as int);
    lemma_quarter_bounds(turned % (QUARTER_RAW as int));
}

/// A quarter turn on, the cosine is the sine and the negated sine is the
/// cosine, exactly.
pub proof fn lemma_quarter_turn_on(angle: Fixed)
    requires
        !angle.is_nan(),
        !angle.add(Fixed { raw: QUARTER_RAW }).is_nan(),
    ensures
        spec_sine_cosine(angle.add(Fixed { raw: QUARTER_RAW })) == (
            spec_sine_cosine(angle).1,
            spec_sine_cosine(angle).0.neg(),
        ),
{
    let before = angle.raw as int % 360_000_000_000_000;
    let after = (angle.raw + 90_000_000_000_000) % 360_000_000_000_000;
    assert(after == if before + 90_000_000_000_000 < 360_000_000_000_000 {
        before + 90_000_000_000_000
    } else {
        before + 90_000_000_000_000 - 360_000_000_000_000
    });
    assert(after % 90_000_000_000_000 == before % 90_000_000_000_000);
    assert(after / 90_000_000_000_000 == (before / 90_000_000_000_000 + 1) % 4);
    lemma_quarter_bounds(before % 90_000_000_000_000);
}

/// One nested factor of a series.
fn nested(z: u128, inner: u128, divisor: u128) -> (r: u128)
    requires
        z <= SCALE,
        inner <= SCALE,
        1 <= divisor <= 1000,
    ensures
        r == nested_factor(z as int, inner as int, divisor as int),
        r <= SCALE,
{
    proof {
        lemma_nested_factor_bounds(z as int, inner as int, divisor as int);
    }
    1_000_000_000_000 - (z * inner) / (divisor * 1_000_000_000_000)
}

/// The square of `x`, in raw units.
fn square_of(x: u128) -> (z: u128)
    requires
        x <= SCALE,
    ensures
        z == (x * x) / (SCALE as int),
        z <= SCALE,
{
    proof {
        lemma_series_bounds(x as int);
        assert(x * x <= 1_000_000_000_000 * 1_000_000_000_000) by (nonlinear_arith)
            requires
                x <= 1_000_000_000_000,
        ;
    }
    (x * x) / 1_000_000_000_000
}

/// The sine series at `x`.
fn sine_of(x: u128) -> (r: u128)
    requires
        x <= SCALE,
    ensures
        r == sine_series(x as int),
        r <= SCALE,
{
    let z = square_of(x);
    let t6 = nested(z, 1_000_000_000_000, 156);
    let t5 = nested(z, t6, 110);
    let t4 = nested(z, t5, 72);
    let t3 = nested(z, t4, 42);
    let t2 = nested(z, t3, 20);
    let t1 = nested(z, t2, 6);
    proof {
        lemma_series_bounds(x as int);
        assert(x * t1 <= 1_000_000_000_000 * 1_000_000_000_000) by (nonlinear_arith)
            requires
                x <= 1_000_000_000_000,
                t1 <= 1_000_000_000_000,
        ;
    }
    (x * t1) / 1_000_000_000_000
}

/// The cosine series at `x`.
fn cosine_of(x: u128) -> (r: u128)
    requires
        x <= SCALE,
    ensures
        r == cosine_series(x as int),
        r <= SCALE,
{
    let z = square_of(x);
    let t7 = nested(z, 1_000_000_000_000, 182);
    let t6 = nested(z, t7, 132);
    let t5 = nested(z, t6, 90);
    let t4 = nested(z, t5, 56);
    let t3 = nested(z, t4, 30);
    let t2 = nested(z, t3, 12);
    nested(z, t2, 2)
}

/// Raw degrees as raw radians.
fn radians_of(degrees: u128) -> (x: u128)
    requires
        degrees <= EIGHTH_RAW,
    ensures
        x == to_radians(degrees as int),
        x <= SCALE,
{
    (degrees * 3_141_592_653_590) / 180_000_000_000_000
}

/// Sine and cosine of an angle in the first quarter turn.
fn quarter(degrees: u128) -> (r: (u128, u128))
    requires
        degrees < QUARTER_RAW,
    ensures
        (r.0 as int, r.1 as int) == quarter_sine_cosine(degrees as int),
        r.0 <= SCALE,
        r.1 <= SCALE,
{
    if degrees <= 45_000_000_000_000 {
        let x = radians_of(degrees);
        (sine_of(x), cosine_of(x))
    } else {
        let x = radians_of(90_000_000_000_000 - degrees);
        (cosine_of(x), sine_of(x))
    }
}

/// Sine and cosine of an angle in degrees, each correct to about twelve
/// decimals; both are "not a number" if the angle is.
#[verifier::when_used_as_spec(spec_sine_cosine)]
pub fn sine_cosine(angle: Fixed) -> (r: (Fixed, Fixed))
    ensures
        r == spec_sine_cosine(angle),
{
    if angle.is_nan() {
        return (Fixed::nan(), Fixed::nan());
    }
    let turned: u64 = within_turn(angle.raw);
    let index: u64 = turned / 90_000_000_000_000;
    let (s, c) = quarter((turned % 90_000_000_000_000) as u128);
    place(index, s as i64, c as i64)
}

/// The angle brought into one turn: the remainder that is not negative.
fn within_turn(raw: i64) -> (turned: u64)
    ensures
        turned == raw as int % (TURN_RAW as int),
        turned < TURN_RAW,
{
    if raw >= 0 {
        (raw as u64) % 360_000_000_000_000
    } else {
        let back: u64 = ((-(raw as i128)) as u64) % 360_000_000_000_000;
        assert((raw as int) % 360_000_000_000_000 == if back == 0 {
            0
        } else {
            360_000_000_000_000 - back
        }) by (nonlinear_arith)
            requires
                raw < 0,
                back == (-(raw as int)) % 360_000_000_000_000,
        ;
        if back == 0 {
            0
        } else {
            360_000_000_000_000 - back
        }
    }
}

/// Sine and cosine put in their places and given their signs for the
/// quarter turn numbered `index`.
fn place(index: u64, s: i64, c: i64) -> (r: (Fixed, Fixed))
    requires
        0 <= s <= SCALE,
        0 <= c <= SCALE,
    ensures
        r == placed(index as int, s as int, c as int),
{
    if index == 0 {
        (Fixed::from_raw(s), Fixed::from_raw(c))
    } else if index == 1 {
        (Fixed::from_raw(c), Fixed::from_raw(-s))
    } else if index == 2 {
        (Fixed::from_raw(-s), Fixed::from_raw(-c))
    } else {
        (Fixed::from_raw(-c), Fixed::from_raw(s))
    }
}

} // verus!
