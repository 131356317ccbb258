use crate::fixed::Fixed;
use crate::solvers::bisection::{
    accepts, follows, measured, Bracket, RootPolicy, ANGLE_MAX_RAW, ANGLE_MIN_RAW,
};
use vstd::prelude::*;

verus! {

/// The length of a scan step in raw units of a degree: `step`, but no more
/// than the whole range, which is also what a step that is not a positive
/// number counts as.
pub open spec fn spec_stride(step: Fixed) -> i64 {
    if step.is_nan() || step.raw <= 0 || step.raw > ANGLE_MAX_RAW {
        ANGLE_MAX_RAW
    } else {
        step.raw
    }
}

/// The number of steps that a scan takes to cover the range, the last one
/// cut short at 90 degrees.
pub open spec fn spec_scan_count(step: Fixed) -> int {
    (ANGLE_MAX_RAW + spec_stride(step) - 1) / (spec_stride(step) as int)
}

/// The angle at which scan step number `k` ends and the next one begins;
/// step number 1 begins at 0 degrees.
pub open spec fn spec_scan_angle(step: Fixed, k: int) -> Fixed {
    if k * spec_stride(step) >= ANGLE_MAX_RAW {
        Fixed { raw: ANGLE_MAX_RAW }
    } else if k <= 0 {
        Fixed { raw: 0 }
    } else {
        Fixed { raw: (k * spec_stride(step)) as i64 }
    }
}

/// Scan step number `k` with the misses that `model` gives at its ends.
pub open spec fn scan_bracket(
    model: spec_fn(Fixed, Fixed, Fixed, Fixed, Fixed, Fixed) -> Fixed,
    x1: Fixed,
    y1: Fixed,
    x2: Fixed,
    y2: Fixed,
    velocity: Fixed,
    step: Fixed,
    k: int,
) -> Bracket {
    let a = spec_scan_angle(step, k - 1);
    let b = spec_scan_angle(step, k);
    Bracket {
        a,
        b,
        a_error: model(a, velocity, x1, y1, x2, y2),
        b_error: model(b, velocity, x1, y1, x2, y2),
    }
}

/// The highest of the scan steps 1 to `k` across which the miss changes
/// sign. A step with an end at which the miss is not a number is none of
/// these.
pub open spec fn highest_crossing(
    model: spec_fn(Fixed, Fixed, Fixed, Fixed, Fixed, Fixed) -> Fixed,
    x1: Fixed,
    y1: Fixed,
    x2: Fixed,
    y2: Fixed,
    velocity: Fixed,
    step: Fixed,
    k: int,
) -> Option<Bracket>
    decreases k,
{
    if k <= 0 {
        None
    } else {
        let bracket = scan_bracket(model, x1, y1, x2, y2, velocity, step, k);
        if bracket.straddles() {
            Some(bracket)
        } else {
            highest_crossing(model, x1, y1, x2, y2, velocity, step, k - 1)
        }
    }
}

/// The lowest of the scan steps from `k` to the last across which the miss
/// changes sign.
pub open spec fn lowest_crossing(
    model: spec_fn(Fixed, Fixed, Fixed, Fixed, Fixed, Fixed) -> Fixed,
    x1: Fixed,
    y1: Fixed,
    x2: Fixed,
    y2: Fixed,
    velocity: Fixed,
    step: Fixed,
    k: int,
) -> Option<Bracket>
    decreases spec_scan_count(step) - k + 1,
{
    if k > spec_scan_count(step) {
        None
    } else {
        let bracket = scan_bracket(model, x1, y1, x2, y2, velocity, step, k);
        if bracket.straddles() {
            Some(bracket)
        } else {
            lowest_crossing(model, x1, y1, x2, y2, velocity, step, k + 1)
        }
    }
}

/// The scan step that the bisection starts from: of all the steps across
/// which the miss changes sign, the lowest or the highest, as `policy` says.
pub open spec fn chosen_crossing(
    model: spec_fn(Fixed, Fixed, Fixed, Fixed, Fixed, Fixed) -> Fixed,
    x1: Fixed,
    y1: Fixed,
    x2: Fixed,
    y2: Fixed,
    velocity: Fixed,
    step: Fixed,
    policy: RootPolicy,
) -> Option<Bracket> {
    match policy {
        RootPolicy::FirstRoot => lowest_crossing(model, x1, y1, x2, y2, velocity, step, 1),
        RootPolicy::HighestAngleRoot => highest_crossing(
            model,
            x1,
            y1,
            x2,
            y2,
            velocity,
            step,
            spec_scan_count(step),
        ),
    }
}

/// The scan steps tile the range: there is at least one, the first begins at
/// 0 degrees, the last ends at 90, and each ends no lower than it begins.
pub proof fn lemma_scan_tiles_range(step: Fixed, k: int)
    ensures
        1 <= spec_stride(step) <= ANGLE_MAX_RAW,
        1 <= spec_scan_count(step) <= ANGLE_MAX_RAW,
        spec_scan_angle(step, 0).raw == ANGLE_MIN_RAW,
        spec_scan_angle(step, spec_scan_count(step)).raw == ANGLE_MAX_RAW,
        ANGLE_MIN_RAW <= spec_scan_angle(step, k - 1).raw <= spec_scan_angle(step, k).raw
            <= ANGLE_MAX_RAW,
        1 <= k <= spec_scan_count(step) ==> 0 <= (k - 1) * spec_stride(step) < ANGLE_MAX_RAW,
{
    let s = spec_stride(step) as int;
    let n = spec_scan_count(step);
    let top = ANGLE_MAX_RAW as int;
    assert(1 <= n <= top && n * s >= top && (n - 1) * s < top) by (nonlinear_arith)
        requires
            1 <= s <= top,
            n == (top + s - 1) / s,
    ;
    assert(0 * s == 0) by (nonlinear_arith);
    assert((k - 1) * s <= k * s) by (nonlinear_arith)
        requires
            s >= 1,
    ;
    assert(k <= 0 ==> k * s <= 0) by (nonlinear_arith)
        requires
            s >= 1,
    ;
    assert(1 <= k <= n ==> 0 <= (k - 1) * s <= (n - 1) * s) by (nonlinear_arith)
        requires
            s >= 1,
    ;
}

/// Returns the length of a scan step in raw units of a degree.
#[verifier::when_used_as_spec(spec_stride)]
pub fn stride(step: Fixed) -> (r: i64)
    ensures
        r == spec_stride(step),
        1 <= r <= ANGLE_MAX_RAW,
{
    if step.is_nan() || step.raw <= 0 || step.raw > ANGLE_MAX_RAW {
        ANGLE_MAX_RAW
    } else {
        step.raw
    }
}

/// Returns the number of steps that a scan takes to cover the range.
pub fn scan_count(step: Fixed) -> (r: u64)
    ensures
        r == spec_scan_count(step),
        1 <= r <= ANGLE_MAX_RAW,
{
    proof {
        lemma_scan_tiles_range(step, 0);
    }
    let s: i64 = stride(step);
    ((ANGLE_MAX_RAW + s - 1) / s) as u64
}

/// Returns the angle at which scan step number `k` ends.
pub fn scan_angle(step: Fixed, k: u64) -> (r: Fixed)
    ensures
        r == spec_scan_angle(step, k as int),
        ANGLE_MIN_RAW <= r.raw <= ANGLE_MAX_RAW,
{
    let s: i64 = stride(step);
    assert(0 <= k * s <= 0xffff_ffff_ffff_ffff * 90_000_000_000_000) by (nonlinear_arith)
        requires
            0 <= k <= 0xffff_ffff_ffff_ffff,
            1 <= s <= 90_000_000_000_000,
    ;
    let reach: u128 = (k as u128) * (s as u128);
    if reach >= ANGLE_MAX_RAW as u128 {
        Fixed::from_raw(ANGLE_MAX_RAW)
    } else {
        Fixed::from_raw(reach as i64)
    }
}

/// Walks the range downward in steps of `step` degrees and returns the first
/// step across which the miss changes sign, which is the highest.
pub fn scan_highest<F: Fn(Fixed, Fixed, Fixed, Fixed, Fixed, Fixed) -> Fixed>(
    x1: Fixed,
    y1: Fixed,
    x2: Fixed,
    y2: Fixed,
    velocity: Fixed,
    step: Fixed,
    integrate: &F,
) -> (found: Option<Bracket>)
    requires
        accepts(*integrate, x1, y1, x2, y2, velocity),
    ensures
        forall|model: spec_fn(Fixed, Fixed, Fixed, Fixed, Fixed, Fixed) -> Fixed|
            follows(*integrate, model) ==> found == #[trigger] highest_crossing(
                model,
                x1,
                y1,
                x2,
                y2,
                velocity,
                step,
                spec_scan_count(step),
            ),
        match found {
            Some(bracket) => {
                &&& bracket.in_range()
                &&& bracket.straddles()
                &&& measured(*integrate, x1, y1, x2, y2, velocity, bracket)
            },
            None => true,
        },
{
    let count: u64 = scan_count(step);
    let mut k: u64 = count;
    let mut upper = scan_angle(step, k);
    let mut upper_error = integrate(upper, velocity, x1, y1, x2, y2);
    while k > 0
        invariant
            accepts(*integrate, x1, y1, x2, y2, velocity),
            count == spec_scan_count(step),
            k <= count,
            upper == spec_scan_angle(step, k as int),
            integrate.ensures((upper, velocity, x1, y1, x2, y2), upper_error),
            forall|model: spec_fn(Fixed, Fixed, Fixed, Fixed, Fixed, Fixed) -> Fixed|
                follows(*integrate, model) ==> #[trigger] highest_crossing(
                    model,
                    x1,
                    y1,
                    x2,
                    y2,
                    velocity,
                    step,
                    count as int,
                ) == highest_crossing(model, x1, y1, x2, y2, velocity, step, k as int),
        decreases k,
    {
        let lower = scan_angle(step, k - 1);
        let lower_error = integrate(lower, velocity, x1, y1, x2, y2);
        let bracket = Bracket { a: lower, b: upper, a_error: lower_error, b_error: upper_error };
        proof {
            lemma_scan_tiles_range(step, k as int);
            assert forall|model: spec_fn(Fixed, Fixed, Fixed, Fixed, Fixed, Fixed) -> Fixed|
                follows(*integrate, model) implies bracket == #[trigger] scan_bracket(
                model,
                x1,
                y1,
                x2,
                y2,
                velocity,
                step,
                k as int,
            ) by {}
        }
        if bracket.straddles() {
            proof {
                assert forall|model: spec_fn(Fixed, Fixed, Fixed, Fixed, Fixed, Fixed) -> Fixed|
                    follows(*integrate, model) implies Some(bracket) == #[trigger] highest_crossing(
                    model,
                    x1,
                    y1,
                    x2,
                    y2,
                    velocity,
                    step,
                    count as int,
                ) by {
                    assert(bracket == scan_bracket(model, x1, y1, x2, y2, velocity, step, k as int));
                    assert(highest_crossing(model, x1, y1, x2, y2, velocity, step, k as int)
                        == Some(bracket));
                }
            }
            return Some(bracket);
        }
        proof {
            assert forall|model: spec_fn(Fixed, Fixed, Fixed, Fixed, Fixed, Fixed) -> Fixed|
                follows(*integrate, model) implies #[trigger] highest_crossing(
                model,
                x1,
                y1,
                x2,
                y2,
                velocity,
                step,
                count as int,
            ) == highest_crossing(model, x1, y1, x2, y2, velocity, step, k as int - 1) by {
                assert(bracket == scan_bracket(model, x1, y1, x2, y2, velocity, step, k as int));
                assert(highest_crossing(model, x1, y1, x2, y2, velocity, step, k as int)
                    == highest_crossing(model, x1, y1, x2, y2, velocity, step, k as int - 1));
            }
        }
        upper = lower;
        upper_error = lower_error;
        k = k - 1;
    }
    None
}

/// Walks the range upward in steps of `step` degrees and returns the first
/// step across which the miss changes sign, which is the lowest.
pub fn scan_lowest<F: Fn(Fixed, Fixed, Fixed, Fixed, Fixed, Fixed) -> Fixed>(
    x1: Fixed,
    y1: Fixed,
    x2: Fixed,
    y2: Fixed,
    velocity: Fixed,
    step: Fixed,
    integrate: &F,
) -> (found: Option<Bracket>)
    requires
        accepts(*integrate, x1, y1, x2, y2, velocity),
    ensures
        forall|model: spec_fn(Fixed, Fixed, Fixed, Fixed, Fixed, Fixed) -> Fixed|
            follows(*integrate, model) ==> found == #[trigger] lowest_crossing(
                model,
                x1,
                y1,
                x2,
                y2,
                velocity,
                step,
                1,
            ),
        match found {
            Some(bracket) => {
                &&& bracket.in_range()
                &&& bracket.straddles()
                &&& measured(*integrate, x1, y1, x2, y2, velocity, bracket)
            },
            None => true,
        },
{
    let count: u64 = scan_count(step);
    let mut k: u64 = 1;
    let mut lower = scan_angle(step, 0);
    let mut lower_error = integrate(lower, velocity, x1, y1, x2, y2);
    while k <= count
        invariant
            accepts(*integrate, x1, y1, x2, y2, velocity),
            count == spec_scan_count(step),
            count <= ANGLE_MAX_RAW,
            1 <= k <= count + 1,
            lower == spec_scan_angle(step, k as int - 1),
            integrate.ensures((lower, velocity, x1, y1, x2, y2), lower_error),
            forall|model: spec_fn(Fixed, Fixed, Fixed, Fixed, Fixed, Fixed) -> Fixed|
                follows(*integrate, model) ==> #[trigger] lowest_crossing(
                    model,
                    x1,
                    y1,
                    x2,
                    y2,
                    velocity,
                    step,
                    1,
                ) == lowest_crossing(model, x1, y1, x2, y2, velocity, step, k as int),
        decreases count + 1 - k,
    {
        let upper = scan_angle(step, k);
        let upper_error = integrate(upper, velocity, x1, y1, x2, y2);
        let bracket = Bracket { a: lower, b: upper, a_error: lower_error, b_error: upper_error };
        proof {
            lemma_scan_tiles_range(step, k as int);
        }
        if bracket.straddles() {
            proof {
                assert forall|model: spec_fn(Fixed, Fixed, Fixed, Fixed, Fixed, Fixed) -> Fixed|
                    follows(*integrate, model) implies Some(bracket) == #[trigger] lowest_crossing(
                    model,
                    x1,
                    y1,
                    x2,
                    y2,
                    velocity,
                    step,
                    1,
                ) by {
                    assert(bracket == scan_bracket(model, x1, y1, x2, y2, velocity, step, k as int));
                    assert(lowest_crossing(model, x1, y1, x2, y2, velocity, step, k as int)
                        == Some(bracket));
                }
            }
            return Some(bracket);
        }
        proof {
            assert forall|model: spec_fn(Fixed, Fixed, Fixed, Fixed, Fixed, Fixed) -> Fixed|
                follows(*integrate, model) implies #[trigger] lowest_crossing(
                model,
                x1,
                y1,
                x2,
                y2,
                velocity,
                step,
                1,
            ) == lowest_crossing(model, x1, y1, x2, y2, velocity, step, k as int + 1) by {
                assert(bracket == scan_bracket(model, x1, y1, x2, y2, velocity, step, k as int));
                assert(lowest_crossing(model, x1, y1, x2, y2, velocity, step, k as int)
                    == lowest_crossing(model, x1, y1, x2, y2, velocity, step, k as int + 1));
            }
        }
        lower = upper;
        lower_error = upper_error;
        k = k + 1;
    }
    None
}

/// Walks the range in steps of `step` degrees, measuring the miss where the
/// steps meet, and returns the step across which the miss changes sign that
/// `policy` prefers, if there is any.
pub fn scan<F: Fn(Fixed, Fixed, Fixed, Fixed, Fixed, Fixed) -> Fixed>(
    x1: Fixed,
    y1: Fixed,
    x2: Fixed,
    y2: Fixed,
    velocity: Fixed,
    step: Fixed,
    policy: RootPolicy,
    integrate: &F,
) -> (found: Option<Bracket>)
    requires
        accepts(*integrate, x1, y1, x2, y2, velocity),
    ensures
        forall|model: spec_fn(Fixed, Fixed, Fixed, Fixed, Fixed, Fixed) -> Fixed|
            follows(*integrate, model) ==> found == #[trigger] chosen_crossing(
                model,
                x1,
                y1,
                x2,
                y2,
                velocity,
                step,
                policy,
            ),
        match found {
            Some(bracket) => {
                &&& bracket.in_range()
                &&& bracket.straddles()
                &&& measured(*integrate, x1, y1, x2, y2, velocity, bracket)
            },
            None => true,
        },
{
    match policy {
        RootPolicy::FirstRoot => scan_lowest(x1, y1, x2, y2, velocity, step, integrate),
        RootPolicy::HighestAngleRoot => scan_highest(x1, y1, x2, y2, velocity, step, integrate),
    }
}

} // verus!
