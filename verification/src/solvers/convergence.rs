use crate::fixed::{magnitude, trunc_div, Fixed};
use crate::solvers::bisection::{
    refine, spec_bisect, spec_solve, spec_within, starting_bracket, Bracket, SearchStrategy,
    SolverOutcome, SolverSettings, ANGLE_MAX_RAW, ANGLE_MIN_RAW,
};
use crate::solvers::scanning::{
    highest_crossing, lemma_scan_tiles_range, lowest_crossing, scan_bracket, spec_scan_angle,
    spec_scan_count,
};
use vstd::arithmetic::power2::{
    lemma2_to64, lemma2_to64_rest, lemma_pow2_strictly_increases, lemma_pow2_unfold, pow2,
};
use vstd::prelude::*;

verus! {

/// The misses that `bracket` holds are the ones that `model` gives at its
/// two ends.
pub open spec fn faithful(
    model: spec_fn(Fixed, Fixed, Fixed, Fixed, Fixed, Fixed) -> Fixed,
    x1: Fixed,
    y1: Fixed,
    x2: Fixed,
    y2: Fixed,
    velocity: Fixed,
    bracket: Bracket,
) -> bool {
    &&& bracket.a_error == model(bracket.a, velocity, x1, y1, x2, y2)
    &&& bracket.b_error == model(bracket.b, velocity, x1, y1, x2, y2)
}

/// `model` changes sign at `root` and nowhere else between 0 and 90 degrees:
/// at every angle the miss is a number; below `root` it is negative and
/// above it is not if `rising`, and the other way round if not.
pub open spec fn crosses_at(
    model: spec_fn(Fixed, Fixed, Fixed, Fixed, Fixed, Fixed) -> Fixed,
    x1: Fixed,
    y1: Fixed,
    x2: Fixed,
    y2: Fixed,
    velocity: Fixed,
    root: Fixed,
    rising: bool,
) -> bool {
    forall|angle: Fixed|
        ANGLE_MIN_RAW <= angle.raw <= ANGLE_MAX_RAW ==> {
            let error = #[trigger] model(angle, velocity, x1, y1, x2, y2);
            &&& !error.is_nan()
            &&& angle.raw < root.raw ==> (error.raw < 0) == rising
            &&& angle.raw > root.raw ==> (error.raw >= 0) == rising
        }
}

/// The midpoint of an interval in range lies in it, and cuts it into two
/// parts of which neither is longer than half the interval, rounded up.
pub proof fn lemma_midpoint_halves(bracket: Bracket)
    requires
        bracket.in_range(),
    ensures
        bracket.a.raw <= bracket.midpoint().raw <= bracket.b.raw,
        2 * (bracket.midpoint().raw - bracket.a.raw) <= bracket.b.raw - bracket.a.raw,
        2 * (bracket.b.raw - bracket.midpoint().raw) <= bracket.b.raw - bracket.a.raw + 1,
{
    let sum = bracket.a.add(bracket.b);
    assert(sum.raw == bracket.a.raw + bracket.b.raw);
    assert(magnitude(sum.raw as int) == sum.raw);
    assert(trunc_div(sum.raw as int, 2) == sum.raw / 2);
}

/// Halving keeps the sign change. If the misses at the two ends of an
/// interval lie on opposite sides of zero, then so do those of the half that
/// is kept, whatever angle it is cut at, as long as the miss there is a
/// number.
pub proof fn lemma_narrow_keeps_sign_change(bracket: Bracket, c: Fixed, c_error: Fixed)
    requires
        bracket.straddles(),
        !c_error.is_nan(),
    ensures
        bracket.narrow(c, c_error).straddles(),
{
}

/// Halving at the midpoint keeps the interval in range, and the misses it
/// holds are still the ones of its ends.
pub proof fn lemma_narrow_keeps_faith(
    model: spec_fn(Fixed, Fixed, Fixed, Fixed, Fixed, Fixed) -> Fixed,
    x1: Fixed,
    y1: Fixed,
    x2: Fixed,
    y2: Fixed,
    velocity: Fixed,
    bracket: Bracket,
)
    requires
        bracket.in_range(),
        faithful(model, x1, y1, x2, y2, velocity, bracket),
    ensures
        ({
            let c = bracket.midpoint();
            let next = bracket.narrow(c, model(c, velocity, x1, y1, x2, y2));
            next.in_range() && faithful(model, x1, y1, x2, y2, velocity, next)
        }),
{
    lemma_midpoint_halves(bracket);
}

/// However long the search goes on, the interval stays in range and the
/// misses it holds are the ones of its ends.
pub proof fn lemma_refine_keeps_faith(
    model: spec_fn(Fixed, Fixed, Fixed, Fixed, Fixed, Fixed) -> Fixed,
    x1: Fixed,
    y1: Fixed,
    x2: Fixed,
    y2: Fixed,
    velocity: Fixed,
    bracket: Bracket,
    tolerance: Fixed,
    left: nat,
)
    requires
        bracket.in_range(),
        faithful(model, x1, y1, x2, y2, velocity, bracket),
    ensures
        refine(model, x1, y1, x2, y2, velocity, bracket, tolerance, left).in_range(),
        faithful(
            model,
            x1,
            y1,
            x2,
            y2,
            velocity,
            refine(model, x1, y1, x2, y2, velocity, bracket, tolerance, left),
        ),
    decreases left,
{
    if left != 0 && !bracket.settled(tolerance) {
        let c = bracket.midpoint();
        let next = bracket.narrow(c, model(c, velocity, x1, y1, x2, y2));
        lemma_narrow_keeps_faith(model, x1, y1, x2, y2, velocity, bracket);
        lemma_refine_keeps_faith(
            model,
            x1,
            y1,
            x2,
            y2,
            velocity,
            next,
            tolerance,
            (left - 1) as nat,
        );
    }
}

/// Whatever the scan picks is one of its steps: an interval in range, across
/// which the miss changes sign, holding the misses of its ends.
pub proof fn lemma_highest_crossing_is_a_step(
    model: spec_fn(Fixed, Fixed, Fixed, Fixed, Fixed, Fixed) -> Fixed,
    x1: Fixed,
    y1: Fixed,
    x2: Fixed,
    y2: Fixed,
    velocity: Fixed,
    step: Fixed,
    k: int,
)
    ensures
        match highest_crossing(model, x1, y1, x2, y2, velocity, step, k) {
            Some(bracket) => {
                &&& bracket.in_range()
                &&& bracket.straddles()
                &&& faithful(model, x1, y1, x2, y2, velocity, bracket)
            },
            None => forall|j: int|
                1 <= j <= k ==> !(#[trigger] scan_bracket(
                    model,
                    x1,
                    y1,
                    x2,
                    y2,
                    velocity,
                    step,
                    j,
                )).straddles(),
        },
    decreases k,
{
    if k > 0 {
        lemma_scan_tiles_range(step, k);
        lemma_highest_crossing_is_a_step(model, x1, y1, x2, y2, velocity, step, k - 1);
    }
}

/// Whatever the scan picks is one of its steps, also where it walks upward.
pub proof fn lemma_lowest_crossing_is_a_step(
    model: spec_fn(Fixed, Fixed, Fixed, Fixed, Fixed, Fixed) -> Fixed,
    x1: Fixed,
    y1: Fixed,
    x2: Fixed,
    y2: Fixed,
    velocity: Fixed,
    step: Fixed,
    k: int,
)
    ensures
        match lowest_crossing(model, x1, y1, x2, y2, velocity, step, k) {
            Some(bracket) => {
                &&& bracket.in_range()
                &&& bracket.straddles()
                &&& faithful(model, x1, y1, x2, y2, velocity, bracket)
            },
            None => forall|j: int|
                k <= j <= spec_scan_count(step) ==> !(#[trigger] scan_bracket(
                    model,
                    x1,
                    y1,
                    x2,
                    y2,
                    velocity,
                    step,
                    j,
                )).straddles(),
        },
    decreases spec_scan_count(step) - k + 1,
{
    if k <= spec_scan_count(step) {
        lemma_scan_tiles_range(step, k);
        lemma_lowest_crossing_is_a_step(model, x1, y1, x2, y2, velocity, step, k + 1);
    }
}

/// The interval that a bisection starts from, whichever way it is chosen,
/// is in range and holds the misses of its ends; one that a scan chose has
/// a sign change across it, and where a scan chose none, no step of the scan
/// has one.
pub proof fn lemma_starting_bracket(
    model: spec_fn(Fixed, Fixed, Fixed, Fixed, Fixed, Fixed) -> Fixed,
    x1: Fixed,
    y1: Fixed,
    x2: Fixed,
    y2: Fixed,
    velocity: Fixed,
    strategy: SearchStrategy,
)
    ensures
        match starting_bracket(model, x1, y1, x2, y2, velocity, strategy) {
            Some(bracket) => {
                &&& bracket.in_range()
                &&& faithful(model, x1, y1, x2, y2, velocity, bracket)
                &&& strategy is Scan ==> bracket.straddles()
            },
            None => {
                &&& strategy is Scan
                &&& forall|j: int|
                    1 <= j <= spec_scan_count(strategy->step) ==> !(#[trigger] scan_bracket(
                        model,
                        x1,
                        y1,
                        x2,
                        y2,
                        velocity,
                        strategy->step,
                        j,
                    )).straddles()
            },
        },
{
    match strategy {
        SearchStrategy::WholeRange => {},
        SearchStrategy::Scan { step, policy } => {
            lemma_highest_crossing_is_a_step(
                model,
                x1,
                y1,
                x2,
                y2,
                velocity,
                step,
                spec_scan_count(step),
            );
            lemma_lowest_crossing_is_a_step(model, x1, y1, x2, y2, velocity, step, 1);
        },
    }
}

/// A hit is a hit. Whenever the search converges, the angle it returns lies
/// between 0 and 90 degrees, the residual is the miss at that angle, and the
/// residual is within tolerance.
pub proof fn lemma_converged_is_a_hit(
    model: spec_fn(Fixed, Fixed, Fixed, Fixed, Fixed, Fixed) -> Fixed,
    x1: Fixed,
    y1: Fixed,
    x2: Fixed,
    y2: Fixed,
    velocity: Fixed,
    settings: SolverSettings,
)
    ensures
        match spec_solve(model, x1, y1, x2, y2, velocity, settings) {
            SolverOutcome::Converged { angle, residual } => {
                &&& ANGLE_MIN_RAW <= angle.raw <= ANGLE_MAX_RAW
                &&& residual == model(angle, velocity, x1, y1, x2, y2)
                &&& spec_within(residual, settings.tolerance)
            },
            SolverOutcome::Infeasible => true,
        },
{
    lemma_starting_bracket(model, x1, y1, x2, y2, velocity, settings.strategy);
    match starting_bracket(model, x1, y1, x2, y2, velocity, settings.strategy) {
        Some(bracket) => {
            lemma_refine_keeps_faith(
                model,
                x1,
                y1,
                x2,
                y2,
                velocity,
                bracket,
                settings.tolerance,
                (settings.limit + 1) as nat,
            );
        },
        None => {},
    }
}

/// Where nothing hits, nothing is found. If the miss is within tolerance at
/// no angle between 0 and 90 degrees, as for a miss that is the same at
/// every angle and too large, the search reports the target as infeasible.
pub proof fn lemma_no_hit_is_infeasible(
    model: spec_fn(Fixed, Fixed, Fixed, Fixed, Fixed, Fixed) -> Fixed,
    x1: Fixed,
    y1: Fixed,
    x2: Fixed,
    y2: Fixed,
    velocity: Fixed,
    settings: SolverSettings,
)
    requires
        forall|angle: Fixed|
            ANGLE_MIN_RAW <= angle.raw <= ANGLE_MAX_RAW ==> !spec_within(
                #[trigger] model(angle, velocity, x1, y1, x2, y2),
                settings.tolerance,
            ),
    ensures
        spec_solve(model, x1, y1, x2, y2, velocity, settings) == SolverOutcome::Infeasible,
{
    lemma_converged_is_a_hit(model, x1, y1, x2, y2, velocity, settings);
}

/// An interval around the place where the miss changes sign, no longer than
/// two to the power of the halvings that are left, is settled once these
/// are made, and still encloses that place.
proof fn lemma_refine_settles(
    model: spec_fn(Fixed, Fixed, Fixed, Fixed, Fixed, Fixed) -> Fixed,
    x1: Fixed,
    y1: Fixed,
    x2: Fixed,
    y2: Fixed,
    velocity: Fixed,
    bracket: Bracket,
    tolerance: Fixed,
    left: nat,
    root: Fixed,
    rising: bool,
)
    requires
        crosses_at(model, x1, y1, x2, y2, velocity, root, rising),
        spec_within(model(root, velocity, x1, y1, x2, y2), tolerance),
        bracket.in_range(),
        faithful(model, x1, y1, x2, y2, velocity, bracket),
        bracket.a.raw <= root.raw <= bracket.b.raw,
        bracket.b.raw - bracket.a.raw <= pow2(left),
    ensures
        refine(model, x1, y1, x2, y2, velocity, bracket, tolerance, left).settled(tolerance),
    decreases left,
{
    let at_a = model(bracket.a, velocity, x1, y1, x2, y2);
    let at_b = model(bracket.b, velocity, x1, y1, x2, y2);
    if bracket.settled(tolerance) {
    } else {
        assert(bracket.a != root);
        assert(bracket.b != root);
        if left == 0 {
            assert(pow2(0) == 1) by {
                lemma2_to64();
            }
        } else {
            let c = bracket.midpoint();
            let at_c = model(c, velocity, x1, y1, x2, y2);
            let next = bracket.narrow(c, at_c);
            lemma_midpoint_halves(bracket);
            lemma_narrow_keeps_faith(model, x1, y1, x2, y2, velocity, bracket);
            lemma_pow2_unfold(left);
            assert(at_a.same_sign(at_c) <==> c.raw < root.raw || (c.raw == root.raw && (at_c.raw
                < 0) == (at_a.raw < 0)));
            lemma_refine_settles(
                model,
                x1,
                y1,
                x2,
                y2,
                velocity,
                next,
                tolerance,
                (left - 1) as nat,
                root,
                rising,
            );
        }
    }
}

/// An interval around the place where the miss changes sign is bisected to
/// a hit, given a limit of 46 or more.
proof fn lemma_bisect_converges(
    model: spec_fn(Fixed, Fixed, Fixed, Fixed, Fixed, Fixed) -> Fixed,
    x1: Fixed,
    y1: Fixed,
    x2: Fixed,
    y2: Fixed,
    velocity: Fixed,
    bracket: Bracket,
    settings: SolverSettings,
    root: Fixed,
    rising: bool,
)
    requires
        crosses_at(model, x1, y1, x2, y2, velocity, root, rising),
        spec_within(model(root, velocity, x1, y1, x2, y2), settings.tolerance),
        settings.limit >= 46,
        bracket.in_range(),
        faithful(model, x1, y1, x2, y2, velocity, bracket),
        bracket.a.raw <= root.raw <= bracket.b.raw,
    ensures
        spec_bisect(model, x1, y1, x2, y2, velocity, bracket, settings) is Converged,
{
    let left = (settings.limit + 1) as nat;
    assert(pow2(left) >= 0x800000000000) by {
        lemma2_to64_rest();
        if left > 47 {
            lemma_pow2_strictly_increases(47, left);
        }
    }
    lemma_refine_settles(
        model,
        x1,
        y1,
        x2,
        y2,
        velocity,
        bracket,
        settings.tolerance,
        left,
        root,
        rising,
    );
    lemma_refine_keeps_faith(model, x1, y1, x2, y2, velocity, bracket, settings.tolerance, left);
}

/// Steps of a scan without a sign change, one after the other, have misses
/// of one sign at all their ends, where the miss is a number at every angle.
proof fn lemma_steps_without_crossing(
    model: spec_fn(Fixed, Fixed, Fixed, Fixed, Fixed, Fixed) -> Fixed,
    x1: Fixed,
    y1: Fixed,
    x2: Fixed,
    y2: Fixed,
    velocity: Fixed,
    step: Fixed,
    k: int,
)
    requires
        0 <= k <= spec_scan_count(step),
        forall|angle: Fixed|
            ANGLE_MIN_RAW <= angle.raw <= ANGLE_MAX_RAW ==> !(#[trigger] model(
                angle,
                velocity,
                x1,
                y1,
                x2,
                y2,
            )).is_nan(),
        forall|j: int|
            1 <= j <= k ==> !(#[trigger] scan_bracket(
                model,
                x1,
                y1,
                x2,
                y2,
                velocity,
                step,
                j,
            )).straddles(),
    ensures
        model(spec_scan_angle(step, 0), velocity, x1, y1, x2, y2).same_sign(
            model(spec_scan_angle(step, k), velocity, x1, y1, x2, y2),
        ),
    decreases k,
{
    lemma_scan_tiles_range(step, k);
    if k > 0 {
        lemma_steps_without_crossing(model, x1, y1, x2, y2, velocity, step, k - 1);
        assert(!scan_bracket(model, x1, y1, x2, y2, velocity, step, k).straddles());
    }
}

/// A sign change is found. Let the miss be a number at every angle between
/// 0 and 90 degrees, keep one sign below some angle `root` of that range and
/// the other above it, and be within tolerance at `root`; a miss that rises
/// or falls steadily through zero at `root` is of this kind. Then, with a
/// limit of 46 or more, the search from the whole range converges; and so
/// does the search from a scan, if the misses at 0 and at 90 degrees differ
/// in sign.
pub proof fn lemma_crossing_is_found(
    model: spec_fn(Fixed, Fixed, Fixed, Fixed, Fixed, Fixed) -> Fixed,
    x1: Fixed,
    y1: Fixed,
    x2: Fixed,
    y2: Fixed,
    velocity: Fixed,
    settings: SolverSettings,
    root: Fixed,
    rising: bool,
)
    requires
        ANGLE_MIN_RAW <= root.raw <= ANGLE_MAX_RAW,
        crosses_at(model, x1, y1, x2, y2, velocity, root, rising),
        spec_within(model(root, velocity, x1, y1, x2, y2), settings.tolerance),
        settings.limit >= 46,
        settings.strategy is Scan ==> !model(
            Fixed { raw: ANGLE_MIN_RAW },
            velocity,
            x1,
            y1,
            x2,
            y2,
        ).same_sign(model(Fixed { raw: ANGLE_MAX_RAW }, velocity, x1, y1, x2, y2)),
    ensures
        spec_solve(model, x1, y1, x2, y2, velocity, settings) is Converged,
{
    lemma_starting_bracket(model, x1, y1, x2, y2, velocity, settings.strategy);
    match starting_bracket(model, x1, y1, x2, y2, velocity, settings.strategy) {
        Some(bracket) => {
            lemma_bisect_converges(
                model,
                x1,
                y1,
                x2,
                y2,
                velocity,
                bracket,
                settings,
                root,
                rising,
            );
        },
        None => {
            let step = settings.strategy->step;
            lemma_scan_tiles_range(step, 0);
            lemma_steps_without_crossing(
                model,
                x1,
                y1,
                x2,
                y2,
                velocity,
                step,
                spec_scan_count(step),
            );
        },
    }
}

/// A steep sign change is located to within the tolerance. If, besides what
/// `lemma_crossing_is_found` asks for, the miss at every angle is at least as
/// large as the angle's distance from `root`, raw unit for raw unit, then the
/// angle that the search returns is no farther from `root` than the
/// tolerance.
pub proof fn lemma_steep_crossing_is_located(
    model: spec_fn(Fixed, Fixed, Fixed, Fixed, Fixed, Fixed) -> Fixed,
    x1: Fixed,
    y1: Fixed,
    x2: Fixed,
    y2: Fixed,
    velocity: Fixed,
    settings: SolverSettings,
    root: Fixed,
    rising: bool,
)
    requires
        ANGLE_MIN_RAW <= root.raw <= ANGLE_MAX_RAW,
        crosses_at(model, x1, y1, x2, y2, velocity, root, rising),
        spec_within(model(root, velocity, x1, y1, x2, y2), settings.tolerance),
        settings.limit >= 46,
        settings.strategy is Scan ==> !model(
            Fixed { raw: ANGLE_MIN_RAW },
            velocity,
            x1,
            y1,
            x2,
            y2,
        ).same_sign(model(Fixed { raw: ANGLE_MAX_RAW }, velocity, x1, y1, x2, y2)),
        forall|angle: Fixed|
            ANGLE_MIN_RAW <= angle.raw <= ANGLE_MAX_RAW ==> magnitude(
                (#[trigger] model(angle, velocity, x1, y1, x2, y2)).raw as int,
            ) >= magnitude(angle.raw - root.raw),
    ensures
        match spec_solve(model, x1, y1, x2, y2, velocity, settings) {
            SolverOutcome::Converged { angle, residual } => magnitude(angle.raw - root.raw)
                <= settings.tolerance.raw,
            SolverOutcome::Infeasible => false,
        },
{
    lemma_crossing_is_found(model, x1, y1, x2, y2, velocity, settings, root, rising);
    lemma_converged_is_a_hit(model, x1, y1, x2, y2, velocity, settings);
}

/// Without a sign change a scan finds nothing. If no two angles between 0
/// and 90 degrees have misses that are numbers on opposite sides of zero, as
/// for a miss that is positive at every angle, the search from a scan
/// reports the target as infeasible.
pub proof fn lemma_no_sign_change_is_infeasible(
    model: spec_fn(Fixed, Fixed, Fixed, Fixed, Fixed, Fixed) -> Fixed,
    x1: Fixed,
    y1: Fixed,
    x2: Fixed,
    y2: Fixed,
    velocity: Fixed,
    settings: SolverSettings,
)
    requires
        settings.strategy is Scan,
        forall|low: Fixed, high: Fixed|
            ANGLE_MIN_RAW <= low.raw <= high.raw <= ANGLE_MAX_RAW ==> {
                let at_low = #[trigger] model(low, velocity, x1, y1, x2, y2);
                let at_high = #[trigger] model(high, velocity, x1, y1, x2, y2);
                at_low.is_nan() || at_high.is_nan() || at_low.same_sign(at_high)
            },
    ensures
        spec_solve(model, x1, y1, x2, y2, velocity, settings) == SolverOutcome::Infeasible,
{
    lemma_starting_bracket(model, x1, y1, x2, y2, velocity, settings.strategy);
}

/// Halving keeps the sign change for as long as the search goes on, where
/// the miss is a number at every angle: an interval across which the miss
/// changes sign is led to one across which it changes sign.
pub proof fn lemma_refine_keeps_sign_change(
    model: spec_fn(Fixed, Fixed, Fixed, Fixed, Fixed, Fixed) -> Fixed,
    x1: Fixed,
    y1: Fixed,
    x2: Fixed,
    y2: Fixed,
    velocity: Fixed,
    bracket: Bracket,
    tolerance: Fixed,
    left: nat,
)
    requires
        bracket.in_range(),
        bracket.straddles(),
        forall|angle: Fixed|
            ANGLE_MIN_RAW <= angle.raw <= ANGLE_MAX_RAW ==> !(#[trigger] model(
                angle,
                velocity,
                x1,
                y1,
                x2,
                y2,
            )).is_nan(),
    ensures
        refine(model, x1, y1, x2, y2, velocity, bracket, tolerance, left).straddles(),
    decreases left,
{
    if left != 0 && !bracket.settled(tolerance) {
        let c = bracket.midpoint();
        let next = bracket.narrow(c, model(c, velocity, x1, y1, x2, y2));
        lemma_midpoint_halves(bracket);
        lemma_refine_keeps_sign_change(
            model,
            x1,
            y1,
            x2,
            y2,
            velocity,
            next,
            tolerance,
            (left - 1) as nat,
        );
    }
}

} // verus!
