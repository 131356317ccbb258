use crate::fixed::{magnitude, trunc_div, Fixed};
use crate::solvers::scanning::{chosen_crossing, scan};
use vstd::prelude::*;

verus! {

/// The lowest launch angle searched, in raw units of a degree.
pub const ANGLE_MIN_RAW: i64 = 0;

/// The highest launch angle searched, in raw units of a degree.
pub const ANGLE_MAX_RAW: i64 = 90_000_000_000_000;

/// Which sign change a scan settles on where the miss changes sign more than
/// once.
#[derive(Clone, Copy, Debug, PartialEq, Eq, Structural)]
pub enum RootPolicy {
    /// The one at the lowest angle.
    FirstRoot,
    /// The one at the highest angle.
    HighestAngleRoot,
}

/// Where the bisection starts.
#[derive(Clone, Copy, Debug, PartialEq, Eq, Structural)]
pub enum SearchStrategy {
    /// From the whole range, 0 to 90 degrees, on the assumption that the miss
    /// changes sign once between the two. Nothing checks the assumption.
    WholeRange,
    /// From an interval across which the miss is seen to change sign: the
    /// range is walked in steps of `step` degrees, and of the steps with a
    /// sign change `policy` picks one. Without such a step the target is
    /// infeasible.
    Scan { step: Fixed, policy: RootPolicy },
}

/// How the search runs: the miss that counts as a hit, the limit on the
/// midpoints tried, which are at most one more than `limit`, and where the
/// bisection starts.
#[derive(Clone, Copy, Debug, PartialEq, Eq, Structural)]
pub struct SolverSettings {
    pub tolerance: Fixed,
    pub limit: u32,
    pub strategy: SearchStrategy,
}

/// What a search for one target came to.
#[derive(Clone, Copy, Debug, PartialEq, Eq, Structural)]
pub enum SolverOutcome {
    /// `angle` misses the target by `residual`, which is within tolerance.
    Converged { angle: Fixed, residual: Fixed },
    /// No angle was found.
    Infeasible,
}

/// An angle interval with the miss measured at either end.
#[derive(Clone, Copy, Debug, PartialEq, Eq, Structural)]
pub struct Bracket {
    pub a: Fixed,
    pub b: Fixed,
    pub a_error: Fixed,
    pub b_error: Fixed,
}

/// `error` is a number no farther from zero than `tolerance`.
pub open spec fn spec_within(error: Fixed, tolerance: Fixed) -> bool {
    error.abs().le(tolerance)
}

/// Tells whether `error` is within `tolerance` of zero.
#[verifier::when_used_as_spec(spec_within)]
pub fn within(error: Fixed, tolerance: Fixed) -> (r: bool)
    ensures
        r == spec_within(error, tolerance),
{
    error.abs().le(tolerance)
}

impl Bracket {
    /// Both ends are angles of the searched range, in order.
    pub open spec fn in_range(self) -> bool {
        ANGLE_MIN_RAW <= self.a.raw <= self.b.raw <= ANGLE_MAX_RAW
    }

    /// The misses at the two ends are numbers on opposite sides of zero.
    pub open spec fn spec_straddles(self) -> bool {
        !self.a_error.is_nan() && !self.b_error.is_nan() && !self.a_error.same_sign(self.b_error)
    }

    /// The angle halfway between the two ends, cut off to the raw unit.
    pub open spec fn spec_midpoint(self) -> Fixed {
        self.a.add(self.b).half()
    }

    /// The search has nothing left to do here: an end is within tolerance,
    /// or a miss is not a number.
    pub open spec fn spec_settled(self, tolerance: Fixed) -> bool {
        !(self.a_error.abs().gt(tolerance) && self.b_error.abs().gt(tolerance))
    }

    /// The half of the interval that keeps the sign change, given the miss
    /// `c_error` at the angle `c`: `c` takes the place of `a` when it misses
    /// on the same side as `a`, and of `b` otherwise.
    pub open spec fn spec_narrow(self, c: Fixed, c_error: Fixed) -> Bracket {
        if self.a_error.same_sign(c_error) {
            Bracket { a: c, b: self.b, a_error: c_error, b_error: self.b_error }
        } else {
            Bracket { a: self.a, b: c, a_error: self.a_error, b_error: c_error }
        }
    }

    /// The end with the smaller miss, whether or not that is within
    /// tolerance; `a` on a tie. An end whose miss is not a number never wins
    /// against one whose miss is.
    pub open spec fn spec_closest(self) -> Option<(Fixed, Fixed)> {
        if self.a_error.is_nan() && self.b_error.is_nan() {
            None
        } else if self.b_error.is_nan() || self.a_error.abs().le(self.b_error.abs()) {
            Some((self.a, self.a_error))
        } else {
            Some((self.b, self.b_error))
        }
    }

    /// The end that is within tolerance, `a` if both are; no hit if neither
    /// is.
    pub open spec fn spec_conclude(self, tolerance: Fixed) -> SolverOutcome {
        if spec_within(self.a_error, tolerance) {
            SolverOutcome::Converged { angle: self.a, residual: self.a_error }
        } else if spec_within(self.b_error, tolerance) {
            SolverOutcome::Converged { angle: self.b, residual: self.b_error }
        } else {
            SolverOutcome::Infeasible
        }
    }

    /// Tells whether the miss changes sign across the interval.
    #[verifier::when_used_as_spec(spec_straddles)]
    pub fn straddles(self) -> (r: bool)
        ensures
            r == self.spec_straddles(),
    {
        !self.a_error.is_nan() && !self.b_error.is_nan() && !self.a_error.same_sign(self.b_error)
    }

    /// Returns the angle halfway between the two ends.
    #[verifier::when_used_as_spec(spec_midpoint)]
    pub fn midpoint(self) -> (c: Fixed)
        ensures
            c == self.spec_midpoint(),
            self.in_range() ==> self.a.raw <= c.raw <= self.b.raw,
    {
        let sum = self.a.add(self.b);
        proof {
            if self.in_range() {
                assert(sum.raw == self.a.raw + self.b.raw);
                assert(magnitude(sum.raw as int) == sum.raw);
                assert(trunc_div(sum.raw as int, 2) == sum.raw / 2);
            }
        }
        sum.half()
    }

    /// Tells whether the search has nothing left to do here.
    #[verifier::when_used_as_spec(spec_settled)]
    pub fn settled(self, tolerance: Fixed) -> (r: bool)
        ensures
            r == self.spec_settled(tolerance),
    {
        !(self.a_error.abs().gt(tolerance) && self.b_error.abs().gt(tolerance))
    }

    /// Returns the half of the interval that keeps the sign change.
    #[verifier::when_used_as_spec(spec_narrow)]
    pub fn narrow(self, c: Fixed, c_error: Fixed) -> (r: Bracket)
        ensures
            r == self.spec_narrow(c, c_error),
    {
        if self.a_error.same_sign(c_error) {
            Bracket { a: c, b: self.b, a_error: c_error, b_error: self.b_error }
        } else {
            Bracket { a: self.a, b: c, a_error: self.a_error, b_error: c_error }
        }
    }

    /// The best effort that this interval offers: the end with the smaller
    /// miss and that miss, which need not be within any tolerance.
    #[verifier::when_used_as_spec(spec_closest)]
    pub fn closest(self) -> (r: Option<(Fixed, Fixed)>)
        ensures
            r == self.spec_closest(),
    {
        if self.a_error.is_nan() && self.b_error.is_nan() {
            None
        } else if self.b_error.is_nan() || self.a_error.abs().le(self.b_error.abs()) {
            Some((self.a, self.a_error))
        } else {
            Some((self.b, self.b_error))
        }
    }

    /// Returns the end that is within tolerance, if one is.
    #[verifier::when_used_as_spec(spec_conclude)]
    pub fn conclude(self, tolerance: Fixed) -> (r: SolverOutcome)
        ensures
            r == self.spec_conclude(tolerance),
    {
        if within(self.a_error, tolerance) {
            SolverOutcome::Converged { angle: self.a, residual: self.a_error }
        } else if within(self.b_error, tolerance) {
            SolverOutcome::Converged { angle: self.b, residual: self.b_error }
        } else {
            SolverOutcome::Infeasible
        }
    }
}

/// `integrate` returns, for every input, the miss that `model` gives.
pub open spec fn follows<F: Fn(Fixed, Fixed, Fixed, Fixed, Fixed, Fixed) -> Fixed>(
    integrate: F,
    model: spec_fn(Fixed, Fixed, Fixed, Fixed, Fixed, Fixed) -> Fixed,
) -> bool {
    forall|angle: Fixed, velocity: Fixed, x1: Fixed, y1: Fixed, x2: Fixed, y2: Fixed, error: Fixed|
        #[trigger] integrate.ensures((angle, velocity, x1, y1, x2, y2), error) ==> error == model(
            angle,
            velocity,
            x1,
            y1,
            x2,
            y2,
        )
}

/// The interval between 0 and 90 degrees with the misses that `model` gives
/// at its ends.
pub open spec fn initial_bracket(
    model: spec_fn(Fixed, Fixed, Fixed, Fixed, Fixed, Fixed) -> Fixed,
    x1: Fixed,
    y1: Fixed,
    x2: Fixed,
    y2: Fixed,
    velocity: Fixed,
) -> Bracket {
    let a = Fixed { raw: ANGLE_MIN_RAW };
    let b = Fixed { raw: ANGLE_MAX_RAW };
    Bracket {
        a,
        b,
        a_error: model(a, velocity, x1, y1, x2, y2),
        b_error: model(b, velocity, x1, y1, x2, y2),
    }
}

/// `bracket` after at most `left` halvings, each at the midpoint and by the
/// miss that `model` gives there, stopping as soon as it is settled.
pub open spec fn refine(
    model: spec_fn(Fixed, Fixed, Fixed, Fixed, Fixed, Fixed) -> Fixed,
    x1: Fixed,
    y1: Fixed,
    x2: Fixed,
    y2: Fixed,
    velocity: Fixed,
    bracket: Bracket,
    tolerance: Fixed,
    left: nat,
) -> Bracket
    decreases left,
{
    if left == 0 || bracket.settled(tolerance) {
        bracket
    } else {
        let c = bracket.midpoint();
        refine(
            model,
            x1,
            y1,
            x2,
            y2,
            velocity,
            bracket.narrow(c, model(c, velocity, x1, y1, x2, y2)),
            tolerance,
            (left - 1) as nat,
        )
    }
}

/// The interval that the bisection starts from, if there is one.
pub open spec fn starting_bracket(
    model: spec_fn(Fixed, Fixed, Fixed, Fixed, Fixed, Fixed) -> Fixed,
    x1: Fixed,
    y1: Fixed,
    x2: Fixed,
    y2: Fixed,
    velocity: Fixed,
    strategy: SearchStrategy,
) -> Option<Bracket> {
    match strategy {
        SearchStrategy::WholeRange => Some(initial_bracket(model, x1, y1, x2, y2, velocity)),
        SearchStrategy::Scan { step, policy } => chosen_crossing(
            model,
            x1,
            y1,
            x2,
            y2,
            velocity,
            step,
            policy,
        ),
    }
}

/// What the bisection of `bracket` returns when the miss at every angle is
/// the one that `model` gives: the end within tolerance of the interval that
/// the halvings lead to, if there is one.
pub open spec fn spec_bisect(
    model: spec_fn(Fixed, Fixed, Fixed, Fixed, Fixed, Fixed) -> Fixed,
    x1: Fixed,
    y1: Fixed,
    x2: Fixed,
    y2: Fixed,
    velocity: Fixed,
    bracket: Bracket,
    settings: SolverSettings,
) -> SolverOutcome {
    refine(
        model,
        x1,
        y1,
        x2,
        y2,
        velocity,
        bracket,
        settings.tolerance,
        (settings.limit + 1) as nat,
    ).conclude(settings.tolerance)
}

/// What the search returns when the miss at every angle is the one that
/// `model` gives.
pub open spec fn spec_solve(
    model: spec_fn(Fixed, Fixed, Fixed, Fixed, Fixed, Fixed) -> Fixed,
    x1: Fixed,
    y1: Fixed,
    x2: Fixed,
    y2: Fixed,
    velocity: Fixed,
    settings: SolverSettings,
) -> SolverOutcome {
    match starting_bracket(model, x1, y1, x2, y2, velocity, settings.strategy) {
        Some(bracket) => spec_bisect(model, x1, y1, x2, y2, velocity, bracket, settings),
        None => SolverOutcome::Infeasible,
    }
}

/// `integrate` can be called at every angle from 0 to 90 degrees for this
/// launch and target.
pub open spec fn accepts<F: Fn(Fixed, Fixed, Fixed, Fixed, Fixed, Fixed) -> Fixed>(
    integrate: F,
    x1: Fixed,
    y1: Fixed,
    x2: Fixed,
    y2: Fixed,
    velocity: Fixed,
) -> bool {
    forall|angle: Fixed|
        ANGLE_MIN_RAW <= angle.raw <= ANGLE_MAX_RAW ==> #[trigger] integrate.requires(
            (angle, velocity, x1, y1, x2, y2),
        )
}

/// The misses that `bracket` holds are ones that `integrate` returned at its
/// two ends.
pub open spec fn measured<F: Fn(Fixed, Fixed, Fixed, Fixed, Fixed, Fixed) -> Fixed>(
    integrate: F,
    x1: Fixed,
    y1: Fixed,
    x2: Fixed,
    y2: Fixed,
    velocity: Fixed,
    bracket: Bracket,
) -> bool {
    &&& integrate.ensures((bracket.a, velocity, x1, y1, x2, y2), bracket.a_error)
    &&& integrate.ensures((bracket.b, velocity, x1, y1, x2, y2), bracket.b_error)
}

/// The whole range with the miss measured at its two ends.
pub fn whole_range<F: Fn(Fixed, Fixed, Fixed, Fixed, Fixed, Fixed) -> Fixed>(
    x1: Fixed,
    y1: Fixed,
    x2: Fixed,
    y2: Fixed,
    velocity: Fixed,
    integrate: &F,
) -> (bracket: Bracket)
    requires
        accepts(*integrate, x1, y1, x2, y2, velocity),
    ensures
        bracket.a.raw == ANGLE_MIN_RAW,
        bracket.b.raw == ANGLE_MAX_RAW,
        measured(*integrate, x1, y1, x2, y2, velocity, bracket),
        forall|model: spec_fn(Fixed, Fixed, Fixed, Fixed, Fixed, Fixed) -> Fixed|
            follows(*integrate, model) ==> bracket == #[trigger] initial_bracket(
                model,
                x1,
                y1,
                x2,
                y2,
                velocity,
            ),
{
    let a = Fixed::from_raw(ANGLE_MIN_RAW);
    let b = Fixed::from_raw(ANGLE_MAX_RAW);
    let a_error = integrate(a, velocity, x1, y1, x2, y2);
    let b_error = integrate(b, velocity, x1, y1, x2, y2);
    Bracket { a, b, a_error, b_error }
}

/// Halves `start` for as long as the number of halvings made is at most
/// `settings.limit` and neither end is within `settings.tolerance`, each
/// time at the midpoint and keeping the half across which the miss changes
/// sign, and returns the interval that this leads to.
pub fn refine_bracket<F: Fn(Fixed, Fixed, Fixed, Fixed, Fixed, Fixed) -> Fixed>(
    x1: Fixed,
    y1: Fixed,
    x2: Fixed,
    y2: Fixed,
    velocity: Fixed,
    start: Bracket,
    settings: &SolverSettings,
    integrate: &F,
) -> (bracket: Bracket)
    requires
        accepts(*integrate, x1, y1, x2, y2, velocity),
        start.in_range(),
    ensures
        forall|model: spec_fn(Fixed, Fixed, Fixed, Fixed, Fixed, Fixed) -> Fixed|
            follows(*integrate, model) ==> bracket == #[trigger] refine(
                model,
                x1,
                y1,
                x2,
                y2,
                velocity,
                start,
                settings.tolerance,
                (settings.limit + 1) as nat,
            ),
        bracket.in_range(),
        start.a.raw <= bracket.a.raw,
        bracket.b.raw <= start.b.raw,
        measured(*integrate, x1, y1, x2, y2, velocity, start) ==> measured(
            *integrate,
            x1,
            y1,
            x2,
            y2,
            velocity,
            bracket,
        ),
{
    let tolerance = settings.tolerance;
    let mut bracket = start;
    let mut left: u64 = settings.limit as u64 + 1;
    while left > 0 && !bracket.settled(tolerance)
        invariant
            accepts(*integrate, x1, y1, x2, y2, velocity),
            bracket.in_range(),
            start.a.raw <= bracket.a.raw,
            bracket.b.raw <= start.b.raw,
            measured(*integrate, x1, y1, x2, y2, velocity, start) ==> measured(
                *integrate,
                x1,
                y1,
                x2,
                y2,
                velocity,
                bracket,
            ),
            forall|model: spec_fn(Fixed, Fixed, Fixed, Fixed, Fixed, Fixed) -> Fixed|
                follows(*integrate, model) ==> #[trigger] refine(
                    model,
                    x1,
                    y1,
                    x2,
                    y2,
                    velocity,
                    start,
                    tolerance,
                    (settings.limit + 1) as nat,
                ) == refine(model, x1, y1, x2, y2, velocity, bracket, tolerance, left as nat),
        decreases left,
    {
        let c = bracket.midpoint();
        let c_error = integrate(c, velocity, x1, y1, x2, y2);
        bracket = bracket.narrow(c, c_error);
        left = left - 1;
    }
    bracket
}

/// Bisects `start` and returns the end of the interval that this leads to
/// which is within `settings.tolerance`, if one is.
pub fn bisect<F: Fn(Fixed, Fixed, Fixed, Fixed, Fixed, Fixed) -> Fixed>(
    x1: Fixed,
    y1: Fixed,
    x2: Fixed,
    y2: Fixed,
    velocity: Fixed,
    start: Bracket,
    settings: &SolverSettings,
    integrate: &F,
) -> (outcome: SolverOutcome)
    requires
        accepts(*integrate, x1, y1, x2, y2, velocity),
        start.in_range(),
    ensures
        forall|model: spec_fn(Fixed, Fixed, Fixed, Fixed, Fixed, Fixed) -> Fixed|
            follows(*integrate, model) ==> outcome == #[trigger] spec_bisect(
                model,
                x1,
                y1,
                x2,
                y2,
                velocity,
                start,
                *settings,
            ),
        match outcome {
            SolverOutcome::Converged { angle, residual } => {
                &&& start.a.raw <= angle.raw <= start.b.raw
                &&& within(residual, settings.tolerance)
                &&& measured(*integrate, x1, y1, x2, y2, velocity, start) ==> integrate.ensures(
                    (angle, velocity, x1, y1, x2, y2),
                    residual,
                )
            },
            SolverOutcome::Infeasible => true,
        },
{
    let bracket = refine_bracket(x1, y1, x2, y2, velocity, start, settings, integrate);
    proof {
        assert forall|model: spec_fn(Fixed, Fixed, Fixed, Fixed, Fixed, Fixed) -> Fixed|
            follows(*integrate, model) implies bracket.conclude(settings.tolerance)
            == #[trigger] spec_bisect(model, x1, y1, x2, y2, velocity, start, *settings) by {
            assert(refine(
                model,
                x1,
                y1,
                x2,
                y2,
                velocity,
                start,
                settings.tolerance,
                (settings.limit + 1) as nat,
            ) == bracket);
        }
    }
    bracket.conclude(settings.tolerance)
}

/// Searches the launch angles between 0 and 90 degrees, by bisection, for one
/// at which `integrate` reports a miss within `settings.tolerance`.
///
/// The bisection starts from the interval that `settings.strategy` names:
/// the whole range, or a step of a scan across which the miss changes sign.
/// It halves the interval for as long as the number of halvings made is at
/// most `settings.limit`, each time keeping the half across which the miss
/// changes sign, stops as soon as an end is within tolerance, and returns
/// that end. A miss that is not a number ends the search without a hit, and
/// so does a scan that sees no sign change.
pub fn solve<F: Fn(Fixed, Fixed, Fixed, Fixed, Fixed, Fixed) -> Fixed>(
    x1: Fixed,
    y1: Fixed,
    x2: Fixed,
    y2: Fixed,
    velocity: Fixed,
    settings: &SolverSettings,
    integrate: F,
) -> (outcome: SolverOutcome)
    requires
        accepts(integrate, x1, y1, x2, y2, velocity),
    ensures
        forall|model: spec_fn(Fixed, Fixed, Fixed, Fixed, Fixed, Fixed) -> Fixed|
            follows(integrate, model) ==> outcome == #[trigger] spec_solve(
                model,
                x1,
                y1,
                x2,
                y2,
                velocity,
                *settings,
            ),
        match outcome {
            SolverOutcome::Converged { angle, residual } => {
                &&& ANGLE_MIN_RAW <= angle.raw <= ANGLE_MAX_RAW
                &&& integrate.ensures((angle, velocity, x1, y1, x2, y2), residual)
                &&& within(residual, settings.tolerance)
            },
            SolverOutcome::Infeasible => true,
        },
{
    let start = match settings.strategy {
        SearchStrategy::WholeRange => Some(whole_range(x1, y1, x2, y2, velocity, &integrate)),
        SearchStrategy::Scan { step, policy } => scan(
            x1,
            y1,
            x2,
            y2,
            velocity,
            step,
            policy,
            &integrate,
        ),
    };
    match start {
        Some(bracket) => {
            let outcome = bisect(x1, y1, x2, y2, velocity, bracket, settings, &integrate);
            proof {
                assert forall|model: spec_fn(Fixed, Fixed, Fixed, Fixed, Fixed, Fixed) -> Fixed|
                    follows(integrate, model) implies outcome == #[trigger] spec_solve(
                    model,
                    x1,
                    y1,
                    x2,
                    y2,
                    velocity,
                    *settings,
                ) by {
                    assert(starting_bracket(model, x1, y1, x2, y2, velocity, settings.strategy)
                        == Some(bracket));
                    assert(outcome == spec_bisect(
                        model,
                        x1,
                        y1,
                        x2,
                        y2,
                        velocity,
                        bracket,
                        *settings,
                    ));
                }
            }
            outcome
        },
        None => SolverOutcome::Infeasible,
    }
}

} // verus!
