use crate::fixed::{magnitude, Fixed};
use vstd::arithmetic::div_mod::{lemma_fundamental_div_mod_converse, lemma_mod_multiples_basic};
use vstd::prelude::*;

verus! {

/// The multiple of `step` that lies nearest to `x`; of two that are equally
/// near, the one farther from zero. `step` is positive.
pub open spec fn nearest_multiple(x: int, step: int) -> int
    recommends
        step > 0,
{
    let count = (2 * magnitude(x) + step) / (2 * step);
    if x >= 0 {
        count * step
    } else {
        -(count * step)
    }
}

/// Rounding onto a grid of multiples.
pub trait MathHelpers: Sized {
    /// What `round_nearest` returns.
    spec fn spec_round_nearest(self, a: Fixed) -> Self;

    /// Round to the nearest multiple of `a`.
    fn round_nearest(self, a: Fixed) -> (r: Self)
        requires
            a.raw != 0,
        ensures
            r == self.spec_round_nearest(a),
    ;
}

impl MathHelpers for Fixed {
    /// The multiple of `a` nearest to `self`, halves going away from zero;
    /// the sign of `a` plays no part. "Not a number" if either is, or if the
    /// multiple is out of range.
    open spec fn spec_round_nearest(self, a: Fixed) -> Fixed {
        if self.is_nan() || a.is_nan() {
            Fixed::nan()
        } else if a.raw > 0 {
            Fixed::of(nearest_multiple(self.raw as int, a.raw as int))
        } else {
            Fixed::of(nearest_multiple(self.raw as int, -a.raw))
        }
    }

    fn round_nearest(self, a: Fixed) -> (r: Fixed) {
        if self.is_nan() || a.is_nan() {
            return Fixed::nan();
        }
        let size: u128 = if self.raw >= 0 {
            self.raw as u128
        } else {
            (-(self.raw as i128)) as u128
        };
        let step: u128 = if a.raw >= 0 {
            a.raw as u128
        } else {
            (-(a.raw as i128)) as u128
        };
        let count: u128 = (2 * size + step) / (2 * step);
        proof {
            lemma_nearest_multiple_is_nearest(self.raw as int, step as int);
            assert(count * step == magnitude(nearest_multiple(self.raw as int, step as int))) by {
                assert(count * step >= 0) by (nonlinear_arith)
                    requires
                        count >= 0,
                        step > 0,
                ;
            }
        }
        let rounded: u128 = count * step;
        if rounded > 0x7fff_ffff_ffff_ffff {
            Fixed::nan()
        } else if self.raw >= 0 {
            Fixed::from_raw(rounded as i64)
        } else {
            Fixed::from_raw(-(rounded as i64))
        }
    }
}

/// The result of rounding is a multiple of the step, on the same side of
/// zero as the value, and no farther from it than half a step; it is half a
/// step away only on the side away from zero.
pub proof fn lemma_nearest_multiple_is_nearest(x: int, step: int)
    requires
        step > 0,
    ensures
        nearest_multiple(x, step) % step == 0,
        2 * magnitude(nearest_multiple(x, step) - x) <= step,
        x >= 0 ==> nearest_multiple(x, step) >= 0,
        x <= 0 ==> nearest_multiple(x, step) <= 0,
        x >= 0 ==> 2 * (x - nearest_multiple(x, step)) < step,
        x < 0 ==> 2 * (nearest_multiple(x, step) - x) < step,
        magnitude(nearest_multiple(x, step)) <= magnitude(x) + step,
{
    let m = magnitude(x);
    let count = (2 * m + step) / (2 * step);
    assert(count >= 0 && 2 * step * count <= 2 * m + step < 2 * step * count + 2 * step)
        by (nonlinear_arith)
        requires
            m >= 0,
            step > 0,
            count == (2 * m + step) / (2 * step),
    ;
    assert(2 * step * count == 2 * (count * step)) by (nonlinear_arith);
    lemma_mod_multiples_basic(count, step);
    lemma_mod_multiples_basic(-count, step);
    assert((-count) * step == -(count * step)) by (nonlinear_arith);
    assert(m == 0 ==> count == 0) by (nonlinear_arith)
        requires
            count >= 0,
            step > 0,
            2 * step * count <= 2 * m + step,
    ;
    assert(count * step >= 0) by (nonlinear_arith)
        requires
            count >= 0,
            step > 0,
    ;
}

/// Rounding keeps the order of values that lie a step apart: the one that
/// is a step higher is rounded to a higher multiple.
pub proof fn lemma_nearest_multiple_ascends(x: int, step: int)
    requires
        step > 0,
    ensures
        nearest_multiple(x, step) < nearest_multiple(x + step, step),
{
    lemma_nearest_multiple_is_nearest(x, step);
    lemma_nearest_multiple_is_nearest(x + step, step);
}

/// A value that already is a multiple of the step is left as it is.
pub proof fn lemma_nearest_multiple_keeps_multiples(k: int, step: int)
    requires
        step > 0,
    ensures
        nearest_multiple(k * step, step) == k * step,
{
    let m = magnitude(k * step);
    let n = magnitude(k);
    assert(m == n * step) by (nonlinear_arith)
        requires
            step > 0,
            m == magnitude(k * step),
            n == magnitude(k),
    ;
    assert(2 * m + step == n * (2 * step) + step) by (nonlinear_arith)
        requires
            m == n * step,
    ;
    lemma_fundamental_div_mod_converse(2 * m + step, 2 * step, n, step);
    assert((k * step >= 0) == (k >= 0) || k * step == 0) by (nonlinear_arith)
        requires
            step > 0,
    ;
    assert(k < 0 ==> n * step == -(k * step)) by (nonlinear_arith)
        requires
            n == magnitude(k),
    ;
    assert(k >= 0 ==> n * step == k * step);
}

/// Rounding is idempotent: a value that came out of rounding to a step is
/// left unchanged by rounding to that step again.
pub proof fn lemma_round_nearest_idempotent(x: Fixed, a: Fixed)
    requires
        a.raw != 0,
    ensures
        x.spec_round_nearest(a).spec_round_nearest(a) == x.spec_round_nearest(a),
{
    let once = x.spec_round_nearest(a);
    if !once.is_nan() {
        let step = magnitude(a.raw as int);
        let r = nearest_multiple(x.raw as int, step);
        lemma_nearest_multiple_is_nearest(x.raw as int, step);
        lemma_multiple_has_count(r, step);
        let k = r / step;
        lemma_nearest_multiple_keeps_multiples(k, step);
    }
}

/// A value on the grid of a step, that is a whole number of steps, is left
/// unchanged by rounding to that step.
pub proof fn lemma_round_nearest_keeps_grid_values(count: int, a: Fixed)
    requires
        a.raw != 0,
        !a.is_nan(),
        !Fixed::of(count * a.raw).is_nan(),
    ensures
        Fixed::of(count * a.raw).spec_round_nearest(a) == Fixed::of(count * a.raw),
{
    let step = magnitude(a.raw as int);
    if a.raw > 0 {
        lemma_nearest_multiple_keeps_multiples(count, step);
    } else {
        assert(count * a.raw == (-count) * step) by (nonlinear_arith)
            requires
                step == -a.raw,
        ;
        lemma_nearest_multiple_keeps_multiples(-count, step);
    }
}

/// A multiple of a step is a whole number of steps.
proof fn lemma_multiple_has_count(r: int, step: int)
    requires
        step > 0,
        r % step == 0,
    ensures
        r == (r / step) * step,
{
    assert(r == (r / step) * step) by (nonlinear_arith)
        requires
            step > 0,
            r % step == 0,
    ;
}

} // verus!
