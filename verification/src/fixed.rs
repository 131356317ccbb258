use vstd::arithmetic::div_mod::lemma_div_multiples_vanish;
use vstd::prelude::*;

verus! {

/// Raw units per whole unit: a `Fixed` counts in steps of one part in 10^12.
pub const SCALE: i64 = 1_000_000_000_000;

/// Largest finite raw magnitude.
pub const MAX_RAW: i64 = 0x7fff_ffff_ffff_ffff;

/// The raw pattern that marks "not a number".
pub const NAN_RAW: i64 = -0x7fff_ffff_ffff_ffff - 1;

/// Absolute value of an integer.
pub open spec fn magnitude(a: int) -> int {
    if a >= 0 {
        a
    } else {
        -a
    }
}

/// Integer quotient rounded toward zero, for any non-zero divisor.
pub open spec fn trunc_div(a: int, b: int) -> int
    recommends
        b != 0,
{
    if b > 0 {
        if a >= 0 {
            a / b
        } else {
            -((-a) / b)
        }
    } else {
        if a >= 0 {
            -(a / (-b))
        } else {
            (-a) / (-b)
        }
    }
}

/// `root` is the square root of `n`, rounded down.
pub open spec fn is_int_sqrt(n: int, root: int) -> bool {
    root >= 0 && root * root <= n < (root + 1) * (root + 1)
}

/// The square root of `n`, rounded down, for `n` that is not negative.
pub open spec fn int_sqrt(n: int) -> int {
    choose|root: int| is_int_sqrt(n, root)
}

/// A signed decimal fixed-point number with twelve fractional digits.
///
/// Every finite value is `raw / 10^12`. One raw pattern is set aside as
/// "not a number": it comes out of any operation whose exact result does not
/// fit, every arithmetic operation that meets it passes it on, and every
/// comparison that meets it answers `false`.
#[derive(Clone, Copy, Debug, PartialEq, Eq, Structural)]
pub struct Fixed {
    pub raw: i64,
}

impl View for Fixed {
    type V = Option<int>;

    /// The number of raw units, or `None` for "not a number".
    open spec fn view(&self) -> Option<int> {
        if self.raw == NAN_RAW {
            None
        } else {
            Some(self.raw as int)
        }
    }
}

impl Fixed {
    /// The value that holds `units` raw units, or "not a number" when that
    /// many do not fit.
    pub open spec fn of(units: int) -> Fixed {
        if -MAX_RAW <= units <= MAX_RAW {
            Fixed { raw: units as i64 }
        } else {
            Fixed { raw: NAN_RAW }
        }
    }

    /// "Not a number".
    pub open spec fn spec_nan() -> Fixed {
        Fixed { raw: NAN_RAW }
    }

    /// Zero.
    pub open spec fn spec_zero() -> Fixed {
        Fixed { raw: 0 }
    }

    /// The value is "not a number".
    pub open spec fn spec_is_nan(self) -> bool {
        self.raw == NAN_RAW
    }

    /// The whole number `whole`.
    pub open spec fn spec_from_int(whole: i64) -> Fixed {
        Fixed::of(whole * SCALE)
    }

    /// The quotient of two whole numbers, cut off toward zero.
    pub open spec fn spec_from_ratio(numerator: i64, denominator: i64) -> Fixed {
        if denominator == 0 {
            Fixed::spec_nan()
        } else {
            Fixed::of(trunc_div(numerator * SCALE, denominator as int))
        }
    }

    /// The value with its sign flipped.
    pub open spec fn spec_neg(self) -> Fixed {
        if self.spec_is_nan() {
            Fixed::spec_nan()
        } else {
            Fixed { raw: (-self.raw) as i64 }
        }
    }

    /// The distance of the value from zero.
    pub open spec fn spec_abs(self) -> Fixed {
        if self.spec_is_nan() {
            Fixed::spec_nan()
        } else {
            Fixed { raw: magnitude(self.raw as int) as i64 }
        }
    }

    /// Half the value, cut off toward zero.
    pub open spec fn spec_half(self) -> Fixed {
        if self.spec_is_nan() {
            Fixed::spec_nan()
        } else {
            Fixed { raw: trunc_div(self.raw as int, 2) as i64 }
        }
    }

    /// The whole units in the value, cut off toward zero; zero for "not a
    /// number".
    pub open spec fn spec_whole(self) -> i64 {
        if self.spec_is_nan() {
            0
        } else {
            trunc_div(self.raw as int, SCALE as int) as i64
        }
    }

    /// The exact sum, if it is in range.
    pub open spec fn spec_add(self, rhs: Fixed) -> Fixed {
        if self.spec_is_nan() || rhs.spec_is_nan() {
            Fixed::spec_nan()
        } else {
            Fixed::of(self.raw + rhs.raw)
        }
    }

    /// The exact difference, if it is in range.
    pub open spec fn spec_sub(self, rhs: Fixed) -> Fixed {
        if self.spec_is_nan() || rhs.spec_is_nan() {
            Fixed::spec_nan()
        } else {
            Fixed::of(self.raw - rhs.raw)
        }
    }

    /// The exact product cut off toward zero to the raw unit, if it is in
    /// range.
    pub open spec fn spec_mul(self, rhs: Fixed) -> Fixed {
        if self.spec_is_nan() || rhs.spec_is_nan() {
            Fixed::spec_nan()
        } else {
            Fixed::of(trunc_div(self.raw * rhs.raw, SCALE as int))
        }
    }

    /// The exact quotient cut off toward zero to the raw unit, if the divisor
    /// is not zero and the quotient is in range.
    pub open spec fn spec_div(self, rhs: Fixed) -> Fixed {
        if self.spec_is_nan() || rhs.spec_is_nan() || rhs.raw == 0 {
            Fixed::spec_nan()
        } else {
            Fixed::of(trunc_div(self.raw * SCALE, rhs.raw as int))
        }
    }

    /// The square root of the sum of the two squares, rounded down to the raw
    /// unit, if it is in range.
    pub open spec fn spec_hypot(self, other: Fixed) -> Fixed {
        if self.spec_is_nan() || other.spec_is_nan() {
            Fixed::spec_nan()
        } else {
            Fixed::of(int_sqrt(self.raw * self.raw + other.raw * other.raw))
        }
    }

    /// Both are numbers, and the first is less than the second.
    pub open spec fn spec_lt(self, rhs: Fixed) -> bool {
        !self.spec_is_nan() && !rhs.spec_is_nan() && self.raw < rhs.raw
    }

    /// Both are numbers, and the first is no more than the second.
    pub open spec fn spec_le(self, rhs: Fixed) -> bool {
        !self.spec_is_nan() && !rhs.spec_is_nan() && self.raw <= rhs.raw
    }

    /// Both are numbers, and the first is more than the second.
    pub open spec fn spec_gt(self, rhs: Fixed) -> bool {
        !self.spec_is_nan() && !rhs.spec_is_nan() && self.raw > rhs.raw
    }

    /// Both are numbers, and the first is no less than the second.
    pub open spec fn spec_ge(self, rhs: Fixed) -> bool {
        !self.spec_is_nan() && !rhs.spec_is_nan() && self.raw >= rhs.raw
    }

    /// Both are numbers and lie on the same side of zero, zero counting as
    /// positive.
    pub open spec fn spec_same_sign(self, rhs: Fixed) -> bool {
        !self.spec_is_nan() && !rhs.spec_is_nan() && ((self.raw < 0) == (rhs.raw < 0))
    }

    /// "Not a number".
    #[verifier::when_used_as_spec(spec_nan)]
    pub fn nan() -> (r: Fixed)
        ensures
            r == Fixed::spec_nan(),
            r@ is None,
    {
        Fixed { raw: NAN_RAW }
    }

    /// Zero.
    #[verifier::when_used_as_spec(spec_zero)]
    pub fn zero() -> (r: Fixed)
        ensures
            r == Fixed::spec_zero(),
            r@ == Some(0int),
    {
        Fixed { raw: 0 }
    }

    /// The value with the given raw units; the reserved pattern gives "not a
    /// number".
    pub fn from_raw(raw: i64) -> (r: Fixed)
        ensures
            r.raw == raw,
    {
        Fixed { raw }
    }

    /// The whole number `whole`, or "not a number" when it is out of range.
    #[verifier::when_used_as_spec(spec_from_int)]
    pub fn from_int(whole: i64) -> (r: Fixed)
        ensures
            r == Fixed::spec_from_int(whole),
            -9_223_372 <= whole <= 9_223_372 ==> r@ == Some(whole * 1_000_000_000_000),
    {
        Fixed::narrow((whole as i128) * 1_000_000_000_000)
    }

    /// The quotient `numerator / denominator`, cut off toward zero after
    /// twelve decimals; "not a number" for a zero denominator or a quotient
    /// out of range.
    #[verifier::when_used_as_spec(spec_from_ratio)]
    pub fn from_ratio(numerator: i64, denominator: i64) -> (r: Fixed)
        ensures
            r == Fixed::spec_from_ratio(numerator, denominator),
    {
        if denominator == 0 {
            Fixed { raw: NAN_RAW }
        } else {
            let q: u128 = (Fixed::wide_magnitude(numerator) * 1_000_000_000_000)
                / Fixed::wide_magnitude(denominator);
            Fixed::signed((numerator >= 0) == (denominator > 0), q)
        }
    }

    /// Tells whether the value is "not a number".
    #[verifier::when_used_as_spec(spec_is_nan)]
    pub fn is_nan(self) -> (r: bool)
        ensures
            r == self.spec_is_nan(),
            r == (self@ is None),
    {
        self.raw == NAN_RAW
    }

    /// The sign flipped.
    #[verifier::when_used_as_spec(spec_neg)]
    pub fn neg(self) -> (r: Fixed)
        ensures
            r == self.spec_neg(),
    {
        if self.raw == NAN_RAW {
            self
        } else {
            Fixed { raw: -self.raw }
        }
    }

    /// The distance from zero.
    #[verifier::when_used_as_spec(spec_abs)]
    pub fn abs(self) -> (r: Fixed)
        ensures
            r == self.spec_abs(),
    {
        if self.raw == NAN_RAW || self.raw >= 0 {
            self
        } else {
            Fixed { raw: -self.raw }
        }
    }

    /// Half the value, cut off toward zero.
    #[verifier::when_used_as_spec(spec_half)]
    pub fn half(self) -> (r: Fixed)
        ensures
            r == self.spec_half(),
    {
        if self.raw == NAN_RAW {
            self
        } else {
            Fixed { raw: self.raw / 2 }
        }
    }

    /// The whole units in the value, what is left over cut off toward zero;
    /// zero for "not a number".
    #[verifier::when_used_as_spec(spec_whole)]
    pub fn whole(self) -> (r: i64)
        ensures
            r == self.spec_whole(),
            -9_223_372 <= r <= 9_223_372,
    {
        if self.raw == NAN_RAW {
            0
        } else {
            self.raw / 1_000_000_000_000
        }
    }

    /// The sum, or "not a number" when it is out of range.
    #[verifier::when_used_as_spec(spec_add)]
    pub fn add(self, rhs: Fixed) -> (r: Fixed)
        ensures
            r == self.spec_add(rhs),
    {
        if self.is_nan() || rhs.is_nan() {
            Fixed { raw: NAN_RAW }
        } else {
            Fixed::narrow(self.raw as i128 + rhs.raw as i128)
        }
    }

    /// The difference, or "not a number" when it is out of range.
    #[verifier::when_used_as_spec(spec_sub)]
    pub fn sub(self, rhs: Fixed) -> (r: Fixed)
        ensures
            r == self.spec_sub(rhs),
    {
        if self.is_nan() || rhs.is_nan() {
            Fixed { raw: NAN_RAW }
        } else {
            Fixed::narrow(self.raw as i128 - rhs.raw as i128)
        }
    }

    /// The product, cut off toward zero after twelve decimals, or "not a
    /// number" when it is out of range.
    #[verifier::when_used_as_spec(spec_mul)]
    pub fn mul(self, rhs: Fixed) -> (r: Fixed)
        ensures
            r == self.spec_mul(rhs),
    {
        if self.is_nan() || rhs.is_nan() {
            Fixed { raw: NAN_RAW }
        } else {
            let a: u128 = Fixed::wide_magnitude(self.raw);
            let b: u128 = Fixed::wide_magnitude(rhs.raw);
            proof {
                lemma_product_magnitude(self.raw as int, rhs.raw as int);
            }
            let q: u128 = (a * b) / 1_000_000_000_000;
            Fixed::signed((self.raw < 0) == (rhs.raw < 0) || self.raw == 0 || rhs.raw == 0, q)
        }
    }

    /// The quotient, cut off toward zero after twelve decimals; "not a
    /// number" for a zero divisor or a quotient out of range.
    #[verifier::when_used_as_spec(spec_div)]
    pub fn div(self, rhs: Fixed) -> (r: Fixed)
        ensures
            r == self.spec_div(rhs),
    {
        if self.is_nan() || rhs.is_nan() || rhs.raw == 0 {
            Fixed { raw: NAN_RAW }
        } else {
            let q: u128 = (Fixed::wide_magnitude(self.raw) * 1_000_000_000_000)
                / Fixed::wide_magnitude(rhs.raw);
            Fixed::signed((self.raw >= 0) == (rhs.raw > 0), q)
        }
    }

    /// The length of the diagonal of a rectangle with these two sides,
    /// rounded down to the raw unit, or "not a number" when it is out of
    /// range.
    #[verifier::when_used_as_spec(spec_hypot)]
    pub fn hypot(self, other: Fixed) -> (r: Fixed)
        ensures
            r == self.spec_hypot(other),
    {
        if self.is_nan() || other.is_nan() {
            Fixed { raw: NAN_RAW }
        } else {
            let a: u128 = Fixed::wide_magnitude(self.raw);
            let b: u128 = Fixed::wide_magnitude(other.raw);
            proof {
                lemma_product_magnitude(self.raw as int, self.raw as int);
                lemma_product_magnitude(other.raw as int, other.raw as int);
                assert(a * a >= 0 && b * b >= 0) by (nonlinear_arith);
            }
            let n: u128 = a * a + b * b;
            let root: u128 = Fixed::square_root(n);
            proof {
                let exact = lemma_int_sqrt_exists(n as int);
                lemma_int_sqrt_unique(n as int, root as int, exact);
            }
            Fixed::signed(true, root)
        }
    }

    /// The square root of `n`, rounded down, found by halving the interval
    /// that holds it.
    fn square_root(n: u128) -> (root: u128)
        ensures
            is_int_sqrt(n as int, root as int),
    {
        let mut low: u128 = 0;
        let mut high: u128 = 0x1_0000_0000_0000_0000;
        assert(n < 0x1_0000_0000_0000_0000 * 0x1_0000_0000_0000_0000) by (nonlinear_arith)
            requires
                n <= 0xffff_ffff_ffff_ffff_ffff_ffff_ffff_ffff,
        ;
        while high - low > 1
            invariant
                low < high <= 0x1_0000_0000_0000_0000,
                low * low <= n < high * high,
            decreases high - low,
        {
            let middle: u128 = low + (high - low) / 2;
            assert(middle * middle <= 0xffff_ffff_ffff_ffff * 0xffff_ffff_ffff_ffff)
                by (nonlinear_arith)
                requires
                    middle <= 0xffff_ffff_ffff_ffff,
            ;
            if middle * middle <= n {
                low = middle;
            } else {
                high = middle;
            }
        }
        low
    }

    /// Less than; `false` if either is "not a number".
    #[verifier::when_used_as_spec(spec_lt)]
    pub fn lt(self, rhs: Fixed) -> (r: bool)
        ensures
            r == self.spec_lt(rhs),
    {
        self.raw != NAN_RAW && rhs.raw != NAN_RAW && self.raw < rhs.raw
    }

    /// No more than; `false` if either is "not a number".
    #[verifier::when_used_as_spec(spec_le)]
    pub fn le(self, rhs: Fixed) -> (r: bool)
        ensures
            r == self.spec_le(rhs),
    {
        self.raw != NAN_RAW && rhs.raw != NAN_RAW && self.raw <= rhs.raw
    }

    /// More than; `false` if either is "not a number".
    #[verifier::when_used_as_spec(spec_gt)]
    pub fn gt(self, rhs: Fixed) -> (r: bool)
        ensures
            r == self.spec_gt(rhs),
    {
        self.raw != NAN_RAW && rhs.raw != NAN_RAW && self.raw > rhs.raw
    }

    /// No less than; `false` if either is "not a number".
    #[verifier::when_used_as_spec(spec_ge)]
    pub fn ge(self, rhs: Fixed) -> (r: bool)
        ensures
            r == self.spec_ge(rhs),
    {
        self.raw != NAN_RAW && rhs.raw != NAN_RAW && self.raw >= rhs.raw
    }

    /// Tells whether both are numbers on the same side of zero, zero counting
    /// as positive.
    #[verifier::when_used_as_spec(spec_same_sign)]
    pub fn same_sign(self, rhs: Fixed) -> (r: bool)
        ensures
            r == self.spec_same_sign(rhs),
    {
        self.raw != NAN_RAW && rhs.raw != NAN_RAW && ((self.raw < 0) == (rhs.raw < 0))
    }

    /// The distance of `raw` from zero.
    fn wide_magnitude(raw: i64) -> (r: u128)
        ensures
            r == magnitude(raw as int),
            r <= 0x8000_0000_0000_0000,
    {
        if raw >= 0 {
            raw as u128
        } else {
            (-(raw as i128)) as u128
        }
    }

    /// The value with `wide` raw units, or "not a number" if they do not fit.
    fn narrow(wide: i128) -> (r: Fixed)
        ensures
            r == Fixed::of(wide as int),
    {
        if -(MAX_RAW as i128) <= wide && wide <= MAX_RAW as i128 {
            Fixed { raw: wide as i64 }
        } else {
            Fixed { raw: NAN_RAW }
        }
    }

    /// The value of the given size and sign, or "not a number" if it does not
    /// fit.
    fn signed(positive: bool, size: u128) -> (r: Fixed)
        ensures
            r == Fixed::of(
                if positive {
                    size as int
                } else {
                    -(size as int)
                },
            ),
    {
        if size > MAX_RAW as u128 {
            Fixed { raw: NAN_RAW }
        } else if positive {
            Fixed { raw: size as i64 }
        } else {
            Fixed { raw: -(size as i64) }
        }
    }
}

/// A number has at most one square root rounded down.
pub proof fn lemma_int_sqrt_unique(n: int, a: int, b: int)
    requires
        is_int_sqrt(n, a),
        is_int_sqrt(n, b),
    ensures
        a == b,
{
    assert(a == b) by (nonlinear_arith)
        requires
            is_int_sqrt(n, a),
            is_int_sqrt(n, b),
    {
        if a < b {
            assert((a + 1) * (a + 1) <= b * b);
        }
        if b < a {
            assert((b + 1) * (b + 1) <= a * a);
        }
    }
}

/// Every number that is not negative has a square root rounded down, and
/// `int_sqrt` is it.
pub proof fn lemma_int_sqrt_exists(n: int) -> (root: int)
    requires
        n >= 0,
    ensures
        is_int_sqrt(n, root),
        root == int_sqrt(n),
    decreases n,
{
    let root = if n == 0 {
        0
    } else {
        let quarter = lemma_int_sqrt_exists(n / 4);
        let even = 2 * quarter;
        assert(even * even <= n < (even + 2) * (even + 2)) by (nonlinear_arith)
            requires
                n >= 0,
                is_int_sqrt(n / 4, quarter),
                even == 2 * quarter,
        {
            assert(4 * (n / 4) <= n < 4 * (n / 4) + 4);
            assert(even * even == 4 * (quarter * quarter));
            assert((even + 2) * (even + 2) == 4 * ((quarter + 1) * (quarter + 1)));
        }
        assert((even + 1 + 1) * (even + 1 + 1) == (even + 2) * (even + 2)) by (nonlinear_arith);
        if (even + 1) * (even + 1) <= n {
            even + 1
        } else {
            even
        }
    };
    assert(is_int_sqrt(n, root)) by (nonlinear_arith)
        requires
            n >= 0,
            root >= 0,
            root * root <= n,
            n < (root + 1) * (root + 1),
    ;
    lemma_int_sqrt_unique(n, root, int_sqrt(n));
    root
}

/// The magnitude of a product is the product of the magnitudes.
pub proof fn lemma_product_magnitude(a: int, b: int)
    ensures
        magnitude(a * b) == magnitude(a) * magnitude(b),
        (a * b >= 0) == ((a < 0) == (b < 0) || a == 0 || b == 0),
        magnitude(a) <= 0x8000_0000_0000_0000 && magnitude(b) <= 0x8000_0000_0000_0000
            ==> magnitude(a) * magnitude(b) <= 0x4000_0000_0000_0000_0000_0000_0000_0000,
{
    assert(magnitude(a * b) == magnitude(a) * magnitude(b)) by (nonlinear_arith);
    assert((a * b >= 0) == ((a < 0) == (b < 0) || a == 0 || b == 0)) by (nonlinear_arith);
    assert(magnitude(a) <= 0x8000_0000_0000_0000 && magnitude(b) <= 0x8000_0000_0000_0000
        ==> magnitude(a) * magnitude(b) <= 0x4000_0000_0000_0000_0000_0000_0000_0000)
        by (nonlinear_arith);
}

/// A product of two numbers, where it is a number, has the sign that the
/// signs of the two give it, or is zero; and turning one of them round turns
/// the product round.
pub proof fn lemma_mul_sign(a: Fixed, b: Fixed)
    requires
        !a.is_nan(),
        !b.is_nan(),
    ensures
        a.mul(b.neg()) == a.mul(b).neg(),
        a.neg().mul(b) == a.mul(b).neg(),
        !a.mul(b).is_nan() && (a.raw >= 0) == (b.raw >= 0) ==> a.mul(b).raw >= 0,
        !a.mul(b).is_nan() && (a.raw >= 0) != (b.raw >= 0) ==> a.mul(b).raw <= 0,
        a.raw == 0 || b.raw == 0 ==> a.mul(b).raw == 0,
{
    let s = SCALE as int;
    let p = a.raw * b.raw;
    lemma_product_magnitude(a.raw as int, b.raw as int);
    lemma_product_magnitude(a.raw as int, -(b.raw as int));
    lemma_product_magnitude(-(a.raw as int), b.raw as int);
    assert(a.raw * (-(b.raw as int)) == -p && (-(a.raw as int)) * b.raw == -p) by (nonlinear_arith)
        requires
            p == a.raw * b.raw,
    ;
    let q = magnitude(p) / s;
    assert(q >= 0 && (magnitude(p) == 0 ==> q == 0)) by (nonlinear_arith)
        requires
            q == magnitude(p) / s,
            magnitude(p) >= 0,
            s > 0,
    ;
    assert(a.raw == 0 || b.raw == 0 ==> p == 0) by (nonlinear_arith)
        requires
            p == a.raw * b.raw,
    ;
    assert(trunc_div(p, s) == if p >= 0 {
        q
    } else {
        -q
    });
    assert(trunc_div(-p, s) == -trunc_div(p, s));
}

/// Multiplying by one changes nothing.
pub proof fn lemma_mul_one(a: Fixed)
    ensures
        a.mul(Fixed { raw: SCALE }) == a,
{
    if !a.is_nan() {
        let s = SCALE as int;
        let m = magnitude(a.raw as int);
        lemma_product_magnitude(a.raw as int, s);
        lemma_div_multiples_vanish(m, s);
        assert(m * s == s * m) by (nonlinear_arith);
        assert((a.raw * s >= 0) == (a.raw >= 0)) by (nonlinear_arith)
            requires
                s > 0,
        ;
    }
}

/// Multiplying by a whole number is exact.
pub proof fn lemma_mul_by_whole(a: Fixed, whole: i64)
    requires
        !a.is_nan(),
        !Fixed::from_int(whole).is_nan(),
    ensures
        a.mul(Fixed::from_int(whole)) == Fixed::of(a.raw * whole),
{
    let s = SCALE as int;
    let exact = a.raw * whole;
    assert(Fixed::from_int(whole).raw == whole * s);
    assert(a.raw * (whole * s) == exact * s) by (nonlinear_arith)
        requires
            exact == a.raw * whole,
    ;
    lemma_div_multiples_vanish(magnitude(exact), s);
    assert(magnitude(exact * s) == magnitude(exact) * s && (exact * s >= 0) == (exact >= 0))
        by (nonlinear_arith)
        requires
            s > 0,
    ;
    assert(s * magnitude(exact) == magnitude(exact) * s) by (nonlinear_arith);
}

} // verus!
