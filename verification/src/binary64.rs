//! IEEE-754 binary64 values as bit patterns.
//!
//! A pattern is a sign bit followed by 63 bits of magnitude (biased exponent,
//! then fraction). Magnitudes above that of infinity are NaNs. Among the other
//! patterns the numeric order is the order of the signed magnitudes, with the
//! two zeros equal. Everything here is decided from the pattern alone, without
//! rounding.

use vstd::arithmetic::power2::{
    lemma2_to64, lemma2_to64_rest, lemma_pow2_adds, lemma_pow2_pos, lemma_pow2_strictly_increases,
    lemma_pow2_unfold, pow2,
};
use vstd::prelude::*;

verus! {

/// The pattern with only the sign bit set (negative zero).
pub const SIGN_BIT: u64 = 0x8000_0000_0000_0000;

/// The magnitude of the two infinities: all exponent bits set, fraction zero.
pub const INFINITY_BITS: u64 = 0x7FF0_0000_0000_0000;

/// The number of fraction patterns under one exponent: 2^52.
pub const FRACTION_RANGE: u64 = 0x0010_0000_0000_0000;

/// The pattern of `1.0`.
pub const ONE_BITS: u64 = 0x3FF0_0000_0000_0000;

/// The pattern of `4.0`.
pub const FOUR_BITS: u64 = 0x4010_0000_0000_0000;

/// What a magnitude is worth, in units of 2^-1074 (the smallest positive
/// value). With a zero exponent field the fraction counts by itself
/// (subnormal); otherwise the fraction has an implicit leading one and is
/// scaled by the exponent. The magnitude of infinity is worth 2^2098, which
/// is above every finite value.
pub open spec fn magnitude_value(m: int) -> int {
    let exponent = m / (FRACTION_RANGE as int);
    let fraction = m % (FRACTION_RANGE as int);
    if exponent == 0 {
        fraction
    } else {
        (FRACTION_RANGE + fraction) * pow2((exponent - 1) as nat)
    }
}

/// A binary64 value, held as its bit pattern.
#[derive(Debug, Clone, Copy, PartialEq, Eq, Structural)]
pub struct Binary64 {
    pub bits: u64,
}

impl Binary64 {
    /// The 63 bits below the sign bit, as a number.
    pub open spec fn magnitude(self) -> int {
        if self.bits >= SIGN_BIT {
            self.bits - SIGN_BIT
        } else {
            self.bits as int
        }
    }

    /// Whether the sign bit is set.
    pub open spec fn negative(self) -> bool {
        self.bits >= SIGN_BIT
    }

    /// Whether the pattern is a NaN.
    pub open spec fn nan(self) -> bool {
        self.magnitude() > INFINITY_BITS
    }

    /// The signed magnitude. On patterns that are not NaN it is strictly
    /// monotone in the numeric value, and both zeros have rank zero.
    pub open spec fn rank(self) -> int {
        if self.negative() {
            -self.magnitude()
        } else {
            self.magnitude()
        }
    }

    /// The numeric value of a pattern that is not a NaN, in units of 2^-1074.
    pub open spec fn scaled_value(self) -> int {
        if self.negative() {
            -magnitude_value(self.magnitude())
        } else {
            magnitude_value(self.magnitude())
        }
    }

    /// Numeric `<`: false whenever either side is a NaN.
    pub open spec fn less(self, other: Binary64) -> bool {
        !self.nan() && !other.nan() && self.rank() < other.rank()
    }

    /// Numeric `<=`: false whenever either side is a NaN.
    pub open spec fn at_most(self, other: Binary64) -> bool {
        !self.nan() && !other.nan() && self.rank() <= other.rank()
    }

    /// Numeric `==`: false whenever either side is a NaN; the zeros are equal.
    pub open spec fn equals(self, other: Binary64) -> bool {
        !self.nan() && !other.nan() && self.rank() == other.rank()
    }

    /// The pattern with the sign bit flipped.
    pub open spec fn negated(self) -> Binary64 {
        if self.bits >= SIGN_BIT {
            Binary64 { bits: (self.bits - SIGN_BIT) as u64 }
        } else {
            Binary64 { bits: (self.bits + SIGN_BIT) as u64 }
        }
    }

    /// The pattern with the sign bit cleared.
    pub open spec fn absolute(self) -> Binary64 {
        Binary64 { bits: self.magnitude() as u64 }
    }

    /// Positive zero.
    pub open spec fn zero() -> Binary64 {
        Binary64 { bits: 0 }
    }

    /// The value `1.0`.
    pub open spec fn one() -> Binary64 {
        Binary64 { bits: ONE_BITS }
    }

    /// The value `4.0`.
    pub open spec fn four() -> Binary64 {
        Binary64 { bits: FOUR_BITS }
    }

    /// Wraps a bit pattern.
    pub fn from_bits(bits: u64) -> (x: Binary64)
        ensures
            x.bits == bits,
    {
        Binary64 { bits }
    }

    /// The bit pattern.
    pub fn to_bits(self) -> (bits: u64)
        ensures
            bits == self.bits,
    {
        self.bits
    }

    /// Whether the value is a NaN.
    pub fn is_nan(self) -> (r: bool)
        ensures
            r == self.nan(),
    {
        if self.bits >= SIGN_BIT {
            self.bits - SIGN_BIT > INFINITY_BITS
        } else {
            self.bits > INFINITY_BITS
        }
    }

    /// The signed magnitude as a machine integer: an order-preserving key.
    pub fn order_key(self) -> (key: i64)
        ensures
            key == self.rank(),
    {
        if self.bits >= SIGN_BIT {
            let magnitude: u64 = self.bits - SIGN_BIT;
            -(magnitude as i64)
        } else {
            self.bits as i64
        }
    }

    /// Numeric `self < other`.
    pub fn lt(self, other: Binary64) -> (r: bool)
        ensures
            r == self.less(other),
    {
        !self.is_nan() && !other.is_nan() && self.order_key() < other.order_key()
    }

    /// Numeric `self <= other`.
    pub fn le(self, other: Binary64) -> (r: bool)
        ensures
            r == self.at_most(other),
    {
        !self.is_nan() && !other.is_nan() && self.order_key() <= other.order_key()
    }

    /// Numeric `self > other`.
    pub fn gt(self, other: Binary64) -> (r: bool)
        ensures
            r == other.less(self),
    {
        other.lt(self)
    }

    /// Numeric `self >= other`.
    pub fn ge(self, other: Binary64) -> (r: bool)
        ensures
            r == other.at_most(self),
    {
        other.le(self)
    }

    /// The value with its sign flipped. Exact for every pattern, NaNs included.
    pub fn neg(self) -> (r: Binary64)
        ensures
            r == self.negated(),
            r.magnitude() == self.magnitude(),
            r.negative() != self.negative(),
    {
        if self.bits >= SIGN_BIT {
            Binary64 { bits: self.bits - SIGN_BIT }
        } else {
            Binary64 { bits: self.bits + SIGN_BIT }
        }
    }

    /// The value with its sign cleared.
    pub fn abs(self) -> (r: Binary64)
        ensures
            r == self.absolute(),
            r.magnitude() == self.magnitude(),
            !r.negative(),
    {
        if self.bits >= SIGN_BIT {
            Binary64 { bits: self.bits - SIGN_BIT }
        } else {
            self
        }
    }
}

/// A larger magnitude is worth strictly more, and nothing is worth less
/// than zero.
pub proof fn magnitude_value_is_monotone(x: int, y: int)
    requires
        0 <= x < y,
    ensures
        0 <= magnitude_value(x) < magnitude_value(y),
{
    let r = FRACTION_RANGE as int;
    let e1 = x / r;
    let f1 = x % r;
    let e2 = y / r;
    let f2 = y % r;
    assert(0 <= e1 <= e2);
    if e1 == 0 {
        if e2 > 0 {
            let p2 = pow2((e2 - 1) as nat) as int;
            lemma_pow2_pos((e2 - 1) as nat);
            assert((r + f2) * p2 >= r) by (nonlinear_arith)
                requires
                    p2 >= 1,
                    f2 >= 0,
                    r > 0,
            ;
        }
    } else {
        let p1 = pow2((e1 - 1) as nat) as int;
        let p2 = pow2((e2 - 1) as nat) as int;
        lemma_pow2_pos((e1 - 1) as nat);
        if e1 == e2 {
            assert((r + f1) * p1 < (r + f2) * p1) by (nonlinear_arith)
                requires
                    p1 >= 1,
                    f1 < f2,
            ;
        } else {
            lemma_pow2_unfold(e1 as nat);
            if e1 < e2 - 1 {
                lemma_pow2_strictly_increases(e1 as nat, (e2 - 1) as nat);
            }
            let q = pow2(e1 as nat) as int;
            assert(q == 2 * p1 && q <= p2);
            assert((r + f1) * p1 < (r + f2) * p2) by (nonlinear_arith)
                requires
                    p1 >= 1,
                    2 * p1 <= p2,
                    0 <= f1 < r,
                    0 <= f2,
            ;
        }
        assert((r + f1) * p1 >= 0) by (nonlinear_arith)
            requires
                p1 >= 1,
                f1 >= 0,
                r > 0,
        ;
    }
}

/// The order of ranks is the order of numeric values: on patterns that are
/// not NaN, `less`, `at_most` and `equals` are `<`, `<=` and `==` of the
/// values.
pub proof fn rank_orders_as_value(a: Binary64, b: Binary64)
    ensures
        a.rank() < b.rank() <==> a.scaled_value() < b.scaled_value(),
        a.rank() == b.rank() <==> a.scaled_value() == b.scaled_value(),
        !a.nan() && !b.nan() ==> (a.less(b) <==> a.scaled_value() < b.scaled_value()),
        !a.nan() && !b.nan() ==> (a.at_most(b) <==> a.scaled_value() <= b.scaled_value()),
        !a.nan() && !b.nan() ==> (a.equals(b) <==> a.scaled_value() == b.scaled_value()),
{
    let x = a.magnitude();
    let y = b.magnitude();
    assert(magnitude_value(0) == 0);
    if x < y {
        magnitude_value_is_monotone(x, y);
    } else if y < x {
        magnitude_value_is_monotone(y, x);
    }
    if 0 < x {
        magnitude_value_is_monotone(0, x);
    }
    if 0 < y {
        magnitude_value_is_monotone(0, y);
    }
}

/// The named constants are worth what their names say: zero is worth
/// nothing, one is worth 2^1074 units of 2^-1074, four is worth four times
/// as much, and infinity 2^2098.
pub proof fn constants_have_their_values()
    ensures
        Binary64::zero().scaled_value() == 0,
        Binary64::one().scaled_value() == pow2(1074),
        Binary64::four().scaled_value() == 4 * pow2(1074),
        magnitude_value(INFINITY_BITS as int) == pow2(2098),
{
    lemma2_to64_rest();
    assert(pow2(52) == FRACTION_RANGE);
    assert((ONE_BITS as int) / (FRACTION_RANGE as int) == 1023);
    assert((ONE_BITS as int) % (FRACTION_RANGE as int) == 0);
    assert((FOUR_BITS as int) / (FRACTION_RANGE as int) == 1025);
    assert((FOUR_BITS as int) % (FRACTION_RANGE as int) == 0);
    assert((INFINITY_BITS as int) / (FRACTION_RANGE as int) == 2047);
    assert((INFINITY_BITS as int) % (FRACTION_RANGE as int) == 0);
    lemma_pow2_adds(52, 1022);
    lemma_pow2_adds(52, 1024);
    lemma_pow2_adds(52, 2046);
    lemma_pow2_adds(1074, 2);
    lemma2_to64();
}

/// Of two values that are not NaN exactly one of `a < b`, `a == b`, `b < a`
/// holds.
pub proof fn comparison_is_total(a: Binary64, b: Binary64)
    requires
        !a.nan(),
        !b.nan(),
    ensures
        a.less(b) || a.equals(b) || b.less(a),
        !(a.less(b) && a.equals(b)),
        !(a.less(b) && b.less(a)),
        !(a.equals(b) && b.less(a)),
        a.at_most(b) <==> (a.less(b) || a.equals(b)),
{
}

/// `<` is transitive, and so is `<=`.
pub proof fn comparison_is_transitive(a: Binary64, b: Binary64, c: Binary64)
    ensures
        a.less(b) && b.less(c) ==> a.less(c),
        a.at_most(b) && b.at_most(c) ==> a.at_most(c),
        a.less(b) && b.at_most(c) ==> a.less(c),
        a.at_most(b) && b.less(c) ==> a.less(c),
{
}

/// A NaN compares false with everything, itself included.
pub proof fn nan_is_unordered(a: Binary64, b: Binary64)
    requires
        a.nan() || b.nan(),
    ensures
        !a.less(b),
        !a.at_most(b),
        !a.equals(b),
        !b.less(a),
        !b.at_most(a),
{
}

/// The two zeros are equal, and they are the only distinct patterns that
/// are: values that are not NaN are equal exactly when their patterns agree
/// or both are zeros.
pub proof fn equality_of_patterns(a: Binary64, b: Binary64)
    requires
        !a.nan(),
        !b.nan(),
    ensures
        a.equals(b) <==> (a.bits == b.bits || (a.magnitude() == 0 && b.magnitude() == 0)),
        (Binary64 { bits: SIGN_BIT }).equals(Binary64::zero()),
{
}

/// Flipping both signs reverses the order, and flipping the sign twice gives
/// the pattern back.
pub proof fn negation_reverses_order(a: Binary64, b: Binary64)
    ensures
        a.less(b) <==> b.negated().less(a.negated()),
        a.at_most(b) <==> b.negated().at_most(a.negated()),
        a.negated().negated() == a,
        a.negated().nan() == a.nan(),
        a.negated().scaled_value() == -a.scaled_value(),
{
    if a.magnitude() > 0 {
        magnitude_value_is_monotone(0, a.magnitude());
    }
    assert(magnitude_value(0) == 0);
}

/// The absolute value is never negative in the numeric order, and it is the
/// value itself or its negation.
pub proof fn absolute_value_is_larger_side(a: Binary64)
    ensures
        a.absolute() == (if a.negative() { a.negated() } else { a }),
        !a.nan() ==> Binary64::zero().at_most(a.absolute()),
        !a.nan() ==> a.at_most(a.absolute()) && a.negated().at_most(a.absolute()),
        a.absolute().scaled_value() == (if a.scaled_value() < 0 {
            -a.scaled_value()
        } else {
            a.scaled_value()
        }),
{
    if a.magnitude() > 0 {
        magnitude_value_is_monotone(0, a.magnitude());
    }
    assert(magnitude_value(0) == 0);
}

} // verus!
