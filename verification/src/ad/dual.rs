//! Dual numbers: a value together with its derivative.

use crate::binary64::Binary64;
use crate::binary64::ONE_BITS;
use core::ops::Neg;
use vstd::prelude::*;

verus! {

/// A dual number `f + f'ε` with `ε² = 0`: the value of a function and its
/// derivative with respect to one distinguished variable, both binary64.
#[derive(Debug, Clone, Copy, PartialEq, Eq, Structural)]
pub struct Dual {
    /// The value of the function.
    pub value: Binary64,
    /// The derivative of the function.
    pub deriv: Binary64,
}

impl Dual {
    /// The dual number with both channels negated.
    pub open spec fn negated(self) -> Dual {
        Dual { value: self.value.negated(), deriv: self.deriv.negated() }
    }

    /// The number itself where its value is at least zero, else its
    /// negation.
    pub open spec fn absolute(self) -> Dual {
        if Binary64::zero().at_most(self.value) {
            self
        } else {
            self.negated()
        }
    }

    /// The number of the two whose value is larger; `self` on a tie, `other`
    /// where the values do not compare.
    pub open spec fn larger(self, other: Dual) -> Dual {
        if other.value.at_most(self.value) {
            self
        } else {
            other
        }
    }

    /// The number of the two whose value is smaller; `self` on a tie, `other`
    /// where the values do not compare.
    pub open spec fn smaller(self, other: Dual) -> Dual {
        if self.value.at_most(other.value) {
            self
        } else {
            other
        }
    }

    /// A dual number from its two channels.
    pub fn new(value: Binary64, deriv: Binary64) -> (d: Dual)
        ensures
            d == (Dual { value, deriv }),
    {
        Dual { value, deriv }
    }

    /// A constant: independent of the variable, so its derivative is zero.
    pub fn constant(value: Binary64) -> (d: Dual)
        ensures
            d == (Dual { value, deriv: Binary64::zero() }),
    {
        Dual { value, deriv: Binary64 { bits: 0 } }
    }

    /// The variable itself: its derivative is one.
    pub fn variable(value: Binary64) -> (d: Dual)
        ensures
            d == (Dual { value, deriv: Binary64::one() }),
    {
        Dual { value, deriv: Binary64 { bits: ONE_BITS } }
    }

    /// The value channel.
    pub fn value(&self) -> (v: Binary64)
        ensures
            v == self.value,
    {
        self.value
    }

    /// The derivative channel.
    pub fn deriv(&self) -> (v: Binary64)
        ensures
            v == self.deriv,
    {
        self.deriv
    }

    /// Absolute value. Where the value is at least zero the number is kept,
    /// otherwise (a NaN value included) it is negated; at zero the derivative
    /// of the kept branch is taken.
    pub fn abs(self) -> (d: Dual)
        ensures
            d == self.absolute(),
    {
        if self.value.ge(Binary64 { bits: 0 }) {
            self
        } else {
            self.neg()
        }
    }

    /// The larger of two dual numbers by value. On a tie, and only then or
    /// where `self` is larger, `self` with its own derivative is returned.
    pub fn max(self, other: Dual) -> (d: Dual)
        ensures
            d == self.larger(other),
    {
        if self.value.ge(other.value) {
            self
        } else {
            other
        }
    }

    /// The smaller of two dual numbers by value. On a tie, and only then or
    /// where `self` is smaller, `self` with its own derivative is returned.
    pub fn min(self, other: Dual) -> (d: Dual)
        ensures
            d == self.smaller(other),
    {
        if self.value.le(other.value) {
            self
        } else {
            other
        }
    }
}

/// Negation: `(-f)' = -f'`. Both channels change sign, exactly.
impl Neg for Dual {
    type Output = Dual;

    fn neg(self) -> (d: Dual) {
        Dual { value: self.value.neg(), deriv: self.deriv.neg() }
    }
}

impl vstd::std_specs::ops::NegSpecImpl for Dual {
    open spec fn obeys_neg_spec() -> bool {
        true
    }

    open spec fn neg_req(self) -> bool {
        true
    }

    open spec fn neg_spec(self) -> Dual {
        self.negated()
    }
}

/// Where neither value is a NaN, `max` and `min` return the two arguments
/// between them, the value of `min` is at most that of `max`, and both
/// bound the two values.
pub proof fn selection_is_ordered(x: Dual, y: Dual)
    requires
        !x.value.nan(),
        !y.value.nan(),
    ensures
        x.smaller(y).value.at_most(x.larger(y).value),
        x.value.at_most(x.larger(y).value) && y.value.at_most(x.larger(y).value),
        x.smaller(y).value.at_most(x.value) && x.smaller(y).value.at_most(y.value),
        (x.larger(y) == x && x.smaller(y) == y) || (x.larger(y) == y && x.smaller(y) == x)
            || x.value.equals(y.value),
{
}

/// On a tie each of `max` and `min` returns its receiver, derivative
/// included.
pub proof fn ties_keep_the_receiver(x: Dual, y: Dual)
    requires
        x.value.equals(y.value),
    ensures
        x.larger(y) == x,
        x.smaller(y) == x,
        y.larger(x) == y,
        y.smaller(x) == y,
{
}

/// The value of `abs` is the absolute value of the value, and its
/// derivative is the derivative itself or its negation: kept where the
/// value is at least zero, negated otherwise.
pub proof fn absolute_value_of_dual(x: Dual)
    ensures
        x.absolute().value.magnitude() == x.value.magnitude(),
        !x.value.nan() ==> x.absolute().value.equals(x.value.absolute()),
        !x.value.nan() ==> Binary64::zero().at_most(x.absolute().value),
        x.absolute().deriv == (if Binary64::zero().at_most(x.value) {
            x.deriv
        } else {
            x.deriv.negated()
        }),
{
}

} // verus!
