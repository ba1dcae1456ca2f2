//! SVI (stochastic volatility inspired) slices.
//!
//! One maturity slice gives total implied variance over log-moneyness `k` as
//! `w(k) = a + b * (rho * (k - m) + sqrt((k - m)^2 + sigma^2))`.
//! Evaluating `w` rounds; the rules that decide whether a slice admits static
//! arbitrage only compare, and they stand here.

use crate::binary64::Binary64;
use crate::binary64::FOUR_BITS;
use crate::binary64::ONE_BITS;
use vstd::prelude::*;

verus! {

/// The five SVI parameters of one maturity slice.
#[derive(Debug, Clone, Copy, PartialEq, Eq, Structural)]
pub struct SVIParams {
    /// Vertical shift: the level of variance.
    pub a: Binary64,
    /// Slope of the wings.
    pub b: Binary64,
    /// Correlation, which tilts the smile.
    pub rho: Binary64,
    /// Horizontal shift.
    pub m: Binary64,
    /// Smoothness of the vertex.
    pub sigma: Binary64,
}

impl SVIParams {
    /// The parameter constraints: `b >= 0`, `-1 < rho < 1`, `sigma > 0`.
    pub open spec fn in_domain(self) -> bool {
        &&& Binary64::zero().at_most(self.b)
        &&& Binary64::one().negated().less(self.rho)
        &&& self.rho.less(Binary64::one())
        &&& Binary64::zero().less(self.sigma)
    }

    /// No static arbitrage in the slice: the parameters are in their domain
    /// and the minimum total variance, `a + b * sigma * sqrt(1 - rho^2)`, is
    /// not negative.
    pub open spec fn admissible(self, min_variance: Binary64) -> bool {
        self.in_domain() && Binary64::zero().at_most(min_variance)
    }

    /// A slice from its five parameters.
    pub fn new(a: Binary64, b: Binary64, rho: Binary64, m: Binary64, sigma: Binary64) -> (p:
        SVIParams)
        ensures
            p == (SVIParams { a, b, rho, m, sigma }),
    {
        SVIParams { a, b, rho, m, sigma }
    }

    /// Whether the slice satisfies the no-arbitrage constraints, given its
    /// minimum total variance. A NaN anywhere fails the check.
    pub fn is_arbitrage_free(&self, min_variance: Binary64) -> (r: bool)
        ensures
            r == self.admissible(min_variance),
            self.b.less(Binary64::zero()) ==> !r,
            self.rho.at_most(Binary64::one().negated()) || Binary64::one().at_most(self.rho)
                ==> !r,
            self.sigma.at_most(Binary64::zero()) ==> !r,
            min_variance.less(Binary64::zero()) ==> !r,
    {
        let zero = Binary64 { bits: 0 };
        let one = Binary64 { bits: ONE_BITS };
        if !self.b.ge(zero) {
            return false;
        }
        if !self.rho.gt(one.neg()) || !self.rho.lt(one) {
            return false;
        }
        if !self.sigma.gt(zero) {
            return false;
        }
        min_variance.ge(zero)
    }
}

/// What the butterfly condition asks of the first and second derivative of
/// total variance in log-moneyness: convexity, and a slope of magnitude
/// below four.
pub open spec fn butterfly_condition(slope: Binary64, curvature: Binary64) -> bool {
    Binary64::zero().at_most(curvature) && slope.absolute().less(Binary64::four())
}

/// The butterfly check at one log-moneyness, given the two derivatives of
/// total variance there. The bound on the slope is a heuristic threshold.
pub fn check_butterfly_arbitrage(slope: Binary64, curvature: Binary64) -> (r: bool)
    ensures
        r == butterfly_condition(slope, curvature),
{
    curvature.ge(Binary64 { bits: 0 }) && slope.abs().lt(Binary64 { bits: FOUR_BITS })
}

/// One maturity slice as the surface holds it: the parameters, and the two
/// levels of total variance that the surface checks read.
#[derive(Debug, Clone, Copy, PartialEq, Eq, Structural)]
pub struct Slice {
    /// The SVI parameters.
    pub params: SVIParams,
    /// The minimum of total variance over all log-moneyness.
    pub min_variance: Binary64,
    /// Total variance at the money (`k = 0`).
    pub atm_variance: Binary64,
}

impl Slice {
    /// Whether the slice alone is free of static arbitrage.
    pub open spec fn admissible(self) -> bool {
        self.params.admissible(self.min_variance)
    }

    /// A slice from its parameters and variance levels.
    pub fn new(params: SVIParams, min_variance: Binary64, atm_variance: Binary64) -> (s: Slice)
        ensures
            s == (Slice { params, min_variance, atm_variance }),
    {
        Slice { params, min_variance, atm_variance }
    }

    /// Whether the slice alone is free of static arbitrage.
    pub fn is_arbitrage_free(&self) -> (r: bool)
        ensures
            r == self.admissible(),
    {
        self.params.is_arbitrage_free(self.min_variance)
    }
}

} // verus!
