//! Discrete core of an option Greeks calculator.
//!
//! Real numbers are carried as IEEE-754 binary64 bit patterns
//! ([`binary64::Binary64`]); the crate verifies everything that can be decided
//! from those patterns without rounding: comparisons and sign handling, the
//! branch selection of the dual-number engine, the no-arbitrage rules of an
//! SVI slice, and the maturity-ordered volatility surface with its slice
//! selection and calendar check.

pub mod ad;
pub mod binary64;
pub mod types;
pub mod volatility;

pub use ad::Dual;
pub use binary64::Binary64;
pub use types::OptionType;
pub use volatility::{Entry, Lookup, SVIParams, Slice, VolatilitySurface};
