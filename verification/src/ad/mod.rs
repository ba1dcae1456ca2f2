//! Forward-mode automatic differentiation with dual numbers.

pub mod dual;

pub use dual::Dual;
