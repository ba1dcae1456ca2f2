//! SVI slices and the maturity-ordered volatility surface.

pub mod surface;
pub mod surface_laws;
pub mod svi;

pub use surface::{Entry, Lookup, VolatilitySurface};
pub use svi::{SVIParams, Slice};
