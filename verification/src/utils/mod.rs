//! Helpers shared by the pricing models.
pub mod interpolation;

pub use interpolation::{interpolate_rate, RateLookup};
