//! Market data.
pub mod interest_rates;

pub use interest_rates::InterestRateCurve;
