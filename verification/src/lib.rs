//! Decisions of option pricing engines, verified.
//!
//! The engines price options by intrinsic value, on a binomial tree, in closed
//! form, and by Monte Carlo simulation of a stochastic-volatility model with
//! regression-based early exercise. This library holds what those engines
//! decide: which inputs are refused, where a time falls on the rate curve,
//! which simulated paths are in the money, and when an option is exercised
//! early. Numbers are IEEE 754 binary64 encodings ([`Binary64`]); the
//! arithmetic on them is the caller's.
use vstd::prelude::*;

pub mod backward_induction;
pub mod binary64;
pub mod data;
pub mod errors;
pub mod models;
pub mod paths;
pub mod payoff;
pub mod regression;
pub mod utils;

pub use binary64::Binary64;
pub use data::interest_rates::InterestRateCurve;
pub use errors::OptionPricingError;
pub use models::binomial::BinomialModel;
pub use models::black_scholes::BlackScholesModel;
pub use models::heston::HestonModel;
pub use models::intrinsic_value::IntrinsicValue;
pub use regression::RegressionMethod;

verus! {

/// The right that an option gives: to buy (call) or to sell (put).
#[derive(Debug, Clone, Copy)]
pub enum OptionType {
    Call,
    Put,
}

} // verus!
