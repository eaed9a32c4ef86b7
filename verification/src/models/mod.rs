//! The pricing models: what each holds and what each decides.
pub mod binomial;
pub mod black_scholes;
pub mod heston;
pub mod intrinsic_value;

pub use binomial::BinomialModel;
pub use black_scholes::BlackScholesModel;
pub use heston::HestonModel;
pub use intrinsic_value::IntrinsicValue;
