//! Pricing in closed form.
use vstd::prelude::*;
use vstd::string::*;
use crate::binary64::Binary64;
use crate::errors::OptionPricingError;
use crate::OptionType;

verus! {

/// A European option priced by the Black-Scholes formula.
#[derive(Debug, Clone, Copy)]
pub struct BlackScholesModel {
    pub option_type: OptionType,
    pub spot_price: Binary64,
    pub strike_price: Binary64,
    pub time_to_expiry: Binary64,
    pub volatility: Binary64,
    pub risk_free_rate: Binary64,
}

impl BlackScholesModel {
    /// Refuses a time to expiry that is zero or below; accepts every other
    /// model, one whose time to expiry is a NaN included.
    pub fn validate(&self) -> (res: Result<(), OptionPricingError>)
        ensures
            match res {
                Ok(_) => !self.time_to_expiry.spec_le(Binary64::spec_zero()),
                Err(OptionPricingError::InvalidInput(detail)) => {
                    &&& self.time_to_expiry.spec_le(Binary64::spec_zero())
                    &&& detail@ == "Time to expiry must be positive."@
                },
                Err(_) => false,
            },
    {
        if self.time_to_expiry.le(Binary64::zero()) {
            return Err(
                OptionPricingError::InvalidInput(
                    String::from_str("Time to expiry must be positive."),
                ),
            );
        }
        Ok(())
    }

    /// The point at which the normal distribution is read for one of the two
    /// terms of the formula: `d` for a call, `-d` for a put.
    pub fn distribution_argument(&self, d: Binary64) -> (x: Binary64)
        ensures
            x == self.option_type.spec_oriented(d),
            self.option_type is Call ==> x@ == d@,
            self.option_type is Put ==> x@ == d@.negated(),
    {
        self.option_type.oriented(d)
    }

    /// The two terms of the formula in the order of their difference: the
    /// spot term less the strike term for a call, the strike term less the
    /// spot term for a put.
    pub fn price_operands(&self, spot_term: Binary64, strike_term: Binary64) -> (operands: (
        Binary64,
        Binary64,
    ))
        ensures
            operands == self.option_type.spec_exercise_operands(spot_term, strike_term),
    {
        self.option_type.exercise_operands(spot_term, strike_term)
    }
}

} // verus!
