//! The value of exercising an option now.
use vstd::prelude::*;
use crate::binary64::Binary64;
use crate::errors::OptionPricingError;
use crate::payoff::{exercise_value, spec_exercise_value};
use crate::OptionType;

verus! {

/// An option valued at what immediate exercise pays.
#[derive(Debug, Clone, Copy)]
pub struct IntrinsicValue {
    pub option_type: OptionType,
    pub spot_price: Binary64,
    pub strike_price: Binary64,
}

impl IntrinsicValue {
    /// The two prices whose difference is the margin of exercise: spot and
    /// strike for a call, strike and spot for a put.
    pub fn exercise_operands(&self) -> (operands: (Binary64, Binary64))
        ensures
            operands == self.option_type.spec_exercise_operands(
                self.spot_price,
                self.strike_price,
            ),
    {
        self.option_type.exercise_operands(self.spot_price, self.strike_price)
    }

    /// The price, given the margin of exercise: the margin where it is above
    /// zero, and zero otherwise. Pricing by intrinsic value never fails.
    pub fn price_from_margin(&self, margin: Binary64) -> (res: Result<
        Binary64,
        OptionPricingError,
    >)
        ensures
            res matches Ok(price) && price == spec_exercise_value(margin),
    {
        Ok(exercise_value(margin))
    }
}

} // verus!
