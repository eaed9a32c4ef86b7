//! Pricing on a recombining binomial tree.
use vstd::prelude::*;
use vstd::string::*;
use crate::binary64::Binary64;
use crate::errors::OptionPricingError;
use crate::payoff::{exercise_value, spec_exercise_value};
use crate::OptionType;

verus! {

/// An option priced on a binomial tree of `steps` steps.
#[derive(Debug, Clone, Copy)]
pub struct BinomialModel {
    pub option_type: OptionType,
    pub spot_price: Binary64,
    pub strike_price: Binary64,
    pub time_to_expiry: Binary64,
    pub volatility: Binary64,
    pub risk_free_rate: Binary64,
    pub steps: usize,
    pub is_american: bool,
}

impl BinomialModel {
    /// The value of a node of the tree, given the discounted expectation of
    /// its two successors and the margin of exercise at the node. An American
    /// option is worth the larger of holding on and exercising, a European
    /// one what holding on is worth.
    pub open spec fn spec_node_value(&self, continuation: Binary64, margin: Binary64) -> Binary64 {
        if self.is_american {
            continuation.spec_max(spec_exercise_value(margin))
        } else {
            continuation
        }
    }

    /// With the same value of holding on, a node of an American option is
    /// worth at least what the node of a European option is, and at least
    /// what exercise pays.
    pub proof fn lemma_node_value_bounds(&self, continuation: Binary64, margin: Binary64)
        requires
            !continuation.spec_is_nan(),
        ensures
            self.spec_node_value(continuation, margin).spec_ge(continuation),
            self.is_american ==> self.spec_node_value(continuation, margin).spec_ge(
                spec_exercise_value(margin),
            ),
            !self.is_american ==> self.spec_node_value(continuation, margin) == continuation,
    {
    }

    /// Refuses a tree of no steps; accepts every other model.
    pub fn validate(&self) -> (res: Result<(), OptionPricingError>)
        ensures
            match res {
                Ok(_) => self.steps > 0,
                Err(OptionPricingError::InvalidInput(detail)) => {
                    &&& self.steps == 0
                    &&& detail@ == "Number of steps must be greater than zero."@
                },
                Err(_) => false,
            },
    {
        if self.steps == 0 {
            return Err(
                OptionPricingError::InvalidInput(
                    String::from_str("Number of steps must be greater than zero."),
                ),
            );
        }
        Ok(())
    }

    /// The two prices whose difference is the margin of exercise at a node
    /// where the asset is at `asset_price`.
    pub fn exercise_operands(&self, asset_price: Binary64) -> (operands: (Binary64, Binary64))
        ensures
            operands == self.option_type.spec_exercise_operands(asset_price, self.strike_price),
    {
        self.option_type.exercise_operands(asset_price, self.strike_price)
    }

    /// The value of a leaf of the tree: what exercise pays there.
    pub fn leaf_value(&self, margin: Binary64) -> (value: Binary64)
        ensures
            value == spec_exercise_value(margin),
    {
        exercise_value(margin)
    }

    /// See [`Self::spec_node_value`].
    pub fn node_value(&self, continuation: Binary64, margin: Binary64) -> (value: Binary64)
        ensures
            value == self.spec_node_value(continuation, margin),
    {
        if self.is_american {
            continuation.max(exercise_value(margin))
        } else {
            continuation
        }
    }
}

} // verus!
