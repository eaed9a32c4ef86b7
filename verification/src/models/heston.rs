//! Pricing under stochastic volatility by Monte Carlo simulation.
use vstd::prelude::*;
use vstd::string::*;
use crate::binary64::Binary64;
use crate::data::interest_rates::InterestRateCurve;
use crate::errors::OptionPricingError;
use crate::paths::{PathSimulator, PathState};
use crate::regression::RegressionMethod;
use crate::OptionType;

verus! {

/// An option priced by simulating the Heston model: the variance of the
/// asset reverts to `theta` at speed `kappa`, moves with volatility `sigma`,
/// and is correlated with the asset by `rho`.
#[derive(Debug)]
pub struct HestonModel {
    pub option_type: OptionType,
    pub spot_price: Binary64,
    pub strike_price: Binary64,
    pub time_to_expiry: Binary64,
    pub initial_variance: Binary64,
    pub risk_free_rate_curve: InterestRateCurve,
    pub kappa: Binary64,
    pub theta: Binary64,
    pub sigma: Binary64,
    pub rho: Binary64,
    pub is_american: bool,
    pub regression_method: RegressionMethod,
    pub num_paths: usize,
    pub num_steps: usize,
}

/// How the simulated paths are turned into a price.
#[derive(Debug, Clone, Copy)]
pub enum Valuation {
    /// The discounted mean of what exercise pays at the end of the paths.
    European,
    /// Backward induction over the exercise dates, with the given regression.
    American(RegressionMethod),
}

impl HestonModel {
    /// The simulation can run: there is a step to take and the rate curve
    /// can be read.
    pub open spec fn usable(&self) -> bool {
        self.num_steps > 0 && self.risk_free_rate_curve.well_formed()
    }

    /// The contract and the parameters are what the model is meant for: spot
    /// price, strike price and time to expiry above zero, an initial variance
    /// that is not below zero, and a correlation between -1 and 1.
    pub open spec fn well_posed(&self) -> bool {
        &&& self.spot_price.spec_is_positive()
        &&& self.strike_price.spec_is_positive()
        &&& self.time_to_expiry.spec_is_positive()
        &&& self.initial_variance.spec_ge(Binary64::spec_zero())
        &&& self.rho.spec_ge(Binary64::spec_one().spec_neg())
        &&& self.rho.spec_le(Binary64::spec_one())
    }

    /// Refuses a simulation of no steps, and then a rate curve without knots
    /// or with columns of unequal length; accepts every other model.
    pub fn validate(&self) -> (res: Result<(), OptionPricingError>)
        ensures
            match res {
                Ok(_) => self.usable(),
                Err(OptionPricingError::InvalidInput(detail)) => {
                    if self.num_steps == 0 {
                        detail@ == "Number of steps must be greater than zero."@
                    } else {
                        &&& !self.risk_free_rate_curve.well_formed()
                        &&& detail@ == "Interest rate curve data is invalid."@
                    }
                },
                Err(_) => false,
            },
    {
        if self.num_steps == 0 {
            return Err(
                OptionPricingError::InvalidInput(
                    String::from_str("Number of steps must be greater than zero."),
                ),
            );
        }
        if !self.risk_free_rate_curve.is_well_formed() {
            return Err(
                OptionPricingError::InvalidInput(
                    String::from_str("Interest rate curve data is invalid."),
                ),
            );
        }
        Ok(())
    }

    /// See [`Self::well_posed`].
    pub fn is_well_posed(&self) -> (ok: bool)
        ensures
            ok == self.well_posed(),
    {
        self.spot_price.is_positive() && self.strike_price.is_positive()
            && self.time_to_expiry.is_positive() && self.initial_variance.ge(Binary64::zero())
            && self.rho.ge(Binary64::one().neg()) && self.rho.le(Binary64::one())
    }

    /// How the paths are valued: by backward induction with the model's
    /// regression for an American option, by their ends alone otherwise.
    pub fn valuation(&self) -> (v: Valuation)
        ensures
            self.is_american ==> v == Valuation::American(self.regression_method),
            !self.is_american ==> v == Valuation::European,
    {
        if self.is_american {
            Valuation::American(self.regression_method)
        } else {
            Valuation::European
        }
    }

    /// A simulator for one path of the model: at time zero, at the model's
    /// spot price and initial variance, with the model's number of steps. A
    /// model of no steps is refused.
    pub fn simulator(&self) -> (res: Result<PathSimulator, OptionPricingError>)
        ensures
            match res {
                Ok(sim) => {
                    &&& self.num_steps > 0
                    &&& sim@ == PathState {
                        num_steps: self.num_steps as nat,
                        variance: self.initial_variance,
                        samples: seq![(Binary64::spec_zero(), self.spot_price)],
                    }
                },
                Err(OptionPricingError::InvalidInput(detail)) => {
                    &&& self.num_steps == 0
                    &&& detail@ == "Number of steps must be greater than zero."@
                },
                Err(_) => false,
            },
    {
        PathSimulator::start(self.spot_price, self.initial_variance, self.num_steps)
    }

    /// The two prices whose difference is the margin of exercise on a path
    /// where the asset is at `spot`.
    pub fn exercise_operands(&self, spot: Binary64) -> (operands: (Binary64, Binary64))
        ensures
            operands == self.option_type.spec_exercise_operands(spot, self.strike_price),
    {
        self.option_type.exercise_operands(spot, self.strike_price)
    }
}

} // verus!
