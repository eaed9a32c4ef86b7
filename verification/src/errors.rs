//! The errors of a pricing call.
use vstd::prelude::*;
use vstd::string::*;

verus! {

/// Why a pricing call failed. Each variant carries the detail of the failure.
#[derive(Debug)]
pub enum OptionPricingError {
    /// A parameter that no pricing can start from: zero steps, an expiry that
    /// is not positive, a rate curve with no knots or with unequal columns.
    InvalidInput(String),
    /// A numerical failure outside regression and interpolation.
    ComputationError(String),
    /// The regression fit could not be solved.
    RegressionError(String),
    /// No pair of neighbouring knots of the rate curve holds the time.
    InterpolationError(String),
}

impl OptionPricingError {
    /// The detail that the error carries.
    pub open spec fn detail(&self) -> Seq<char> {
        match self {
            OptionPricingError::InvalidInput(d) => d@,
            OptionPricingError::ComputationError(d) => d@,
            OptionPricingError::RegressionError(d) => d@,
            OptionPricingError::InterpolationError(d) => d@,
        }
    }

    /// The words that introduce the detail in a message.
    pub open spec fn heading(&self) -> Seq<char> {
        match self {
            OptionPricingError::InvalidInput(_) => "Invalid input parameter: "@,
            OptionPricingError::ComputationError(_) => "Computation error: "@,
            OptionPricingError::RegressionError(_) => "Regression error: "@,
            OptionPricingError::InterpolationError(_) => "Interpolation error: "@,
        }
    }

    /// The message of the error: its heading, then its detail.
    pub fn message(&self) -> (text: String)
        ensures
            text@ == self.heading() + self.detail(),
    {
        match self {
            OptionPricingError::InvalidInput(d) => String::from_str(
                "Invalid input parameter: ",
            ).concat(d.as_str()),
            OptionPricingError::ComputationError(d) => String::from_str(
                "Computation error: ",
            ).concat(d.as_str()),
            OptionPricingError::RegressionError(d) => String::from_str(
                "Regression error: ",
            ).concat(d.as_str()),
            OptionPricingError::InterpolationError(d) => String::from_str(
                "Interpolation error: ",
            ).concat(d.as_str()),
        }
    }
}

} // verus!
