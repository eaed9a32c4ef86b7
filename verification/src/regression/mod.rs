//! Regression of continuation values on asset prices.
//!
//! Fitting and predicting are floating-point work and are done by the caller;
//! this module holds what goes into a fit and what comes out of a prediction.
use vstd::prelude::*;
use crate::binary64::Binary64;

pub mod lsm;
pub mod random_forest;

pub use lsm::LeastSquaresMonteCarlo;
pub use random_forest::RandomForestRegression;

verus! {

/// The regression that estimates continuation values.
#[derive(Debug, Clone, Copy)]
pub enum RegressionMethod {
    /// A polynomial in the asset price, fitted by least squares.
    LeastSquaresMonteCarlo,
    /// An ensemble of regression trees on the asset price.
    RandomForest,
}

/// One observation of a fit: at `time`, a path at `asset_price` was worth
/// `continuation_value` if held on.
#[derive(Debug, Clone, Copy)]
pub struct RegressionDataPoint {
    pub time: Binary64,
    pub asset_price: Binary64,
    pub continuation_value: Binary64,
}

/// Where a fitted model is asked for a prediction.
#[derive(Debug, Clone, Copy)]
pub struct RegressionInput {
    pub time: Binary64,
    pub asset_price: Binary64,
}

/// The prediction that a model's outcome stands for: its first entry, and
/// zero where the model failed or returned nothing.
pub open spec fn spec_prediction_or_zero(outcome: Option<Seq<Binary64>>) -> Binary64 {
    match outcome {
        Some(predictions) => if predictions.len() > 0 {
            predictions[0]
        } else {
            Binary64::spec_zero()
        },
        None => Binary64::spec_zero(),
    }
}

/// See [`spec_prediction_or_zero`]: a prediction never fails.
pub fn prediction_or_zero(outcome: Option<&Vec<Binary64>>) -> (prediction: Binary64)
    ensures
        prediction == spec_prediction_or_zero(
            match outcome {
                Some(predictions) => Some(predictions@),
                None => None,
            },
        ),
{
    match outcome {
        Some(predictions) => {
            if predictions.len() > 0 {
                predictions[0]
            } else {
                Binary64::zero()
            }
        },
        None => Binary64::zero(),
    }
}

} // verus!
