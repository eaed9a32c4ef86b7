//! Regression by an ensemble of trees on the asset price.
use vstd::prelude::*;

verus! {

/// The ensemble strategy.
#[derive(Debug, Clone, Copy)]
pub struct RandomForestRegression {}

} // verus!
