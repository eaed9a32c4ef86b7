//! Least-squares regression on a polynomial in the asset price.
use vstd::prelude::*;

verus! {

/// The degree of the polynomial that is fitted.
pub const POLYNOMIAL_DEGREE: usize = 2;

/// The least-squares strategy: continuation value as a polynomial of degree
/// [`POLYNOMIAL_DEGREE`] in the asset price.
#[derive(Debug, Clone, Copy)]
pub struct LeastSquaresMonteCarlo {}

} // verus!
