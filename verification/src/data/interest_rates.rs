//! The risk-free rate as a curve over time.
use vstd::prelude::*;
use crate::binary64::Binary64;

verus! {

/// Samples of the risk-free rate: `rates[i]` is the rate at `times[i]`.
///
/// Building a curve checks nothing; a lookup checks the shape.
#[derive(Debug)]
pub struct InterestRateCurve {
    pub times: Vec<Binary64>,
    pub rates: Vec<Binary64>,
}

impl InterestRateCurve {
    /// The curve has a knot, and a rate for every time.
    pub open spec fn well_formed(&self) -> bool {
        self.times@.len() > 0 && self.times@.len() == self.rates@.len()
    }

    /// No knot time is a NaN.
    pub open spec fn times_are_numbers(&self) -> bool {
        forall|i: int| 0 <= i < self.times@.len() ==> !(#[trigger] self.times@[i]).spec_is_nan()
    }

    /// The knot times increase strictly.
    pub open spec fn increasing(&self) -> bool {
        forall|i: int, j: int|
            0 <= i < j < self.times@.len() ==> (#[trigger] self.times@[i]).spec_lt(
                #[trigger] self.times@[j],
            )
    }

    /// A curve of the given columns, taken as they are.
    pub fn new(times: Vec<Binary64>, rates: Vec<Binary64>) -> (curve: InterestRateCurve)
        ensures
            curve.times == times,
            curve.rates == rates,
    {
        InterestRateCurve { times, rates }
    }

    /// Whether a lookup on the curve can start: see [`Self::well_formed`].
    pub fn is_well_formed(&self) -> (ok: bool)
        ensures
            ok == self.well_formed(),
    {
        self.times.len() > 0 && self.times.len() == self.rates.len()
    }
}

impl Clone for InterestRateCurve {
    /// A curve with the same knots.
    fn clone(&self) -> (copy: InterestRateCurve)
        ensures
            copy.times@ == self.times@,
            copy.rates@ == self.rates@,
    {
        let times = self.times.clone();
        let rates = self.rates.clone();
        assert(times@ =~= self.times@);
        assert(rates@ =~= self.rates@);
        InterestRateCurve { times, rates }
    }
}

} // verus!
