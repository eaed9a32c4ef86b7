//! Where on a rate curve a time falls.
use vstd::prelude::*;
use vstd::string::*;
use crate::binary64::Binary64;
use crate::data::interest_rates::InterestRateCurve;
use crate::errors::OptionPricingError;

verus! {

/// What a rate curve gives for a time.
#[derive(Debug, Clone, Copy)]
pub enum RateLookup {
    /// The time is at or before the first knot, or at or after the last: the
    /// rate is that knot's rate.
    Flat { rate: Binary64 },
    /// The time lies between knot `index`, at `(t0, r0)`, and the next, at
    /// `(t1, r1)`: the rate is read off the straight line through the two,
    /// `r0 + (r1 - r0) * (time - t0) / (t1 - t0)`.
    Segment { index: usize, t0: Binary64, r0: Binary64, t1: Binary64, r1: Binary64 },
}

/// Knot `i` and the next one hold `time` between them.
pub open spec fn brackets(curve: &InterestRateCurve, i: int, time: Binary64) -> bool {
    &&& 0 <= i < curve.times@.len() - 1
    &&& time.spec_ge(curve.times@[i])
    &&& time.spec_le(curve.times@[i + 1])
}

/// No segment that starts before knot `end` holds `time`.
pub open spec fn no_bracket_before(curve: &InterestRateCurve, end: int, time: Binary64) -> bool {
    forall|j: int| 0 <= j < end ==> !brackets(curve, j, time)
}

/// `time` is strictly inside the curve: after the first knot and before the
/// last, as far as comparisons can tell.
pub open spec fn strictly_inside(curve: &InterestRateCurve, time: Binary64) -> bool {
    &&& curve.well_formed()
    &&& !time.spec_le(curve.times@[0])
    &&& !time.spec_ge(curve.times@[curve.times@.len() - 1])
}

/// On a curve whose knot times increase, the segments that hold a time are
/// at most two neighbours, and then the time is the knot that they share:
/// the knots that bracket a time are determined by the time.
pub proof fn lemma_bracket_is_determined(curve: &InterestRateCurve, time: Binary64, i: int, j: int)
    requires
        curve.increasing(),
        brackets(curve, i, time),
        brackets(curve, j, time),
        i < j,
    ensures
        j == i + 1,
        time.spec_same(curve.times@[j]),
{
    if i + 1 < j {
        assert(curve.times@[i + 1].spec_lt(curve.times@[j]));
    }
}

proof fn lemma_beyond_unbracketed_knots(curve: &InterestRateCurve, time: Binary64, end: int)
    requires
        strictly_inside(curve, time),
        curve.times_are_numbers(),
        !time.spec_is_nan(),
        0 <= end < curve.times@.len(),
        no_bracket_before(curve, end, time),
    ensures
        time.spec_gt(curve.times@[end]),
    decreases end,
{
    if end > 0 {
        lemma_beyond_unbracketed_knots(curve, time, end - 1);
        assert(!brackets(curve, end - 1, time));
    }
}

/// On a curve whose knot times are numbers, a time that is a number and lies
/// strictly inside the curve is held by some segment: with the two ends of
/// the curve, the segments cover every such time.
pub proof fn lemma_segments_cover(curve: &InterestRateCurve, time: Binary64)
    requires
        strictly_inside(curve, time),
        curve.times_are_numbers(),
        !time.spec_is_nan(),
    ensures
        exists|i: int| brackets(curve, i, time),
{
    let last = curve.times@.len() - 1;
    if no_bracket_before(curve, last, time) {
        lemma_beyond_unbracketed_knots(curve, time, last);
    } else {
        let j = choose|j: int| 0 <= j < last && brackets(curve, j, time);
        assert(brackets(curve, j, time));
    }
}

/// Interpolates the rate of the curve at `time`, up to the arithmetic of the
/// straight line between two knots.
///
/// A curve without knots, or with columns of unequal length, is refused as
/// invalid input. At or before the first knot the first rate is returned, at
/// or after the last knot the last rate. In between, the first segment whose
/// ends hold the time is returned. Where no segment holds it, the lookup
/// fails; that takes a NaN among the time and the knot times.
pub fn interpolate_rate(curve: &InterestRateCurve, time: Binary64) -> (res: Result<
    RateLookup,
    OptionPricingError,
>)
    ensures
        match res {
            Ok(RateLookup::Flat { rate }) => {
                &&& curve.well_formed()
                &&& if time.spec_le(curve.times@[0]) {
                    rate == curve.rates@[0]
                } else {
                    &&& time.spec_ge(curve.times@[curve.times@.len() - 1])
                    &&& rate == curve.rates@[curve.rates@.len() - 1]
                }
            },
            Ok(RateLookup::Segment { index, t0, r0, t1, r1 }) => {
                &&& strictly_inside(curve, time)
                &&& brackets(curve, index as int, time)
                &&& no_bracket_before(curve, index as int, time)
                &&& t0 == curve.times@[index as int]
                &&& r0 == curve.rates@[index as int]
                &&& t1 == curve.times@[index + 1]
                &&& r1 == curve.rates@[index + 1]
            },
            Err(OptionPricingError::InvalidInput(detail)) => {
                &&& !curve.well_formed()
                &&& detail@ == "Interest rate curve data is invalid."@
            },
            Err(OptionPricingError::InterpolationError(detail)) => {
                &&& strictly_inside(curve, time)
                &&& no_bracket_before(curve, curve.times@.len() - 1, time)
                &&& detail@ == "Failed to interpolate rate."@
            },
            Err(_) => false,
        },
        curve.well_formed() && curve.times_are_numbers() && !time.spec_is_nan() ==> res is Ok,
{
    let n = curve.times.len();
    if n == 0 || curve.rates.len() == 0 || n != curve.rates.len() {
        return Err(
            OptionPricingError::InvalidInput(
                String::from_str("Interest rate curve data is invalid."),
            ),
        );
    }
    if time.le(curve.times[0]) {
        return Ok(RateLookup::Flat { rate: curve.rates[0] });
    }
    if time.ge(curve.times[n - 1]) {
        return Ok(RateLookup::Flat { rate: curve.rates[n - 1] });
    }
    let mut i: usize = 0;
    while i + 1 < n
        invariant
            n == curve.times@.len(),
            strictly_inside(curve, time),
            i < n,
            no_bracket_before(curve, i as int, time),
            curve.times_are_numbers() && !time.spec_is_nan() ==> time.spec_gt(curve.times@[i as int]),
        decreases n - i,
    {
        if time.ge(curve.times[i]) && time.le(curve.times[i + 1]) {
            return Ok(
                RateLookup::Segment {
                    index: i,
                    t0: curve.times[i],
                    r0: curve.rates[i],
                    t1: curve.times[i + 1],
                    r1: curve.rates[i + 1],
                },
            );
        }
        i = i + 1;
    }
    Err(OptionPricingError::InterpolationError(String::from_str("Failed to interpolate rate.")))
}

} // verus!
