//! What exercising an option pays.
use vstd::prelude::*;
use crate::binary64::Binary64;
use crate::OptionType;

verus! {

impl OptionType {
    /// The two prices whose difference is the margin of exercise, what is
    /// received first and what is given second: spot and strike for a call,
    /// strike and spot for a put.
    pub open spec fn spec_exercise_operands(self, spot: Binary64, strike: Binary64) -> (
        Binary64,
        Binary64,
    ) {
        match self {
            OptionType::Call => (spot, strike),
            OptionType::Put => (strike, spot),
        }
    }

    /// See [`Self::spec_exercise_operands`].
    #[verifier::when_used_as_spec(spec_exercise_operands)]
    pub fn exercise_operands(self, spot: Binary64, strike: Binary64) -> (operands: (
        Binary64,
        Binary64,
    ))
        ensures
            operands == self.spec_exercise_operands(spot, strike),
    {
        match self {
            OptionType::Call => (spot, strike),
            OptionType::Put => (strike, spot),
        }
    }

    /// A number as a call takes it, and with its sign changed as a put does.
    pub open spec fn spec_oriented(self, x: Binary64) -> Binary64 {
        match self {
            OptionType::Call => x,
            OptionType::Put => x.spec_neg(),
        }
    }

    /// See [`Self::spec_oriented`].
    #[verifier::when_used_as_spec(spec_oriented)]
    pub fn oriented(self, x: Binary64) -> (r: Binary64)
        ensures
            r == self.spec_oriented(x),
            self is Call ==> r@ == x@,
            self is Put ==> r@ == x@.negated(),
    {
        match self {
            OptionType::Call => x,
            OptionType::Put => x.neg(),
        }
    }
}

/// A position is in the money when the margin of exercise is above zero.
pub open spec fn in_the_money(margin: Binary64) -> bool {
    margin.spec_is_positive()
}

/// What exercise pays on a margin: the margin where it is above zero, and
/// zero otherwise.
pub open spec fn spec_exercise_value(margin: Binary64) -> Binary64 {
    margin.spec_floor_at_zero()
}

/// On one path and at one strike a call and a put have opposite margins, so
/// at most one of them is in the money; that one pays its margin and the
/// other pays nothing.
pub proof fn lemma_call_and_put_payoffs(margin: Binary64)
    ensures
        !(in_the_money(margin) && in_the_money(margin.spec_neg())),
        in_the_money(margin) ==> spec_exercise_value(margin) == margin && spec_exercise_value(
            margin.spec_neg(),
        ) == Binary64::spec_zero(),
        in_the_money(margin.spec_neg()) ==> spec_exercise_value(margin.spec_neg())
            == margin.spec_neg() && spec_exercise_value(margin) == Binary64::spec_zero(),
{
}

/// See [`in_the_money`].
#[verifier::when_used_as_spec(in_the_money)]
pub fn is_in_the_money(margin: Binary64) -> (itm: bool)
    ensures
        itm == in_the_money(margin),
{
    margin.is_positive()
}

/// See [`spec_exercise_value`]. The value is a number and is not below zero;
/// it is above zero exactly in the money.
#[verifier::when_used_as_spec(spec_exercise_value)]
pub fn exercise_value(margin: Binary64) -> (value: Binary64)
    ensures
        value == spec_exercise_value(margin),
        !value.spec_is_nan(),
        value.spec_ge(Binary64::spec_zero()),
        value.spec_is_positive() == in_the_money(margin),
{
    margin.floor_at_zero()
}

} // verus!
