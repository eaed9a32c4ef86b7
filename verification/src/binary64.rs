//! IEEE 754 binary64 numbers, held as their 64-bit encodings.
//!
//! Prices, rates, times and variances travel through this library as encodings.
//! Every decision the pricing engines take on such a number (is it positive, is
//! it at least this other one, which of two is larger) is a comparison, and a
//! comparison is decided here on the encodings alone, against the order of the
//! numbers that the encodings denote.
use vstd::prelude::*;
use vstd::arithmetic::power2::*;
use vstd::arithmetic::mul::*;

verus! {

/// The sign bit of an encoding.
pub const SIGN_BIT: u64 = 0x8000_0000_0000_0000;

/// The magnitude that encodes infinity; every larger magnitude encodes a NaN.
pub const INFINITY_BITS: u64 = 0x7ff0_0000_0000_0000;

/// The number of fraction fields, 2^52.
pub const FRACTION_SPAN: u64 = 0x0010_0000_0000_0000;

/// What an encoding denotes.
///
/// A finite number is given as a count of units of 2^-1074, the smallest
/// positive binary64 number: every finite binary64 number is a whole count of
/// them, so the count is exact. Both zeros denote `Finite(0)`.
pub enum Number {
    NaN,
    NegInfinity,
    Finite(int),
    PosInfinity,
}

impl Number {
    /// Strictly less, as IEEE 754 orders numbers: a NaN is below nothing and
    /// nothing is below it.
    pub open spec fn lt(self, other: Number) -> bool {
        match (self, other) {
            (Number::NaN, _) => false,
            (_, Number::NaN) => false,
            (_, Number::NegInfinity) => false,
            (Number::NegInfinity, _) => true,
            (Number::PosInfinity, _) => false,
            (_, Number::PosInfinity) => true,
            (Number::Finite(x), Number::Finite(y)) => x < y,
        }
    }

    /// Equal as numbers: a NaN equals nothing, itself included.
    pub open spec fn same(self, other: Number) -> bool {
        self != Number::NaN && self == other
    }

    /// Less or equal.
    pub open spec fn le(self, other: Number) -> bool {
        self.lt(other) || self.same(other)
    }

    /// The number with the opposite sign.
    pub open spec fn negated(self) -> Number {
        match self {
            Number::NaN => Number::NaN,
            Number::NegInfinity => Number::PosInfinity,
            Number::PosInfinity => Number::NegInfinity,
            Number::Finite(x) => Number::Finite(-x),
        }
    }
}

/// The count of units of 2^-1074 that a finite magnitude denotes: the fraction
/// field alone while the exponent field is zero (subnormal numbers), and
/// `(2^52 + fraction) * 2^(exponent - 1)` above that.
pub open spec fn units_of(magnitude: nat) -> nat {
    let exponent = magnitude / (FRACTION_SPAN as nat);
    let fraction = magnitude % (FRACTION_SPAN as nat);
    if exponent == 0 {
        fraction
    } else {
        (FRACTION_SPAN as nat + fraction) * pow2((exponent - 1) as nat)
    }
}

/// An IEEE 754 binary64 number, held as its encoding.
#[derive(Clone, Copy, Debug)]
pub struct Binary64 {
    pub bits: u64,
}

impl View for Binary64 {
    type V = Number;

    /// The number that the encoding denotes.
    open spec fn view(&self) -> Number {
        let m = self.magnitude();
        if m > INFINITY_BITS {
            Number::NaN
        } else if m == INFINITY_BITS {
            if self.sign_negative() {
                Number::NegInfinity
            } else {
                Number::PosInfinity
            }
        } else if self.sign_negative() {
            Number::Finite(-(units_of(m) as int))
        } else {
            Number::Finite(units_of(m) as int)
        }
    }
}

impl Binary64 {
    /// Whether the sign bit is set.
    pub open spec fn sign_negative(self) -> bool {
        self.bits >= SIGN_BIT
    }

    /// The encoding without its sign bit.
    pub open spec fn magnitude(self) -> nat {
        if self.bits >= SIGN_BIT {
            (self.bits - SIGN_BIT) as nat
        } else {
            self.bits as nat
        }
    }

    /// The place of a number that is no NaN in the order of all such numbers:
    /// the magnitude, negated under a set sign bit.
    pub open spec fn rank(self) -> int {
        if self.sign_negative() {
            -(self.magnitude() as int)
        } else {
            self.magnitude() as int
        }
    }

    /// The number is a NaN: its magnitude is beyond that of infinity.
    pub open spec fn spec_is_nan(self) -> bool {
        self.magnitude() > INFINITY_BITS
    }

    /// `self < other`: neither is a NaN, and the ranks are in that order.
    pub open spec fn spec_lt(self, other: Binary64) -> bool {
        !self.spec_is_nan() && !other.spec_is_nan() && self.rank() < other.rank()
    }

    /// `self <= other`.
    pub open spec fn spec_le(self, other: Binary64) -> bool {
        !self.spec_is_nan() && !other.spec_is_nan() && self.rank() <= other.rank()
    }

    /// `self > other`.
    pub open spec fn spec_gt(self, other: Binary64) -> bool {
        other.spec_lt(self)
    }

    /// `self >= other`.
    pub open spec fn spec_ge(self, other: Binary64) -> bool {
        other.spec_le(self)
    }

    /// `self == other` as numbers: neither is a NaN, and the ranks agree. The
    /// two zeros are the same number.
    pub open spec fn spec_same(self, other: Binary64) -> bool {
        !self.spec_is_nan() && !other.spec_is_nan() && self.rank() == other.rank()
    }

    /// Positive zero.
    pub open spec fn spec_zero() -> Binary64 {
        Binary64 { bits: 0 }
    }

    /// The number one.
    pub open spec fn spec_one() -> Binary64 {
        Binary64 { bits: 0x3ff0_0000_0000_0000 }
    }

    /// Strictly above zero.
    pub open spec fn spec_is_positive(self) -> bool {
        !self.spec_is_nan() && self.rank() > 0
    }

    /// The larger of `self` and zero; positive zero where `self` is a NaN.
    pub open spec fn spec_floor_at_zero(self) -> Binary64 {
        if self.spec_is_positive() {
            self
        } else {
            Self::spec_zero()
        }
    }

    /// The encoding with its sign bit flipped.
    pub open spec fn spec_neg(self) -> Binary64 {
        if self.bits >= SIGN_BIT {
            Binary64 { bits: (self.bits - SIGN_BIT) as u64 }
        } else {
            Binary64 { bits: (self.bits + SIGN_BIT) as u64 }
        }
    }

    /// The larger of two numbers. Where one is a NaN, the other; where they
    /// are equal as numbers, `self`.
    pub open spec fn spec_max(self, other: Binary64) -> Binary64 {
        if self.spec_is_nan() {
            other
        } else if self.spec_lt(other) {
            other
        } else {
            self
        }
    }

    /// The number with the given encoding.
    pub fn from_bits(bits: u64) -> (r: Binary64)
        ensures
            r.bits == bits,
    {
        Binary64 { bits }
    }

    /// The encoding.
    pub fn to_bits(self) -> (r: u64)
        ensures
            r == self.bits,
    {
        self.bits
    }

    /// Positive zero.
    #[verifier::when_used_as_spec(spec_zero)]
    pub fn zero() -> (r: Binary64)
        ensures
            r == Self::spec_zero(),
            r@ == Number::Finite(0),
    {
        proof {
            lemma_zero_units();
        }
        Binary64 { bits: 0 }
    }

    /// The number one.
    #[verifier::when_used_as_spec(spec_one)]
    pub fn one() -> (r: Binary64)
        ensures
            r == Self::spec_one(),
    {
        Binary64 { bits: 0x3ff0_0000_0000_0000 }
    }

    fn magnitude_bits(self) -> (m: u64)
        ensures
            m == self.magnitude(),
    {
        if self.bits >= SIGN_BIT {
            self.bits - SIGN_BIT
        } else {
            self.bits
        }
    }

    fn sign_bit_set(self) -> (s: bool)
        ensures
            s == self.sign_negative(),
    {
        self.bits >= SIGN_BIT
    }

    /// Whether the number is a NaN.
    #[verifier::when_used_as_spec(spec_is_nan)]
    pub fn is_nan(self) -> (r: bool)
        ensures
            r == self.spec_is_nan(),
            r == (self@ == Number::NaN),
    {
        self.magnitude_bits() > INFINITY_BITS
    }

    /// `self < other`.
    #[verifier::when_used_as_spec(spec_lt)]
    pub fn lt(self, other: Binary64) -> (r: bool)
        ensures
            r == self.spec_lt(other),
            r == self@.lt(other@),
    {
        if self.is_nan() || other.is_nan() {
            return false;
        }
        proof {
            lemma_order_is_numeric(self, other);
        }
        let a = self.magnitude_bits();
        let b = other.magnitude_bits();
        if self.sign_bit_set() {
            if other.sign_bit_set() {
                b < a
            } else {
                a > 0 || b > 0
            }
        } else {
            !other.sign_bit_set() && a < b
        }
    }

    /// `self <= other`.
    #[verifier::when_used_as_spec(spec_le)]
    pub fn le(self, other: Binary64) -> (r: bool)
        ensures
            r == self.spec_le(other),
            r == self@.le(other@),
    {
        if self.is_nan() || other.is_nan() {
            return false;
        }
        proof {
            lemma_order_is_numeric(self, other);
        }
        let a = self.magnitude_bits();
        let b = other.magnitude_bits();
        if self.sign_bit_set() {
            other.sign_bit_set() == false || b <= a
        } else if other.sign_bit_set() {
            a == 0 && b == 0
        } else {
            a <= b
        }
    }

    /// `self > other`.
    #[verifier::when_used_as_spec(spec_gt)]
    pub fn gt(self, other: Binary64) -> (r: bool)
        ensures
            r == self.spec_gt(other),
            r == other@.lt(self@),
    {
        other.lt(self)
    }

    /// `self >= other`.
    #[verifier::when_used_as_spec(spec_ge)]
    pub fn ge(self, other: Binary64) -> (r: bool)
        ensures
            r == self.spec_ge(other),
            r == other@.le(self@),
    {
        other.le(self)
    }

    /// `self == other` as numbers: false where either is a NaN, true of the
    /// two zeros.
    #[verifier::when_used_as_spec(spec_same)]
    pub fn same(self, other: Binary64) -> (r: bool)
        ensures
            r == self.spec_same(other),
            r == self@.same(other@),
    {
        if self.is_nan() || other.is_nan() {
            return false;
        }
        proof {
            lemma_order_is_numeric(self, other);
        }
        let a = self.magnitude_bits();
        let b = other.magnitude_bits();
        if self.sign_bit_set() == other.sign_bit_set() {
            a == b
        } else {
            a == 0 && b == 0
        }
    }

    /// `self > 0`.
    #[verifier::when_used_as_spec(spec_is_positive)]
    pub fn is_positive(self) -> (r: bool)
        ensures
            r == self.spec_is_positive(),
            r == Number::Finite(0).lt(self@),
    {
        proof {
            lemma_zero_units();
        }
        Self::zero().lt(self)
    }

    /// The larger of `self` and zero. A NaN and every number that is not above
    /// zero give positive zero, so the result is never a NaN and never below
    /// zero.
    #[verifier::when_used_as_spec(spec_floor_at_zero)]
    pub fn floor_at_zero(self) -> (r: Binary64)
        ensures
            r == self.spec_floor_at_zero(),
            !r.spec_is_nan(),
            r.spec_ge(Self::spec_zero()),
            Number::Finite(0).le(r@),
            r@ == if Number::Finite(0).lt(self@) {
                self@
            } else {
                Number::Finite(0)
            },
    {
        proof {
            lemma_zero_units();
            lemma_order_is_numeric(Self::spec_zero(), self);
        }
        if self.is_positive() {
            self
        } else {
            Self::zero()
        }
    }

    /// The larger of two numbers; see [`Binary64::spec_max`] for NaNs and ties.
    #[verifier::when_used_as_spec(spec_max)]
    pub fn max(self, other: Binary64) -> (r: Binary64)
        ensures
            r == self.spec_max(other),
    {
        if self.is_nan() {
            other
        } else if self.lt(other) {
            other
        } else {
            self
        }
    }

    /// The number with the opposite sign: the encoding with its sign bit
    /// flipped.
    #[verifier::when_used_as_spec(spec_neg)]
    pub fn neg(self) -> (r: Binary64)
        ensures
            r == self.spec_neg(),
            r@ == self@.negated(),
    {
        proof {
            lemma_zero_units();
            if 0 < self.magnitude() < INFINITY_BITS {
                lemma_units_increase(0, self.magnitude());
            }
        }
        if self.bits >= SIGN_BIT {
            Binary64 { bits: self.bits - SIGN_BIT }
        } else {
            Binary64 { bits: self.bits + SIGN_BIT }
        }
    }
}

/// The magnitude zero denotes no units.
pub proof fn lemma_zero_units()
    ensures
        units_of(0) == 0,
        Binary64::spec_zero()@ == Number::Finite(0),
{
    assert(units_of(0) == 0) by (nonlinear_arith)
        requires
            units_of(0) == 0nat % (FRACTION_SPAN as nat),
            0nat / (FRACTION_SPAN as nat) == 0,
            FRACTION_SPAN == 0x0010_0000_0000_0000,
    ;
}

/// The encoding of one denotes 2^1074 units: a unit is 2^-1074.
pub proof fn lemma_one_units()
    ensures
        Binary64::spec_one()@ == Number::Finite(pow2(1074) as int),
{
    let m: nat = 0x3ff0_0000_0000_0000;
    assert(m / (FRACTION_SPAN as nat) == 1023 && m % (FRACTION_SPAN as nat) == 0) by (nonlinear_arith)
        requires
            m == 0x3ff0_0000_0000_0000,
            FRACTION_SPAN == 0x0010_0000_0000_0000,
    ;
    lemma2_to64_rest();
    lemma_pow2_adds(52, 1022);
    assert(Binary64::spec_one().magnitude() == m);
}

/// The order of numbers is strict and total apart from NaNs: of two numbers
/// that are no NaN exactly one of below, same and above holds, and below
/// carries over a middle number.
pub proof fn lemma_order_laws(a: Number, b: Number, c: Number)
    ensures
        !a.lt(a),
        a.lt(b) && b.lt(c) ==> a.lt(c),
        a.le(b) && b.le(c) ==> a.le(c),
        a != Number::NaN && b != Number::NaN ==> (a.lt(b) || a.same(b) || b.lt(a)),
        !(a.lt(b) && b.lt(a)),
        !(a.lt(b) && a.same(b)),
        a == Number::NaN || b == Number::NaN ==> !a.lt(b) && !a.le(b) && !a.same(b),
        a.le(b) && b.le(a) ==> a.same(b),
{
}

/// A larger finite magnitude denotes a larger count of units.
pub proof fn lemma_units_increase(m1: nat, m2: nat)
    requires
        m1 < m2,
        m2 < INFINITY_BITS,
    ensures
        units_of(m1) < units_of(m2),
{
    let span = FRACTION_SPAN as nat;
    let e1 = m1 / span;
    let f1 = m1 % span;
    let e2 = m2 / span;
    let f2 = m2 % span;
    assert(m1 == e1 * span + f1 && m2 == e2 * span + f2 && f1 < span && f2 < span
        && e1 <= e2) by (nonlinear_arith)
        requires
            span == 0x0010_0000_0000_0000,
            e1 == m1 / span,
            f1 == m1 % span,
            e2 == m2 / span,
            f2 == m2 % span,
            m1 < m2,
    ;
    if e1 == e2 {
        assert(f1 < f2);
        if e1 != 0 {
            let p = pow2((e1 - 1) as nat);
            lemma_pow2_pos((e1 - 1) as nat);
            lemma_mul_strict_inequality((span + f1) as int, (span + f2) as int, p as int);
        }
    } else {
        let p2 = pow2((e2 - 1) as nat);
        lemma_pow2_pos((e2 - 1) as nat);
        // The smaller number stays below `span * p2`, the larger reaches it.
        lemma_mul_inequality(span as int, (span + f2) as int, p2 as int);
        if e1 == 0 {
            lemma_mul_inequality(1, p2 as int, span as int);
            assert(span * p2 == p2 * span) by (nonlinear_arith);
        } else {
            let p1 = pow2((e1 - 1) as nat);
            lemma_pow2_pos((e1 - 1) as nat);
            lemma_pow2_unfold(e1);
            lemma_mul_strict_inequality((span + f1) as int, (2 * span) as int, p1 as int);
            assert((2 * span) * p1 == span * (2 * p1)) by (nonlinear_arith);
            if e1 < e2 - 1 {
                lemma_pow2_strictly_increases(e1, (e2 - 1) as nat);
            }
            lemma_mul_left_inequality(span as int, pow2(e1) as int, p2 as int);
        }
    }
}

/// The order of the encodings is the order of the numbers they denote: an
/// encoding is a NaN, below, at most or the same as another exactly when the
/// number it denotes is.
pub proof fn lemma_order_is_numeric(a: Binary64, b: Binary64)
    ensures
        a.spec_is_nan() <==> a@ == Number::NaN,
        a.spec_lt(b) <==> a@.lt(b@),
        a.spec_le(b) <==> a@.le(b@),
        a.spec_same(b) <==> a@.same(b@),
        a.spec_gt(b) <==> b@.lt(a@),
        a.spec_ge(b) <==> b@.le(a@),
{
    let ma = a.magnitude();
    let mb = b.magnitude();
    lemma_zero_units();
    if ma < INFINITY_BITS && 0 < ma {
        lemma_units_increase(0, ma);
    }
    if mb < INFINITY_BITS && 0 < mb {
        lemma_units_increase(0, mb);
    }
    if ma < INFINITY_BITS && mb < INFINITY_BITS {
        if ma < mb {
            lemma_units_increase(ma, mb);
        } else if mb < ma {
            lemma_units_increase(mb, ma);
        }
    }
}

} // verus!
