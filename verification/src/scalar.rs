//! Scalars as the tracer's decisions see them.
//!
//! Every decision of the tracer (which root, which face, which hit is nearest)
//! rests on comparisons alone. A [`Scalar`] keeps of a binary64 value exactly
//! what comparisons can tell: whether it is a number at all, and where it
//! stands among the numbers. The arithmetic stays with the caller.
use vstd::prelude::*;

verus! {

/// Bit of a binary64 pattern that holds the sign.
pub const SIGN_BIT: u64 = 0x8000_0000_0000_0000;

/// Pattern of positive infinity: the largest magnitude a number has.
pub const INFINITY_BITS: u64 = 0x7FF0_0000_0000_0000;

/// Key of the tolerance that geometric tests allow: a millionth.
pub const EPSILON_KEY: i64 = 0x3EB0_C6F7_A0B5_ED8D;

/// Key of one half.
pub const HALF_KEY: i64 = 0x3FE0_0000_0000_0000;

/// Key of positive infinity.
pub const INFINITY_KEY: i64 = 0x7FF0_0000_0000_0000;

/// A binary64 value reduced to its place in the order.
///
/// A number is held by its key: the pattern of its magnitude, negated where
/// the value is negative. Keys grow exactly as the values do, and both zeros
/// share the key 0, so comparing keys is comparing values.
#[derive(Debug, Clone, Copy, PartialEq, Eq, Structural)]
pub enum Scalar {
    /// Not a number: neither below, above nor equal to anything, itself included.
    Nan,
    /// A number, by its key.
    Num(i64),
}

impl Scalar {
    /// The key of a number; 0 for what is not a number.
    pub open spec fn key(self) -> int {
        match self {
            Scalar::Num(k) => k as int,
            Scalar::Nan => 0,
        }
    }

    /// The key of the number's absolute value.
    pub open spec fn magnitude(self) -> int {
        if self.key() < 0 {
            -self.key()
        } else {
            self.key()
        }
    }

    /// `self < other`, which fails whenever one side is not a number.
    pub open spec fn spec_lt(self, other: Scalar) -> bool {
        self is Num && other is Num && self.key() < other.key()
    }

    /// `self > other`.
    pub open spec fn spec_gt(self, other: Scalar) -> bool {
        other.spec_lt(self)
    }

    /// `self == other` between values: two numbers in the same place.
    pub open spec fn spec_same(self, other: Scalar) -> bool {
        self is Num && other is Num && self.key() == other.key()
    }

    /// `self <= other`.
    pub open spec fn spec_le(self, other: Scalar) -> bool {
        self is Num && other is Num && self.key() <= other.key()
    }

    /// `self >= other`.
    pub open spec fn spec_ge(self, other: Scalar) -> bool {
        other.spec_le(self)
    }

    /// `|self| >= |other|`.
    pub open spec fn spec_outweighs(self, other: Scalar) -> bool {
        self is Num && other is Num && self.magnitude() >= other.magnitude()
    }

    /// The number zero.
    pub open spec fn spec_zero() -> Scalar {
        Scalar::Num(0)
    }

    /// The tolerance of the geometric tests.
    pub open spec fn spec_epsilon() -> Scalar {
        Scalar::Num(EPSILON_KEY)
    }

    /// The tolerance, negated.
    pub open spec fn spec_neg_epsilon() -> Scalar {
        Scalar::Num((-EPSILON_KEY) as i64)
    }

    /// One half.
    pub open spec fn spec_half() -> Scalar {
        Scalar::Num(HALF_KEY)
    }

    /// Positive infinity.
    pub open spec fn spec_infinity() -> Scalar {
        Scalar::Num(INFINITY_KEY)
    }

    /// Negative infinity.
    pub open spec fn spec_neg_infinity() -> Scalar {
        Scalar::Num((-INFINITY_KEY) as i64)
    }

    /// What a binary64 pattern stands for: not a number where the exponent is
    /// all ones and the fraction is not zero, else the magnitude's pattern,
    /// negated under a set sign bit.
    pub open spec fn spec_from_bits(bits: u64) -> Scalar {
        let magnitude = bits & !SIGN_BIT;
        if magnitude > INFINITY_BITS {
            Scalar::Nan
        } else if bits & SIGN_BIT != 0 {
            Scalar::Num((-(magnitude as int)) as i64)
        } else {
            Scalar::Num(magnitude as i64)
        }
    }

    /// A number whose key lies between those of the two infinities.
    pub open spec fn finite_or_infinite(self) -> bool {
        self is Num && self.magnitude() <= INFINITY_KEY
    }

    #[verifier::when_used_as_spec(spec_zero)]
    pub fn zero() -> (s: Scalar)
        ensures
            s == Scalar::spec_zero(),
    {
        Scalar::Num(0)
    }

    #[verifier::when_used_as_spec(spec_epsilon)]
    pub fn epsilon() -> (s: Scalar)
        ensures
            s == Scalar::spec_epsilon(),
    {
        Scalar::Num(EPSILON_KEY)
    }

    #[verifier::when_used_as_spec(spec_neg_epsilon)]
    pub fn neg_epsilon() -> (s: Scalar)
        ensures
            s == Scalar::spec_neg_epsilon(),
    {
        Scalar::Num(-EPSILON_KEY)
    }

    #[verifier::when_used_as_spec(spec_half)]
    pub fn half() -> (s: Scalar)
        ensures
            s == Scalar::spec_half(),
    {
        Scalar::Num(HALF_KEY)
    }

    #[verifier::when_used_as_spec(spec_infinity)]
    pub fn infinity() -> (s: Scalar)
        ensures
            s == Scalar::spec_infinity(),
    {
        Scalar::Num(INFINITY_KEY)
    }

    #[verifier::when_used_as_spec(spec_neg_infinity)]
    pub fn neg_infinity() -> (s: Scalar)
        ensures
            s == Scalar::spec_neg_infinity(),
    {
        Scalar::Num(-INFINITY_KEY)
    }

    /// Reads a binary64 pattern.
    pub fn from_bits(bits: u64) -> (s: Scalar)
        ensures
            s == Scalar::spec_from_bits(bits),
            s is Num ==> s.finite_or_infinite(),
    {
        let magnitude: u64 = bits & !SIGN_BIT;
        assert(magnitude <= 0x7FFF_FFFF_FFFF_FFFF) by (bit_vector)
            requires
                magnitude == bits & !SIGN_BIT,
        ;
        if magnitude > INFINITY_BITS {
            Scalar::Nan
        } else if bits & SIGN_BIT != 0 {
            Scalar::Num(-(magnitude as i64))
        } else {
            Scalar::Num(magnitude as i64)
        }
    }

    /// Whether the value is a number.
    pub fn is_num(self) -> (r: bool)
        ensures
            r == (self is Num),
    {
        match self {
            Scalar::Num(_) => true,
            Scalar::Nan => false,
        }
    }

    #[verifier::when_used_as_spec(spec_lt)]
    pub fn lt(self, other: Scalar) -> (r: bool)
        ensures
            r == self.spec_lt(other),
    {
        match (self, other) {
            (Scalar::Num(a), Scalar::Num(b)) => a < b,
            _ => false,
        }
    }

    #[verifier::when_used_as_spec(spec_gt)]
    pub fn gt(self, other: Scalar) -> (r: bool)
        ensures
            r == self.spec_gt(other),
    {
        other.lt(self)
    }

    #[verifier::when_used_as_spec(spec_le)]
    pub fn le(self, other: Scalar) -> (r: bool)
        ensures
            r == self.spec_le(other),
    {
        match (self, other) {
            (Scalar::Num(a), Scalar::Num(b)) => a <= b,
            _ => false,
        }
    }

    #[verifier::when_used_as_spec(spec_ge)]
    pub fn ge(self, other: Scalar) -> (r: bool)
        ensures
            r == self.spec_ge(other),
    {
        other.le(self)
    }

    #[verifier::when_used_as_spec(spec_same)]
    pub fn same(self, other: Scalar) -> (r: bool)
        ensures
            r == self.spec_same(other),
    {
        match (self, other) {
            (Scalar::Num(a), Scalar::Num(b)) => a == b,
            _ => false,
        }
    }

    /// Compares absolute values.
    #[verifier::when_used_as_spec(spec_outweighs)]
    pub fn outweighs(self, other: Scalar) -> (r: bool)
        ensures
            r == self.spec_outweighs(other),
    {
        match (self, other) {
            (Scalar::Num(a), Scalar::Num(b)) => magnitude_of(a) >= magnitude_of(b),
            _ => false,
        }
    }
}

/// The absolute value of a key, which always fits unsigned.
fn magnitude_of(key: i64) -> (m: u64)
    ensures
        m == Scalar::Num(key).magnitude(),
{
    if key >= 0 {
        key as u64
    } else if key == i64::MIN {
        0x8000_0000_0000_0000
    } else {
        (-key) as u64
    }
}

/// Among numbers `<` is a strict total order; what is not a number stands
/// outside it.
pub proof fn lemma_order(a: Scalar, b: Scalar, c: Scalar)
    ensures
        !a.spec_lt(a),
        a.spec_lt(b) && b.spec_lt(c) ==> a.spec_lt(c),
        a is Num && b is Num ==> (a.spec_lt(b) || a.spec_same(b) || b.spec_lt(a)),
        a.spec_le(b) <==> (a.spec_lt(b) || a.spec_same(b)),
        a is Nan ==> !a.spec_lt(b) && !b.spec_lt(a) && !a.spec_same(b) && !a.spec_le(b),
{
}

/// Flipping the sign bit of a pattern mirrors what it stands for about zero,
/// and leaves what is not a number as it was.
pub proof fn lemma_sign_bit_negates(bits: u64)
    ensures
        Scalar::spec_from_bits(bits) is Nan <==> Scalar::spec_from_bits(bits ^ SIGN_BIT) is Nan,
        Scalar::spec_from_bits(bits ^ SIGN_BIT).key() == -Scalar::spec_from_bits(bits).key(),
{
    let flipped = bits ^ SIGN_BIT;
    assert(flipped & !SIGN_BIT == bits & !SIGN_BIT) by (bit_vector)
        requires
            flipped == bits ^ SIGN_BIT,
    ;
    assert((flipped & SIGN_BIT != 0) <==> (bits & SIGN_BIT == 0)) by (bit_vector)
        requires
            flipped == bits ^ SIGN_BIT,
    ;
    let magnitude = bits & !SIGN_BIT;
    assert(magnitude <= 0x7FFF_FFFF_FFFF_FFFF) by (bit_vector)
        requires
            magnitude == bits & !SIGN_BIT,
    ;
}

/// Both zeros, the patterns 0 and the lone sign bit, are the number zero.
pub proof fn lemma_zeros_agree()
    ensures
        Scalar::spec_from_bits(0) == Scalar::spec_zero(),
        Scalar::spec_from_bits(SIGN_BIT) == Scalar::spec_zero(),
{
    assert(0u64 & !SIGN_BIT == 0) by (bit_vector);
    assert(0u64 & SIGN_BIT == 0) by (bit_vector);
    assert(SIGN_BIT & !SIGN_BIT == 0) by (bit_vector);
    assert(SIGN_BIT & SIGN_BIT != 0) by (bit_vector);
}

} // verus!
