//! Scalars and small tuples shared by all records.
//!
//! A 32-bit IEEE-754 number is held by its bit pattern.  Every rule of the
//! formats about such a number (equal to zero, greater than zero, inside a
//! closed range, ordered against another field) is a rule about that pattern,
//! and carrying the pattern makes re-encoding byte-exact even for values that
//! do not compare equal to themselves.

use vstd::prelude::*;

verus! {

/// An IEEE-754 binary32 value, by its bits: sign (1), exponent (8), fraction (23).
#[derive(Clone, Copy, Debug, PartialEq, Eq, Structural)]
pub struct F32 {
    pub bits: u32,
}

pub const SIGN_BIT: u32 = 0x8000_0000;

pub const INFINITY_BITS: u32 = 0x7F80_0000;

/// The bits of the value 1.
pub const ONE_BITS: u32 = 0x3F80_0000;

/// The bits of the value 5.
pub const FIVE_BITS: u32 = 0x40A0_0000;

/// The bits of the value -5.
pub const MINUS_FIVE_BITS: u32 = 0xC0A0_0000;

impl F32 {
    /// Positive zero.
    pub open spec fn spec_zero() -> F32 {
        F32 { bits: 0 }
    }

    /// Positive zero.
    #[verifier::when_used_as_spec(spec_zero)]
    pub fn zero() -> (r: F32)
        ensures
            r == F32::spec_zero(),
    {
        F32 { bits: 0 }
    }

    /// The bits without the sign.
    pub open spec fn magnitude(self) -> int {
        if self.bits >= SIGN_BIT {
            self.bits - SIGN_BIT
        } else {
            self.bits as int
        }
    }

    pub open spec fn is_negative(self) -> bool {
        self.bits >= SIGN_BIT
    }

    /// Not a number: the exponent is all ones and the fraction is not zero.
    pub open spec fn spec_is_nan(self) -> bool {
        self.magnitude() > INFINITY_BITS
    }

    /// The position of a number on the real line, as an integer that orders
    /// as the numbers do.  Both zeros have rank 0.
    pub open spec fn rank(self) -> int {
        if self.is_negative() {
            -self.magnitude()
        } else {
            self.magnitude()
        }
    }

    /// `self == other` as numbers: neither is a NaN and they have the same
    /// rank.
    pub open spec fn spec_num_eq(self, other: F32) -> bool {
        !self.spec_is_nan() && !other.spec_is_nan() && self.rank() == other.rank()
    }

    /// `self <= other` as numbers.
    pub open spec fn spec_num_le(self, other: F32) -> bool {
        !self.spec_is_nan() && !other.spec_is_nan() && self.rank() <= other.rank()
    }

    /// `self < other` as numbers.
    pub open spec fn spec_num_lt(self, other: F32) -> bool {
        !self.spec_is_nan() && !other.spec_is_nan() && self.rank() < other.rank()
    }

    /// `self == 0.0`: either zero.
    pub open spec fn spec_is_zero(self) -> bool {
        self.bits == 0 || self.bits == SIGN_BIT
    }

    /// `self > 0.0`.
    pub open spec fn spec_is_positive(self) -> bool {
        0 < self.bits <= INFINITY_BITS
    }

    /// `lo <= self <= hi` as numbers.
    pub open spec fn spec_is_between(self, lo: F32, hi: F32) -> bool {
        lo.spec_num_le(self) && self.spec_num_le(hi)
    }

    pub fn from_bits(bits: u32) -> (r: F32)
        ensures
            r.bits == bits,
    {
        F32 { bits }
    }

    pub fn to_bits(self) -> (r: u32)
        ensures
            r == self.bits,
    {
        self.bits
    }

    fn magnitude_bits(self) -> (r: u32)
        ensures
            r == self.magnitude(),
    {
        if self.bits >= SIGN_BIT {
            self.bits - SIGN_BIT
        } else {
            self.bits
        }
    }

    #[verifier::when_used_as_spec(spec_is_nan)]
    pub fn is_nan(self) -> (r: bool)
        ensures
            r == self.spec_is_nan(),
    {
        self.magnitude_bits() > INFINITY_BITS
    }

    #[verifier::when_used_as_spec(spec_is_zero)]
    pub fn is_zero(self) -> (r: bool)
        ensures
            r == self.spec_is_zero(),
    {
        self.bits == 0 || self.bits == SIGN_BIT
    }

    #[verifier::when_used_as_spec(spec_is_positive)]
    pub fn is_positive(self) -> (r: bool)
        ensures
            r == self.spec_is_positive(),
    {
        0 < self.bits && self.bits <= INFINITY_BITS
    }

    #[verifier::when_used_as_spec(spec_num_le)]
    pub fn num_le(self, other: F32) -> (r: bool)
        ensures
            r == self.spec_num_le(other),
    {
        if self.is_nan() || other.is_nan() {
            return false;
        }
        let a: u32 = self.magnitude_bits();
        let b: u32 = other.magnitude_bits();
        if self.bits >= SIGN_BIT {
            if other.bits >= SIGN_BIT {
                b <= a
            } else {
                true
            }
        } else {
            if other.bits >= SIGN_BIT {
                a == 0 && b == 0
            } else {
                a <= b
            }
        }
    }

    #[verifier::when_used_as_spec(spec_num_eq)]
    pub fn num_eq(self, other: F32) -> (r: bool)
        ensures
            r == self.spec_num_eq(other),
    {
        self.num_le(other) && other.num_le(self)
    }

    #[verifier::when_used_as_spec(spec_num_lt)]
    pub fn num_lt(self, other: F32) -> (r: bool)
        ensures
            r == self.spec_num_lt(other),
    {
        self.num_le(other) && !other.num_le(self)
    }

    #[verifier::when_used_as_spec(spec_is_between)]
    pub fn is_between(self, lo: F32, hi: F32) -> (r: bool)
        ensures
            r == self.spec_is_between(lo, hi),
    {
        lo.num_le(self) && self.num_le(hi)
    }
}

/// The two zeros are exactly the numbers equal to zero, and the positive
/// numbers are exactly those above it.
pub proof fn lemma_zero_and_positive(x: F32)
    ensures
        x.spec_is_zero() <==> x.spec_num_eq(F32::zero()),
        x.spec_is_positive() <==> F32::zero().spec_num_lt(x),
        F32::zero().spec_is_zero(),
        !F32::zero().spec_is_positive(),
{
}

/// A pair of numbers: a range.
#[derive(Clone, Copy, Debug, PartialEq, Eq, Structural)]
pub struct Vec2(pub F32, pub F32);

/// A triple of numbers: a position, a rotation, a scale, a colour.
#[derive(Clone, Copy, Debug, PartialEq, Eq, Structural)]
pub struct Vec3(pub F32, pub F32, pub F32);

/// Four numbers.
#[derive(Clone, Copy, Debug, PartialEq, Eq, Structural)]
pub struct Vec4(pub F32, pub F32, pub F32, pub F32);

impl Vec3 {
    /// All three components positive zero.
    pub open spec fn spec_empty() -> Vec3 {
        Vec3(F32::zero(), F32::zero(), F32::zero())
    }

    /// All three components positive zero.
    #[verifier::when_used_as_spec(spec_empty)]
    pub fn empty() -> (r: Vec3)
        ensures
            r == Vec3::spec_empty(),
    {
        Vec3(F32::zero(), F32::zero(), F32::zero())
    }

    /// Each component equals zero as a number.
    pub open spec fn spec_is_empty(self) -> bool {
        self.0.spec_is_zero() && self.1.spec_is_zero() && self.2.spec_is_zero()
    }

    #[verifier::when_used_as_spec(spec_is_empty)]
    pub fn is_empty(self) -> (r: bool)
        ensures
            r == self.spec_is_empty(),
    {
        self.0.is_zero() && self.1.is_zero() && self.2.is_zero()
    }
}

impl Vec4 {
    /// All four components positive zero.
    pub open spec fn spec_empty() -> Vec4 {
        Vec4(F32::zero(), F32::zero(), F32::zero(), F32::zero())
    }

    /// All four components positive zero.
    #[verifier::when_used_as_spec(spec_empty)]
    pub fn empty() -> (r: Vec4)
        ensures
            r == Vec4::spec_empty(),
    {
        Vec4(F32::zero(), F32::zero(), F32::zero(), F32::zero())
    }
}

} // verus!
