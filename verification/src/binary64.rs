//! Real-valued quantities (prices, distances, heart rates) as IEEE-754
//! binary64 bit patterns.
//!
//! The ledgers never do arithmetic on these quantities: they store them, hand
//! them back, and compare them for equality when looking for a record. Holding
//! the 64 bits and defining equality on them keeps every comparison inside
//! integer arithmetic, where it can be specified exactly.

use vstd::prelude::*;

verus! {

/// The sign bit of a binary64 pattern.
pub const SIGN_BIT: u64 = 0x8000_0000_0000_0000;

/// The pattern of positive infinity: every exponent bit set, no fraction bit.
pub const INFINITY_BITS: u64 = 0x7ff0_0000_0000_0000;

/// One binary64 value, by its bits. `==` compares the bits;
/// [`Binary64::equals`] compares the numbers.
#[derive(Clone, Copy, Debug, PartialEq, Eq, Structural)]
pub struct Binary64 {
    pub bits: u64,
}

impl Binary64 {
    /// The bits without the sign: exponent and fraction.
    pub open spec fn magnitude(self) -> int {
        if self.bits >= SIGN_BIT {
            self.bits - SIGN_BIT
        } else {
            self.bits as int
        }
    }

    /// Not a number: every exponent bit set and some fraction bit set.
    pub open spec fn is_nan(self) -> bool {
        self.magnitude() > INFINITY_BITS
    }

    /// Positive or negative zero.
    pub open spec fn is_zero(self) -> bool {
        self.magnitude() == 0
    }

    /// Numeric equality as IEEE-754 defines it: a NaN equals nothing, itself
    /// included; the two zeros are equal; any other two values are equal
    /// exactly when their bits are.
    pub open spec fn same_number(self, other: Binary64) -> bool {
        &&& !self.is_nan()
        &&& !other.is_nan()
        &&& (self.bits == other.bits || (self.is_zero() && other.is_zero()))
    }

    pub fn from_bits(bits: u64) -> (value: Binary64)
        ensures
            value.bits == bits,
    {
        Binary64 { bits }
    }

    pub fn to_bits(&self) -> (bits: u64)
        ensures
            bits == self.bits,
    {
        self.bits
    }

    fn unsigned(&self) -> (m: u64)
        ensures
            m == self.magnitude(),
    {
        if self.bits >= SIGN_BIT {
            self.bits - SIGN_BIT
        } else {
            self.bits
        }
    }

    pub fn nan(&self) -> (r: bool)
        ensures
            r == self.is_nan(),
    {
        self.unsigned() > INFINITY_BITS
    }

    pub fn zero(&self) -> (r: bool)
        ensures
            r == self.is_zero(),
    {
        self.unsigned() == 0
    }

    /// Decides [`Binary64::same_number`].
    pub fn equals(&self, other: &Binary64) -> (r: bool)
        ensures
            r == self.same_number(*other),
    {
        if self.nan() || other.nan() {
            false
        } else if self.bits == other.bits {
            true
        } else {
            self.zero() && other.zero()
        }
    }
}

/// Numeric equality is symmetric.
pub proof fn same_number_symmetric(a: Binary64, b: Binary64)
    ensures
        a.same_number(b) == b.same_number(a),
{
}

/// Numeric equality is transitive.
pub proof fn same_number_transitive(a: Binary64, b: Binary64, c: Binary64)
    requires
        a.same_number(b),
        b.same_number(c),
    ensures
        a.same_number(c),
{
}

/// A value equals itself exactly when it is a number.
pub proof fn same_number_reflexive(a: Binary64)
    ensures
        a.same_number(a) == !a.is_nan(),
{
}

} // verus!
