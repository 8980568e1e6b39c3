//! Single-precision numbers as their IEEE 754 bit patterns.
//!
//! The library compares, classifies and orders such numbers; it never adds or
//! multiplies them.

use vstd::prelude::*;

verus! {

/// A single-precision number, held as its bits.
#[derive(Debug, Clone, Copy, PartialEq, Eq, Structural)]
pub struct Binary32 {
    pub bits: u32,
}

impl Binary32 {
    /// The exponent field is all ones and the fraction is not zero.
    pub open spec fn is_nan_spec(self) -> bool {
        0x7f80_0000 < self.bits <= 0x7fff_ffff || 0xff80_0000 < self.bits
    }

    /// Positive or negative zero.
    pub open spec fn is_zero_spec(self) -> bool {
        self.bits == 0 || self.bits == 0x8000_0000
    }

    /// Strictly greater than zero.
    pub open spec fn positive(self) -> bool {
        0 < self.bits <= 0x7f80_0000
    }

    /// Between zero and one, both included.
    pub open spec fn in_unit_interval(self) -> bool {
        self.bits <= 0x3f80_0000 || self.bits == 0x8000_0000
    }

    /// The place of the number in the total order: negative numbers count down
    /// from minus one, the others count up from zero.
    pub open spec fn rank(self) -> int {
        if self.bits < 0x8000_0000 {
            self.bits as int
        } else {
            -1 - (self.bits - 0x8000_0000)
        }
    }

    /// Numeric equality: both zeros are equal and no NaN equals anything.
    pub open spec fn equals(self, other: Binary32) -> bool {
        &&& !self.is_nan_spec()
        &&& !other.is_nan_spec()
        &&& self.bits == other.bits || (self.is_zero_spec() && other.is_zero_spec())
    }

    pub fn from_bits(bits: u32) -> (r: Binary32)
        ensures
            r.bits == bits,
    {
        Binary32 { bits }
    }

    pub fn to_bits(&self) -> (bits: u32)
        ensures
            bits == self.bits,
    {
        self.bits
    }

    pub fn zero() -> (r: Binary32)
        ensures
            r.bits == 0,
    {
        Binary32 { bits: 0 }
    }

    pub fn is_nan(&self) -> (r: bool)
        ensures
            r == self.is_nan_spec(),
    {
        (0x7f80_0000 < self.bits && self.bits <= 0x7fff_ffff) || 0xff80_0000 < self.bits
    }

    pub fn is_zero(&self) -> (r: bool)
        ensures
            r == self.is_zero_spec(),
    {
        self.bits == 0 || self.bits == 0x8000_0000
    }

    pub fn is_positive(&self) -> (r: bool)
        ensures
            r == self.positive(),
    {
        0 < self.bits && self.bits <= 0x7f80_0000
    }

    /// Whether the number is zero or below; false for a NaN.
    pub fn is_zero_or_below(&self) -> (r: bool)
        ensures
            r == (!self.is_nan_spec() && !self.positive()),
    {
        !self.is_nan() && !self.is_positive()
    }

    pub fn within_unit_interval(&self) -> (r: bool)
        ensures
            r == self.in_unit_interval(),
    {
        self.bits <= 0x3f80_0000 || self.bits == 0x8000_0000
    }

    /// Whether the number comes strictly after `other` in the total order.
    pub fn ranks_above(&self, other: &Binary32) -> (r: bool)
        ensures
            r == (self.rank() > other.rank()),
    {
        if self.bits < 0x8000_0000 {
            other.bits >= 0x8000_0000 || self.bits > other.bits
        } else {
            other.bits >= 0x8000_0000 && self.bits < other.bits
        }
    }

    pub fn numerically_equal(&self, other: &Binary32) -> (r: bool)
        ensures
            r == self.equals(*other),
    {
        !self.is_nan() && !other.is_nan() && (self.bits == other.bits || (self.is_zero()
            && other.is_zero()))
    }
}

/// The total order tells any two bit patterns apart.
pub proof fn rank_is_injective(a: Binary32, b: Binary32)
    requires
        a.rank() == b.rank(),
    ensures
        a == b,
{
}

/// Every number of the unit interval is a number, equal to itself, and either
/// zero or positive.
pub proof fn unit_interval_is_numeric(a: Binary32)
    requires
        a.in_unit_interval(),
    ensures
        !a.is_nan_spec(),
        a.equals(a),
        a.is_zero_spec() || a.positive(),
{
}

/// Numbers stand in the order of their values: every positive number above both
/// zeros, those above every negative one; among positive numbers the greater bits
/// are the greater number, among negative ones the lesser. Both zeros equal each
/// other, and no number equals what has other bits.
pub proof fn numbers_stand_in_order(a: Binary32, b: Binary32)
    ensures
        a.positive() && b.bits == 0 ==> a.rank() > b.rank(),
        a.positive() && b.bits >= 0x8000_0000 ==> a.rank() > b.rank(),
        a.bits == 0 && b.bits >= 0x8000_0000 ==> a.rank() > b.rank(),
        a.bits < 0x8000_0000 && b.bits < 0x8000_0000 ==> (a.rank() > b.rank() <==> a.bits > b.bits),
        a.bits >= 0x8000_0000 && b.bits >= 0x8000_0000 ==> (a.rank() > b.rank() <==> a.bits
            < b.bits),
        a.bits == 0 && b.bits == 0x8000_0000 ==> a.equals(b) && b.equals(a),
        a.equals(b) ==> a.bits == b.bits || (a.bits % 0x8000_0000 == 0 && b.bits % 0x8000_0000
            == 0),
        a.bits == b.bits && a.bits % 0x8000_0000 <= 0x7f80_0000 ==> a.equals(b),
        a.bits % 0x8000_0000 > 0x7f80_0000 ==> !a.equals(b) && a.is_nan_spec(),
{
}

/// The unit interval ends at one and holds both zeros, no other negative number,
/// and nothing that is not a number; what is positive has no sign and is neither
/// zero nor out of the numbers.
pub proof fn the_unit_interval_ends_at_one(a: Binary32)
    ensures
        a.in_unit_interval() <==> (a.bits < 0x8000_0000 && a.bits <= 0x3f80_0000) || a.bits
            == 0x8000_0000,
        a.positive() <==> 0 < a.bits && a.bits <= 0x7f80_0000,
        a.is_zero_spec() <==> a.bits % 0x8000_0000 == 0,
        a.is_nan_spec() <==> a.bits % 0x8000_0000 > 0x7f80_0000,
{
}

} // verus!
