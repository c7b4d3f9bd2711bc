//! Temperatures and widths: 64-bit floats, carried by their bit patterns.

use vstd::prelude::*;

verus! {

/// The sign bit of a 64-bit float.
pub const SIGN: u64 = 0x8000_0000_0000_0000;

/// The magnitude of infinity: smaller magnitudes are finite numbers, larger
/// ones are not numbers.
pub const INFINITE: u64 = 0x7FF0_0000_0000_0000;

/// The bit pattern of one.
pub const ONE: u64 = 0x3FF0_0000_0000_0000;

/// A 64-bit float by its bit pattern. Two quantities are equal when their bit
/// patterns are.
#[derive(Clone, Copy, Debug, PartialEq, Eq, Structural)]
pub struct Quantity {
    pub bits: u64,
}

impl Quantity {
    /// Whether the sign bit is set.
    pub open spec fn signed(self) -> bool {
        self.bits >= SIGN
    }

    /// The bit pattern without the sign bit. Among numbers of one sign, the
    /// larger magnitude is further from zero.
    pub open spec fn magnitude(self) -> int {
        if self.signed() {
            self.bits - SIGN
        } else {
            self.bits as int
        }
    }

    pub open spec fn not_a_number(self) -> bool {
        self.magnitude() > INFINITE
    }

    pub open spec fn finite(self) -> bool {
        self.magnitude() < INFINITE
    }

    /// A number less than zero. Negative zero is not, nor is what is no number.
    pub open spec fn below_zero(self) -> bool {
        self.signed() && self.magnitude() != 0 && !self.not_a_number()
    }

    /// The larger of this number and zero; zero for what is no number. Either
    /// zero stands as it is.
    pub open spec fn clamped(self) -> Quantity {
        if self.below_zero() || self.not_a_number() {
            Quantity { bits: 0 }
        } else {
            self
        }
    }

    pub fn from_bits(bits: u64) -> (r: Quantity)
        ensures
            r.bits == bits,
    {
        Quantity { bits }
    }

    pub fn to_bits(self) -> (r: u64)
        ensures
            r == self.bits,
    {
        self.bits
    }

    pub fn is_below_zero(self) -> (r: bool)
        ensures
            r == self.below_zero(),
    {
        self.bits > SIGN && self.bits - SIGN <= INFINITE
    }

    pub fn at_least_zero(self) -> (r: Quantity)
        ensures
            r == self.clamped(),
            !r.below_zero(),
    {
        if self.bits > SIGN || (self.bits < SIGN && self.bits > INFINITE) {
            Quantity { bits: 0 }
        } else {
            self
        }
    }
}

} // verus!
