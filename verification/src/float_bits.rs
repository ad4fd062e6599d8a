//! Numbers with a fractional part, carried as bits.

use vstd::prelude::*;

verus! {

/// A number with a fractional part, held as the 64 bits of its IEEE 754
/// double-precision form. The library stores such numbers and never computes
/// with them.
#[derive(Debug, Clone, Copy, PartialEq, Eq, Structural)]
pub struct FloatBits {
    /// The bits of the number.
    pub bits: u64,
}

impl FloatBits {
    /// The number with the given bits.
    pub fn from_bits(bits: u64) -> (number: FloatBits)
        ensures
            number.bits == bits,
    {
        FloatBits { bits }
    }

    /// The bits of this number.
    pub fn to_bits(self) -> (bits: u64)
        ensures
            bits == self.bits,
    {
        self.bits
    }
}

} // verus!
