//! The six-bit value: the only legal index into a 64-entry alphabet.

use vstd::prelude::*;

verus! {

/// An integer in `[0, 63]`.
///
/// A value can only be made by masking, so the range holds by construction.
#[derive(Clone, Copy, Debug)]
pub struct U6(u8);

impl U6 {
    #[verifier::type_invariant]
    closed spec fn in_range(self) -> bool {
        self.0 < 64
    }

    /// The number that this value stands for.
    pub closed spec fn view(self) -> u8 {
        self.0
    }

    /// Keeps the low six bits of `byte` and drops the two high ones.
    pub fn from_low_six_bits(byte: u8) -> (r: U6)
        ensures
            r@ == byte & 0x3f,
            r@ < 64,
    {
        assert(byte & 0x3f < 64) by (bit_vector);
        U6(byte & 0x3f)
    }

    /// The value as a byte.
    pub fn get(self) -> (r: u8)
        ensures
            r == self@,
            r < 64,
    {
        proof {
            use_type_invariant(self);
        }
        self.0
    }
}

} // verus!
