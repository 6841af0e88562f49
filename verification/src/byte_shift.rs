use vstd::prelude::*;

verus! {

/// A reversible byte-substitution transform: every byte is shifted by a fixed
/// offset, wrapping around modulo 256.
pub struct ByteShifter {
    sugar: u8,
}

impl ByteShifter {
    /// The configured shift offset.
    pub closed spec fn spec_sugar(&self) -> u8 {
        self.sugar
    }

    /// Shifting a byte forward is addition of the offset modulo 256.
    pub open spec fn spec_encode(sugar: u8, b: u8) -> u8 {
        ((b + sugar) % 256) as u8
    }

    /// Shifting a byte back is subtraction of the offset modulo 256.
    pub open spec fn spec_decode(sugar: u8, b: u8) -> u8 {
        ((b + 256 - sugar) % 256) as u8
    }

    pub fn new(sugar: u8) -> (r: Self)
        ensures
            r.spec_sugar() == sugar,
    {
        Self { sugar }
    }

    pub fn encode(&self, b: u8) -> (r: u8)
        ensures
            r == Self::spec_encode(self.spec_sugar(), b),
    {
        if b <= 255 - self.sugar {
            b + self.sugar
        } else {
            self.sugar - (255 - b) - 1
        }
    }

    pub fn decode(&self, b: u8) -> (r: u8)
        ensures
            r == Self::spec_decode(self.spec_sugar(), b),
    {
        if b >= self.sugar {
            b - self.sugar
        } else {
            255 - (self.sugar - b) + 1
        }
    }
}

/// Decoding inverts encoding and vice versa, for every offset and byte.
pub proof fn lemma_shift_round_trip(sugar: u8, b: u8)
    ensures
        ByteShifter::spec_decode(sugar, ByteShifter::spec_encode(sugar, b)) == b,
        ByteShifter::spec_encode(sugar, ByteShifter::spec_decode(sugar, b)) == b,
{
}

} // verus!
