//! The SIB byte.

use vstd::prelude::*;

verus! {

/// The fields of a SIB byte: the scale, the index register and the base
/// register.
#[derive(Debug, Clone)]
pub struct SIB {
    pub scale: u8,
    pub index: u8,
    pub base: u8,
}

impl SIB {
    /// A SIB byte with the given fields.
    pub fn new(scale: u8, index: u8, base: u8) -> (r: Self)
        ensures
            r.scale == scale,
            r.index == index,
            r.base == base,
    {
        SIB { scale, index, base }
    }

    /// The byte: the low two bits of the scale in bits 7 and 6, the low
    /// three bits of the index in bits 5 to 3, and the low three bits of the
    /// base in bits 2 to 0.
    pub open spec fn byte(&self) -> int {
        (self.scale % 4) * 64 + (self.index % 8) * 8 + (self.base % 8)
    }

    /// Packs the fields into the byte.
    pub fn encode(&self) -> (b: u8)
        ensures
            b == self.byte(),
    {
        let s = self.scale;
        let i = self.index;
        let x = self.base;
        assert((((s & 3) << 6) | ((i & 7) << 3) | (x & 7)) == (s % 4) * 64 + (i % 8) * 8 + (x % 8))
            by (bit_vector);
        ((s & 3) << 6) | ((i & 7) << 3) | (x & 7)
    }
}

} // verus!
