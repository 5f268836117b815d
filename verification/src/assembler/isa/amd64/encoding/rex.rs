//! The REX prefix.

use vstd::prelude::*;

verus! {

/// The four flags of a REX prefix.
#[derive(Debug, Clone)]
pub struct REX {
    pub w: bool,
    pub r: bool,
    pub x: bool,
    pub b: bool,
}

/// One where the flag is set, zero where it is not.
pub open spec fn bit(flag: bool) -> int {
    if flag {
        1
    } else {
        0
    }
}

impl REX {
    /// A prefix with no flag set.
    pub fn new() -> (r: Self)
        ensures
            !r.w && !r.r && !r.x && !r.b,
    {
        REX { w: false, r: false, x: false, b: false }
    }

    /// The byte: `0100` in the high four bits, then the flags W, R, X and B
    /// from bit 3 down to bit 0.
    pub open spec fn byte(&self) -> int {
        0x40 + 8 * bit(self.w) + 4 * bit(self.r) + 2 * bit(self.x) + bit(self.b)
    }

    /// Packs the flags into the byte.
    pub fn encode(&self) -> (b: u8)
        ensures
            b == self.byte(),
    {
        let w: u8 = if self.w { 1 } else { 0 };
        let r: u8 = if self.r { 1 } else { 0 };
        let x: u8 = if self.x { 1 } else { 0 };
        let b: u8 = if self.b { 1 } else { 0 };
        assert((0x40u8 | (w << 3) | (r << 2) | (x << 1) | b) == 0x40 + 8 * w + 4 * r + 2 * x + b)
            by (bit_vector)
            requires
                w <= 1,
                r <= 1,
                x <= 1,
                b <= 1,
        ;
        0x40u8 | (w << 3) | (r << 2) | (x << 1) | b
    }
}

} // verus!
