//! The ModRM byte.

use vstd::prelude::*;

verus! {

/// The fields of a ModRM byte: the addressing mode, the register field and
/// the register-or-memory field.
#[derive(Debug, Clone)]
pub struct ModRM {
    pub mod_bits: u8,
    pub reg: u8,
    pub rm: u8,
}

impl ModRM {
    /// A ModRM byte with the given fields.
    pub fn new(mod_bits: u8, reg: u8, rm: u8) -> (r: Self)
        ensures
            r.mod_bits == mod_bits,
            r.reg == reg,
            r.rm == rm,
    {
        ModRM { mod_bits, reg, rm }
    }

    /// The byte: the low two bits of the mode in bits 7 and 6, the low three
    /// bits of the register field in bits 5 to 3, and the low three bits of
    /// the register-or-memory field in bits 2 to 0.
    pub open spec fn byte(&self) -> int {
        (self.mod_bits % 4) * 64 + (self.reg % 8) * 8 + (self.rm % 8)
    }

    /// Packs the fields into the byte.
    pub fn encode(&self) -> (b: u8)
        ensures
            b == self.byte(),
    {
        let m = self.mod_bits;
        let r = self.reg;
        let x = self.rm;
        assert(((m << 6) | ((r & 7) << 3) | (x & 7)) == (m % 4) * 64 + (r % 8) * 8 + (x % 8))
            by (bit_vector);
        (m << 6) | ((r & 7) << 3) | (x & 7)
    }
}

} // verus!
