//! The encoding of a memory operand.

use vstd::prelude::*;
use vstd::string::StringExecFns;
use crate::assembler::ast::MemoryOperand;
use crate::assembler::error::AsmError;
use crate::assembler::isa::amd64::encoding::modrm::ModRM;
use crate::assembler::isa::amd64::encoding::sib::SIB;
use crate::assembler::isa::amd64::tables::{lookup_reg32, lookup_reg64, reg64, reg_number};
use crate::bytes::{le_bytes, push_le, twos_complement, unsigned_form};
use crate::strings::str_eq;

verus! {

/// An encoded memory operand: the ModRM byte, the SIB byte if there is one,
/// and the displacement of one or four bytes if there is one.
#[derive(Debug, Clone)]
pub struct EncodedAddress {
    pub modrm: ModRM,
    pub sib: Option<SIB>,
    pub disp: Option<Vec<u8>>,
}

/// The number of the register `name` among the registers of `mode` bits.
pub fn reg_code(name: &str, mode: u8) -> (r: Option<u8>)
    ensures
        r == reg_number(name@, mode),
{
    if mode == 64 {
        lookup_reg64(name)
    } else if mode == 32 {
        lookup_reg32(name)
    } else {
        None
    }
}

/// What a memory operand with the base register `base` and the
/// displacement `disp` encodes to, with `reg` in the register field of the
/// ModRM byte: the mode says how many displacement bytes follow. Without a
/// displacement there are none, but for `rbp`, which cannot be encoded
/// without one and gets a single zero byte. A displacement that fits in a
/// signed byte takes one byte, any other four.
pub open spec fn encoded_base(
    base: Seq<char>,
    code: u8,
    disp: i64,
    reg: u8,
) -> (u8, Option<Seq<u8>>) {
    if disp == 0 {
        if base == "rbp"@ {
            (1u8, Some(seq![0u8]))
        } else {
            (0u8, None)
        }
    } else if -128 <= disp <= 127 {
        (1u8, Some(le_bytes(twos_complement(disp as int, 8), 1)))
    } else {
        (2u8, Some(le_bytes(twos_complement(disp as int, 32), 4)))
    }
}

/// The lowest `n` bytes of the two's-complement form of `v` in `bits`
/// bits.
fn displacement(v: i64, bits: u32, n: usize) -> (r: Vec<u8>)
    requires
        bits == 8 || bits == 32,
        n <= 8,
    ensures
        r@ == le_bytes(twos_complement(v as int, bits as nat), n as nat),
{
    let mut r: Vec<u8> = Vec::new();
    push_le(&mut r, unsigned_form(v, bits), n);
    assert(r@ =~= le_bytes(twos_complement(v as int, bits as nat), n as nat));
    r
}

/// Encodes a memory operand with `reg_for_reg_field` in the register field
/// of the ModRM byte. The operand needs a 64-bit base register; an index
/// register and a scale are not looked at.
pub fn encode_address(mem: &MemoryOperand, reg_for_reg_field: u8) -> (r: Result<
    EncodedAddress,
    AsmError,
>)
    ensures
        match mem.base {
            None => r matches Err(AsmError::EncodeError(msg)) && msg@
                == "Complex memory addressing not yet implemented"@,
            Some(b) => match reg64(b@) {
                None => r matches Err(AsmError::EncodeError(msg)) && msg@
                    == "Invalid base register"@,
                Some(code) => {
                    let want = encoded_base(b@, code, mem.disp, reg_for_reg_field);
                    &&& r is Ok
                    &&& r->Ok_0.modrm.mod_bits == want.0
                    &&& r->Ok_0.modrm.reg == reg_for_reg_field
                    &&& r->Ok_0.modrm.rm == code
                    &&& r->Ok_0.sib is None
                    &&& match want.1 {
                        None => r->Ok_0.disp is None,
                        Some(bytes) => r->Ok_0.disp is Some && r->Ok_0.disp->Some_0@ == bytes,
                    }
                },
            },
        },
{
    let disp = mem.disp;
    match &mem.base {
        Some(b) => {
            let base_code = match reg_code(b.as_str(), 64) {
                Some(c) => c,
                None => {
                    return Err(AsmError::EncodeError(String::from_str("Invalid base register")));
                },
            };
            if str_eq(b.as_str(), "rbp") && disp == 0 {
                let mut zero: Vec<u8> = Vec::new();
                zero.push(0);
                return Ok(
                    EncodedAddress {
                        modrm: ModRM::new(1, reg_for_reg_field, base_code),
                        sib: None,
                        disp: Some(zero),
                    },
                );
            }
            if disp == 0 {
                return Ok(
                    EncodedAddress {
                        modrm: ModRM::new(0, reg_for_reg_field, base_code),
                        sib: None,
                        disp: None,
                    },
                );
            }
            if disp >= -128 && disp <= 127 {
                return Ok(
                    EncodedAddress {
                        modrm: ModRM::new(1, reg_for_reg_field, base_code),
                        sib: None,
                        disp: Some(displacement(disp, 8, 1)),
                    },
                );
            }
            Ok(
                EncodedAddress {
                    modrm: ModRM::new(2, reg_for_reg_field, base_code),
                    sib: None,
                    disp: Some(displacement(disp, 32, 4)),
                },
            )
        },
        None => Err(
            AsmError::EncodeError(
                String::from_str("Complex memory addressing not yet implemented"),
            ),
        ),
    }
}

} // verus!
