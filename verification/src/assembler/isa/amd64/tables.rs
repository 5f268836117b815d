//! The registers and mnemonics of the instruction set.

use vstd::prelude::*;
use crate::strings::str_eq;

verus! {

/// The number of the 64-bit general-purpose register `name`, if it names
/// one.
pub open spec fn reg64(name: Seq<char>) -> Option<u8> {
    if name == "rax"@ {
        Some(0u8)
    } else if name == "rcx"@ {
        Some(1u8)
    } else if name == "rdx"@ {
        Some(2u8)
    } else if name == "rbx"@ {
        Some(3u8)
    } else if name == "rsp"@ {
        Some(4u8)
    } else if name == "rbp"@ {
        Some(5u8)
    } else if name == "rsi"@ {
        Some(6u8)
    } else if name == "rdi"@ {
        Some(7u8)
    } else if name == "r8"@ {
        Some(8u8)
    } else if name == "r9"@ {
        Some(9u8)
    } else if name == "r10"@ {
        Some(10u8)
    } else if name == "r11"@ {
        Some(11u8)
    } else if name == "r12"@ {
        Some(12u8)
    } else if name == "r13"@ {
        Some(13u8)
    } else if name == "r14"@ {
        Some(14u8)
    } else if name == "r15"@ {
        Some(15u8)
    } else {
        None
    }
}

/// The number of the 32-bit general-purpose register `name`, if it names
/// one.
pub open spec fn reg32(name: Seq<char>) -> Option<u8> {
    if name == "eax"@ {
        Some(0u8)
    } else if name == "ecx"@ {
        Some(1u8)
    } else if name == "edx"@ {
        Some(2u8)
    } else if name == "ebx"@ {
        Some(3u8)
    } else if name == "esp"@ {
        Some(4u8)
    } else if name == "ebp"@ {
        Some(5u8)
    } else if name == "esi"@ {
        Some(6u8)
    } else if name == "edi"@ {
        Some(7u8)
    } else if name == "r8d"@ {
        Some(8u8)
    } else if name == "r9d"@ {
        Some(9u8)
    } else if name == "r10d"@ {
        Some(10u8)
    } else if name == "r11d"@ {
        Some(11u8)
    } else if name == "r12d"@ {
        Some(12u8)
    } else if name == "r13d"@ {
        Some(13u8)
    } else if name == "r14d"@ {
        Some(14u8)
    } else if name == "r15d"@ {
        Some(15u8)
    } else {
        None
    }
}

/// The number of the register `name` among the registers of `mode` bits.
/// Only the 64-bit and the 32-bit registers can be looked up.
pub open spec fn reg_number(name: Seq<char>, mode: u8) -> Option<u8> {
    if mode == 64 {
        reg64(name)
    } else if mode == 32 {
        reg32(name)
    } else {
        None
    }
}

/// Looks a 64-bit register up by name.
pub fn lookup_reg64(name: &str) -> (r: Option<u8>)
    ensures
        r == reg64(name@),
{
    if str_eq(name, "rax") {
        Some(0)
    } else if str_eq(name, "rcx") {
        Some(1)
    } else if str_eq(name, "rdx") {
        Some(2)
    } else if str_eq(name, "rbx") {
        Some(3)
    } else if str_eq(name, "rsp") {
        Some(4)
    } else if str_eq(name, "rbp") {
        Some(5)
    } else if str_eq(name, "rsi") {
        Some(6)
    } else if str_eq(name, "rdi") {
        Some(7)
    } else if str_eq(name, "r8") {
        Some(8)
    } else if str_eq(name, "r9") {
        Some(9)
    } else if str_eq(name, "r10") {
        Some(10)
    } else if str_eq(name, "r11") {
        Some(11)
    } else if str_eq(name, "r12") {
        Some(12)
    } else if str_eq(name, "r13") {
        Some(13)
    } else if str_eq(name, "r14") {
        Some(14)
    } else if str_eq(name, "r15") {
        Some(15)
    } else {
        None
    }
}

/// Looks a 32-bit register up by name.
pub fn lookup_reg32(name: &str) -> (r: Option<u8>)
    ensures
        r == reg32(name@),
{
    if str_eq(name, "eax") {
        Some(0)
    } else if str_eq(name, "ecx") {
        Some(1)
    } else if str_eq(name, "edx") {
        Some(2)
    } else if str_eq(name, "ebx") {
        Some(3)
    } else if str_eq(name, "esp") {
        Some(4)
    } else if str_eq(name, "ebp") {
        Some(5)
    } else if str_eq(name, "esi") {
        Some(6)
    } else if str_eq(name, "edi") {
        Some(7)
    } else if str_eq(name, "r8d") {
        Some(8)
    } else if str_eq(name, "r9d") {
        Some(9)
    } else if str_eq(name, "r10d") {
        Some(10)
    } else if str_eq(name, "r11d") {
        Some(11)
    } else if str_eq(name, "r12d") {
        Some(12)
    } else if str_eq(name, "r13d") {
        Some(13)
    } else if str_eq(name, "r14d") {
        Some(14)
    } else if str_eq(name, "r15d") {
        Some(15)
    } else {
        None
    }
}

} // verus!
