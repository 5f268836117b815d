//! The assembler: a tokenizer, a parser and an encoder for a small
//! assembly language.

pub mod assembler;
pub mod ast;
pub mod error;
pub mod isa;
pub mod tokens;
pub mod traits;

pub use assembler::{assemble, try_assemble, AssemblerOutput, RelocKind, Relocation};
