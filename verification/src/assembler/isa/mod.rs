//! The instruction sets that the assembler knows.

pub mod amd64;

pub use amd64::AMD64;
