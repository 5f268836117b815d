//! The AMD64 instruction set.

pub mod encoder;
pub mod encoding;
pub mod isa;
pub mod parser;
pub mod tables;

pub use isa::AMD64;
