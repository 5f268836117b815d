//! A small compiler backend: a typed control-flow-graph intermediate
//! representation with its builder, structural verifier, lowering pipeline and
//! printer, beside an assembler front end, an object-file model and a linker
//! skeleton.

pub mod assembler;
pub mod bytes;
pub mod ir;
pub mod linker;
pub mod object;
mod strings;
