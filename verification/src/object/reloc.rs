//! Relocations.

use vstd::prelude::*;

verus! {

/// How a relocation is applied.
#[derive(Debug, Clone, Copy, PartialEq, Eq, Structural)]
pub enum RelocKind {
    Absolute64,
    Relative32,
    GOTPCREL,
    PLT32,
}

/// A relocation: the place that it patches, the symbol that it refers to,
/// the addend and the kind.
#[derive(Debug, Clone)]
pub struct ObjectRelocation {
    pub section_index: usize,
    pub offset: usize,
    pub symbol: String,
    pub addend: i64,
    pub kind: RelocKind,
}

} // verus!
