//! Sections.

use vstd::prelude::*;

verus! {

/// What a section holds.
#[derive(Debug, Clone, Copy, PartialEq, Eq, Structural)]
pub enum SectionKind {
    Text,
    Data,
    Bss,
    ReadOnlyData,
}

/// A section: its name, kind, bytes and alignment.
pub struct Section {
    pub name: String,
    pub kind: SectionKind,
    pub data: Vec<u8>,
    pub align: u64,
}

} // verus!
