//! Symbols.

use vstd::prelude::*;

verus! {

/// How a symbol is bound across object files.
#[derive(Debug, Clone, Copy, PartialEq, Eq, Structural)]
pub enum SymbolBinding {
    Local,
    Global,
    Weak,
}

/// How far a symbol is visible.
#[derive(Debug, Clone, Copy, PartialEq, Eq, Structural)]
pub enum SymbolVisibility {
    Default,
    Hidden,
}

/// A symbol: its name, the section that defines it if one does, its value
/// and size, its binding and its visibility.
pub struct ObjectSymbol {
    pub name: String,
    pub section_index: Option<usize>,
    pub value: u64,
    pub size: u64,
    pub binding: SymbolBinding,
    pub visibility: SymbolVisibility,
}

} // verus!
