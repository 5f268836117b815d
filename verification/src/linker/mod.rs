//! The linker.

pub mod layout;
pub mod linker;
pub mod symbol_table;

pub use layout::Layout;
pub use linker::{Linker, OutputFormat};
pub use symbol_table::{ResolvedSymbol, SymbolTable};
