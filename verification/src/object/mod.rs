//! The model of a relocatable object file.

pub mod elf;
pub mod object;
pub mod reloc;
pub mod section;
pub mod symbol;

pub use object::{ObjectFile, ObjectFormat};
pub use reloc::{ObjectRelocation, RelocKind};
pub use section::{Section, SectionKind};
pub use symbol::{ObjectSymbol, SymbolBinding, SymbolVisibility};
