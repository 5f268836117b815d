//! Object files.

use vstd::prelude::*;
use crate::object::elf::{elf_bytes, symbols_in_range, write_elf};
use crate::object::reloc::ObjectRelocation;
use crate::object::section::{Section, SectionKind};
use crate::object::symbol::ObjectSymbol;

verus! {

/// The file formats that an object file can be written in.
pub enum ObjectFormat {
    ELF64,
}

/// An object file: sections, symbols and relocations, in the order in
/// which they were added.
pub struct ObjectFile {
    pub format: ObjectFormat,
    pub sections: Vec<Section>,
    pub symbols: Vec<ObjectSymbol>,
    pub relocations: Vec<ObjectRelocation>,
}

impl ObjectFile {
    /// An object file without sections, symbols or relocations.
    pub fn new(format: ObjectFormat) -> (r: Self)
        ensures
            r.format == format,
            r.sections@.len() == 0,
            r.symbols@.len() == 0,
            r.relocations@.len() == 0,
    {
        ObjectFile {
            format,
            sections: Vec::new(),
            symbols: Vec::new(),
            relocations: Vec::new(),
        }
    }

    /// Adds an empty section at the end and gives its index.
    pub fn add_section(&mut self, name: &str, kind: SectionKind, align: u64) -> (index: usize)
        ensures
            index == old(self).sections@.len(),
            final(self).sections@.len() == old(self).sections@.len() + 1,
            final(self).sections@.drop_last() == old(self).sections@,
            final(self).sections@.last().name@ == name@,
            final(self).sections@.last().kind == kind,
            final(self).sections@.last().data@.len() == 0,
            final(self).sections@.last().align == align,
            final(self).format == old(self).format,
            final(self).symbols == old(self).symbols,
            final(self).relocations == old(self).relocations,
    {
        self.sections.push(Section { name: name.to_owned(), kind, data: Vec::new(), align });
        assert(self.sections@.drop_last() =~= old(self).sections@);
        self.sections.len() - 1
    }

    /// Whether every symbol that a section defines names a section of the
    /// object file, so that the object file can be written.
    pub fn can_write(&self) -> (r: bool)
        ensures
            r == symbols_in_range(*self),
    {
        let n = self.sections.len();
        let mut k: usize = 0;
        while k < self.symbols.len()
            invariant
                k <= self.symbols@.len(),
                n == self.sections@.len(),
                forall|j: int|
                    0 <= j < k ==> ((#[trigger] self.symbols@[j]).section_index matches Some(i)
                        ==> i < self.sections@.len()),
            decreases self.symbols@.len() - k,
        {
            match self.symbols[k].section_index {
                Some(i) => {
                    if i >= n {
                        return false;
                    }
                },
                None => {},
            }
            k += 1;
        }
        true
    }

    /// The bytes of the object file in its format. Every symbol that a
    /// section defines must name a section of the object file.
    pub fn write(&self) -> (r: Result<Vec<u8>, String>)
        requires
            symbols_in_range(*self),
        ensures
            r is Ok,
            r->Ok_0@ == elf_bytes(*self),
    {
        match self.format {
            ObjectFormat::ELF64 => write_elf(self),
        }
    }
}

} // verus!
