//! The linker itself.

use vstd::prelude::*;
use crate::object::object::ObjectFile;

verus! {

/// The formats that the linker can produce.
pub enum OutputFormat {
    ELF64Executable,
}

/// Collects object files and links them.
pub struct Linker {
    pub objects: Vec<ObjectFile>,
    pub output_format: OutputFormat,
}

impl Linker {
    /// A linker without object files.
    pub fn new(format: OutputFormat) -> (r: Self)
        ensures
            r.objects@.len() == 0,
            r.output_format == format,
    {
        Linker { objects: Vec::new(), output_format: format }
    }

    /// Adds an object file behind those added before.
    pub fn add_object(&mut self, obj: ObjectFile)
        ensures
            final(self).objects@ == old(self).objects@.push(obj),
            final(self).output_format == old(self).output_format,
    {
        self.objects.push(obj);
    }

    /// Links the object files. Linking is not implemented yet: the result is
    /// an empty image, and the object files stay as they are.
    pub fn link(&mut self) -> (r: Result<Vec<u8>, String>)
        ensures
            r is Ok,
            r->Ok_0@.len() == 0,
            *final(self) == *old(self),
    {
        match self.output_format {
            OutputFormat::ELF64Executable => self.link_elf64(),
        }
    }

    /// Links to an ELF executable.
    pub fn link_elf64(&mut self) -> (r: Result<Vec<u8>, String>)
        ensures
            r is Ok,
            r->Ok_0@.len() == 0,
            *final(self) == *old(self),
    {
        Ok(Vec::new())
    }
}

} // verus!
