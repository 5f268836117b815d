//! Modules and globals.

use vstd::prelude::*;
use crate::ir::function::Function;
use crate::ir::instr::ConstValue;
use crate::ir::types::{DataLayout, Type};

verus! {

/// A named constant of the module.
#[derive(Debug)]
pub struct Global {
    pub name: String,
    pub ty: Type,
    pub init: ConstValue,
    pub align: u32,
}

/// The unit of verification and printing: a target, its data layout, and the
/// globals and functions in the order in which they were added.
#[derive(Debug)]
pub struct Module {
    pub target: String,
    pub datalayout: DataLayout,
    pub globals: Vec<Global>,
    pub functions: Vec<Function>,
}

impl Module {
    /// A module without globals or functions.
    pub fn new(target: &str, datalayout: DataLayout) -> (r: Self)
        ensures
            r.target@ == target@,
            r.datalayout == datalayout,
            r.globals@ == Seq::<Global>::empty(),
            r.functions@ == Seq::<Function>::empty(),
    {
        Module {
            target: target.to_owned(),
            datalayout,
            globals: Vec::new(),
            functions: Vec::new(),
        }
    }
}

} // verus!
