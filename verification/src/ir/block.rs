//! Basic blocks.

use vstd::prelude::*;
use crate::ir::instr::{Instruction, Terminator};
use crate::ir::value::BlockId;

verus! {

/// A straight-line run of instructions that ends in one terminator. The name
/// serves diagnostics and printing only.
#[derive(Debug)]
pub struct BasicBlock {
    pub id: BlockId,
    pub name: String,
    pub instructions: Vec<Instruction>,
    pub terminator: Option<Terminator>,
}

impl BasicBlock {
    /// An empty block without a terminator.
    pub fn new(id: BlockId, name: &str) -> (r: Self)
        ensures
            r.id == id,
            r.name@ == name@,
            r.instructions@ == Seq::<Instruction>::empty(),
            r.terminator is None,
    {
        BasicBlock {
            id,
            name: name.to_owned(),
            instructions: Vec::new(),
            terminator: None,
        }
    }

    /// Whether the block has its terminator.
    pub fn is_terminated(&self) -> (r: bool)
        ensures
            r == self.terminator is Some,
    {
        self.terminator.is_some()
    }
}

} // verus!
