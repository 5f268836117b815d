//! The tree that the parser builds and the encoder reads.

use vstd::prelude::*;

verus! {

/// A parsed source: its items in order.
#[derive(Debug, Clone)]
pub struct AST {
    pub items: Vec<ASTNode>,
}

/// One item of a source.
#[derive(Debug, Clone)]
pub enum ASTNode {
    Instruction(Instruction),
    Directive(Directive),
    Label(String),
    Section(String),
    Global(String),
    Extern(String),
}

/// An instruction: its mnemonic and operands.
#[derive(Debug, Clone)]
pub struct Instruction {
    pub mnemonic: String,
    pub operands: Vec<Operand>,
}

/// A data directive: its name and values.
#[derive(Debug, Clone)]
pub struct Directive {
    pub name: String,
    pub values: Vec<DirectiveValue>,
}

/// A value of a data directive.
#[derive(Debug, Clone)]
pub enum DirectiveValue {
    Number(i64),
    StringLiteral(String),
    Identifier(String),
}

/// An operand of an instruction.
#[derive(Debug, Clone)]
pub enum Operand {
    Register(String),
    Immediate(i64),
    Label(String),
    Memory(MemoryOperand),
}

/// A memory operand: `[base + index * scale + disp]`.
#[derive(Debug, Clone)]
pub struct MemoryOperand {
    pub base: Option<String>,
    pub index: Option<String>,
    pub scale: u8,
    pub disp: i64,
}

} // verus!
