//! The tree-shaped program that lowering starts from.

use vstd::prelude::*;
use crate::ir::instr::FloatConst;

verus! {

/// The version of the source tree format that lowering reads.
pub const SOCKET_VERSION: u32 = 3;

/// Whether a source tree of the version `version` can be lowered: the
/// version must be the one that lowering reads.
pub fn is_supported_version(version: u32) -> (r: bool)
    ensures
        r == (version == SOCKET_VERSION),
{
    version == SOCKET_VERSION
}

/// A program: named global constants and functions.
#[derive(Debug)]
pub struct Program {
    pub globals: Vec<GlobalConst>,
    pub functions: Vec<Function>,
}

/// A global constant. Its initializer must be evaluable at compile time.
#[derive(Debug)]
pub struct GlobalConst {
    pub name: String,
    pub ty: TypeRef,
    pub init: Expr,
}

/// A function: its name, parameters, return type and statements.
#[derive(Debug)]
pub struct Function {
    pub name: String,
    pub parameters: Vec<Parameter>,
    pub return_type: TypeRef,
    pub body: Vec<Stmt>,
}

/// A parameter of a function.
#[derive(Debug)]
pub struct Parameter {
    pub name: String,
    pub ty: TypeRef,
}

/// A type as the source writes it.
#[derive(Debug)]
pub enum TypeRef {
    Void,
    Bool,
    Int { bits: u16, signed: bool },
    Float { bits: u16 },
    Ptr(Box<TypeRef>),
    Array { elem: Box<TypeRef>, len: u64 },
    Opaque(String),
}

impl Clone for TypeRef {
    fn clone(&self) -> (r: Self)
        ensures
            r == *self,
        decreases self,
    {
        match self {
            TypeRef::Void => TypeRef::Void,
            TypeRef::Bool => TypeRef::Bool,
            TypeRef::Int { bits, signed } => TypeRef::Int { bits: *bits, signed: *signed },
            TypeRef::Float { bits } => TypeRef::Float { bits: *bits },
            TypeRef::Ptr(inner) => {
                let c: TypeRef = (**inner).clone();
                TypeRef::Ptr(Box::new(c))
            },
            TypeRef::Array { elem, len } => {
                let c: TypeRef = (**elem).clone();
                TypeRef::Array { elem: Box::new(c), len: *len }
            },
            TypeRef::Opaque(name) => TypeRef::Opaque(name.clone()),
        }
    }
}

/// A statement.
#[allow(inconsistent_fields)]
#[derive(Debug)]
pub enum Stmt {
    Return(Option<Expr>),
    ConstDecl { name: String, ty: TypeRef, init: Expr },
    VarDecl { name: String, ty: TypeRef, init: Option<Expr> },
    Assign { name: String, value: Expr },
    ExprStmt(Expr),
    If { cond: Expr, then_body: Vec<Stmt>, else_body: Vec<Stmt> },
    While { cond: Expr, body: Vec<Stmt> },
    Break,
    Continue,
}

/// An expression.
#[allow(inconsistent_fields)]
#[derive(Debug)]
pub enum Expr {
    Var(String),
    Lit(Lit),
    Binary { left: Box<Expr>, op: BinOpRef, right: Box<Expr> },
    Cmp { left: Box<Expr>, op: CmpOpRef, right: Box<Expr> },
}

/// A comparison of the source.
#[derive(Copy, Clone, Debug, PartialEq, Eq, Structural)]
pub enum CmpOpRef {
    Eq,
    Ne,
    Lt,
    Le,
    Gt,
    Ge,
}

/// A literal. An integer literal states its width and signedness; a
/// floating-point literal states its width.
#[allow(inconsistent_fields)]
#[derive(Debug)]
pub enum Lit {
    Bool(bool),
    Int { bits: u16, signed: bool, value: i128 },
    Float { bits: u16, value: FloatConst },
}

/// A binary arithmetic operation of the source.
#[derive(Copy, Clone, Debug, PartialEq, Eq, Structural)]
pub enum BinOpRef {
    Add,
    Sub,
    Mul,
}

} // verus!
