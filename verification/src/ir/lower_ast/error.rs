//! Why lowering fails.

use vstd::prelude::*;
use crate::ir::instr::FloatConst;
use crate::ir::lower_ast::frontend::BinOpRef;
use crate::ir::types::{Type, TypeV};

verus! {

/// The reasons for which lowering rejects a program. Lowering stops at the
/// first of them.
#[derive(Debug)]
pub enum LowerError {
    UnsupportedType(String),
    UnknownVariable(String),
    TypeMismatch { expected: Type, got: Type },
    MissingInit(String),
    UnsupportedStmt,
    UnsupportedExpr,
    BreakOutsideLoop,
    ContinueOutsideLoop,
    DuplicateGlobal(String),
    AssignToConst(String),
    NonConstExpr,
    /// A constant expression needs the sum, the difference or the product of
    /// two floating-point constants. The library does not compute with
    /// floating-point numbers: the caller works the result out and hands it
    /// in with the next attempt.
    FloatArithmetic { op: BinOpRef, left: FloatConst, right: FloatConst },
}

/// The mathematical value of a [`LowerError`].
pub enum LowerErrorV {
    UnsupportedType(Seq<char>),
    UnknownVariable(Seq<char>),
    TypeMismatch { expected: TypeV, got: TypeV },
    MissingInit(Seq<char>),
    UnsupportedStmt,
    UnsupportedExpr,
    BreakOutsideLoop,
    ContinueOutsideLoop,
    DuplicateGlobal(Seq<char>),
    AssignToConst(Seq<char>),
    NonConstExpr,
    FloatArithmetic { op: BinOpRef, left: FloatConst, right: FloatConst },
}

impl View for LowerError {
    type V = LowerErrorV;

    open spec fn view(&self) -> LowerErrorV {
        match self {
            LowerError::UnsupportedType(s) => LowerErrorV::UnsupportedType(s@),
            LowerError::UnknownVariable(s) => LowerErrorV::UnknownVariable(s@),
            LowerError::TypeMismatch { expected, got } => LowerErrorV::TypeMismatch {
                expected: expected@,
                got: got@,
            },
            LowerError::MissingInit(s) => LowerErrorV::MissingInit(s@),
            LowerError::UnsupportedStmt => LowerErrorV::UnsupportedStmt,
            LowerError::UnsupportedExpr => LowerErrorV::UnsupportedExpr,
            LowerError::BreakOutsideLoop => LowerErrorV::BreakOutsideLoop,
            LowerError::ContinueOutsideLoop => LowerErrorV::ContinueOutsideLoop,
            LowerError::DuplicateGlobal(s) => LowerErrorV::DuplicateGlobal(s@),
            LowerError::AssignToConst(s) => LowerErrorV::AssignToConst(s@),
            LowerError::NonConstExpr => LowerErrorV::NonConstExpr,
            LowerError::FloatArithmetic { op, left, right } => LowerErrorV::FloatArithmetic {
                op: *op,
                left: *left,
                right: *right,
            },
        }
    }
}

} // verus!
