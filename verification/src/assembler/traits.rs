//! What an instruction set gives the assembler.

use vstd::prelude::*;
use crate::assembler::assembler::AssemblerOutput;
use crate::assembler::ast::AST;
use crate::assembler::error::AsmError;
use crate::assembler::tokens::Token;

verus! {

/// An instruction set: a parser for its assembly language and an encoder
/// for its instructions. Each says, as a relation between input and
/// result, what it may return.
pub trait ISA {
    /// Whether `r` is a result of parsing `tokens`.
    spec fn parses(&self, tokens: Seq<Token>, r: Result<AST, AsmError>) -> bool;

    /// Whether `r` is a result of encoding `ast`.
    spec fn encodes(&self, ast: AST, r: Result<AssemblerOutput, AsmError>) -> bool;

    /// Parses the tokens of a source.
    fn parse(&self, tokens: &[Token]) -> (r: Result<AST, AsmError>)
        ensures
            self.parses(tokens@, r),
    ;

    /// Encodes a parsed source.
    fn encode(&self, ast: &AST) -> (r: Result<AssemblerOutput, AsmError>)
        ensures
            self.encodes(*ast, r),
    ;
}

} // verus!
