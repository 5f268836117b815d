//! AMD64 as an instruction set of the assembler.

use vstd::prelude::*;
use crate::assembler::assembler::AssemblerOutput;
use crate::assembler::ast::AST;
use crate::assembler::error::AsmError;
use crate::assembler::isa::amd64::encoder::{encode, image_of, with_items};
use crate::assembler::isa::amd64::parser::{nodes_from, nodes_view, parse};
use crate::assembler::tokens::Token;
use crate::assembler::traits::ISA;

verus! {

/// The AMD64 instruction set.
pub struct AMD64;

impl ISA for AMD64 {
    open spec fn parses(&self, tokens: Seq<Token>, r: Result<AST, AsmError>) -> bool {
        match nodes_from(tokens, 0) {
            Ok(ns) => r is Ok && nodes_view(r->Ok_0.items@) == ns,
            Err(msg) => r matches Err(AsmError::ParserError(m)) && m@ == msg,
        }
    }

    open spec fn encodes(&self, ast: AST, r: Result<AssemblerOutput, AsmError>) -> bool {
        match with_items(ast.items@, ast.items@.len() as int) {
            Ok(img) => r is Ok && image_of(
                r->Ok_0.bytes@,
                r->Ok_0.symbols@,
                r->Ok_0.relocations@,
            ) == img,
            Err(msg) => r matches Err(AsmError::EncodeError(m)) && m@ == msg,
        }
    }

    fn parse(&self, tokens: &[Token]) -> (r: Result<AST, AsmError>) {
        parse(tokens)
    }

    fn encode(&self, ast: &AST) -> (r: Result<AssemblerOutput, AsmError>) {
        encode(ast)
    }
}

} // verus!
