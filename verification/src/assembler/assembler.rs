//! What the assembler produces.

use vstd::prelude::*;
use crate::assembler::ast::AST;
use crate::assembler::error::AsmError;
use crate::assembler::tokens::{lex_from, Lexed, Scan, scan, Token, tokens_view, unexpected_text};
use crate::assembler::tokens::finish_scan;
use crate::assembler::traits::ISA;

verus! {

/// The result of assembling a source: the bytes, the labels with their
/// offsets into the bytes, and the relocations.
pub struct AssemblerOutput {
    pub bytes: Vec<u8>,
    pub symbols: Vec<(String, usize)>,
    pub relocations: Vec<Relocation>,
}

/// A place in the bytes that waits for the address of a symbol.
#[derive(Debug, Clone)]
pub struct Relocation {
    pub offset: usize,
    pub symbol: String,
    pub kind: RelocKind,
}

/// How the address is to be filled in.
#[derive(Debug, Clone, Copy, PartialEq, Eq, Structural)]
pub enum RelocKind {
    Absolute,
    Relative,
}

/// Whether `r` is a result of assembling a source whose tokens are `ts`
/// with the instruction set `isa`: the result of encoding what parsing
/// gave, or the error of parsing.
pub open spec fn assembles<I: ISA>(
    isa: I,
    ts: Seq<Token>,
    r: Result<AssemblerOutput, AsmError>,
) -> bool {
    exists|parsed: Result<AST, AsmError>|
        #![trigger isa.parses(ts, parsed)]
        isa.parses(ts, parsed) && match parsed {
            Ok(ast) => isa.encodes(ast, r),
            Err(e) => r == Err::<AssemblerOutput, AsmError>(e),
        }
}

/// What assembling `source` with `isa` may give. A character that the
/// tokenizer cannot place is a lexer error with its message; else the
/// tokens of the source are parsed and encoded.
pub open spec fn assembled<I: ISA>(
    isa: I,
    source: Seq<char>,
    r: Result<AssemblerOutput, AsmError>,
) -> bool {
    match lex_from(source, 0) {
        Lexed::Tokens(ts) => exists|tokens: Seq<Token>|
            #![trigger tokens_view(tokens)]
            tokens_view(tokens) == ts && assembles(isa, tokens, r),
        Lexed::Unexpected { ch, position } => r matches Err(AsmError::LexerError(msg)) && msg@
            == unexpected_text(ch, position),
        Lexed::BadNumber => true,
    }
}

/// Parses and encodes what a scan of `source` gave.
fn assemble_scanned<I: ISA>(scanned: Scan, isa: &I, Ghost(source): Ghost<Seq<char>>) -> (r: Result<
    AssemblerOutput,
    AsmError,
>)
    requires
        scanned.lexed() == lex_from(source, 0),
        !(scanned is BadNumber),
    ensures
        assembled(*isa, source, r),
{
    let tokens = match finish_scan(scanned) {
        Ok(t) => t,
        Err(e) => {
            return Err(AsmError::LexerError(e));
        },
    };
    let parsed = isa.parse(tokens.as_slice());
    match parsed {
        Ok(ast) => {
            let r = isa.encode(&ast);
            proof {
                assert(isa.parses(tokens@, parsed));
                assert(assembles(*isa, tokens@, r));
                assert(tokens_view(tokens@) == lex_from(source, 0)->Tokens_0);
            }
            r
        },
        Err(e) => {
            proof {
                assert(isa.parses(tokens@, parsed));
                assert(assembles(*isa, tokens@, Err::<AssemblerOutput, AsmError>(e)));
                assert(tokens_view(tokens@) == lex_from(source, 0)->Tokens_0);
            }
            Err(e)
        },
    }
}

/// Assembles a source with an instruction set: tokenizes, parses and
/// encodes. The source must hold no run of numeric characters that spells
/// no number of 64 bits.
pub fn assemble<I: ISA>(source: &str, isa: &I) -> (r: Result<AssemblerOutput, AsmError>)
    requires
        !(lex_from(source@, 0) is BadNumber),
    ensures
        assembled(*isa, source@, r),
{
    assemble_scanned(scan(source), isa, Ghost(source@))
}

/// Assembles a source with an instruction set, or gives nothing where the
/// source holds a run of numeric characters that spells no number of 64
/// bits.
pub fn try_assemble<I: ISA>(source: &str, isa: &I) -> (r: Option<Result<AssemblerOutput, AsmError>>)
    ensures
        r is None <==> lex_from(source@, 0) is BadNumber,
        r matches Some(out) ==> assembled(*isa, source@, out),
{
    let scanned = scan(source);
    match scanned {
        Scan::BadNumber => None,
        _ => Some(assemble_scanned(scanned, isa, Ghost(source@))),
    }
}

} // verus!
