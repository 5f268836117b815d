//! The errors of the assembler.

use vstd::prelude::*;
use vstd::string::StringExecFns;

verus! {

/// Why assembling fails, with a message.
#[derive(Debug, Clone)]
pub enum AsmError {
    LexerError(String),
    ParserError(String),
    EncodeError(String),
    SymbolError(String),
    UnexpectedToken(String),
}

impl AsmError {
    /// The text of the error: what kind it is, then its message.
    pub open spec fn text(self) -> Seq<char> {
        match self {
            AsmError::LexerError(s) => "Lexer error: "@ + s@,
            AsmError::ParserError(s) => "Parser error: "@ + s@,
            AsmError::EncodeError(s) => "Encode error: "@ + s@,
            AsmError::SymbolError(s) => "Symbol error: "@ + s@,
            AsmError::UnexpectedToken(s) => "Unexpected token: "@ + s@,
        }
    }

    /// The text of the error.
    pub fn to_text(&self) -> (r: String)
        ensures
            r@ == self.text(),
    {
        match self {
            AsmError::LexerError(s) => {
                let mut r = String::from_str("Lexer error: ");
                r.append(s.as_str());
                r
            },
            AsmError::ParserError(s) => {
                let mut r = String::from_str("Parser error: ");
                r.append(s.as_str());
                r
            },
            AsmError::EncodeError(s) => {
                let mut r = String::from_str("Encode error: ");
                r.append(s.as_str());
                r
            },
            AsmError::SymbolError(s) => {
                let mut r = String::from_str("Symbol error: ");
                r.append(s.as_str());
                r
            },
            AsmError::UnexpectedToken(s) => {
                let mut r = String::from_str("Unexpected token: ");
                r.append(s.as_str());
                r
            },
        }
    }
}

} // verus!
