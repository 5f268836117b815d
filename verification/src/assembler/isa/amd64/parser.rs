//! The parser: from tokens to the tree.
//!
//! The language has no line ends. A word followed by a colon is a label. A
//! word that names a data directive begins a directive, which takes every
//! number, string and word that follows, with or without commas between
//! them. Any other word begins an instruction, which takes operands as long
//! as commas follow them.

use vstd::prelude::*;
use vstd::string::StringExecFns;
use crate::assembler::ast::{
    AST, ASTNode, Directive, DirectiveValue, Instruction, MemoryOperand, Operand,
};
use crate::assembler::error::AsmError;
use crate::assembler::tokens::{Token, TokenKind};
use crate::strings::str_eq;

verus! {

/// The mathematical value of an item of the tree.
pub enum NodeV {
    Instruction { mnemonic: String, operands: Seq<Operand> },
    Directive { name: String, values: Seq<DirectiveValue> },
    Label(String),
    Section(String),
    Global(String),
    Extern(String),
}

impl View for ASTNode {
    type V = NodeV;

    open spec fn view(&self) -> NodeV {
        match self {
            ASTNode::Instruction(i) => NodeV::Instruction {
                mnemonic: i.mnemonic,
                operands: i.operands@,
            },
            ASTNode::Directive(d) => NodeV::Directive { name: d.name, values: d.values@ },
            ASTNode::Label(s) => NodeV::Label(*s),
            ASTNode::Section(s) => NodeV::Section(*s),
            ASTNode::Global(s) => NodeV::Global(*s),
            ASTNode::Extern(s) => NodeV::Extern(*s),
        }
    }
}

/// The values of the items `items`, in order.
pub open spec fn nodes_view(items: Seq<ASTNode>) -> Seq<NodeV> {
    Seq::new(items.len(), |i: int| items[i]@)
}

/// The names that the parser takes for registers.
pub open spec fn is_register_name(s: Seq<char>) -> bool {
    s == "rax"@ || s == "rbx"@ || s == "rcx"@ || s == "rdx"@ || s == "rsi"@ || s == "rdi"@ || s
        == "rbp"@ || s == "rsp"@ || s == "r8"@ || s == "r9"@ || s == "r10"@ || s == "r11"@ || s
        == "r12"@ || s == "r13"@ || s == "r14"@ || s == "r15"@ || s == "eax"@ || s == "ebx"@
        || s == "ecx"@ || s == "edx"@ || s == "esi"@ || s == "edi"@ || s == "dbp"@ || s
        == "esp"@ || s == "ax"@ || s == "bx"@ || s == "cx"@ || s == "dx"@ || s == "si"@ || s
        == "di"@ || s == "bp"@ || s == "sp"@ || s == "al"@ || s == "bl"@ || s == "cl"@ || s
        == "dl"@ || s == "ah"@ || s == "bh"@ || s == "ch"@ || s == "dh"@
}

/// The names of the data directives.
pub open spec fn is_directive_name(s: Seq<char>) -> bool {
    s == "db"@ || s == "dw"@ || s == "dd"@ || s == "dq"@
}

/// Whether `name` is taken for a register.
pub fn is_register(name: &str) -> (r: bool)
    ensures
        r == is_register_name(name@),
{
    str_eq(name, "rax") || str_eq(name, "rbx") || str_eq(name, "rcx") || str_eq(name, "rdx")
        || str_eq(name, "rsi") || str_eq(name, "rdi") || str_eq(name, "rbp") || str_eq(
        name,
        "rsp",
    ) || str_eq(name, "r8") || str_eq(name, "r9") || str_eq(name, "r10") || str_eq(name, "r11")
        || str_eq(name, "r12") || str_eq(name, "r13") || str_eq(name, "r14") || str_eq(
        name,
        "r15",
    ) || str_eq(name, "eax") || str_eq(name, "ebx") || str_eq(name, "ecx") || str_eq(name, "edx")
        || str_eq(name, "esi") || str_eq(name, "edi") || str_eq(name, "dbp") || str_eq(
        name,
        "esp",
    ) || str_eq(name, "ax") || str_eq(name, "bx") || str_eq(name, "cx") || str_eq(name, "dx")
        || str_eq(name, "si") || str_eq(name, "di") || str_eq(name, "bp") || str_eq(name, "sp")
        || str_eq(name, "al") || str_eq(name, "bl") || str_eq(name, "cl") || str_eq(name, "dl")
        || str_eq(name, "ah") || str_eq(name, "bh") || str_eq(name, "ch") || str_eq(name, "dh")
}

/// Whether `name` is the name of a data directive.
pub fn is_directive(name: &str) -> (r: bool)
    ensures
        r == is_directive_name(name@),
{
    str_eq(name, "db") || str_eq(name, "dw") || str_eq(name, "dd") || str_eq(name, "dq")
}

/// What the parser has seen of a memory operand: the registers, the
/// displacement summed so far, and whether a minus sign waits for its
/// number.
pub struct Mem {
    pub base: Option<String>,
    pub index: Option<String>,
    pub disp: i64,
    pub negative: bool,
}

/// The memory operand that goes with what was seen.
pub open spec fn memory_of(m: Mem) -> Operand {
    Operand::Memory(MemoryOperand { base: m.base, index: m.index, scale: 1, disp: m.disp })
}

/// The memory operand that the tokens from `pos` on complete, or the
/// message of the error, and the number of tokens taken.
///
/// The first register is the base, the second the index; a third is an
/// error. A word that is no register ends the operand, which is then
/// empty. Numbers add to the displacement, with the sign that stands in
/// front of them; the sum wraps at 64 bits. A closing bracket ends the
/// operand and is taken; a comma ends it and is left.
pub open spec fn memory_from(tokens: Seq<Token>, pos: int, m: Mem) -> (
    Result<Operand, Seq<char>>,
    nat,
)
    decreases tokens.len() - pos,
{
    if pos < 0 || pos >= tokens.len() {
        (Ok(memory_of(m)), 0)
    } else {
        match tokens[pos].kind {
            TokenKind::Identifier(name) => if is_register_name(name@) {
                if m.base is None {
                    let r = memory_from(tokens, pos + 1, Mem { base: Some(name), ..m });
                    (r.0, r.1 + 1)
                } else if m.index is None {
                    let r = memory_from(tokens, pos + 1, Mem { index: Some(name), ..m });
                    (r.0, r.1 + 1)
                } else {
                    (Err("Too many registers in memory operand"@), 1)
                }
            } else {
                (
                    Ok(
                        Operand::Memory(
                            MemoryOperand { base: None, index: None, scale: 1, disp: 0 },
                        ),
                    ),
                    1,
                )
            },
            TokenKind::Number(n) => {
                let val = if m.negative {
                    0i64.wrapping_sub(n)
                } else {
                    n
                };
                let r = memory_from(
                    tokens,
                    pos + 1,
                    Mem { disp: m.disp.wrapping_add(val), negative: false, ..m },
                );
                (r.0, r.1 + 1)
            },
            TokenKind::Plus => {
                let r = memory_from(tokens, pos + 1, Mem { negative: false, ..m });
                (r.0, r.1 + 1)
            },
            TokenKind::Minus => {
                let r = memory_from(tokens, pos + 1, Mem { negative: true, ..m });
                (r.0, r.1 + 1)
            },
            TokenKind::RBracket => (Ok(memory_of(m)), 1),
            TokenKind::Comma => (Ok(memory_of(m)), 0),
            _ => (Err("Unexpected token in memory operand"@), 0),
        }
    }
}

/// The operand that begins at `pos`, or the message of the error, and the
/// number of tokens taken behind the first.
pub open spec fn operand_at(tokens: Seq<Token>, pos: int) -> (Result<Operand, Seq<char>>, nat) {
    match tokens[pos].kind {
        TokenKind::Number(n) => (Ok(Operand::Immediate(n)), 0),
        TokenKind::Identifier(name) => if is_register_name(name@) {
            (Ok(Operand::Register(name)), 0)
        } else {
            (Ok(Operand::Label(name)), 0)
        },
        TokenKind::LBracket => memory_from(
            tokens,
            pos + 1,
            Mem { base: None, index: None, disp: 0, negative: false },
        ),
        _ => (Err("Unexpected token in operand"@), 0),
    }
}

/// The operands that begin at `pos`, separated by commas, or the message
/// of the first error, and the number of tokens taken.
pub open spec fn operands_from(tokens: Seq<Token>, pos: int) -> (
    Result<Seq<Operand>, Seq<char>>,
    nat,
)
    decreases (if pos < tokens.len() { tokens.len() - pos } else { 0 }),
{
    if pos < 0 || pos >= tokens.len() {
        (Ok(Seq::empty()), 0)
    } else {
        let first = operand_at(tokens, pos);
        match first.0 {
            Err(e) => (Err(e), 0),
            Ok(op) => {
                let next = pos + 1 + first.1;
                if next < tokens.len() && tokens[next].kind is Comma {
                    let rest = operands_from(tokens, next + 1);
                    match rest.0 {
                        Err(e) => (Err(e), 0),
                        Ok(ops) => (Ok(seq![op] + ops), first.1 + 2 + rest.1),
                    }
                } else {
                    (Ok(seq![op]), first.1 + 1)
                }
            },
        }
    }
}

/// The position behind what parsing an operand at `pos` takes, whether an
/// operand comes of it or an error: a number or a word is taken, a memory
/// operand is taken as far as it was read, and any other token is left.
pub open spec fn operand_end(tokens: Seq<Token>, pos: int) -> int {
    match tokens[pos].kind {
        TokenKind::Number(_) => pos + 1,
        TokenKind::Identifier(_) => pos + 1,
        TokenKind::LBracket => pos + 1 + memory_from(
            tokens,
            pos + 1,
            Mem { base: None, index: None, disp: 0, negative: false },
        ).1,
        _ => pos,
    }
}

/// The position behind what parsing the operands at `pos` takes, whether
/// operands come of it or an error: behind the last operand, or where the
/// operand that is refused was given up.
pub open spec fn operands_end(tokens: Seq<Token>, pos: int) -> int
    decreases (if pos < tokens.len() { tokens.len() - pos } else { 0 }),
{
    if pos < 0 || pos >= tokens.len() {
        pos
    } else {
        let after = operand_end(tokens, pos);
        if operand_at(tokens, pos).0 is Ok && after < tokens.len() && tokens[after].kind is Comma {
            operands_end(tokens, after + 1)
        } else {
            after
        }
    }
}

/// The values of a directive that begin at `pos`, and the number of tokens
/// taken. A word counts as a string. Commas are passed over.
pub open spec fn values_from(tokens: Seq<Token>, pos: int) -> (Seq<DirectiveValue>, nat)
    decreases tokens.len() - pos,
{
    if pos < 0 || pos >= tokens.len() {
        (Seq::empty(), 0)
    } else {
        match tokens[pos].kind {
            TokenKind::Number(n) => {
                let r = values_from(tokens, pos + 1);
                (seq![DirectiveValue::Number(n)] + r.0, r.1 + 1)
            },
            TokenKind::StringLiteral(s) => {
                let r = values_from(tokens, pos + 1);
                (seq![DirectiveValue::StringLiteral(s)] + r.0, r.1 + 1)
            },
            TokenKind::Identifier(s) => {
                let r = values_from(tokens, pos + 1);
                (seq![DirectiveValue::StringLiteral(s)] + r.0, r.1 + 1)
            },
            TokenKind::Comma => {
                let r = values_from(tokens, pos + 1);
                (r.0, r.1 + 1)
            },
            _ => (Seq::empty(), 0),
        }
    }
}

/// The items that the tokens from `pos` on make, or the message of the
/// first error. Tokens that begin no item are passed over.
pub open spec fn nodes_from(tokens: Seq<Token>, pos: int) -> Result<Seq<NodeV>, Seq<char>>
    decreases (if pos < tokens.len() { tokens.len() - pos } else { 0 }),
{
    if pos < 0 || pos >= tokens.len() {
        Ok(Seq::empty())
    } else {
        match tokens[pos].kind {
            TokenKind::Identifier(name) => {
                if pos + 1 < tokens.len() && tokens[pos + 1].kind is Colon {
                    match nodes_from(tokens, pos + 2) {
                        Err(e) => Err(e),
                        Ok(rest) => Ok(seq![NodeV::Label(name)] + rest),
                    }
                } else if is_directive_name(name@) {
                    let vals = values_from(tokens, pos + 1);
                    match nodes_from(tokens, pos + 1 + vals.1) {
                        Err(e) => Err(e),
                        Ok(rest) => Ok(seq![NodeV::Directive { name, values: vals.0 }] + rest),
                    }
                } else {
                    let ops = operands_from(tokens, pos + 1);
                    match ops.0 {
                        Err(e) => Err(e),
                        Ok(operands) => match nodes_from(tokens, pos + 1 + ops.1) {
                            Err(e) => Err(e),
                            Ok(rest) => Ok(
                                seq![NodeV::Instruction { mnemonic: name, operands }] + rest,
                            ),
                        },
                    }
                }
            },
            _ => nodes_from(tokens, pos + 1),
        }
    }
}

/// The counts of tokens taken stay within the tokens.
pub proof fn lemma_taken(tokens: Seq<Token>, pos: int, m: Mem)
    requires
        0 <= pos <= tokens.len(),
    ensures
        pos + memory_from(tokens, pos, m).1 <= tokens.len(),
        pos + values_from(tokens, pos).1 <= tokens.len(),
    decreases tokens.len() - pos,
{
    if pos < tokens.len() {
        match tokens[pos].kind {
            TokenKind::Identifier(name) => {
                lemma_taken(tokens, pos + 1, Mem { base: Some(name), ..m });
                lemma_taken(tokens, pos + 1, Mem { index: Some(name), ..m });
            },
            TokenKind::Number(n) => {
                let val = if m.negative {
                    0i64.wrapping_sub(n)
                } else {
                    n
                };
                lemma_taken(
                    tokens,
                    pos + 1,
                    Mem { disp: m.disp.wrapping_add(val), negative: false, ..m },
                );
            },
            TokenKind::Plus => {
                lemma_taken(tokens, pos + 1, Mem { negative: false, ..m });
            },
            TokenKind::Minus => {
                lemma_taken(tokens, pos + 1, Mem { negative: true, ..m });
            },
            _ => {
                lemma_taken(tokens, pos + 1, m);
            },
        }
    }
}

/// The count of tokens that a list of operands takes stays within the
/// tokens.
pub proof fn lemma_operands_taken(tokens: Seq<Token>, pos: int)
    requires
        0 <= pos <= tokens.len(),
    ensures
        operands_from(tokens, pos).0 is Ok ==> pos + operands_from(tokens, pos).1 <= tokens.len(),
    decreases tokens.len() - pos,
{
    if pos < tokens.len() {
        let first = operand_at(tokens, pos);
        lemma_taken(tokens, pos + 1, Mem { base: None, index: None, disp: 0, negative: false });
        if first.0 is Ok {
            let next = pos + 1 + first.1;
            if next < tokens.len() && tokens[next].kind is Comma {
                lemma_operands_taken(tokens, next + 1);
            }
        }
    }
}

/// A parser error with the message `msg`.
fn parser_error(msg: &str) -> (e: AsmError)
    ensures
        e matches AsmError::ParserError(m) && m@ == msg@,
{
    AsmError::ParserError(String::from_str(msg))
}

/// `r` is the executable form of the outcome `s`.
pub open spec fn operand_result(
    r: Result<Operand, AsmError>,
    s: Result<Operand, Seq<char>>,
) -> bool {
    match s {
        Ok(op) => r == Ok::<Operand, AsmError>(op),
        Err(msg) => r matches Err(AsmError::ParserError(m)) && m@ == msg,
    }
}

/// Parses a memory operand behind its opening bracket, which stands at
/// `pos`. Where the operand is refused, `pos` stands where it was given
/// up: behind a register too many, or at the token that has no place.
pub fn parse_memory_operand(tokens: &[Token], pos: &mut usize) -> (r: Result<Operand, AsmError>)
    requires
        *old(pos) < tokens@.len(),
    ensures
        operand_result(
            r,
            memory_from(
                tokens@,
                *old(pos) + 1,
                Mem { base: None, index: None, disp: 0, negative: false },
            ).0,
        ),
        *final(pos) == *old(pos) + 1 + memory_from(
            tokens@,
            *old(pos) + 1,
            Mem { base: None, index: None, disp: 0, negative: false },
        ).1,
{
    let n = tokens.len();
    *pos += 1;
    let ghost start = *pos as int;
    let ghost init = Mem { base: None, index: None, disp: 0, negative: false };
    let mut base: Option<String> = None;
    let mut index: Option<String> = None;
    let mut disp: i64 = 0;
    let mut negative = false;
    let mut open = true;
    proof {
        lemma_taken(tokens@, start, init);
    }
    while open && *pos < n
        invariant
            n == tokens@.len(),
            start == *old(pos) + 1,
            init == (Mem { base: None, index: None, disp: 0, negative: false }),
            start <= *pos <= tokens@.len(),
            open ==> memory_from(tokens@, start, init).0 == memory_from(
                tokens@,
                *pos as int,
                Mem { base, index, disp, negative },
            ).0,
            open ==> memory_from(tokens@, start, init).1 == (*pos - start) + memory_from(
                tokens@,
                *pos as int,
                Mem { base, index, disp, negative },
            ).1,
            !open ==> memory_from(tokens@, start, init).0 == Ok::<Operand, Seq<char>>(
                memory_of(Mem { base, index, disp, negative }),
            ),
            !open ==> memory_from(tokens@, start, init).1 == *pos - start,
        decreases tokens@.len() - *pos, if open { 1int } else { 0int },
    {
        let ghost here = *pos as int;
        let ghost m = Mem { base, index, disp, negative };
        match &tokens[*pos].kind {
            TokenKind::Identifier(name) => {
                let reg = name.clone();
                *pos += 1;
                if is_register(reg.as_str()) {
                    if base.is_none() {
                        base = Some(reg);
                    } else if index.is_none() {
                        index = Some(reg);
                    } else {
                        assert(memory_from(tokens@, here, m).0 == Err::<Operand, Seq<char>>(
                            "Too many registers in memory operand"@,
                        ));
                        return Err(parser_error("Too many registers in memory operand"));
                    }
                } else {
                    assert(memory_from(tokens@, here, m) == (
                        Ok::<Operand, Seq<char>>(
                            Operand::Memory(
                                MemoryOperand { base: None, index: None, scale: 1, disp: 0 },
                            ),
                        ),
                        1nat,
                    ));
                    return Ok(
                        Operand::Memory(
                            MemoryOperand { base: None, index: None, scale: 1, disp: 0 },
                        ),
                    );
                }
            },
            TokenKind::Number(n) => {
                let val = if negative {
                    0i64.wrapping_sub(*n)
                } else {
                    *n
                };
                disp = disp.wrapping_add(val);
                negative = false;
                *pos += 1;
            },
            TokenKind::Plus => {
                negative = false;
                *pos += 1;
            },
            TokenKind::Minus => {
                negative = true;
                *pos += 1;
            },
            TokenKind::RBracket => {
                *pos += 1;
                open = false;
            },
            TokenKind::Comma => {
                open = false;
            },
            _ => {
                assert(memory_from(tokens@, here, m).0 == Err::<Operand, Seq<char>>(
                    "Unexpected token in memory operand"@,
                ));
                return Err(parser_error("Unexpected token in memory operand"));
            },
        }
    }
    Ok(Operand::Memory(MemoryOperand { base, index, scale: 1, disp }))
}

/// Parses the operand that begins at `pos`. A token that begins no
/// operand is refused and left where it is.
pub fn parse_operand(tokens: &[Token], pos: &mut usize) -> (r: Result<Operand, AsmError>)
    requires
        *old(pos) < tokens@.len(),
    ensures
        operand_result(r, operand_at(tokens@, *old(pos) as int).0),
        r is Ok ==> *final(pos) == *old(pos) + 1 + operand_at(tokens@, *old(pos) as int).1,
        *final(pos) == operand_end(tokens@, *old(pos) as int),
{
    match &tokens[*pos].kind {
        TokenKind::Number(n) => {
            *pos += 1;
            Ok(Operand::Immediate(*n))
        },
        TokenKind::Identifier(name) => {
            let s = name.clone();
            *pos += 1;
            if is_register(s.as_str()) {
                return Ok(Operand::Register(s));
            }
            Ok(Operand::Label(s))
        },
        TokenKind::LBracket => parse_memory_operand(tokens, pos),
        _ => Err(parser_error("Unexpected token in operand")),
    }
}

/// `r` is the executable form of the outcome `s`.
pub open spec fn operands_result(
    r: Result<Vec<Operand>, AsmError>,
    s: Result<Seq<Operand>, Seq<char>>,
) -> bool {
    match s {
        Ok(ops) => r is Ok && r->Ok_0@ == ops,
        Err(msg) => r matches Err(AsmError::ParserError(m)) && m@ == msg,
    }
}

/// The operands `done` followed by what comes out of the rest.
pub open spec fn join_operands(
    done: Seq<Operand>,
    rest: Result<Seq<Operand>, Seq<char>>,
) -> Result<Seq<Operand>, Seq<char>> {
    match rest {
        Ok(ops) => Ok(done + ops),
        Err(e) => Err(e),
    }
}

/// Parses the operands that begin at `pos`. Where one of them is refused,
/// `pos` stands where that one was given up.
pub fn parse_operand_list(tokens: &[Token], pos: &mut usize) -> (r: Result<Vec<Operand>, AsmError>)
    requires
        *old(pos) <= tokens@.len(),
    ensures
        operands_result(r, operands_from(tokens@, *old(pos) as int).0),
        r is Ok ==> *final(pos) == *old(pos) + operands_from(tokens@, *old(pos) as int).1,
        *final(pos) == operands_end(tokens@, *old(pos) as int),
{
    let mut ops: Vec<Operand> = Vec::new();
    let ghost start = *pos as int;
    proof {
        lemma_operands_taken(tokens@, start);
        assert(join_operands(ops@, operands_from(tokens@, start).0) == operands_from(
            tokens@,
            start,
        ).0) by {
            if operands_from(tokens@, start).0 is Ok {
                assert(ops@ + operands_from(tokens@, start).0->Ok_0 =~= operands_from(
                    tokens@,
                    start,
                ).0->Ok_0);
            }
        }
    }
    let mut more = true;
    while more
        invariant
            start == *old(pos),
            start <= *pos <= tokens@.len(),
            more ==> operands_from(tokens@, start).0 == join_operands(
                ops@,
                operands_from(tokens@, *pos as int).0,
            ),
            more ==> (operands_from(tokens@, start).0 is Ok ==> operands_from(tokens@, start).1
                == (*pos - start) + operands_from(tokens@, *pos as int).1),
            !more ==> operands_from(tokens@, start).0 == Ok::<Seq<Operand>, Seq<char>>(ops@),
            !more ==> operands_from(tokens@, start).1 == *pos - start,
            more ==> operands_end(tokens@, start) == operands_end(tokens@, *pos as int),
            !more ==> operands_end(tokens@, start) == *pos,
        decreases tokens@.len() - *pos, if more { 1int } else { 0int },
    {
        if *pos >= tokens.len() {
            more = false;
            proof {
                assert(ops@ + Seq::<Operand>::empty() =~= ops@);
            }
        } else {
            let ghost here = *pos as int;
            let ghost done = ops@;
            proof {
                lemma_taken(
                    tokens@,
                    here + 1,
                    Mem { base: None, index: None, disp: 0, negative: false },
                );
            }
            let operand = parse_operand(tokens, pos)?;
            ops.push(operand);
            if *pos < tokens.len() && matches!(tokens[*pos].kind, TokenKind::Comma) {
                *pos += 1;
                proof {
                    lemma_operands_taken(tokens@, *pos as int);
                    let rest = operands_from(tokens@, *pos as int).0;
                    if rest is Ok {
                        assert(done + (seq![operand] + rest->Ok_0) =~= ops@ + rest->Ok_0);
                    }
                }
            } else {
                more = false;
                proof {
                    assert(done + seq![operand] =~= ops@);
                }
            }
        }
    }
    Ok(ops)
}

/// Parses the word at `pos` as a mnemonic. Any other token is refused and
/// left where it is.
pub fn parse_mnemonic(tokens: &[Token], pos: &mut usize) -> (r: Result<String, AsmError>)
    requires
        *old(pos) < tokens@.len(),
    ensures
        match tokens@[*old(pos) as int].kind {
            TokenKind::Identifier(s) => r == Ok::<String, AsmError>(s) && *final(pos) == *old(pos)
                + 1,
            _ => r matches Err(AsmError::ParserError(m)) && m@ == "Expected mnemonic"@
                && *final(pos) == *old(pos),
        },
{
    match &tokens[*pos].kind {
        TokenKind::Identifier(s) => {
            *pos += 1;
            Ok(s.clone())
        },
        _ => Err(parser_error("Expected mnemonic")),
    }
}

/// Parses the instruction that begins with the word at `pos`. Where an
/// operand is refused, `pos` stands where that operand was given up.
pub fn parse_instruction(tokens: &[Token], pos: &mut usize) -> (r: Result<ASTNode, AsmError>)
    requires
        *old(pos) < tokens@.len(),
        tokens@[*old(pos) as int].kind is Identifier,
    ensures
        match operands_from(tokens@, *old(pos) + 1).0 {
            Ok(ops) => r is Ok && r->Ok_0@ == (NodeV::Instruction {
                mnemonic: tokens@[*old(pos) as int].kind->Identifier_0,
                operands: ops,
            }) && *final(pos) == *old(pos) + 1 + operands_from(tokens@, *old(pos) + 1).1,
            Err(msg) => r matches Err(AsmError::ParserError(m)) && m@ == msg,
        },
        *final(pos) == operands_end(tokens@, *old(pos) + 1),
{
    let mnemonic = parse_mnemonic(tokens, pos)?;
    let operands = parse_operand_list(tokens, pos)?;
    Ok(ASTNode::Instruction(Instruction { mnemonic, operands }))
}

/// Parses the directive that begins with the word at `pos`.
pub fn parse_directive(tokens: &[Token], pos: &mut usize) -> (r: Result<ASTNode, AsmError>)
    requires
        *old(pos) < tokens@.len(),
        tokens@[*old(pos) as int].kind is Identifier,
    ensures
        r is Ok,
        r->Ok_0@ == (NodeV::Directive {
            name: tokens@[*old(pos) as int].kind->Identifier_0,
            values: values_from(tokens@, *old(pos) + 1).0,
        }),
        *final(pos) == *old(pos) + 1 + values_from(tokens@, *old(pos) + 1).1,
{
    let name = match &tokens[*pos].kind {
        TokenKind::Identifier(s) => s.clone(),
        _ => {
            return Err(parser_error("Expected directive name"));
        },
    };
    let n = tokens.len();
    *pos += 1;
    let ghost start = *pos as int;
    let mut values: Vec<DirectiveValue> = Vec::new();
    let mut open = true;
    proof {
        lemma_taken(tokens@, start, Mem { base: None, index: None, disp: 0, negative: false });
        assert(values@ + values_from(tokens@, start).0 =~= values_from(tokens@, start).0);
    }
    while open && *pos < n
        invariant
            n == tokens@.len(),
            start == *old(pos) + 1,
            start <= *pos <= tokens@.len(),
            open ==> values_from(tokens@, start).0 == values@ + values_from(
                tokens@,
                *pos as int,
            ).0,
            open ==> values_from(tokens@, start).1 == (*pos - start) + values_from(
                tokens@,
                *pos as int,
            ).1,
            !open ==> values_from(tokens@, start).0 == values@,
            !open ==> values_from(tokens@, start).1 == *pos - start,
        decreases tokens@.len() - *pos, if open { 1int } else { 0int },
    {
        let ghost done = values@;
        let ghost rest = values_from(tokens@, *pos + 1).0;
        match &tokens[*pos].kind {
            TokenKind::Number(n) => {
                values.push(DirectiveValue::Number(*n));
                *pos += 1;
                assert(done + (seq![DirectiveValue::Number(*n)] + rest) =~= values@ + rest);
            },
            TokenKind::StringLiteral(s) => {
                values.push(DirectiveValue::StringLiteral(s.clone()));
                *pos += 1;
                assert(done + (seq![DirectiveValue::StringLiteral(*s)] + rest) =~= values@ + rest);
            },
            TokenKind::Identifier(s) => {
                values.push(DirectiveValue::StringLiteral(s.clone()));
                *pos += 1;
                assert(done + (seq![DirectiveValue::StringLiteral(*s)] + rest) =~= values@ + rest);
            },
            TokenKind::Comma => {
                *pos += 1;
            },
            _ => {
                assert(values@ + Seq::<DirectiveValue>::empty() =~= values@);
                open = false;
            },
        }
    }
    proof {
        assert(values@ + Seq::<DirectiveValue>::empty() =~= values@);
    }
    Ok(ASTNode::Directive(Directive { name, values }))
}

/// The items `done` followed by what comes out of the rest.
pub open spec fn join_nodes(
    done: Seq<NodeV>,
    rest: Result<Seq<NodeV>, Seq<char>>,
) -> Result<Seq<NodeV>, Seq<char>> {
    match rest {
        Ok(ns) => Ok(done + ns),
        Err(e) => Err(e),
    }
}

/// Parses the tokens of a source.
pub fn parse(tokens: &[Token]) -> (r: Result<AST, AsmError>)
    ensures
        match nodes_from(tokens@, 0) {
            Ok(ns) => r is Ok && nodes_view(r->Ok_0.items@) == ns,
            Err(msg) => r matches Err(AsmError::ParserError(m)) && m@ == msg,
        },
{
    let mut pos: usize = 0;
    let mut items: Vec<ASTNode> = Vec::new();
    proof {
        assert(nodes_view(items@) =~= Seq::<NodeV>::empty());
        if nodes_from(tokens@, 0) is Ok {
            assert(Seq::<NodeV>::empty() + nodes_from(tokens@, 0)->Ok_0 =~= nodes_from(
                tokens@,
                0,
            )->Ok_0);
        }
    }
    while pos < tokens.len()
        invariant
            pos <= tokens@.len(),
            nodes_from(tokens@, 0) == join_nodes(
                nodes_view(items@),
                nodes_from(tokens@, pos as int),
            ),
        decreases tokens@.len() - pos,
    {
        let ghost done = nodes_view(items@);
        let ghost here = pos as int;
        proof {
            lemma_taken(
                tokens@,
                here + 1,
                Mem { base: None, index: None, disp: 0, negative: false },
            );
            lemma_operands_taken(tokens@, here + 1);
        }
        match &tokens[pos].kind {
            TokenKind::Identifier(name) => {
                if pos + 1 < tokens.len() && matches!(tokens[pos + 1].kind, TokenKind::Colon) {
                    items.push(ASTNode::Label(name.clone()));
                    pos += 2;
                } else if is_directive(name.as_str()) {
                    let node = parse_directive(tokens, &mut pos)?;
                    items.push(node);
                } else {
                    let node = parse_instruction(tokens, &mut pos)?;
                    items.push(node);
                }
                proof {
                    let rest = nodes_from(tokens@, pos as int);
                    assert(nodes_view(items@) =~= done.push(items@.last()@));
                    if rest is Ok {
                        assert(done + (seq![items@.last()@] + rest->Ok_0) =~= nodes_view(items@)
                            + rest->Ok_0);
                    }
                }
            },
            _ => {
                pos += 1;
            },
        }
    }
    proof {
        assert(nodes_view(items@) + Seq::<NodeV>::empty() =~= nodes_view(items@));
    }
    Ok(AST { items })
}

} // verus!
