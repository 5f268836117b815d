//! The encoder: from the tree to bytes, labels and relocations.

use vstd::prelude::*;
use vstd::string::StringExecFns;
use vstd::utf8::encode_utf8;
use crate::assembler::assembler::{AssemblerOutput, Relocation, RelocKind};
use crate::assembler::ast::{AST, ASTNode, Directive, DirectiveValue, Instruction, Operand};
use crate::assembler::error::AsmError;
use crate::assembler::isa::amd64::tables::{lookup_reg32, lookup_reg64, reg64, reg_number};
use crate::bytes::{le_bytes, push_all, push_le, twos_complement, unsigned_form};
use crate::strings::str_eq;

verus! {

/// The number of the register `name` among the registers of `mode` bits.
pub fn lookup_reg(name: &str, mode: u8) -> (r: Option<u8>)
    ensures
        r == reg_number(name@, mode),
{
    if mode == 64 {
        lookup_reg64(name)
    } else if mode == 32 {
        lookup_reg32(name)
    } else {
        None
    }
}

/// An encode error with the message `msg`.
fn encode_error(msg: &str) -> (e: AsmError)
    ensures
        e matches AsmError::EncodeError(m) && m@ == msg@,
{
    AsmError::EncodeError(String::from_str(msg))
}

/// The bytes of one value of the directive `name`, or the message of the
/// error. `db` takes numbers, of which it keeps the lowest byte, and
/// strings; `dw`, `dd` and `dq` take numbers, which they write in two, four
/// and eight bytes.
pub open spec fn value_bytes(name: Seq<char>, v: DirectiveValue) -> Result<Seq<u8>, Seq<char>> {
    if name == "db"@ {
        match v {
            DirectiveValue::Number(n) => Ok(le_bytes(twos_complement(n as int, 8), 1)),
            DirectiveValue::StringLiteral(s) => Ok(encode_utf8(s@)),
            DirectiveValue::Identifier(_) => Err("db does not support identifier"@),
        }
    } else if name == "dw"@ {
        match v {
            DirectiveValue::Number(n) => Ok(le_bytes(twos_complement(n as int, 16), 2)),
            _ => Err("dw supports only numbers"@),
        }
    } else if name == "dd"@ {
        match v {
            DirectiveValue::Number(n) => Ok(le_bytes(twos_complement(n as int, 32), 4)),
            DirectiveValue::Identifier(_) => Err("dd identifier reloc not implemented yet"@),
            _ => Err("dd supports only numbers"@),
        }
    } else {
        match v {
            DirectiveValue::Number(n) => Ok(le_bytes(twos_complement(n as int, 64), 8)),
            DirectiveValue::Identifier(_) => Err("dq identifier reloc not implemented yet"@),
            _ => Err("dq supports only numbers"@),
        }
    }
}

/// Where a directive was refused: the bytes as they then stood, and the
/// message of the error.
pub struct Refused {
    pub bytes: Seq<u8>,
    pub message: Seq<char>,
}

/// `acc` followed by the bytes of the first `n` values of the directive
/// `name`, or the first error, with `acc` followed by the bytes of the
/// values before it.
pub open spec fn values_bytes(
    acc: Seq<u8>,
    name: Seq<char>,
    values: Seq<DirectiveValue>,
    n: int,
) -> Result<Seq<u8>, Refused>
    decreases n,
{
    if n <= 0 {
        Ok(acc)
    } else {
        match values_bytes(acc, name, values, n - 1) {
            Err(e) => Err(e),
            Ok(bytes) => match value_bytes(name, values[n - 1]) {
                Err(message) => Err(Refused { bytes, message }),
                Ok(more) => Ok(bytes + more),
            },
        }
    }
}

/// An error among the first values is the error of all.
pub proof fn lemma_values_bytes_err(
    acc: Seq<u8>,
    name: Seq<char>,
    values: Seq<DirectiveValue>,
    k: int,
    n: int,
)
    requires
        0 <= k <= n,
        values_bytes(acc, name, values, k) is Err,
    ensures
        values_bytes(acc, name, values, n) == values_bytes(acc, name, values, k),
    decreases n - k,
{
    if k < n {
        lemma_values_bytes_err(acc, name, values, k, n - 1);
    }
}

/// `acc` followed by the bytes of the directive, or the error. A directive
/// that is not known adds nothing; one with a value that it does not take
/// has added the values before that one.
pub open spec fn directive_bytes(
    acc: Seq<u8>,
    name: Seq<char>,
    values: Seq<DirectiveValue>,
) -> Result<Seq<u8>, Refused> {
    if name == "db"@ || name == "dw"@ || name == "dd"@ || name == "dq"@ {
        values_bytes(acc, name, values, values.len() as int)
    } else {
        Err(Refused { bytes: acc, message: "Unknown directive "@ + name })
    }
}

/// `r` and the bytes after the call are what the outcome `s` asks for,
/// also where the directive is refused.
pub open spec fn bytes_result(
    r: Result<(), AsmError>,
    after: Seq<u8>,
    s: Result<Seq<u8>, Refused>,
) -> bool {
    match s {
        Ok(bytes) => r is Ok && after == bytes,
        Err(e) => r matches Err(AsmError::EncodeError(m)) && m@ == e.message && after == e.bytes,
    }
}

/// Appends the values of a directive of the width `width` bytes.
fn encode_values(name: &str, width: usize, dir: &Directive, bytes: &mut Vec<u8>) -> (r: Result<
    (),
    AsmError,
>)
    requires
        (name@ == "db"@ && width == 1) || (name@ == "dw"@ && width == 2) || (name@ == "dd"@
            && width == 4) || (name@ == "dq"@ && width == 8),
    ensures
        bytes_result(
            r,
            final(bytes)@,
            values_bytes(old(bytes)@, name@, dir.values@, dir.values@.len() as int),
        ),
{
    proof {
        reveal_strlit("db");
        reveal_strlit("dw");
        reveal_strlit("dd");
        reveal_strlit("dq");
        assert("db"@[1] == 'b' && "dw"@[1] == 'w' && "dd"@[1] == 'd' && "dq"@[1] == 'q');
    }
    let mut i: usize = 0;
    while i < dir.values.len()
        invariant
            i <= dir.values@.len(),
            (name@ == "db"@ && width == 1) || (name@ == "dw"@ && width == 2) || (name@ == "dd"@
                && width == 4) || (name@ == "dq"@ && width == 8),
            "db"@ != "dw"@ && "db"@ != "dd"@ && "db"@ != "dq"@ && "dw"@ != "dd"@ && "dw"@
                != "dq"@ && "dd"@ != "dq"@,
            values_bytes(old(bytes)@, name@, dir.values@, i as int) == Ok::<Seq<u8>, Refused>(
                bytes@,
            ),
        decreases dir.values@.len() - i,
    {
        proof {
            if values_bytes(old(bytes)@, name@, dir.values@, i + 1) is Err {
                lemma_values_bytes_err(
                    old(bytes)@,
                    name@,
                    dir.values@,
                    i + 1,
                    dir.values@.len() as int,
                );
            }
        }
        match &dir.values[i] {
            DirectiveValue::Number(n) => {
                let bits: u32 = if width == 1 {
                    8
                } else if width == 2 {
                    16
                } else if width == 4 {
                    32
                } else {
                    64
                };
                push_le(bytes, unsigned_form(*n, bits), width);
            },
            DirectiveValue::StringLiteral(s) => {
                if width == 1 {
                    push_all(bytes, s.as_str().as_bytes());
                } else if width == 2 {
                    return Err(encode_error("dw supports only numbers"));
                } else if width == 4 {
                    return Err(encode_error("dd supports only numbers"));
                } else {
                    return Err(encode_error("dq supports only numbers"));
                }
            },
            DirectiveValue::Identifier(_) => {
                if width == 1 {
                    return Err(encode_error("db does not support identifier"));
                } else if width == 2 {
                    return Err(encode_error("dw supports only numbers"));
                } else if width == 4 {
                    return Err(encode_error("dd identifier reloc not implemented yet"));
                } else {
                    return Err(encode_error("dq identifier reloc not implemented yet"));
                }
            },
        }
        i += 1;
    }
    Ok(())
}

/// Appends the bytes of a `db` directive.
pub fn encode_db(dir: &Directive, bytes: &mut Vec<u8>) -> (r: Result<(), AsmError>)
    ensures
        bytes_result(
            r,
            final(bytes)@,
            values_bytes(old(bytes)@, "db"@, dir.values@, dir.values@.len() as int),
        ),
{
    encode_values("db", 1, dir, bytes)
}

/// Appends the bytes of a `dw` directive.
pub fn encode_dw(dir: &Directive, bytes: &mut Vec<u8>) -> (r: Result<(), AsmError>)
    ensures
        bytes_result(
            r,
            final(bytes)@,
            values_bytes(old(bytes)@, "dw"@, dir.values@, dir.values@.len() as int),
        ),
{
    encode_values("dw", 2, dir, bytes)
}

/// Appends the bytes of a `dd` directive.
pub fn encode_dd(dir: &Directive, bytes: &mut Vec<u8>) -> (r: Result<(), AsmError>)
    ensures
        bytes_result(
            r,
            final(bytes)@,
            values_bytes(old(bytes)@, "dd"@, dir.values@, dir.values@.len() as int),
        ),
{
    encode_values("dd", 4, dir, bytes)
}

/// Appends the bytes of a `dq` directive.
pub fn encode_dq(dir: &Directive, bytes: &mut Vec<u8>) -> (r: Result<(), AsmError>)
    ensures
        bytes_result(
            r,
            final(bytes)@,
            values_bytes(old(bytes)@, "dq"@, dir.values@, dir.values@.len() as int),
        ),
{
    encode_values("dq", 8, dir, bytes)
}

/// Appends the bytes of a data directive.
pub fn encode_directive(dir: &Directive, bytes: &mut Vec<u8>) -> (r: Result<(), AsmError>)
    ensures
        bytes_result(r, final(bytes)@, directive_bytes(old(bytes)@, dir.name@, dir.values@)),
{
    if str_eq(dir.name.as_str(), "db") {
        encode_db(dir, bytes)
    } else if str_eq(dir.name.as_str(), "dw") {
        encode_dw(dir, bytes)
    } else if str_eq(dir.name.as_str(), "dd") {
        encode_dd(dir, bytes)
    } else if str_eq(dir.name.as_str(), "dq") {
        encode_dq(dir, bytes)
    } else {
        let mut msg = String::from_str("Unknown directive ");
        msg.append(dir.name.as_str());
        Err(AsmError::EncodeError(msg))
    }
}

/// The mathematical value of a relocation.
pub struct RelocationV {
    pub offset: int,
    pub symbol: Seq<char>,
    pub kind: RelocKind,
}

impl View for Relocation {
    type V = RelocationV;

    open spec fn view(&self) -> RelocationV {
        RelocationV { offset: self.offset as int, symbol: self.symbol@, kind: self.kind }
    }
}

/// The values of the relocations `rs`, in order.
pub open spec fn relocs_view(rs: Seq<Relocation>) -> Seq<RelocationV> {
    Seq::new(rs.len(), |i: int| rs[i]@)
}

/// What has been encoded: the bytes, the labels with their offsets, and the
/// relocations.
pub struct Image {
    pub bytes: Seq<u8>,
    pub symbols: Seq<(Seq<char>, int)>,
    pub relocs: Seq<RelocationV>,
}

/// The image after a `mov` with the given operands, or the message of the
/// error. The only forms are the load of a 64-bit immediate, and of the
/// address of a label, into a 64-bit register that is written as a label:
/// the prefix `48`, the opcode `B8` plus the register, and eight bytes,
/// which for a label are zero and wait for a relocation.
pub open spec fn with_mov(img: Image, operands: Seq<Operand>) -> Result<Image, Seq<char>> {
    if operands.len() != 2 {
        Err("mov expects 2 operands"@)
    } else {
        match operands[0] {
            Operand::Label(regname) => match reg64(regname@) {
                Some(reg) => match operands[1] {
                    Operand::Immediate(val) => Ok(
                        Image {
                            bytes: img.bytes.push(0x48).push((0xB8 + reg) as u8) + le_bytes(
                                twos_complement(val as int, 64),
                                8,
                            ),
                            ..img
                        },
                    ),
                    Operand::Label(label) => Ok(
                        Image {
                            bytes: img.bytes.push(0x48).push((0xB8 + reg) as u8) + le_bytes(0, 8),
                            relocs: img.relocs.push(
                                RelocationV {
                                    offset: img.bytes.len() as int + 2,
                                    symbol: label@,
                                    kind: RelocKind::Absolute,
                                },
                            ),
                            ..img
                        },
                    ),
                    _ => Err("Unsupported mov form"@),
                },
                None => Err("Unsupported mov form"@),
            },
            _ => Err("Unsupported mov form"@),
        }
    }
}

/// The image after an instruction, or the message of the error. The
/// encoder knows `mov` and `nop`.
pub open spec fn with_instruction(
    img: Image,
    mnemonic: Seq<char>,
    operands: Seq<Operand>,
) -> Result<Image, Seq<char>> {
    if mnemonic == "mov"@ {
        with_mov(img, operands)
    } else if mnemonic == "nop"@ {
        Ok(Image { bytes: img.bytes.push(0x90), ..img })
    } else {
        Err("Unknown mnemonic "@ + mnemonic)
    }
}

/// The image after an item of the tree, or the message of the error. A
/// label stands for the offset at which it is met. Sections and
/// declarations of global and external names leave the image as it is.
pub open spec fn with_item(img: Image, node: ASTNode) -> Result<Image, Seq<char>> {
    match node {
        ASTNode::Label(name) => Ok(
            Image { symbols: img.symbols.push((name@, img.bytes.len() as int)), ..img },
        ),
        ASTNode::Instruction(ins) => with_instruction(img, ins.mnemonic@, ins.operands@),
        ASTNode::Directive(dir) => match directive_bytes(img.bytes, dir.name@, dir.values@) {
            Ok(bytes) => Ok(Image { bytes, ..img }),
            Err(e) => Err(e.message),
        },
        _ => Ok(img),
    }
}

/// The image after the first `n` items, or the message of the first
/// error.
pub open spec fn with_items(items: Seq<ASTNode>, n: int) -> Result<Image, Seq<char>>
    decreases n,
{
    if n <= 0 {
        Ok(Image { bytes: Seq::empty(), symbols: Seq::empty(), relocs: Seq::empty() })
    } else {
        match with_items(items, n - 1) {
            Err(e) => Err(e),
            Ok(img) => with_item(img, items[n - 1]),
        }
    }
}

/// An error among the first items is the error of all.
pub proof fn lemma_with_items_err(items: Seq<ASTNode>, k: int, n: int)
    requires
        0 <= k <= n,
        with_items(items, k) is Err,
    ensures
        with_items(items, n) == with_items(items, k),
    decreases n - k,
{
    if k < n {
        lemma_with_items_err(items, k, n - 1);
    }
}

/// The labels `ss`, each with its name and offset.
pub open spec fn symbols_view(ss: Seq<(String, usize)>) -> Seq<(Seq<char>, int)> {
    Seq::new(ss.len(), |i: int| (ss[i].0@, ss[i].1 as int))
}

/// The image that the three parts make.
pub open spec fn image_of(
    bytes: Seq<u8>,
    symbols: Seq<(String, usize)>,
    relocs: Seq<Relocation>,
) -> Image {
    Image { bytes, symbols: symbols_view(symbols), relocs: relocs_view(relocs) }
}

/// `r` and the state after the call are what the outcome `s` asks for.
pub open spec fn image_result(
    r: Result<(), AsmError>,
    after: Image,
    s: Result<Image, Seq<char>>,
) -> bool {
    match s {
        Ok(img) => r is Ok && after == img,
        Err(msg) => r matches Err(AsmError::EncodeError(m)) && m@ == msg,
    }
}

/// Encodes a `mov`. A form that is not supported adds nothing.
pub fn encode_mov(ins: &Instruction, bytes: &mut Vec<u8>, relocs: &mut Vec<Relocation>) -> (r:
    Result<(), AsmError>)
    ensures
        r is Err ==> final(bytes)@ == old(bytes)@ && final(relocs)@ == old(relocs)@,
        image_result(
            r,
            Image {
                bytes: final(bytes)@,
                symbols: Seq::empty(),
                relocs: relocs_view(final(relocs)@),
            },
            with_mov(
                Image {
                    bytes: old(bytes)@,
                    symbols: Seq::empty(),
                    relocs: relocs_view(old(relocs)@),
                },
                ins.operands@,
            ),
        ),
{
    if ins.operands.len() != 2 {
        return Err(encode_error("mov expects 2 operands"));
    }
    let dst = &ins.operands[0];
    let src = &ins.operands[1];
    match dst {
        Operand::Label(regname) => {
            match lookup_reg(regname.as_str(), 64) {
                Some(reg) => {
                    match src {
                        Operand::Immediate(val) => {
                            bytes.push(0x48);
                            bytes.push(0xB8 + reg);
                            push_le(bytes, unsigned_form(*val, 64), 8);
                            return Ok(());
                        },
                        Operand::Label(label) => {
                            bytes.push(0x48);
                            bytes.push(0xB8 + reg);
                            relocs.push(
                                Relocation {
                                    offset: bytes.len(),
                                    symbol: label.clone(),
                                    kind: RelocKind::Absolute,
                                },
                            );
                            push_le(bytes, 0, 8);
                            proof {
                                assert(relocs_view(relocs@) =~= relocs_view(old(relocs)@).push(
                                    relocs@.last()@,
                                ));
                            }
                            return Ok(());
                        },
                        _ => {},
                    }
                },
                None => {},
            }
        },
        _ => {},
    }
    Err(encode_error("Unsupported mov form"))
}

/// Encodes an instruction. One that is refused adds nothing.
pub fn encode_instruction(
    ins: &Instruction,
    bytes: &mut Vec<u8>,
    relocs: &mut Vec<Relocation>,
) -> (r: Result<(), AsmError>)
    ensures
        r is Err ==> final(bytes)@ == old(bytes)@ && final(relocs)@ == old(relocs)@,
        image_result(
            r,
            Image {
                bytes: final(bytes)@,
                symbols: Seq::empty(),
                relocs: relocs_view(final(relocs)@),
            },
            with_instruction(
                Image {
                    bytes: old(bytes)@,
                    symbols: Seq::empty(),
                    relocs: relocs_view(old(relocs)@),
                },
                ins.mnemonic@,
                ins.operands@,
            ),
        ),
{
    if str_eq(ins.mnemonic.as_str(), "mov") {
        encode_mov(ins, bytes, relocs)
    } else if str_eq(ins.mnemonic.as_str(), "nop") {
        bytes.push(0x90);
        Ok(())
    } else {
        let mut msg = String::from_str("Unknown mnemonic ");
        msg.append(ins.mnemonic.as_str());
        Err(AsmError::EncodeError(msg))
    }
}

/// Encodes the tree: the items in order, up to the first error.
pub fn encode(ast: &AST) -> (r: Result<AssemblerOutput, AsmError>)
    ensures
        match with_items(ast.items@, ast.items@.len() as int) {
            Ok(img) => r is Ok && image_of(
                r->Ok_0.bytes@,
                r->Ok_0.symbols@,
                r->Ok_0.relocations@,
            ) == img,
            Err(msg) => r matches Err(AsmError::EncodeError(m)) && m@ == msg,
        },
{
    let mut bytes: Vec<u8> = Vec::new();
    let mut symbols: Vec<(String, usize)> = Vec::new();
    let mut relocs: Vec<Relocation> = Vec::new();
    let mut i: usize = 0;
    proof {
        assert(symbols_view(symbols@) =~= Seq::<(Seq<char>, int)>::empty());
        assert(relocs_view(relocs@) =~= Seq::<RelocationV>::empty());
    }
    while i < ast.items.len()
        invariant
            i <= ast.items@.len(),
            with_items(ast.items@, i as int) == Ok::<Image, Seq<char>>(
                image_of(bytes@, symbols@, relocs@),
            ),
        decreases ast.items@.len() - i,
    {
        proof {
            if with_items(ast.items@, i + 1) is Err {
                lemma_with_items_err(ast.items@, i + 1, ast.items@.len() as int);
            }
        }
        let ghost before = image_of(bytes@, symbols@, relocs@);
        match &ast.items[i] {
            ASTNode::Label(name) => {
                symbols.push((name.clone(), bytes.len()));
                proof {
                    assert(symbols_view(symbols@) =~= before.symbols.push(
                        (name@, bytes@.len() as int),
                    ));
                }
            },
            ASTNode::Instruction(ins) => {
                encode_instruction(ins, &mut bytes, &mut relocs)?;
            },
            ASTNode::Directive(dir) => {
                encode_directive(dir, &mut bytes)?;
            },
            _ => {},
        }
        i += 1;
    }
    Ok(AssemblerOutput { bytes, symbols, relocations: relocs })
}

} // verus!
