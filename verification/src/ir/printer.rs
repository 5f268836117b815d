//! The textual form of a module. The text is a wire format: every function
//! here says exactly which characters it produces.

use vstd::prelude::*;
use vstd::string::{StringExecFns, StrSliceExecFns};
use crate::ir::block::BasicBlock;
use crate::ir::function::{Function, Param};
use crate::ir::instr::{
    BinOp, Callee, CastOp, CheckedOp, CmpOp, ConstValue, FCmpPred, ICmpPred, Instruction,
    Terminator,
};
use crate::ir::lower_ast::consteval::{float_is_nan, float_magnitude};
use crate::ir::module::{Global, Module};
use crate::strings::{push_char, to_chars};
use crate::ir::text::{
    bool_text, decimal, push_bool, push_decimal, push_signed_decimal, signed_decimal,
};
use crate::ir::types::{Endian, lemma_types_view, Type, types_view, TypeV};
use crate::ir::value::{BlockId, ValueId};

verus! {

/// The text of a value reference: `%v` and the number.
pub open spec fn value_text(v: ValueId) -> Seq<char> {
    "%v"@ + decimal(v.0 as nat)
}

/// The text of a block reference by identity: `%b` and the number.
pub open spec fn block_text_id(b: BlockId) -> Seq<char> {
    "%b"@ + decimal(b.0 as nat)
}

/// The text of a type.
pub open spec fn type_text(t: TypeV) -> Seq<char>
    decreases t,
{
    match t {
        TypeV::Void => "void"@,
        TypeV::I1 => "i1"@,
        TypeV::I8 => "i8"@,
        TypeV::I16 => "i16"@,
        TypeV::I32 => "i32"@,
        TypeV::I64 => "i64"@,
        TypeV::I128 => "i128"@,
        TypeV::U8 => "u8"@,
        TypeV::U16 => "u16"@,
        TypeV::U32 => "u32"@,
        TypeV::U64 => "u64"@,
        TypeV::U128 => "u128"@,
        TypeV::F16 => "f16"@,
        TypeV::F32 => "f32"@,
        TypeV::F64 => "f64"@,
        TypeV::Ptr(inner) => "ptr<"@ + type_text(*inner) + ">"@,
        TypeV::Array(inner, n) => "array<"@ + type_text(*inner) + ", "@ + decimal(n as nat) + ">"@,
        TypeV::Struct(fields) => types_text("struct{"@, fields, fields.len() as int) + "}"@,
        TypeV::Tuple(items) => types_text("tuple<"@, items, items.len() as int) + ">"@,
    }
}

/// `acc` followed by the texts of the first `n` types of `ts`, separated by
/// a comma and a space.
pub open spec fn types_text(acc: Seq<char>, ts: Seq<TypeV>, n: int) -> Seq<char>
    decreases ts, n,
{
    if n <= 0 || n > ts.len() {
        acc
    } else if n == 1 {
        types_text(acc, ts, n - 1) + type_text(ts[n - 1])
    } else {
        types_text(acc, ts, n - 1) + ", "@ + type_text(ts[n - 1])
    }
}

/// Appends the text of `b` to `out`.
fn push_u32(out: &mut String, n: u32)
    ensures
        final(out)@ == old(out)@ + decimal(n as nat),
{
    push_decimal(out, n as u128);
}

/// Appends the text of the value reference `v` to `out`.
pub fn push_value(out: &mut String, v: ValueId)
    ensures
        final(out)@ == old(out)@ + value_text(v),
{
    out.append("%v");
    push_u32(out, v.0);
    assert(out@ =~= old(out)@ + value_text(v));
}

/// Appends the text of the block reference `b` to `out`.
pub fn push_block(out: &mut String, b: BlockId)
    ensures
        final(out)@ == old(out)@ + block_text_id(b),
{
    out.append("%b");
    push_u32(out, b.0);
    assert(out@ =~= old(out)@ + block_text_id(b));
}

/// Appends the texts of the types of `ts`, separated by a comma and a
/// space, to `out`.
fn push_types(out: &mut String, ts: &Vec<Type>)
    ensures
        final(out)@ == types_text(old(out)@, types_view(ts@), ts@.len() as int),
    decreases ts,
{
    proof {
        lemma_types_view(ts@);
    }
    let ghost views = types_view(ts@);
    let mut i: usize = 0;
    while i < ts.len()
        invariant
            i <= ts.len(),
            views == types_view(ts@),
            views.len() == ts@.len(),
            forall|k: int| 0 <= k < ts@.len() ==> #[trigger] views[k] == ts@[k]@,
            out@ == types_text(old(out)@, views, i as int),
        decreases ts.len() - i,
    {
        if i != 0 {
            out.append(", ");
        }
        push_type(out, &ts[i]);
        i += 1;
    }
}

/// Appends the text of the type `ty` to `out`.
pub fn push_type(out: &mut String, ty: &Type)
    ensures
        final(out)@ == old(out)@ + type_text(ty@),
    decreases ty,
{
    match ty {
        Type::Void => out.append("void"),
        Type::I1 => out.append("i1"),
        Type::I8 => out.append("i8"),
        Type::I16 => out.append("i16"),
        Type::I32 => out.append("i32"),
        Type::I64 => out.append("i64"),
        Type::I128 => out.append("i128"),
        Type::U8 => out.append("u8"),
        Type::U16 => out.append("u16"),
        Type::U32 => out.append("u32"),
        Type::U64 => out.append("u64"),
        Type::U128 => out.append("u128"),
        Type::F16 => out.append("f16"),
        Type::F32 => out.append("f32"),
        Type::F64 => out.append("f64"),
        Type::Ptr(inner) => {
            out.append("ptr<");
            push_type(out, inner);
            out.append(">");
            assert(out@ =~= old(out)@ + type_text(ty@));
        },
        Type::Array(inner, n) => {
            out.append("array<");
            push_type(out, inner);
            out.append(", ");
            push_decimal(out, *n as u128);
            out.append(">");
            assert(out@ =~= old(out)@ + type_text(ty@));
        },
        Type::Struct(fields) => {
            let mut s = String::from_str("struct{");
            push_types(&mut s, fields);
            s.append("}");
            out.append(s.as_str());
            proof {
                lemma_types_view(fields@);
                assert(type_text(ty@) == types_text(
                    "struct{"@,
                    types_view(fields@),
                    types_view(fields@).len() as int,
                ) + "}"@);
            }
        },
        Type::Tuple(items) => {
            let mut s = String::from_str("tuple<");
            push_types(&mut s, items);
            s.append(">");
            out.append(s.as_str());
            proof {
                lemma_types_view(items@);
                assert(type_text(ty@) == types_text(
                    "tuple<"@,
                    types_view(items@),
                    types_view(items@).len() as int,
                ) + ">"@);
            }
        },
    }
}

impl Type {
    /// The text of the type.
    pub fn to_text(&self) -> (s: String)
        ensures
            s@ == type_text(self@),
    {
        let mut s = String::new();
        push_type(&mut s, self);
        assert(s@ =~= type_text(self@));
        s
    }
}

impl ValueId {
    /// The text of the value reference: `%v` and the number.
    pub fn to_text(&self) -> (s: String)
        ensures
            s@ == value_text(*self),
    {
        let mut s = String::from_str("%v");
        push_u32(&mut s, self.0);
        s
    }
}

impl BlockId {
    /// The text of the block reference: `%b` and the number.
    pub fn to_text(&self) -> (s: String)
        ensures
            s@ == block_text_id(*self),
    {
        let mut s = String::from_str("%b");
        push_u32(&mut s, self.0);
        s
    }
}

/// The name of a binary operation.
pub open spec fn binop_name(op: BinOp) -> Seq<char> {
    match op {
        BinOp::Add => "add"@,
        BinOp::Sub => "sub"@,
        BinOp::Mul => "mul"@,
        BinOp::UDiv => "udiv"@,
        BinOp::SDiv => "sdiv"@,
        BinOp::URem => "urem"@,
        BinOp::SRem => "srem"@,
        BinOp::FAdd => "fadd"@,
        BinOp::FSub => "fsub"@,
        BinOp::FMul => "fmul"@,
        BinOp::FDiv => "fdiv"@,
        BinOp::FRem => "frem"@,
        BinOp::And => "and"@,
        BinOp::Or => "or"@,
        BinOp::Xor => "xor"@,
        BinOp::Shl => "shl"@,
        BinOp::LShr => "lshr"@,
        BinOp::AShr => "ashr"@,
    }
}

/// The name of a binary operation.
pub fn fmt_binop(op: &BinOp) -> (s: &'static str)
    ensures
        s@ == binop_name(*op),
{
    match op {
        BinOp::Add => "add",
        BinOp::Sub => "sub",
        BinOp::Mul => "mul",
        BinOp::UDiv => "udiv",
        BinOp::SDiv => "sdiv",
        BinOp::URem => "urem",
        BinOp::SRem => "srem",
        BinOp::FAdd => "fadd",
        BinOp::FSub => "fsub",
        BinOp::FMul => "fmul",
        BinOp::FDiv => "fdiv",
        BinOp::FRem => "frem",
        BinOp::And => "and",
        BinOp::Or => "or",
        BinOp::Xor => "xor",
        BinOp::Shl => "shl",
        BinOp::LShr => "lshr",
        BinOp::AShr => "ashr",
    }
}

/// The name of a checked operation.
pub open spec fn checked_name(op: CheckedOp) -> Seq<char> {
    match op {
        CheckedOp::UAdd => "uadd"@,
        CheckedOp::USub => "usub"@,
        CheckedOp::UMul => "umul"@,
        CheckedOp::SAdd => "sadd"@,
        CheckedOp::SSub => "ssub"@,
        CheckedOp::SMul => "smul"@,
    }
}

/// The name of a checked operation.
pub fn fmt_checked(op: &CheckedOp) -> (s: &'static str)
    ensures
        s@ == checked_name(*op),
{
    match op {
        CheckedOp::UAdd => "uadd",
        CheckedOp::USub => "usub",
        CheckedOp::UMul => "umul",
        CheckedOp::SAdd => "sadd",
        CheckedOp::SSub => "ssub",
        CheckedOp::SMul => "smul",
    }
}

/// The name of an integer comparison predicate.
pub open spec fn int_predicate_name(p: ICmpPred) -> Seq<char> {
    match p {
        ICmpPred::Eq => "eq"@,
        ICmpPred::Ne => "ne"@,
        ICmpPred::Ult => "ult"@,
        ICmpPred::Ule => "ule"@,
        ICmpPred::Ugt => "ugt"@,
        ICmpPred::Uge => "uge"@,
        ICmpPred::Slt => "slt"@,
        ICmpPred::Sle => "sle"@,
        ICmpPred::Sgt => "sgt"@,
        ICmpPred::Sge => "sge"@,
    }
}

/// The name of an integer comparison predicate.
pub fn fmt_icmp(p: &ICmpPred) -> (s: &'static str)
    ensures
        s@ == int_predicate_name(*p),
{
    match p {
        ICmpPred::Eq => "eq",
        ICmpPred::Ne => "ne",
        ICmpPred::Ult => "ult",
        ICmpPred::Ule => "ule",
        ICmpPred::Ugt => "ugt",
        ICmpPred::Uge => "uge",
        ICmpPred::Slt => "slt",
        ICmpPred::Sle => "sle",
        ICmpPred::Sgt => "sgt",
        ICmpPred::Sge => "sge",
    }
}

/// The name of a floating-point comparison predicate.
pub open spec fn float_predicate_name(p: FCmpPred) -> Seq<char> {
    match p {
        FCmpPred::Oeq => "oeq"@,
        FCmpPred::One => "one"@,
        FCmpPred::Olt => "olt"@,
        FCmpPred::Ole => "ole"@,
        FCmpPred::Ogt => "ogt"@,
        FCmpPred::Oge => "oge"@,
        FCmpPred::Ord => "ord"@,
        FCmpPred::Uno => "uno"@,
        FCmpPred::Ueq => "ueq"@,
        FCmpPred::Une => "une"@,
        FCmpPred::Ult => "ult"@,
        FCmpPred::Ule => "ule"@,
        FCmpPred::Ugt => "ugt"@,
        FCmpPred::Uge => "uge"@,
    }
}

/// The name of a floating-point comparison predicate.
pub fn fmt_fcmp(p: &FCmpPred) -> (s: &'static str)
    ensures
        s@ == float_predicate_name(*p),
{
    match p {
        FCmpPred::Oeq => "oeq",
        FCmpPred::One => "one",
        FCmpPred::Olt => "olt",
        FCmpPred::Ole => "ole",
        FCmpPred::Ogt => "ogt",
        FCmpPred::Oge => "oge",
        FCmpPred::Ord => "ord",
        FCmpPred::Uno => "uno",
        FCmpPred::Ueq => "ueq",
        FCmpPred::Une => "une",
        FCmpPred::Ult => "ult",
        FCmpPred::Ule => "ule",
        FCmpPred::Ugt => "ugt",
        FCmpPred::Uge => "uge",
    }
}

/// The name of a conversion.
pub open spec fn cast_name(op: CastOp) -> Seq<char> {
    match op {
        CastOp::ZExt => "zext"@,
        CastOp::SExt => "sext"@,
        CastOp::Trunc => "trunc"@,
        CastOp::FExt => "fext"@,
        CastOp::FTrunc => "ftrunc"@,
        CastOp::IToF_S => "itof_s"@,
        CastOp::IToF_U => "itof_u"@,
        CastOp::FToI_S => "ftoi_s"@,
        CastOp::FToI_U => "ftoi_u"@,
        CastOp::Bitcast => "bitcast"@,
        CastOp::PtrToInt => "ptrtoint"@,
        CastOp::IntToPtr => "inttoptr"@,
    }
}

/// The name of a conversion.
pub fn fmt_cast(op: &CastOp) -> (s: &'static str)
    ensures
        s@ == cast_name(*op),
{
    match op {
        CastOp::ZExt => "zext",
        CastOp::SExt => "sext",
        CastOp::Trunc => "trunc",
        CastOp::FExt => "fext",
        CastOp::FTrunc => "ftrunc",
        CastOp::IToF_S => "itof_s",
        CastOp::IToF_U => "itof_u",
        CastOp::FToI_S => "ftoi_s",
        CastOp::FToI_U => "ftoi_u",
        CastOp::Bitcast => "bitcast",
        CastOp::PtrToInt => "ptrtoint",
        CastOp::IntToPtr => "inttoptr",
    }
}

/// The name of a comparison.
pub open spec fn compare_name(op: CmpOp) -> Seq<char> {
    match op {
        CmpOp::Eq => "eq"@,
        CmpOp::Ne => "ne"@,
        CmpOp::SLt => "slt"@,
        CmpOp::SLe => "sle"@,
        CmpOp::SGt => "sgt"@,
        CmpOp::SGe => "sge"@,
        CmpOp::ULt => "ult"@,
        CmpOp::ULe => "ule"@,
        CmpOp::UGt => "ugt"@,
        CmpOp::UGe => "uge"@,
        CmpOp::FEq => "feq"@,
        CmpOp::FNe => "fne"@,
        CmpOp::FLt => "flt"@,
        CmpOp::FLe => "fle"@,
        CmpOp::FGt => "fgt"@,
        CmpOp::FGe => "fge"@,
    }
}

/// The name of a comparison.
pub fn fmt_cmpop(op: &CmpOp) -> (s: &'static str)
    ensures
        s@ == compare_name(*op),
{
    match op {
        CmpOp::Eq => "eq",
        CmpOp::Ne => "ne",
        CmpOp::SLt => "slt",
        CmpOp::SLe => "sle",
        CmpOp::SGt => "sgt",
        CmpOp::SGe => "sge",
        CmpOp::ULt => "ult",
        CmpOp::ULe => "ule",
        CmpOp::UGt => "ugt",
        CmpOp::UGe => "uge",
        CmpOp::FEq => "feq",
        CmpOp::FNe => "fne",
        CmpOp::FLt => "flt",
        CmpOp::FLe => "fle",
        CmpOp::FGt => "fgt",
        CmpOp::FGe => "fge",
    }
}

/// The text of a call target: the symbol, with an `@` in front unless it
/// begins with one.
pub open spec fn callee_text(c: Callee) -> Seq<char> {
    match c {
        Callee::Symbol(s) => if s@.len() > 0 && s@[0] == '@' {
            s@
        } else {
            "@"@ + s@
        },
    }
}

/// The text of a call target.
pub fn fmt_callee(c: &Callee) -> (r: String)
    ensures
        r@ == callee_text(*c),
{
    match c {
        Callee::Symbol(s) => {
            if !s.as_str().is_empty() && s.as_str().get_char(0) == '@' {
                s.clone()
            } else {
                let mut r = String::from_str("@");
                r.append(s.as_str());
                r
            }
        },
    }
}

/// The escaped form of one character: a backslash in front of a backslash
/// and of a double quote.
pub open spec fn escaped_char(c: char) -> Seq<char> {
    if c == '\\' {
        seq!['\\', '\\']
    } else if c == '"' {
        seq!['\\', '"']
    } else {
        seq![c]
    }
}

/// The escaped form of a text: that of its characters, in order.
pub open spec fn escaped(s: Seq<char>) -> Seq<char>
    decreases s.len(),
{
    if s.len() == 0 {
        Seq::empty()
    } else {
        escaped(s.drop_last()) + escaped_char(s.last())
    }
}

/// Escapes backslashes and double quotes.
pub fn escape(s: &str) -> (r: String)
    ensures
        r@ == escaped(s@),
{
    let mut out = String::new();
    let chars = to_chars(s);
    let n = chars.len();
    let mut i: usize = 0;
    assert(s@.subrange(0, 0) =~= Seq::<char>::empty());
    while i < n
        invariant
            i <= n,
            n == s@.len(),
            chars@ == s@,
            out@ == escaped(s@.subrange(0, i as int)),
        decreases n - i,
    {
        let c = chars[i];
        proof {
            assert(s@.subrange(0, i + 1).drop_last() =~= s@.subrange(0, i as int));
            assert(s@.subrange(0, i + 1).last() == c);
        }
        if c == '\\' {
            push_char(&mut out, '\\');
            push_char(&mut out, '\\');
        } else if c == '"' {
            push_char(&mut out, '\\');
            push_char(&mut out, '"');
        } else {
            push_char(&mut out, c);
        }
        assert(out@ =~= escaped(s@.subrange(0, i as int)) + escaped_char(c));
        i += 1;
    }
    assert(s@.subrange(0, n as int) =~= s@);
    out
}

/// Whether the bit pattern is that of an infinity.
pub open spec fn float_is_infinite(bits: u64) -> bool {
    float_magnitude(bits) == 0x7ff0_0000_0000_0000
}

/// The text of a constant. A boolean is `true` or `false`, an integer its
/// decimal numeral. A floating-point constant that is no number is `nan`,
/// an infinity is `+inf` or `-inf`, and a finite one is its decimal
/// spelling.
pub open spec fn const_text(c: ConstValue) -> Seq<char> {
    match c {
        ConstValue::Bool(b) => bool_text(b),
        ConstValue::I(i) => signed_decimal(i as int),
        ConstValue::U(u) => decimal(u as nat),
        ConstValue::F(x) => if float_is_nan(x.bits) {
            "nan"@
        } else if float_is_infinite(x.bits) {
            if x.bits < 0x8000_0000_0000_0000 {
                "+inf"@
            } else {
                "-inf"@
            }
        } else {
            x.text@
        },
    }
}

/// Appends the text of the constant `c` to `out`.
pub fn push_const(out: &mut String, c: &ConstValue)
    ensures
        final(out)@ == old(out)@ + const_text(*c),
{
    match c {
        ConstValue::Bool(b) => push_bool(out, *b),
        ConstValue::I(i) => push_signed_decimal(out, *i),
        ConstValue::U(u) => push_decimal(out, *u),
        ConstValue::F(x) => {
            let magnitude = x.bits % 0x8000_0000_0000_0000;
            if magnitude > 0x7ff0_0000_0000_0000 {
                out.append("nan");
            } else if magnitude == 0x7ff0_0000_0000_0000 {
                if x.bits < 0x8000_0000_0000_0000 {
                    out.append("+inf");
                } else {
                    out.append("-inf");
                }
            } else {
                out.append(x.text.as_str());
            }
        },
    }
}

/// The text of a constant.
pub fn fmt_const(c: &ConstValue) -> (s: String)
    ensures
        s@ == const_text(*c),
{
    let mut s = String::new();
    push_const(&mut s, c);
    assert(s@ =~= const_text(*c));
    s
}

/// The start of the text of an instruction that defines `dst` with the
/// type `ty`.
pub open spec fn head(dst: ValueId, ty: TypeV) -> Seq<char> {
    value_text(dst) + ": "@ + type_text(ty) + " = "@
}

/// `acc` followed by the first `n` values of `vs`, separated by a comma and
/// a space.
pub open spec fn values_text(acc: Seq<char>, vs: Seq<ValueId>, n: int) -> Seq<char>
    decreases n,
{
    if n <= 0 {
        acc
    } else if n == 1 {
        values_text(acc, vs, n - 1) + value_text(vs[n - 1])
    } else {
        values_text(acc, vs, n - 1) + ", "@ + value_text(vs[n - 1])
    }
}

/// `acc` followed by the first `n` values of `vs`, each behind a comma and
/// a space.
pub open spec fn indices_text(acc: Seq<char>, vs: Seq<ValueId>, n: int) -> Seq<char>
    decreases n,
{
    if n <= 0 {
        acc
    } else {
        indices_text(acc, vs, n - 1) + ", "@ + value_text(vs[n - 1])
    }
}

/// `acc` followed by the first `n` incoming pairs of a phi, each as
/// `[ value, block ]`, separated by a comma and a space.
pub open spec fn incomings_text(acc: Seq<char>, ins: Seq<(ValueId, BlockId)>, n: int) -> Seq<char>
    decreases n,
{
    if n <= 0 {
        acc
    } else if n == 1 {
        incomings_text(acc, ins, n - 1) + "[ "@ + value_text(ins[n - 1].0) + ", "@
            + block_text_id(ins[n - 1].1) + " ]"@
    } else {
        incomings_text(acc, ins, n - 1) + ", "@ + "[ "@ + value_text(ins[n - 1].0) + ", "@
            + block_text_id(ins[n - 1].1) + " ]"@
    }
}

/// `acc` followed by the first `n` cases of a switch, each as
/// ` constant: block`, separated by a comma.
pub open spec fn cases_text(acc: Seq<char>, cases: Seq<(ConstValue, BlockId)>, n: int) -> Seq<char>
    decreases n,
{
    if n <= 0 {
        acc
    } else if n == 1 {
        cases_text(acc, cases, n - 1) + " "@ + const_text(cases[n - 1].0) + ": "@
            + block_text_id(cases[n - 1].1)
    } else {
        cases_text(acc, cases, n - 1) + ","@ + " "@ + const_text(cases[n - 1].0) + ": "@
            + block_text_id(cases[n - 1].1)
    }
}

/// The text of an instruction, without indentation or line end.
pub open spec fn instr_text(i: Instruction) -> Seq<char> {
    match i {
        Instruction::Const { dst, ty, value } => head(dst, ty@) + "const "@ + type_text(ty@) + " "@
            + const_text(value),
        Instruction::Undef { dst, ty } => head(dst, ty@) + "undef "@ + type_text(ty@),
        Instruction::Mov { dst, ty, src } => head(dst, ty@) + "mov "@ + type_text(ty@) + " "@
            + value_text(src),
        Instruction::Bin { dst, op, ty, lhs, rhs } => head(dst, ty@) + binop_name(op) + " "@
            + type_text(ty@) + " "@ + value_text(lhs) + ", "@ + value_text(rhs),
        Instruction::Not { dst, ty, src } => head(dst, ty@) + "not "@ + type_text(ty@) + " "@
            + value_text(src),
        Instruction::Cmp { dst, op, ty, lhs, rhs } => value_text(dst) + ": i1 = cmp "@
            + compare_name(op) + " "@ + type_text(ty@) + " "@ + value_text(lhs) + ", "@
            + value_text(rhs),
        Instruction::ICmp { dst, pred, ty, lhs, rhs } => value_text(dst) + ": i1 = icmp "@
            + int_predicate_name(pred) + " "@ + type_text(ty@) + " "@ + value_text(lhs) + ", "@
            + value_text(rhs),
        Instruction::FCmp { dst, pred, ty, lhs, rhs } => value_text(dst) + ": i1 = fcmp "@
            + float_predicate_name(pred) + " "@ + type_text(ty@) + " "@ + value_text(lhs) + ", "@
            + value_text(rhs),
        Instruction::Select { dst, ty, cond, on_true, on_false } => head(dst, ty@) + "select i1 "@
            + value_text(cond) + ", "@ + type_text(ty@) + " "@ + value_text(on_true) + ", "@
            + type_text(ty@) + " "@ + value_text(on_false),
        Instruction::Cast { dst, op, dst_ty, src_ty, src } => head(dst, dst_ty@) + cast_name(op)
            + " "@ + type_text(src_ty@) + " "@ + value_text(src) + " to "@ + type_text(dst_ty@),
        Instruction::Phi { dst, ty, incomings } => incomings_text(
            head(dst, ty@) + "phi "@ + type_text(ty@) + " "@,
            incomings@,
            incomings@.len() as int,
        ),
        Instruction::Extract { dst, dst_ty, tuple, index } => head(dst, dst_ty@) + "extract "@
            + value_text(tuple) + ", "@ + decimal(index as nat),
        Instruction::Checked { dst, op, ty, lhs, rhs } => value_text(dst) + ": tuple<"@
            + type_text(ty@) + ", i1> = "@ + checked_name(op) + "_chk "@ + type_text(ty@) + " "@
            + value_text(lhs) + ", "@ + value_text(rhs),
        Instruction::Alloca { dst, ty, align } => value_text(dst) + ": ptr<"@ + type_text(ty@)
            + "> = alloca "@ + type_text(ty@) + ", align "@ + decimal(align as nat),
        Instruction::Load { dst, ty, ptr, align } => head(dst, ty@) + "load "@ + type_text(ty@)
            + ", ptr<"@ + type_text(ty@) + "> "@ + value_text(ptr) + ", align "@ + decimal(
            align as nat,
        ),
        Instruction::Store { ty, value, ptr, align } => "store "@ + type_text(ty@) + " "@
            + value_text(value) + ", ptr<"@ + type_text(ty@) + "> "@ + value_text(ptr)
            + ", align "@ + decimal(align as nat),
        Instruction::Gep { dst, dst_ty, base_ptr, indices } => indices_text(
            head(dst, dst_ty@) + "gep "@ + value_text(base_ptr),
            indices@,
            indices@.len() as int,
        ),
        Instruction::Memcpy { dst, src, n, align } => "memcpy ptr<u8> "@ + value_text(dst)
            + ", ptr<u8> "@ + value_text(src) + ", u64 "@ + value_text(n) + ", align "@ + decimal(
            align as nat,
        ),
        Instruction::Memset { dst, val, n, align } => "memset ptr<u8> "@ + value_text(dst)
            + ", u8 "@ + value_text(val) + ", u64 "@ + value_text(n) + ", align "@ + decimal(
            align as nat,
        ),
        Instruction::Call { dst, ret_ty, callee, args } => values_text(
            (match dst {
                Some(v) => head(v, ret_ty@) + "call "@,
                None => "call "@,
            }) + type_text(ret_ty@) + " "@ + callee_text(callee) + "("@,
            args@,
            args@.len() as int,
        ) + ")"@,
        Instruction::TrapIf { cond, reason } => "trap_if i1 "@ + value_text(cond) + ", reason=\""@
            + escaped(reason@) + "\""@,
    }
}

/// The text of a terminator, without indentation or line end.
pub open spec fn term_text(t: Terminator) -> Seq<char> {
    match t {
        Terminator::Br { target } => "br label "@ + block_text_id(target),
        Terminator::CBr { cond, then_bb, else_bb } => "cbr i1 "@ + value_text(cond) + ", label "@
            + block_text_id(then_bb) + ", label "@ + block_text_id(else_bb),
        Terminator::Switch { ty, value, default_bb, cases } => cases_text(
            "switch "@ + type_text(ty@) + " "@ + value_text(value) + ", label "@
                + block_text_id(default_bb) + " ["@,
            cases@,
            cases@.len() as int,
        ) + " ]"@,
        Terminator::Ret { ty, value } => if ty@ == TypeV::Void {
            "ret void"@
        } else {
            match value {
                Some(v) => "ret "@ + type_text(ty@) + " "@ + value_text(v),
                None => "ret "@ + type_text(ty@) + " <missing>"@,
            }
        },
        Terminator::Trap { reason } => "trap reason=\""@ + escaped(reason@) + "\""@,
    }
}

/// `acc` followed by the lines of the first `n` instructions.
pub open spec fn lines_text(acc: Seq<char>, instrs: Seq<Instruction>, n: int) -> Seq<char>
    decreases n,
{
    if n <= 0 {
        acc
    } else {
        lines_text(acc, instrs, n - 1) + "    "@ + instr_text(instrs[n - 1]) + "\n"@
    }
}

/// The text of a block: its name as a label, then one line for each
/// instruction and one for the terminator, if it has one.
pub open spec fn block_text(b: BasicBlock) -> Seq<char> {
    let body = lines_text(
        "  "@ + b.name@ + ":\n"@,
        b.instructions@,
        b.instructions@.len() as int,
    );
    match b.terminator {
        Some(t) => body + "    "@ + term_text(t) + "\n"@,
        None => body,
    }
}

/// `acc` followed by the first `n` parameters, each as `name: type`,
/// separated by a comma and a space.
pub open spec fn params_text(acc: Seq<char>, ps: Seq<Param>, n: int) -> Seq<char>
    decreases n,
{
    if n <= 0 {
        acc
    } else if n == 1 {
        params_text(acc, ps, n - 1) + ps[n - 1].name@ + ": "@ + type_text(ps[n - 1].ty@)
    } else {
        params_text(acc, ps, n - 1) + ", "@ + ps[n - 1].name@ + ": "@ + type_text(ps[n - 1].ty@)
    }
}

/// `acc` followed by the texts of the first `n` blocks.
pub open spec fn blocks_text(acc: Seq<char>, blocks: Seq<BasicBlock>, n: int) -> Seq<char>
    decreases n,
{
    if n <= 0 {
        acc
    } else {
        blocks_text(acc, blocks, n - 1) + block_text(blocks[n - 1])
    }
}

/// The text of a function: its signature, its blocks in stored order, and
/// the closing brace.
pub open spec fn function_text(f: Function) -> Seq<char> {
    blocks_text(
        params_text("  fn @"@ + f.name@ + "("@, f.params@, f.params@.len() as int) + ") -> "@
            + type_text(f.ret_ty@) + " {\n"@,
        f.blocks@,
        f.blocks@.len() as int,
    ) + "  }\n"@
}

/// `acc` followed by the lines of the first `n` globals.
pub open spec fn globals_text(acc: Seq<char>, gs: Seq<Global>, n: int) -> Seq<char>
    decreases n,
{
    if n <= 0 {
        acc
    } else {
        globals_text(acc, gs, n - 1) + "  global @"@ + gs[n - 1].name@ + ": "@ + type_text(
            gs[n - 1].ty@,
        ) + " = const "@ + type_text(gs[n - 1].ty@) + " "@ + const_text(gs[n - 1].init)
            + ", align "@ + decimal(gs[n - 1].align as nat) + "\n"@
    }
}

/// `acc` followed by the texts of the first `n` functions, each followed by
/// an empty line.
pub open spec fn functions_text(acc: Seq<char>, fs: Seq<Function>, n: int) -> Seq<char>
    decreases n,
{
    if n <= 0 {
        acc
    } else {
        functions_text(acc, fs, n - 1) + function_text(fs[n - 1]) + "\n"@
    }
}

/// The name of a byte order.
pub open spec fn endian_name(e: Endian) -> Seq<char> {
    match e {
        Endian::Little => "little"@,
        Endian::Big => "big"@,
    }
}

/// The text of a module: the target and the data layout, the globals with
/// an empty line behind them if there are any, the functions, and the
/// closing brace.
pub open spec fn module_text(m: Module) -> Seq<char> {
    let top = "module {\n"@ + "  target \""@ + m.target@ + "\"\n"@ + "  datalayout { "@ + "ptr="@
        + decimal(m.datalayout.ptr_bits as nat) + ", endian="@ + endian_name(m.datalayout.endian)
        + " }\n\n"@;
    let globals = globals_text(top, m.globals@, m.globals@.len() as int);
    let spaced = if m.globals@.len() > 0 {
        globals + "\n"@
    } else {
        globals
    };
    functions_text(spaced, m.functions@, m.functions@.len() as int) + "}\n"@
}

/// The start of the text of an instruction that defines `dst` with the
/// type `ty`.
fn start(dst: ValueId, ty: &Type) -> (s: String)
    ensures
        s@ == head(dst, ty@),
{
    let mut s = dst.to_text();
    s.append(": ");
    push_type(&mut s, ty);
    s.append(" = ");
    s
}

/// Appends the values of `vs`, separated by a comma and a space.
fn push_values(out: &mut String, vs: &Vec<ValueId>)
    ensures
        final(out)@ == values_text(old(out)@, vs@, vs@.len() as int),
{
    let mut i: usize = 0;
    while i < vs.len()
        invariant
            i <= vs.len(),
            out@ == values_text(old(out)@, vs@, i as int),
        decreases vs.len() - i,
    {
        if i != 0 {
            out.append(", ");
        }
        push_value(out, vs[i]);
        i += 1;
    }
}

/// Appends the values of `vs`, each behind a comma and a space.
fn push_indices(out: &mut String, vs: &Vec<ValueId>)
    ensures
        final(out)@ == indices_text(old(out)@, vs@, vs@.len() as int),
{
    let mut i: usize = 0;
    while i < vs.len()
        invariant
            i <= vs.len(),
            out@ == indices_text(old(out)@, vs@, i as int),
        decreases vs.len() - i,
    {
        out.append(", ");
        push_value(out, vs[i]);
        i += 1;
    }
}

/// Appends the incoming pairs of a phi.
fn push_incomings(out: &mut String, ins: &Vec<(ValueId, BlockId)>)
    ensures
        final(out)@ == incomings_text(old(out)@, ins@, ins@.len() as int),
{
    let mut i: usize = 0;
    while i < ins.len()
        invariant
            i <= ins.len(),
            out@ == incomings_text(old(out)@, ins@, i as int),
        decreases ins.len() - i,
    {
        if i != 0 {
            out.append(", ");
        }
        out.append("[ ");
        push_value(out, ins[i].0);
        out.append(", ");
        push_block(out, ins[i].1);
        out.append(" ]");
        i += 1;
    }
}

/// Appends the cases of a switch.
fn push_cases(out: &mut String, cases: &Vec<(ConstValue, BlockId)>)
    ensures
        final(out)@ == cases_text(old(out)@, cases@, cases@.len() as int),
{
    let mut i: usize = 0;
    while i < cases.len()
        invariant
            i <= cases.len(),
            out@ == cases_text(old(out)@, cases@, i as int),
        decreases cases.len() - i,
    {
        if i != 0 {
            out.append(",");
        }
        out.append(" ");
        push_const(out, &cases[i].0);
        out.append(": ");
        push_block(out, cases[i].1);
        i += 1;
    }
}

/// Appends ` lhs, rhs` behind the type `ty`: the operands of a binary
/// instruction.
fn push_operands(out: &mut String, ty: &Type, lhs: ValueId, rhs: ValueId)
    ensures
        final(out)@ == old(out)@ + " "@ + type_text(ty@) + " "@ + value_text(lhs) + ", "@
            + value_text(rhs),
{
    out.append(" ");
    push_type(out, ty);
    out.append(" ");
    push_value(out, lhs);
    out.append(", ");
    push_value(out, rhs);
}

/// The text of an instruction.
pub fn print_instr(i: &Instruction) -> (s: String)
    ensures
        s@ == instr_text(*i),
{
    match i {
        Instruction::Const { dst, ty, value } => {
            let mut s = start(*dst, ty);
            s.append("const ");
            push_type(&mut s, ty);
            s.append(" ");
            push_const(&mut s, value);
            s
        },
        Instruction::Undef { dst, ty } => {
            let mut s = start(*dst, ty);
            s.append("undef ");
            push_type(&mut s, ty);
            s
        },
        Instruction::Mov { dst, ty, src } => {
            let mut s = start(*dst, ty);
            s.append("mov ");
            push_type(&mut s, ty);
            s.append(" ");
            push_value(&mut s, *src);
            s
        },
        Instruction::Bin { dst, op, ty, lhs, rhs } => {
            let mut s = start(*dst, ty);
            s.append(fmt_binop(op));
            push_operands(&mut s, ty, *lhs, *rhs);
            s
        },
        Instruction::Not { dst, ty, src } => {
            let mut s = start(*dst, ty);
            s.append("not ");
            push_type(&mut s, ty);
            s.append(" ");
            push_value(&mut s, *src);
            s
        },
        Instruction::Cmp { dst, op, ty, lhs, rhs } => {
            let mut s = dst.to_text();
            s.append(": i1 = cmp ");
            s.append(fmt_cmpop(op));
            push_operands(&mut s, ty, *lhs, *rhs);
            s
        },
        Instruction::ICmp { dst, pred, ty, lhs, rhs } => {
            let mut s = dst.to_text();
            s.append(": i1 = icmp ");
            s.append(fmt_icmp(pred));
            push_operands(&mut s, ty, *lhs, *rhs);
            s
        },
        Instruction::FCmp { dst, pred, ty, lhs, rhs } => {
            let mut s = dst.to_text();
            s.append(": i1 = fcmp ");
            s.append(fmt_fcmp(pred));
            push_operands(&mut s, ty, *lhs, *rhs);
            s
        },
        Instruction::Select { dst, ty, cond, on_true, on_false } => {
            let mut s = start(*dst, ty);
            s.append("select i1 ");
            push_value(&mut s, *cond);
            s.append(", ");
            push_type(&mut s, ty);
            s.append(" ");
            push_value(&mut s, *on_true);
            s.append(", ");
            push_type(&mut s, ty);
            s.append(" ");
            push_value(&mut s, *on_false);
            s
        },
        Instruction::Cast { dst, op, dst_ty, src_ty, src } => {
            let mut s = start(*dst, dst_ty);
            s.append(fmt_cast(op));
            s.append(" ");
            push_type(&mut s, src_ty);
            s.append(" ");
            push_value(&mut s, *src);
            s.append(" to ");
            push_type(&mut s, dst_ty);
            s
        },
        Instruction::Phi { dst, ty, incomings } => {
            let mut s = start(*dst, ty);
            s.append("phi ");
            push_type(&mut s, ty);
            s.append(" ");
            push_incomings(&mut s, incomings);
            s
        },
        Instruction::Extract { dst, dst_ty, tuple, index } => {
            let mut s = start(*dst, dst_ty);
            s.append("extract ");
            push_value(&mut s, *tuple);
            s.append(", ");
            push_u32(&mut s, *index);
            s
        },
        Instruction::Checked { dst, op, ty, lhs, rhs } => {
            let mut s = dst.to_text();
            s.append(": tuple<");
            push_type(&mut s, ty);
            s.append(", i1> = ");
            s.append(fmt_checked(op));
            s.append("_chk");
            proof {
                reveal_strlit("_chk");
                reveal_strlit("_chk ");
                reveal_strlit(" ");
            }
            push_operands(&mut s, ty, *lhs, *rhs);
            assert(s@ =~= instr_text(*i));
            s
        },
        Instruction::Alloca { dst, ty, align } => {
            let mut s = dst.to_text();
            s.append(": ptr<");
            push_type(&mut s, ty);
            s.append("> = alloca ");
            push_type(&mut s, ty);
            s.append(", align ");
            push_u32(&mut s, *align);
            s
        },
        Instruction::Load { dst, ty, ptr, align } => {
            let mut s = start(*dst, ty);
            s.append("load ");
            push_type(&mut s, ty);
            s.append(", ptr<");
            push_type(&mut s, ty);
            s.append("> ");
            push_value(&mut s, *ptr);
            s.append(", align ");
            push_u32(&mut s, *align);
            s
        },
        Instruction::Store { ty, value, ptr, align } => {
            let mut s = String::from_str("store ");
            push_type(&mut s, ty);
            s.append(" ");
            push_value(&mut s, *value);
            s.append(", ptr<");
            push_type(&mut s, ty);
            s.append("> ");
            push_value(&mut s, *ptr);
            s.append(", align ");
            push_u32(&mut s, *align);
            s
        },
        Instruction::Gep { dst, dst_ty, base_ptr, indices } => {
            let mut s = start(*dst, dst_ty);
            s.append("gep ");
            push_value(&mut s, *base_ptr);
            push_indices(&mut s, indices);
            s
        },
        Instruction::Memcpy { dst, src, n, align } => {
            let mut s = String::from_str("memcpy ptr<u8> ");
            push_value(&mut s, *dst);
            s.append(", ptr<u8> ");
            push_value(&mut s, *src);
            s.append(", u64 ");
            push_value(&mut s, *n);
            s.append(", align ");
            push_u32(&mut s, *align);
            s
        },
        Instruction::Memset { dst, val, n, align } => {
            let mut s = String::from_str("memset ptr<u8> ");
            push_value(&mut s, *dst);
            s.append(", u8 ");
            push_value(&mut s, *val);
            s.append(", u64 ");
            push_value(&mut s, *n);
            s.append(", align ");
            push_u32(&mut s, *align);
            s
        },
        Instruction::Call { dst, ret_ty, callee, args } => {
            let mut s = match dst {
                Some(v) => {
                    let mut s = start(*v, ret_ty);
                    s.append("call ");
                    s
                },
                None => String::from_str("call "),
            };
            push_type(&mut s, ret_ty);
            s.append(" ");
            let target = fmt_callee(callee);
            s.append(target.as_str());
            s.append("(");
            push_values(&mut s, args);
            s.append(")");
            s
        },
        Instruction::TrapIf { cond, reason } => {
            let mut s = String::from_str("trap_if i1 ");
            push_value(&mut s, *cond);
            s.append(", reason=\"");
            let text = escape(reason.as_str());
            s.append(text.as_str());
            s.append("\"");
            s
        },
    }
}

/// The text of a terminator.
pub fn print_term(t: &Terminator) -> (s: String)
    ensures
        s@ == term_text(*t),
{
    match t {
        Terminator::Br { target } => {
            let mut s = String::from_str("br label ");
            push_block(&mut s, *target);
            s
        },
        Terminator::CBr { cond, then_bb, else_bb } => {
            let mut s = String::from_str("cbr i1 ");
            push_value(&mut s, *cond);
            s.append(", label ");
            push_block(&mut s, *then_bb);
            s.append(", label ");
            push_block(&mut s, *else_bb);
            s
        },
        Terminator::Switch { ty, value, default_bb, cases } => {
            let mut s = String::from_str("switch ");
            push_type(&mut s, ty);
            s.append(" ");
            push_value(&mut s, *value);
            s.append(", label ");
            push_block(&mut s, *default_bb);
            s.append(" [");
            push_cases(&mut s, cases);
            s.append(" ]");
            s
        },
        Terminator::Ret { ty, value } => {
            if matches!(ty, Type::Void) {
                String::from_str("ret void")
            } else {
                match value {
                    Some(v) => {
                        let mut s = String::from_str("ret ");
                        push_type(&mut s, ty);
                        s.append(" ");
                        push_value(&mut s, *v);
                        s
                    },
                    None => {
                        let mut s = String::from_str("ret ");
                        push_type(&mut s, ty);
                        s.append(" <missing>");
                        s
                    },
                }
            }
        },
        Terminator::Trap { reason } => {
            let mut s = String::from_str("trap reason=\"");
            let text = escape(reason.as_str());
            s.append(text.as_str());
            s.append("\"");
            s
        },
    }
}

/// The text of a block.
pub fn print_block(b: &BasicBlock) -> (s: String)
    ensures
        s@ == block_text(*b),
{
    let mut out = String::from_str("  ");
    out.append(b.name.as_str());
    out.append(":\n");
    let ghost top = out@;
    let mut i: usize = 0;
    while i < b.instructions.len()
        invariant
            i <= b.instructions.len(),
            out@ == lines_text(top, b.instructions@, i as int),
        decreases b.instructions.len() - i,
    {
        out.append("    ");
        let line = print_instr(&b.instructions[i]);
        out.append(line.as_str());
        out.append("\n");
        i += 1;
    }
    match &b.terminator {
        Some(t) => {
            out.append("    ");
            let line = print_term(t);
            out.append(line.as_str());
            out.append("\n");
        },
        None => {},
    }
    out
}

/// The text of a function.
pub fn print_function(f: &Function) -> (s: String)
    ensures
        s@ == function_text(*f),
{
    let mut out = String::from_str("  fn @");
    out.append(f.name.as_str());
    out.append("(");
    let ghost top = out@;
    let mut i: usize = 0;
    while i < f.params.len()
        invariant
            i <= f.params.len(),
            out@ == params_text(top, f.params@, i as int),
        decreases f.params.len() - i,
    {
        if i != 0 {
            out.append(", ");
        }
        out.append(f.params[i].name.as_str());
        out.append(": ");
        push_type(&mut out, &f.params[i].ty);
        i += 1;
    }
    out.append(") -> ");
    push_type(&mut out, &f.ret_ty);
    out.append(" {\n");
    let ghost signature = out@;
    let mut k: usize = 0;
    while k < f.blocks.len()
        invariant
            k <= f.blocks.len(),
            out@ == blocks_text(signature, f.blocks@, k as int),
        decreases f.blocks.len() - k,
    {
        let text = print_block(&f.blocks[k]);
        out.append(text.as_str());
        k += 1;
    }
    out.append("  }\n");
    out
}

/// The text of a module, in the format that other tools read.
pub fn print_module(m: &Module) -> (s: String)
    ensures
        s@ == module_text(*m),
{
    let mut out = String::from_str("module {\n");
    out.append("  target \"");
    out.append(m.target.as_str());
    out.append("\"\n");
    out.append("  datalayout { ");
    out.append("ptr=");
    push_u32(&mut out, m.datalayout.ptr_bits);
    out.append(", endian=");
    out.append(
        match m.datalayout.endian {
            Endian::Little => "little",
            Endian::Big => "big",
        },
    );
    out.append(" }\n\n");
    let ghost top = out@;
    let mut i: usize = 0;
    while i < m.globals.len()
        invariant
            i <= m.globals.len(),
            out@ == globals_text(top, m.globals@, i as int),
        decreases m.globals.len() - i,
    {
        let g = &m.globals[i];
        out.append("  global @");
        out.append(g.name.as_str());
        out.append(": ");
        push_type(&mut out, &g.ty);
        out.append(" = const ");
        push_type(&mut out, &g.ty);
        out.append(" ");
        push_const(&mut out, &g.init);
        out.append(", align ");
        push_u32(&mut out, g.align);
        out.append("\n");
        i += 1;
    }
    if m.globals.len() > 0 {
        out.append("\n");
    }
    let ghost spaced = out@;
    let mut k: usize = 0;
    while k < m.functions.len()
        invariant
            k <= m.functions.len(),
            out@ == functions_text(spaced, m.functions@, k as int),
        decreases m.functions.len() - k,
    {
        let text = print_function(&m.functions[k]);
        out.append(text.as_str());
        out.append("\n");
        k += 1;
    }
    out.append("}\n");
    out
}

} // verus!
