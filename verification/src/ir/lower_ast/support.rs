//! What lowering needs to know of types: how a source type maps to a type of
//! the representation, its alignment, and which operation a source operator
//! stands for at a given type.

use vstd::prelude::*;
use vstd::string::StringExecFns;
use crate::ir::instr::{BinOp, CmpOp};
use crate::ir::lower_ast::error::{LowerError, LowerErrorV};
use crate::ir::lower_ast::frontend::{BinOpRef, CmpOpRef, TypeRef};
use crate::ir::text::{bool_text, decimal, push_bool, push_decimal};
use crate::ir::types::{lemma_types_view, Type, types_view, TypeV};

verus! {

/// `r` is the executable form of the outcome `s`.
pub open spec fn type_result(r: Result<Type, LowerError>, s: Result<TypeV, LowerErrorV>) -> bool {
    match s {
        Ok(t) => r is Ok && r->Ok_0@ == t,
        Err(e) => r is Err && r->Err_0@ == e,
    }
}

/// The integer type of `bits` bits. One bit is the boolean whatever the
/// signedness; widths other than 1, 8, 16, 32, 64 and 128 are unsupported.
pub open spec fn int_type_spec(bits: u16, signed: bool) -> Result<TypeV, LowerErrorV> {
    if bits == 1 {
        Ok(TypeV::I1)
    } else if bits == 8 {
        Ok(if signed { TypeV::I8 } else { TypeV::U8 })
    } else if bits == 16 {
        Ok(if signed { TypeV::I16 } else { TypeV::U16 })
    } else if bits == 32 {
        Ok(if signed { TypeV::I32 } else { TypeV::U32 })
    } else if bits == 64 {
        Ok(if signed { TypeV::I64 } else { TypeV::U64 })
    } else if bits == 128 {
        Ok(if signed { TypeV::I128 } else { TypeV::U128 })
    } else {
        Err(
            LowerErrorV::UnsupportedType(
                "int bits="@ + decimal(bits as nat) + " signed="@ + bool_text(signed),
            ),
        )
    }
}

/// The floating-point type of `bits` bits: 16, 32 or 64.
pub open spec fn float_type_spec(bits: u16) -> Result<TypeV, LowerErrorV> {
    if bits == 16 {
        Ok(TypeV::F16)
    } else if bits == 32 {
        Ok(TypeV::F32)
    } else if bits == 64 {
        Ok(TypeV::F64)
    } else {
        Err(LowerErrorV::UnsupportedType("float bits="@ + decimal(bits as nat)))
    }
}

/// The type of the representation that the source type `t` stands for.
/// Opaque types are unsupported.
pub open spec fn type_of(t: TypeRef) -> Result<TypeV, LowerErrorV>
    decreases t,
{
    match t {
        TypeRef::Void => Ok(TypeV::Void),
        TypeRef::Bool => Ok(TypeV::I1),
        TypeRef::Int { bits, signed } => int_type_spec(bits, signed),
        TypeRef::Float { bits } => float_type_spec(bits),
        TypeRef::Ptr(inner) => match type_of(*inner) {
            Ok(i) => Ok(TypeV::Ptr(Box::new(i))),
            Err(e) => Err(e),
        },
        TypeRef::Array { elem, len } => match type_of(*elem) {
            Ok(e) => Ok(TypeV::Array(Box::new(e), len)),
            Err(e) => Err(e),
        },
        TypeRef::Opaque(name) => Err(LowerErrorV::UnsupportedType("opaque "@ + name@)),
    }
}

/// Maps a source type to a type of the representation.
pub fn socket_type_to_whale(t: &TypeRef) -> (r: Result<Type, LowerError>)
    ensures
        type_result(r, type_of(*t)),
    decreases t,
{
    match t {
        TypeRef::Void => Ok(Type::Void),
        TypeRef::Bool => Ok(Type::I1),
        TypeRef::Int { bits, signed } => int_type(*bits, *signed),
        TypeRef::Float { bits } => float_type(*bits),
        TypeRef::Ptr(inner) => {
            let i = socket_type_to_whale(inner)?;
            Ok(Type::Ptr(Box::new(i)))
        },
        TypeRef::Array { elem, len } => {
            let e = socket_type_to_whale(elem)?;
            Ok(Type::Array(Box::new(e), *len))
        },
        TypeRef::Opaque(name) => {
            let mut msg = String::from_str("opaque ");
            msg.append(name.as_str());
            Err(LowerError::UnsupportedType(msg))
        },
    }
}

/// The integer type of the given width and signedness.
pub fn int_type(bits: u16, signed: bool) -> (r: Result<Type, LowerError>)
    ensures
        type_result(r, int_type_spec(bits, signed)),
{
    if bits == 1 {
        Ok(Type::I1)
    } else if bits == 8 {
        Ok(if signed { Type::I8 } else { Type::U8 })
    } else if bits == 16 {
        Ok(if signed { Type::I16 } else { Type::U16 })
    } else if bits == 32 {
        Ok(if signed { Type::I32 } else { Type::U32 })
    } else if bits == 64 {
        Ok(if signed { Type::I64 } else { Type::U64 })
    } else if bits == 128 {
        Ok(if signed { Type::I128 } else { Type::U128 })
    } else {
        let mut msg = String::from_str("int bits=");
        push_decimal(&mut msg, bits as u128);
        msg.append(" signed=");
        push_bool(&mut msg, signed);
        Err(LowerError::UnsupportedType(msg))
    }
}

/// The floating-point type of the given width.
pub fn float_type(bits: u16) -> (r: Result<Type, LowerError>)
    ensures
        type_result(r, float_type_spec(bits)),
{
    if bits == 16 {
        Ok(Type::F16)
    } else if bits == 32 {
        Ok(Type::F32)
    } else if bits == 64 {
        Ok(Type::F64)
    } else {
        let mut msg = String::from_str("float bits=");
        push_decimal(&mut msg, bits as u128);
        Err(LowerError::UnsupportedType(msg))
    }
}

/// Whether `ty` is a floating-point type.
pub open spec fn is_float_spec(ty: TypeV) -> bool {
    ty is F16 || ty is F32 || ty is F64
}

/// Whether `ty` is the boolean or an integer type.
pub open spec fn is_int_like_spec(ty: TypeV) -> bool {
    ty is I1 || ty is I8 || ty is I16 || ty is I32 || ty is I64 || ty is I128 || ty is U8
        || ty is U16 || ty is U32 || ty is U64 || ty is U128
}

/// Whether `ty` is a signed integer type of eight bits or more.
pub open spec fn is_signed_spec(ty: TypeV) -> bool {
    ty is I8 || ty is I16 || ty is I32 || ty is I64 || ty is I128
}

/// Whether `ty` is a floating-point type.
pub fn is_float(ty: &Type) -> (r: bool)
    ensures
        r == is_float_spec(ty@),
{
    matches!(ty, Type::F16 | Type::F32 | Type::F64)
}

/// Whether `ty` is the boolean or an integer type.
pub fn is_int_like(ty: &Type) -> (r: bool)
    ensures
        r == is_int_like_spec(ty@),
{
    matches!(
        ty,
        Type::I1 | Type::I8 | Type::I16 | Type::I32 | Type::I64 | Type::I128 | Type::U8
            | Type::U16 | Type::U32 | Type::U64 | Type::U128
    )
}

/// The operation that the source operator `op` stands for on operands of
/// type `ty`: the float form on floats, the integer form on integers and the
/// boolean, and none on any other type.
pub open spec fn binop_of(op: BinOpRef, ty: TypeV) -> Result<BinOp, LowerErrorV> {
    if is_float_spec(ty) {
        Ok(
            match op {
                BinOpRef::Add => BinOp::FAdd,
                BinOpRef::Sub => BinOp::FSub,
                BinOpRef::Mul => BinOp::FMul,
            },
        )
    } else if is_int_like_spec(ty) {
        Ok(
            match op {
                BinOpRef::Add => BinOp::Add,
                BinOpRef::Sub => BinOp::Sub,
                BinOpRef::Mul => BinOp::Mul,
            },
        )
    } else {
        Err(LowerErrorV::UnsupportedExpr)
    }
}

/// Picks the binary operation for a source operator at a type.
pub fn map_binop(op: BinOpRef, ty: &Type) -> (r: Result<BinOp, LowerError>)
    ensures
        match binop_of(op, ty@) {
            Ok(b) => r == Ok::<BinOp, LowerError>(b),
            Err(e) => r is Err && r->Err_0@ == e,
        },
{
    if is_float(ty) {
        Ok(
            match op {
                BinOpRef::Add => BinOp::FAdd,
                BinOpRef::Sub => BinOp::FSub,
                BinOpRef::Mul => BinOp::FMul,
            },
        )
    } else if is_int_like(ty) {
        Ok(
            match op {
                BinOpRef::Add => BinOp::Add,
                BinOpRef::Sub => BinOp::Sub,
                BinOpRef::Mul => BinOp::Mul,
            },
        )
    } else {
        Err(LowerError::UnsupportedExpr)
    }
}

/// The comparison that the source comparison `op` stands for on operands of
/// type `ty`. Floats compare by the float forms. The boolean has equality
/// and inequality only. Integers order by the signed forms where the type
/// is signed and by the unsigned forms where it is not. Other types have no
/// comparison.
pub open spec fn compare_of(op: CmpOpRef, ty: TypeV) -> Result<CmpOp, LowerErrorV> {
    if is_float_spec(ty) {
        Ok(
            match op {
                CmpOpRef::Eq => CmpOp::FEq,
                CmpOpRef::Ne => CmpOp::FNe,
                CmpOpRef::Lt => CmpOp::FLt,
                CmpOpRef::Le => CmpOp::FLe,
                CmpOpRef::Gt => CmpOp::FGt,
                CmpOpRef::Ge => CmpOp::FGe,
            },
        )
    } else if ty is I1 {
        match op {
            CmpOpRef::Eq => Ok(CmpOp::Eq),
            CmpOpRef::Ne => Ok(CmpOp::Ne),
            _ => Err(LowerErrorV::UnsupportedExpr),
        }
    } else if is_int_like_spec(ty) {
        Ok(
            match op {
                CmpOpRef::Eq => CmpOp::Eq,
                CmpOpRef::Ne => CmpOp::Ne,
                CmpOpRef::Lt => if is_signed_spec(ty) { CmpOp::SLt } else { CmpOp::ULt },
                CmpOpRef::Le => if is_signed_spec(ty) { CmpOp::SLe } else { CmpOp::ULe },
                CmpOpRef::Gt => if is_signed_spec(ty) { CmpOp::SGt } else { CmpOp::UGt },
                CmpOpRef::Ge => if is_signed_spec(ty) { CmpOp::SGe } else { CmpOp::UGe },
            },
        )
    } else {
        Err(LowerErrorV::UnsupportedExpr)
    }
}

/// Picks the comparison for a source comparison at a type.
pub fn map_cmp(op: CmpOpRef, ty: &Type) -> (r: Result<CmpOp, LowerError>)
    ensures
        match compare_of(op, ty@) {
            Ok(c) => r == Ok::<CmpOp, LowerError>(c),
            Err(e) => r is Err && r->Err_0@ == e,
        },
{
    if is_float(ty) {
        return Ok(
            match op {
                CmpOpRef::Eq => CmpOp::FEq,
                CmpOpRef::Ne => CmpOp::FNe,
                CmpOpRef::Lt => CmpOp::FLt,
                CmpOpRef::Le => CmpOp::FLe,
                CmpOpRef::Gt => CmpOp::FGt,
                CmpOpRef::Ge => CmpOp::FGe,
            },
        );
    }
    if is_int_like(ty) {
        if matches!(ty, Type::I1) {
            return match op {
                CmpOpRef::Eq => Ok(CmpOp::Eq),
                CmpOpRef::Ne => Ok(CmpOp::Ne),
                _ => Err(LowerError::UnsupportedExpr),
            };
        }
        let signed = matches!(ty, Type::I8 | Type::I16 | Type::I32 | Type::I64 | Type::I128);
        return Ok(
            match op {
                CmpOpRef::Eq => CmpOp::Eq,
                CmpOpRef::Ne => CmpOp::Ne,
                CmpOpRef::Lt => if signed { CmpOp::SLt } else { CmpOp::ULt },
                CmpOpRef::Le => if signed { CmpOp::SLe } else { CmpOp::ULe },
                CmpOpRef::Gt => if signed { CmpOp::SGt } else { CmpOp::UGt },
                CmpOpRef::Ge => if signed { CmpOp::SGe } else { CmpOp::UGe },
            },
        );
    }
    Err(LowerError::UnsupportedExpr)
}

/// The alignment in bytes of a value of type `ty` on a target whose
/// pointers have `ptr_bits` bits: the size of a scalar; a whole number of
/// bytes, and one at least, for a pointer; that of the element for an
/// array; and the largest among the components of a struct or tuple, one
/// where it has none.
pub open spec fn align_spec(ty: TypeV, ptr_bits: u32) -> u32
    decreases ty,
{
    match ty {
        TypeV::Void => 1,
        TypeV::I1 => 1,
        TypeV::I8 => 1,
        TypeV::U8 => 1,
        TypeV::I16 => 2,
        TypeV::U16 => 2,
        TypeV::F16 => 2,
        TypeV::I32 => 4,
        TypeV::U32 => 4,
        TypeV::F32 => 4,
        TypeV::I64 => 8,
        TypeV::U64 => 8,
        TypeV::F64 => 8,
        TypeV::I128 => 16,
        TypeV::U128 => 16,
        TypeV::Ptr(_) => if ptr_bits / 8 >= 1 {
            ptr_bits / 8
        } else {
            1
        },
        TypeV::Array(elem, _) => align_spec(*elem, ptr_bits),
        TypeV::Struct(fields) => max_align(fields, 0, ptr_bits),
        TypeV::Tuple(items) => max_align(items, 0, ptr_bits),
    }
}

/// The largest alignment among `fields[from..]`, or one where that is empty.
pub open spec fn max_align(fields: Seq<TypeV>, from: int, ptr_bits: u32) -> u32
    decreases fields, fields.len() - from,
{
    if 0 <= from < fields.len() {
        let head = align_spec(fields[from], ptr_bits);
        let rest = max_align(fields, from + 1, ptr_bits);
        if head >= rest {
            head
        } else {
            rest
        }
    } else {
        1
    }
}

/// The largest alignment among the types of `fields`, or one.
fn align_of_all(fields: &Vec<Type>, ptr_bits: u32) -> (r: u32)
    ensures
        r == max_align(types_view(fields@), 0, ptr_bits),
    decreases fields,
{
    proof {
        lemma_types_view(fields@);
    }
    let ghost views = types_view(fields@);
    let mut acc: u32 = 1;
    let mut i: usize = fields.len();
    while i > 0
        invariant
            i <= fields.len(),
            views == types_view(fields@),
            views.len() == fields@.len(),
            forall|k: int| 0 <= k < fields@.len() ==> #[trigger] views[k] == fields@[k]@,
            acc == max_align(views, i as int, ptr_bits),
        decreases i,
    {
        i -= 1;
        let a = align_of(&fields[i], ptr_bits);
        if a >= acc {
            acc = a;
        }
    }
    acc
}

/// The alignment in bytes of a value of type `ty`.
pub fn align_of(ty: &Type, ptr_bits: u32) -> (r: u32)
    ensures
        r == align_spec(ty@, ptr_bits),
    decreases ty,
{
    match ty {
        Type::Void => 1,
        Type::I1 | Type::I8 | Type::U8 => 1,
        Type::I16 | Type::U16 | Type::F16 => 2,
        Type::I32 | Type::U32 | Type::F32 => 4,
        Type::I64 | Type::U64 | Type::F64 => 8,
        Type::I128 | Type::U128 => 16,
        Type::Ptr(_) => {
            let bytes = ptr_bits / 8;
            if bytes >= 1 {
                bytes
            } else {
                1
            }
        },
        Type::Array(elem, _) => align_of(elem, ptr_bits),
        Type::Struct(fields) => align_of_all(fields, ptr_bits),
        Type::Tuple(items) => align_of_all(items, ptr_bits),
    }
}

} // verus!
