//! The constant evaluator: literals, names bound to constants, and wrapping
//! arithmetic and comparisons on them, all at compile time.

use vstd::prelude::*;
use vstd::arithmetic::div_mod::{lemma_fundamental_div_mod, lemma_mod_multiples_vanish};
use crate::ir::instr::{ConstValue, FloatConst};
use crate::ir::lower_ast::binding::{Binding, Env, Kind, lookup, Sig};
use crate::ir::lower_ast::error::{LowerError, LowerErrorV};
use crate::ir::lower_ast::frontend::{BinOpRef, CmpOpRef, Expr, Lit};
use crate::ir::lower_ast::support::{
    float_type, float_type_spec, int_type, int_type_spec, is_float, is_float_spec, is_signed_spec,
};
use crate::ir::types::{Type, TypeV};

verus! {

/// The width in bits of the boolean and of the integer types.
pub open spec fn int_bits(ty: TypeV) -> Option<u32> {
    match ty {
        TypeV::I1 => Some(1u32),
        TypeV::I8 => Some(8u32),
        TypeV::U8 => Some(8u32),
        TypeV::I16 => Some(16u32),
        TypeV::U16 => Some(16u32),
        TypeV::I32 => Some(32u32),
        TypeV::U32 => Some(32u32),
        TypeV::I64 => Some(64u32),
        TypeV::U64 => Some(64u32),
        TypeV::I128 => Some(128u32),
        TypeV::U128 => Some(128u32),
        _ => None,
    }
}

/// The number of values of a type of the width of `ty`: two to the power of
/// its width. A type without a width counts as 128 bits wide.
pub open spec fn modulus(ty: TypeV) -> int {
    match int_bits(ty) {
        Some(bits) => if bits == 1 {
            2
        } else if bits == 8 {
            0x100
        } else if bits == 16 {
            0x1_0000
        } else if bits == 32 {
            0x1_0000_0000
        } else if bits == 64 {
            0x1_0000_0000_0000_0000
        } else {
            0x1_0000_0000_0000_0000_0000_0000_0000_0000int
        },
        None => 0x1_0000_0000_0000_0000_0000_0000_0000_0000int,
    }
}

/// `v` reduced to the width of `ty` and read as an unsigned number.
pub open spec fn wrap_unsigned(v: int, ty: TypeV) -> int {
    v % modulus(ty)
}

/// `v` reduced to the width of `ty` and read as a two's-complement number.
pub open spec fn wrap_signed(v: int, ty: TypeV) -> int {
    let m = modulus(ty);
    let r = v % m;
    if 2 * r >= m {
        r - m
    } else {
        r
    }
}

/// The width in bits of the boolean and of the integer types.
pub fn ty_int_bits(ty: &Type) -> (r: Option<u32>)
    ensures
        r == int_bits(ty@),
{
    match ty {
        Type::I1 => Some(1),
        Type::I8 | Type::U8 => Some(8),
        Type::I16 | Type::U16 => Some(16),
        Type::I32 | Type::U32 => Some(32),
        Type::I64 | Type::U64 => Some(64),
        Type::I128 | Type::U128 => Some(128),
        _ => None,
    }
}

/// Whether `ty` is a signed integer type of eight bits or more.
pub fn is_signed_int(ty: &Type) -> (r: bool)
    ensures
        r == is_signed_spec(ty@),
{
    matches!(ty, Type::I8 | Type::I16 | Type::I32 | Type::I64 | Type::I128)
}

/// Two to the power of `bits`, for the widths below 128.
fn narrow_modulus(bits: u32) -> (m: u128)
    requires
        bits == 1 || bits == 8 || bits == 16 || bits == 32 || bits == 64,
    ensures
        bits == 1 ==> m == 2,
        bits == 8 ==> m == 0x100,
        bits == 16 ==> m == 0x1_0000,
        bits == 32 ==> m == 0x1_0000_0000,
        bits == 64 ==> m == 0x1_0000_0000_0000_0000,
{
    if bits == 1 {
        2
    } else if bits == 8 {
        0x100
    } else if bits == 16 {
        0x1_0000
    } else if bits == 32 {
        0x1_0000_0000
    } else {
        0x1_0000_0000_0000_0000
    }
}

/// Reduces `v` to the width of `ty`.
pub fn wrap_u(v: u128, ty: &Type) -> (r: u128)
    ensures
        r == wrap_unsigned(v as int, ty@),
{
    let bits = match ty_int_bits(ty) {
        Some(b) => b,
        None => 128,
    };
    if bits >= 128 {
        return v;
    }
    v % narrow_modulus(bits)
}

/// Reduces `v` to the width of `ty` and extends the sign.
pub fn wrap_i(v: i128, ty: &Type) -> (r: i128)
    ensures
        r == wrap_signed(v as int, ty@),
{
    let bits = match ty_int_bits(ty) {
        Some(b) => b,
        None => 128,
    };
    if bits >= 128 {
        return v;
    }
    let m = narrow_modulus(bits);
    let rem: u128 = if v >= 0 {
        (v as u128) % m
    } else {
        let t = ((-(v + 1)) as u128) % m;
        m - 1 - t
    };
    assert(rem == (v as int) % (m as int)) by {
        if v < 0 {
            let n = -(v + 1) as int;
            lemma_fundamental_div_mod(n, m as int);
            let mi = m as int;
            let q = n / mi;
            let t = n % mi;
            let vi = v as int;
            assert(vi == mi * (-q - 1) + (mi - 1 - t)) by (nonlinear_arith)
                requires
                    n == mi * q + t,
                    vi == -(n + 1),
            ;
            lemma_mod_multiples_vanish(-q - 1, mi - 1 - t, mi);
            vstd::arithmetic::div_mod::lemma_small_mod((mi - 1 - t) as nat, mi as nat);
        }
    }
    if rem >= m / 2 {
        (rem as i128) - (m as i128)
    } else {
        rem as i128
    }
}

/// The result of one arithmetic operation on two floating-point constants,
/// worked out by the caller: the operation, the bit patterns of the two
/// operands, and the result.
#[derive(Debug, Clone)]
pub struct FloatFold {
    pub op: BinOpRef,
    pub left: u64,
    pub right: u64,
    pub result: FloatConst,
}

/// The result that the table `folds` holds for `left op right`: that of
/// its first entry for them.
pub open spec fn folded(folds: Seq<FloatFold>, op: BinOpRef, left: u64, right: u64) -> Option<
    FloatConst,
>
    decreases folds.len(),
{
    if folds.len() == 0 {
        None
    } else if folds[0].op == op && folds[0].left == left && folds[0].right == right {
        Some(folds[0].result)
    } else {
        folded(folds.subrange(1, folds.len() as int), op, left, right)
    }
}

/// Looks the result of `left op right` up in the table.
pub fn find_fold(folds: &Vec<FloatFold>, op: BinOpRef, left: u64, right: u64) -> (r: Option<
    FloatConst,
>)
    ensures
        r == folded(folds@, op, left, right),
{
    let mut i: usize = 0;
    assert(folds@.subrange(0, folds@.len() as int) =~= folds@);
    while i < folds.len()
        invariant
            i <= folds@.len(),
            folded(folds@, op, left, right) == folded(
                folds@.subrange(i as int, folds@.len() as int),
                op,
                left,
                right,
            ),
        decreases folds@.len() - i,
    {
        let f = &folds[i];
        let ghost rest = folds@.subrange(i as int, folds@.len() as int);
        assert(rest[0] == folds@[i as int]);
        assert(rest.subrange(1, rest.len() as int) =~= folds@.subrange(
            i + 1,
            folds@.len() as int,
        ));
        if f.op == op && f.left == left && f.right == right {
            return Some(f.result.clone());
        }
        i += 1;
    }
    None
}

/// The result of the source operator `op` on the numbers `a` and `b`.
pub open spec fn apply_op(op: BinOpRef, a: int, b: int) -> int {
    match op {
        BinOpRef::Add => a + b,
        BinOpRef::Sub => a - b,
        BinOpRef::Mul => a * b,
    }
}

/// The constant that `l op r` folds to at the type `ty`.
///
/// At an integer type it is the exact result, reduced to the width of the
/// type; the operands must both be signed constants where the type is
/// signed and unsigned constants where it is not. At a floating-point type
/// it is the result that the table `folds` holds for the two constants;
/// where the table holds none, the operation is reported back, for the
/// caller to work it out. The boolean has no arithmetic.
pub open spec fn fold_bin(op: BinOpRef, ty: TypeV, l: ConstValue, r: ConstValue,
    folds: Seq<FloatFold>) -> Result<
    ConstValue,
    LowerErrorV,
> {
    if is_float_spec(ty) {
        match (l, r) {
            (ConstValue::F(a), ConstValue::F(b)) => match folded(folds, op, a.bits, b.bits) {
                Some(result) => Ok(ConstValue::F(result)),
                None => Err(LowerErrorV::FloatArithmetic { op, left: a, right: b }),
            },
            _ => Err(LowerErrorV::UnsupportedExpr),
        }
    } else if int_bits(ty) is Some && !(ty is I1) {
        if is_signed_spec(ty) {
            match (l, r) {
                (ConstValue::I(a), ConstValue::I(b)) => Ok(
                    ConstValue::I(wrap_signed(apply_op(op, a as int, b as int), ty) as i128),
                ),
                _ => Err(LowerErrorV::UnsupportedExpr),
            }
        } else {
            match (l, r) {
                (ConstValue::U(a), ConstValue::U(b)) => Ok(
                    ConstValue::U(wrap_unsigned(apply_op(op, a as int, b as int), ty) as u128),
                ),
                _ => Err(LowerErrorV::UnsupportedExpr),
            }
        }
    } else {
        Err(LowerErrorV::UnsupportedExpr)
    }
}

/// Two numbers that differ by a multiple of two to the power of 128 reduce
/// to the same number at every width.
pub proof fn lemma_wrap_congruent(x: int, y: int, k: int, ty: TypeV)
    requires
        x == y + k * 0x1_0000_0000_0000_0000_0000_0000_0000_0000int,
    ensures
        wrap_unsigned(x, ty) == wrap_unsigned(y, ty),
        wrap_signed(x, ty) == wrap_signed(y, ty),
{
    let m = modulus(ty);
    if m == 2 {
        lemma_mod_multiples_vanish(k * 0x8000_0000_0000_0000_0000_0000_0000_0000int, y, m);
    } else if m == 0x100 {
        lemma_mod_multiples_vanish(k * 0x100_0000_0000_0000_0000_0000_0000_0000int, y, m);
    } else if m == 0x1_0000 {
        lemma_mod_multiples_vanish(k * 0x1_0000_0000_0000_0000_0000_0000_0000int, y, m);
    } else if m == 0x1_0000_0000 {
        lemma_mod_multiples_vanish(k * 0x1_0000_0000_0000_0000_0000_0000int, y, m);
    } else if m == 0x1_0000_0000_0000_0000 {
        lemma_mod_multiples_vanish(k * 0x1_0000_0000_0000_0000int, y, m);
    } else {
        lemma_mod_multiples_vanish(k, y, m);
    }
}

/// The range of the reduced values.
pub proof fn lemma_wrap_range(v: int, ty: TypeV)
    ensures
        0 <= wrap_unsigned(v, ty) < modulus(ty),
        -modulus(ty) <= 2 * wrap_signed(v, ty) < modulus(ty),
        modulus(ty) <= 0x1_0000_0000_0000_0000_0000_0000_0000_0000int,
{
    vstd::arithmetic::div_mod::lemma_mod_bound(v, modulus(ty));
}

/// Folds `l op r` at the type `ty`.
pub fn const_bin(
    op: BinOpRef,
    ty: &Type,
    l: &ConstValue,
    r: &ConstValue,
    folds: &Vec<FloatFold>,
) -> (out: Result<
    ConstValue,
    LowerError,
>)
    ensures
        match fold_bin(op, ty@, *l, *r, folds@) {
            Ok(v) => out == Ok::<ConstValue, LowerError>(v),
            Err(e) => out is Err && out->Err_0@ == e,
        },
{
    if is_float(ty) {
        return match (l, r) {
            (ConstValue::F(a), ConstValue::F(b)) => match find_fold(folds, op, a.bits, b.bits) {
                Some(result) => Ok(ConstValue::F(result)),
                None => Err(
                    LowerError::FloatArithmetic { op, left: a.clone(), right: b.clone() },
                ),
            },
            _ => Err(LowerError::UnsupportedExpr),
        };
    }
    if ty_int_bits(ty).is_some() && !matches!(ty, Type::I1) {
        if is_signed_int(ty) {
            match (l, r) {
                (ConstValue::I(a), ConstValue::I(b)) => {
                    let raw = match op {
                        BinOpRef::Add => a.wrapping_add(*b),
                        BinOpRef::Sub => a.wrapping_sub(*b),
                        BinOpRef::Mul => a.wrapping_mul(*b),
                    };
                    proof {
                        let exact = apply_op(op, *a as int, *b as int);
                        let range = 0x1_0000_0000_0000_0000_0000_0000_0000_0000int;
                        lemma_fundamental_div_mod(exact, range);
                        let q = exact / range;
                        lemma_wrap_range(exact, ty@);
                        if raw as int == exact {
                            lemma_wrap_congruent(raw as int, exact, 0, ty@);
                        } else if raw as int == exact - range {
                            lemma_wrap_congruent(raw as int, exact, -1, ty@);
                        } else if raw as int == exact + range {
                            lemma_wrap_congruent(raw as int, exact, 1, ty@);
                        } else if raw as int == exact % range {
                            lemma_wrap_congruent(raw as int, exact, -q, ty@);
                        } else {
                            lemma_wrap_congruent(raw as int, exact, -q - 1, ty@);
                        }
                    }
                    return Ok(ConstValue::I(wrap_i(raw, ty)));
                },
                _ => {
                    return Err(LowerError::UnsupportedExpr);
                },
            }
        } else {
            match (l, r) {
                (ConstValue::U(a), ConstValue::U(b)) => {
                    let raw = match op {
                        BinOpRef::Add => a.wrapping_add(*b),
                        BinOpRef::Sub => a.wrapping_sub(*b),
                        BinOpRef::Mul => a.wrapping_mul(*b),
                    };
                    proof {
                        let exact = apply_op(op, *a as int, *b as int);
                        let range = 0x1_0000_0000_0000_0000_0000_0000_0000_0000int;
                        lemma_fundamental_div_mod(exact, range);
                        let q = exact / range;
                        lemma_wrap_range(exact, ty@);
                        if raw as int == exact {
                            lemma_wrap_congruent(raw as int, exact, 0, ty@);
                        } else if raw as int == exact - range {
                            lemma_wrap_congruent(raw as int, exact, -1, ty@);
                        } else if raw as int == exact + range {
                            lemma_wrap_congruent(raw as int, exact, 1, ty@);
                        } else {
                            lemma_wrap_congruent(raw as int, exact, -q, ty@);
                        }
                    }
                    return Ok(ConstValue::U(wrap_u(raw, ty)));
                },
                _ => {
                    return Err(LowerError::UnsupportedExpr);
                },
            }
        }
    }
    Err(LowerError::UnsupportedExpr)
}

/// The size of a binary64 number without its sign, as the bit pattern
/// orders it: larger patterns are larger numbers, the infinity lies above
/// every finite number, and the patterns above the infinity are no numbers.
pub open spec fn float_magnitude(bits: u64) -> int {
    (bits as int) % 0x8000_0000_0000_0000
}

/// Whether the bit pattern is that of no number.
pub open spec fn float_is_nan(bits: u64) -> bool {
    float_magnitude(bits) > 0x7ff0_0000_0000_0000
}

/// A number that orders the bit patterns of numbers as the numbers
/// themselves are ordered. The two zeros share the key zero.
pub open spec fn float_key(bits: u64) -> int {
    if bits >= 0x8000_0000_0000_0000 {
        -float_magnitude(bits)
    } else {
        float_magnitude(bits)
    }
}

/// The comparison `op` of two binary64 numbers given by their bit patterns.
/// A comparison with what is no number is false, but for inequality, which
/// is then true.
pub open spec fn float_compare(op: CmpOpRef, a: u64, b: u64) -> bool {
    let ordered = !float_is_nan(a) && !float_is_nan(b);
    match op {
        CmpOpRef::Eq => ordered && float_key(a) == float_key(b),
        CmpOpRef::Ne => !(ordered && float_key(a) == float_key(b)),
        CmpOpRef::Lt => ordered && float_key(a) < float_key(b),
        CmpOpRef::Le => ordered && float_key(a) <= float_key(b),
        CmpOpRef::Gt => ordered && float_key(a) > float_key(b),
        CmpOpRef::Ge => ordered && float_key(a) >= float_key(b),
    }
}

/// The comparison `op` of two signed numbers.
pub open spec fn compare_signed(op: CmpOpRef, a: i128, b: i128) -> bool {
    match op {
        CmpOpRef::Eq => a == b,
        CmpOpRef::Ne => a != b,
        CmpOpRef::Lt => a < b,
        CmpOpRef::Le => a <= b,
        CmpOpRef::Gt => a > b,
        CmpOpRef::Ge => a >= b,
    }
}

/// The comparison `op` of two unsigned numbers.
pub open spec fn compare_unsigned(op: CmpOpRef, a: u128, b: u128) -> bool {
    match op {
        CmpOpRef::Eq => a == b,
        CmpOpRef::Ne => a != b,
        CmpOpRef::Lt => a < b,
        CmpOpRef::Le => a <= b,
        CmpOpRef::Gt => a > b,
        CmpOpRef::Ge => a >= b,
    }
}

/// What the comparison `l op r` folds to at the type `ty`. Floating-point
/// constants compare as numbers; booleans have equality and inequality
/// only; integers compare as signed or unsigned numbers by their type. The
/// operands must be constants of the sort that the type calls for.
pub open spec fn fold_compare(op: CmpOpRef, ty: TypeV, l: ConstValue, r: ConstValue) -> Result<
    bool,
    LowerErrorV,
> {
    if is_float_spec(ty) {
        match (l, r) {
            (ConstValue::F(a), ConstValue::F(b)) => Ok(float_compare(op, a.bits, b.bits)),
            _ => Err(LowerErrorV::UnsupportedExpr),
        }
    } else if ty is I1 {
        match (l, r) {
            (ConstValue::Bool(a), ConstValue::Bool(b)) => match op {
                CmpOpRef::Eq => Ok(a == b),
                CmpOpRef::Ne => Ok(a != b),
                _ => Err(LowerErrorV::UnsupportedExpr),
            },
            _ => Err(LowerErrorV::UnsupportedExpr),
        }
    } else if int_bits(ty) is Some {
        if is_signed_spec(ty) {
            match (l, r) {
                (ConstValue::I(a), ConstValue::I(b)) => Ok(compare_signed(op, a, b)),
                _ => Err(LowerErrorV::UnsupportedExpr),
            }
        } else {
            match (l, r) {
                (ConstValue::U(a), ConstValue::U(b)) => Ok(compare_unsigned(op, a, b)),
                _ => Err(LowerErrorV::UnsupportedExpr),
            }
        }
    } else {
        Err(LowerErrorV::UnsupportedExpr)
    }
}

/// The key of a bit pattern, and whether the pattern is that of no number.
fn float_order(bits: u64) -> (r: (bool, i128))
    ensures
        r.0 == float_is_nan(bits),
        r.1 == float_key(bits),
{
    let magnitude = bits % 0x8000_0000_0000_0000;
    let nan = magnitude > 0x7ff0_0000_0000_0000;
    let key: i128 = if bits >= 0x8000_0000_0000_0000 {
        -(magnitude as i128)
    } else {
        magnitude as i128
    };
    (nan, key)
}

/// Compares two binary64 numbers given by their bit patterns.
fn float_test(op: CmpOpRef, a: u64, b: u64) -> (r: bool)
    ensures
        r == float_compare(op, a, b),
{
    let (nan_a, key_a) = float_order(a);
    let (nan_b, key_b) = float_order(b);
    let ordered = !nan_a && !nan_b;
    match op {
        CmpOpRef::Eq => ordered && key_a == key_b,
        CmpOpRef::Ne => !(ordered && key_a == key_b),
        CmpOpRef::Lt => ordered && key_a < key_b,
        CmpOpRef::Le => ordered && key_a <= key_b,
        CmpOpRef::Gt => ordered && key_a > key_b,
        CmpOpRef::Ge => ordered && key_a >= key_b,
    }
}

/// Folds the comparison `l op r` at the type `ty`.
pub fn const_cmp(op: CmpOpRef, ty: &Type, l: &ConstValue, r: &ConstValue) -> (out: Result<
    bool,
    LowerError,
>)
    ensures
        match fold_compare(op, ty@, *l, *r) {
            Ok(v) => out == Ok::<bool, LowerError>(v),
            Err(e) => out is Err && out->Err_0@ == e,
        },
{
    if is_float(ty) {
        return match (l, r) {
            (ConstValue::F(a), ConstValue::F(b)) => Ok(float_test(op, a.bits, b.bits)),
            _ => Err(LowerError::UnsupportedExpr),
        };
    }
    if matches!(ty, Type::I1) {
        return match (l, r) {
            (ConstValue::Bool(a), ConstValue::Bool(b)) => match op {
                CmpOpRef::Eq => Ok(*a == *b),
                CmpOpRef::Ne => Ok(*a != *b),
                _ => Err(LowerError::UnsupportedExpr),
            },
            _ => Err(LowerError::UnsupportedExpr),
        };
    }
    if ty_int_bits(ty).is_some() {
        if is_signed_int(ty) {
            return match (l, r) {
                (ConstValue::I(a), ConstValue::I(b)) => Ok(
                    match op {
                        CmpOpRef::Eq => *a == *b,
                        CmpOpRef::Ne => *a != *b,
                        CmpOpRef::Lt => *a < *b,
                        CmpOpRef::Le => *a <= *b,
                        CmpOpRef::Gt => *a > *b,
                        CmpOpRef::Ge => *a >= *b,
                    },
                ),
                _ => Err(LowerError::UnsupportedExpr),
            };
        } else {
            return match (l, r) {
                (ConstValue::U(a), ConstValue::U(b)) => Ok(
                    match op {
                        CmpOpRef::Eq => *a == *b,
                        CmpOpRef::Ne => *a != *b,
                        CmpOpRef::Lt => *a < *b,
                        CmpOpRef::Le => *a <= *b,
                        CmpOpRef::Gt => *a > *b,
                        CmpOpRef::Ge => *a >= *b,
                    },
                ),
                _ => Err(LowerError::UnsupportedExpr),
            };
        }
    }
    Err(LowerError::UnsupportedExpr)
}

/// `r` is the executable form of the outcome `s` of a constant evaluation.
pub open spec fn const_result(
    r: Result<(Type, ConstValue), LowerError>,
    s: Result<(TypeV, ConstValue), LowerErrorV>,
) -> bool {
    match s {
        Ok(v) => r is Ok && r->Ok_0.0@ == v.0 && r->Ok_0.1 == v.1,
        Err(e) => r is Err && r->Err_0@ == e,
    }
}

/// The type and value of a literal. An integer literal is reduced to its
/// width; an unsigned literal must not be negative.
pub open spec fn lit_value(l: Lit) -> Result<(TypeV, ConstValue), LowerErrorV> {
    match l {
        Lit::Bool(b) => Ok((TypeV::I1, ConstValue::Bool(b))),
        Lit::Int { bits, signed, value } => match int_type_spec(bits, signed) {
            Err(e) => Err(e),
            Ok(ty) => if signed {
                Ok((ty, ConstValue::I(wrap_signed(value as int, ty) as i128)))
            } else if value < 0 {
                Err(LowerErrorV::UnsupportedExpr)
            } else {
                Ok((ty, ConstValue::U(wrap_unsigned(value as int, ty) as u128)))
            },
        },
        Lit::Float { bits, value } => match float_type_spec(bits) {
            Err(e) => Err(e),
            Ok(ty) => Ok((ty, ConstValue::F(value))),
        },
    }
}

/// The type and value of a literal.
pub fn lit_to_const(l: &Lit) -> (r: Result<(Type, ConstValue), LowerError>)
    ensures
        const_result(r, lit_value(*l)),
{
    match l {
        Lit::Bool(b) => Ok((Type::I1, ConstValue::Bool(*b))),
        Lit::Int { bits, signed, value } => {
            let ty = int_type(*bits, *signed)?;
            proof {
                lemma_wrap_range(*value as int, ty@);
            }
            if *signed {
                let v = wrap_i(*value, &ty);
                Ok((ty, ConstValue::I(v)))
            } else {
                if *value < 0 {
                    return Err(LowerError::UnsupportedExpr);
                }
                let v = wrap_u(*value as u128, &ty);
                Ok((ty, ConstValue::U(v)))
            }
        },
        Lit::Float { bits, value } => {
            let ty = float_type(*bits)?;
            Ok((ty, ConstValue::F(value.clone())))
        },
    }
}

/// What a constant expression evaluates to. A name stands for the constant
/// that it is bound to: the local binding where there is one, which must be
/// a constant, else the global constant. The operands of an operation must
/// have the same type.
pub open spec fn const_eval(e: Expr, locals: Option<Sig>, globals: Sig,
    folds: Seq<FloatFold>) -> Result<
    (TypeV, ConstValue),
    LowerErrorV,
>
    decreases e,
{
    match e {
        Expr::Lit(l) => lit_value(l),
        Expr::Var(name) => {
            let local = match locals {
                Some(sig) => lookup(sig, name@),
                None => None,
            };
            match local {
                Some(Kind::Const(ty, value)) => Ok((ty, value)),
                Some(Kind::Var(_)) => Err(LowerErrorV::NonConstExpr),
                None => match lookup(globals, name@) {
                    Some(Kind::Const(ty, value)) => Ok((ty, value)),
                    _ => Err(LowerErrorV::UnknownVariable(name@)),
                },
            }
        },
        Expr::Binary { left, op, right } => match const_eval(*left, locals, globals, folds) {
            Err(e) => Err(e),
            Ok((lt, lv)) => match const_eval(*right, locals, globals, folds) {
                Err(e) => Err(e),
                Ok((rt, rv)) => if lt != rt {
                    Err(LowerErrorV::TypeMismatch { expected: lt, got: rt })
                } else {
                    match fold_bin(op, lt, lv, rv, folds) {
                        Err(e) => Err(e),
                        Ok(v) => Ok((lt, v)),
                    }
                },
            },
        },
        Expr::Cmp { left, op, right } => match const_eval(*left, locals, globals, folds) {
            Err(e) => Err(e),
            Ok((lt, lv)) => match const_eval(*right, locals, globals, folds) {
                Err(e) => Err(e),
                Ok((rt, rv)) => if lt != rt {
                    Err(LowerErrorV::TypeMismatch { expected: lt, got: rt })
                } else {
                    match fold_compare(op, lt, lv, rv) {
                        Err(e) => Err(e),
                        Ok(b) => Ok((TypeV::I1, ConstValue::Bool(b))),
                    }
                },
            },
        },
    }
}

/// Where a constant expression looks things up: names in the local scope,
/// if there is one, and among the global constants; floating-point
/// arithmetic in the table of results.
pub struct ConstEvalCtx<'a> {
    pub local_consts: Option<&'a Env>,
    pub global_consts: &'a Env,
    pub folds: &'a Vec<FloatFold>,
}

impl<'a> ConstEvalCtx<'a> {
    /// The names and kinds of the local scope, if there is one.
    pub open spec fn locals(&self) -> Option<Sig> {
        match self.local_consts {
            Some(env) => Some(env.sig()),
            None => None,
        }
    }
}

/// Evaluates a constant expression.
pub fn eval_const_expr(expr: &Expr, ctx: &ConstEvalCtx<'_>) -> (r: Result<
    (Type, ConstValue),
    LowerError,
>)
    ensures
        const_result(r, const_eval(*expr, ctx.locals(), ctx.global_consts.sig(), ctx.folds@)),
    decreases expr,
{
    match expr {
        Expr::Lit(l) => lit_to_const(l),
        Expr::Var(name) => {
            match ctx.local_consts {
                Some(env) => {
                    match env.get(name) {
                        Some(Binding::Const { ty, value }) => {
                            return Ok((ty.clone(), value.clone()));
                        },
                        Some(Binding::Addr { .. }) => {
                            return Err(LowerError::NonConstExpr);
                        },
                        None => {},
                    }
                },
                None => {},
            }
            match ctx.global_consts.get(name) {
                Some(Binding::Const { ty, value }) => Ok((ty.clone(), value.clone())),
                _ => Err(LowerError::UnknownVariable(name.clone())),
            }
        },
        Expr::Binary { left, op, right } => {
            let (lt, lv) = eval_const_expr(left, ctx)?;
            let (rt, rv) = eval_const_expr(right, ctx)?;
            if !lt.same(&rt) {
                return Err(LowerError::TypeMismatch { expected: lt, got: rt });
            }
            let out = const_bin(*op, &lt, &lv, &rv, ctx.folds)?;
            Ok((lt, out))
        },
        Expr::Cmp { left, op, right } => {
            let (lt, lv) = eval_const_expr(left, ctx)?;
            let (rt, rv) = eval_const_expr(right, ctx)?;
            if !lt.same(&rt) {
                return Err(LowerError::TypeMismatch { expected: lt, got: rt });
            }
            let b = const_cmp(*op, &lt, &lv, &rv)?;
            Ok((Type::I1, ConstValue::Bool(b)))
        },
    }
}

} // verus!
