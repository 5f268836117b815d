//! The closed vocabulary of instructions and terminators, and what each
//! instruction defines and uses.

use vstd::prelude::*;
use crate::ir::types::Type;
use crate::ir::value::{BlockId, ValueId};

verus! {

/// A floating-point constant, carried as the bit pattern of a binary64 number
/// together with its decimal spelling. The library never computes with the
/// number itself: it reads the class of the value from `bits` and prints a
/// finite value as `text`.
#[derive(Debug, PartialEq, Eq)]
pub struct FloatConst {
    pub bits: u64,
    pub text: String,
}

impl Clone for FloatConst {
    fn clone(&self) -> (r: Self)
        ensures
            r == *self,
    {
        FloatConst { bits: self.bits, text: self.text.clone() }
    }
}

/// A compile-time constant.
#[derive(Debug, PartialEq)]
pub enum ConstValue {
    Bool(bool),
    I(i128),
    U(u128),
    F(FloatConst),
}

impl Clone for ConstValue {
    fn clone(&self) -> (r: Self)
        ensures
            r == *self,
    {
        match self {
            ConstValue::Bool(b) => ConstValue::Bool(*b),
            ConstValue::I(i) => ConstValue::I(*i),
            ConstValue::U(u) => ConstValue::U(*u),
            ConstValue::F(x) => ConstValue::F(x.clone()),
        }
    }
}

/// Integer comparison predicates.
#[derive(Copy, Clone, Debug, PartialEq, Eq, Structural)]
pub enum ICmpPred {
    Eq,
    Ne,
    Ult,
    Ule,
    Ugt,
    Uge,
    Slt,
    Sle,
    Sgt,
    Sge,
}

/// Floating-point comparison predicates.
#[derive(Copy, Clone, Debug, PartialEq, Eq, Structural)]
pub enum FCmpPred {
    Oeq,
    One,
    Olt,
    Ole,
    Ogt,
    Oge,
    Ord,
    Uno,
    Ueq,
    Une,
    Ult,
    Ule,
    Ugt,
    Uge,
}

/// Conversions between types.
#[allow(non_camel_case_types)]
#[derive(Copy, Clone, Debug, PartialEq, Eq, Structural)]
pub enum CastOp {
    ZExt,
    SExt,
    Trunc,
    FExt,
    FTrunc,
    IToF_S,
    IToF_U,
    FToI_S,
    FToI_U,
    Bitcast,
    PtrToInt,
    IntToPtr,
}

/// Binary operations on integers, floats and bits.
#[derive(Copy, Clone, Debug, PartialEq, Eq, Structural)]
pub enum BinOp {
    Add,
    Sub,
    Mul,
    UDiv,
    SDiv,
    URem,
    SRem,
    FAdd,
    FSub,
    FMul,
    FDiv,
    FRem,
    And,
    Or,
    Xor,
    Shl,
    LShr,
    AShr,
}

/// Arithmetic that yields the result together with an overflow flag.
#[derive(Copy, Clone, Debug, PartialEq, Eq, Structural)]
pub enum CheckedOp {
    UAdd,
    USub,
    UMul,
    SAdd,
    SSub,
    SMul,
}

/// The target of a call.
#[derive(Debug, PartialEq, Eq)]
pub enum Callee {
    Symbol(String),
}

/// The comparison of the three-way compare instruction.
#[derive(Copy, Clone, Debug, PartialEq, Eq, Hash, Structural)]
pub enum CmpOp {
    Eq,
    Ne,
    SLt,
    SLe,
    SGt,
    SGe,
    ULt,
    ULe,
    UGt,
    UGe,
    FEq,
    FNe,
    FLt,
    FLe,
    FGt,
    FGe,
}

/// One operation of a basic block.
#[allow(inconsistent_fields)]
#[derive(Debug, PartialEq)]
pub enum Instruction {
    Const { dst: ValueId, ty: Type, value: ConstValue },
    Undef { dst: ValueId, ty: Type },
    Mov { dst: ValueId, ty: Type, src: ValueId },
    Bin { dst: ValueId, op: BinOp, ty: Type, lhs: ValueId, rhs: ValueId },
    Not { dst: ValueId, ty: Type, src: ValueId },
    Cmp { dst: ValueId, op: CmpOp, ty: Type, lhs: ValueId, rhs: ValueId },
    ICmp { dst: ValueId, pred: ICmpPred, ty: Type, lhs: ValueId, rhs: ValueId },
    FCmp { dst: ValueId, pred: FCmpPred, ty: Type, lhs: ValueId, rhs: ValueId },
    Select { dst: ValueId, ty: Type, cond: ValueId, on_true: ValueId, on_false: ValueId },
    Cast { dst: ValueId, op: CastOp, dst_ty: Type, src_ty: Type, src: ValueId },
    Phi { dst: ValueId, ty: Type, incomings: Vec<(ValueId, BlockId)> },
    Extract { dst: ValueId, dst_ty: Type, tuple: ValueId, index: u32 },
    Checked { dst: ValueId, op: CheckedOp, ty: Type, lhs: ValueId, rhs: ValueId },
    Alloca { dst: ValueId, ty: Type, align: u32 },
    Load { dst: ValueId, ty: Type, ptr: ValueId, align: u32 },
    Store { ty: Type, value: ValueId, ptr: ValueId, align: u32 },
    Gep { dst: ValueId, dst_ty: Type, base_ptr: ValueId, indices: Vec<ValueId> },
    Memcpy { dst: ValueId, src: ValueId, n: ValueId, align: u32 },
    Memset { dst: ValueId, val: ValueId, n: ValueId, align: u32 },
    Call { dst: Option<ValueId>, ret_ty: Type, callee: Callee, args: Vec<ValueId> },
    TrapIf { cond: ValueId, reason: String },
}

/// The one way in which a basic block ends.
#[allow(inconsistent_fields)]
#[derive(Debug, PartialEq)]
pub enum Terminator {
    Br { target: BlockId },
    CBr { cond: ValueId, then_bb: BlockId, else_bb: BlockId },
    Switch { ty: Type, value: ValueId, default_bb: BlockId, cases: Vec<(ConstValue, BlockId)> },
    Ret { ty: Type, value: Option<ValueId> },
    Trap { reason: String },
}

impl Instruction {
    /// The value that the instruction defines, if it defines one. Stores,
    /// block copies and fills, conditional traps and calls without a result
    /// define nothing.
    pub open spec fn def(self) -> Option<ValueId> {
        match self {
            Instruction::Const { dst, .. } => Some(dst),
            Instruction::Undef { dst, .. } => Some(dst),
            Instruction::Mov { dst, .. } => Some(dst),
            Instruction::Bin { dst, .. } => Some(dst),
            Instruction::Not { dst, .. } => Some(dst),
            Instruction::Cmp { dst, .. } => Some(dst),
            Instruction::ICmp { dst, .. } => Some(dst),
            Instruction::FCmp { dst, .. } => Some(dst),
            Instruction::Select { dst, .. } => Some(dst),
            Instruction::Cast { dst, .. } => Some(dst),
            Instruction::Phi { dst, .. } => Some(dst),
            Instruction::Extract { dst, .. } => Some(dst),
            Instruction::Checked { dst, .. } => Some(dst),
            Instruction::Alloca { dst, .. } => Some(dst),
            Instruction::Load { dst, .. } => Some(dst),
            Instruction::Gep { dst, .. } => Some(dst),
            Instruction::Store { .. } => None,
            Instruction::Memcpy { .. } => None,
            Instruction::Memset { .. } => None,
            Instruction::Call { dst, .. } => dst,
            Instruction::TrapIf { .. } => None,
        }
    }

    /// The values that the instruction reads, in operand order.
    pub open spec fn uses(self) -> Seq<ValueId> {
        match self {
            Instruction::Const { .. } => Seq::empty(),
            Instruction::Undef { .. } => Seq::empty(),
            Instruction::Mov { src, .. } => seq![src],
            Instruction::Bin { lhs, rhs, .. } => seq![lhs, rhs],
            Instruction::Not { src, .. } => seq![src],
            Instruction::Cmp { lhs, rhs, .. } => seq![lhs, rhs],
            Instruction::ICmp { lhs, rhs, .. } => seq![lhs, rhs],
            Instruction::FCmp { lhs, rhs, .. } => seq![lhs, rhs],
            Instruction::Select { cond, on_true, on_false, .. } => seq![cond, on_true, on_false],
            Instruction::Cast { src, .. } => seq![src],
            Instruction::Phi { incomings, .. } => Seq::new(
                incomings@.len(),
                |i: int| incomings@[i].0,
            ),
            Instruction::Extract { tuple, .. } => seq![tuple],
            Instruction::Checked { lhs, rhs, .. } => seq![lhs, rhs],
            Instruction::Alloca { .. } => Seq::empty(),
            Instruction::Load { ptr, .. } => seq![ptr],
            Instruction::Store { value, ptr, .. } => seq![value, ptr],
            Instruction::Gep { base_ptr, indices, .. } => seq![base_ptr] + indices@,
            Instruction::Memcpy { dst, src, n, .. } => seq![dst, src, n],
            Instruction::Memset { dst, val, n, .. } => seq![dst, val, n],
            Instruction::Call { args, .. } => args@,
            Instruction::TrapIf { cond, .. } => seq![cond],
        }
    }
}

impl Terminator {
    /// The values that the terminator reads.
    pub open spec fn uses(self) -> Seq<ValueId> {
        match self {
            Terminator::Br { .. } => Seq::empty(),
            Terminator::CBr { cond, .. } => seq![cond],
            Terminator::Switch { value, .. } => seq![value],
            Terminator::Ret { value, .. } => match value {
                Some(v) => seq![v],
                None => Seq::empty(),
            },
            Terminator::Trap { .. } => Seq::empty(),
        }
    }
}

} // verus!
