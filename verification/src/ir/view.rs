//! The mathematical values of instructions, blocks, functions and modules:
//! the same data with sequences in place of vectors and strings, so that two
//! values are equal exactly when they hold the same things.

use vstd::prelude::*;
use crate::ir::block::BasicBlock;
use crate::ir::function::{Function, Param};
use crate::ir::instr::{
    BinOp, Callee, CastOp, CheckedOp, CmpOp, ConstValue, FCmpPred, ICmpPred, Instruction,
    Terminator,
};
use crate::ir::module::{Global, Module};
use crate::ir::types::{DataLayout, TypeV};
use crate::ir::value::{BlockId, ValueId};

verus! {

/// The value of a call target.
pub enum CalleeV {
    Symbol(Seq<char>),
}

impl View for Callee {
    type V = CalleeV;

    open spec fn view(&self) -> CalleeV {
        match self {
            Callee::Symbol(s) => CalleeV::Symbol(s@),
        }
    }
}

/// The value of an instruction.
#[allow(inconsistent_fields)]
pub enum InstrV {
    Const { dst: ValueId, ty: TypeV, value: ConstValue },
    Undef { dst: ValueId, ty: TypeV },
    Mov { dst: ValueId, ty: TypeV, src: ValueId },
    Bin { dst: ValueId, op: BinOp, ty: TypeV, lhs: ValueId, rhs: ValueId },
    Not { dst: ValueId, ty: TypeV, src: ValueId },
    Cmp { dst: ValueId, op: CmpOp, ty: TypeV, lhs: ValueId, rhs: ValueId },
    ICmp { dst: ValueId, pred: ICmpPred, ty: TypeV, lhs: ValueId, rhs: ValueId },
    FCmp { dst: ValueId, pred: FCmpPred, ty: TypeV, lhs: ValueId, rhs: ValueId },
    Select { dst: ValueId, ty: TypeV, cond: ValueId, on_true: ValueId, on_false: ValueId },
    Cast { dst: ValueId, op: CastOp, dst_ty: TypeV, src_ty: TypeV, src: ValueId },
    Phi { dst: ValueId, ty: TypeV, incomings: Seq<(ValueId, BlockId)> },
    Extract { dst: ValueId, dst_ty: TypeV, tuple: ValueId, index: u32 },
    Checked { dst: ValueId, op: CheckedOp, ty: TypeV, lhs: ValueId, rhs: ValueId },
    Alloca { dst: ValueId, ty: TypeV, align: u32 },
    Load { dst: ValueId, ty: TypeV, ptr: ValueId, align: u32 },
    Store { ty: TypeV, value: ValueId, ptr: ValueId, align: u32 },
    Gep { dst: ValueId, dst_ty: TypeV, base_ptr: ValueId, indices: Seq<ValueId> },
    Memcpy { dst: ValueId, src: ValueId, n: ValueId, align: u32 },
    Memset { dst: ValueId, val: ValueId, n: ValueId, align: u32 },
    Call { dst: Option<ValueId>, ret_ty: TypeV, callee: CalleeV, args: Seq<ValueId> },
    TrapIf { cond: ValueId, reason: Seq<char> },
}

impl View for Instruction {
    type V = InstrV;

    open spec fn view(&self) -> InstrV {
        match self {
            Instruction::Const { dst, ty, value } => InstrV::Const {
                dst: *dst,
                ty: ty@,
                value: *value,
            },
            Instruction::Undef { dst, ty } => InstrV::Undef { dst: *dst, ty: ty@ },
            Instruction::Mov { dst, ty, src } => InstrV::Mov { dst: *dst, ty: ty@, src: *src },
            Instruction::Bin { dst, op, ty, lhs, rhs } => InstrV::Bin {
                dst: *dst,
                op: *op,
                ty: ty@,
                lhs: *lhs,
                rhs: *rhs,
            },
            Instruction::Not { dst, ty, src } => InstrV::Not { dst: *dst, ty: ty@, src: *src },
            Instruction::Cmp { dst, op, ty, lhs, rhs } => InstrV::Cmp {
                dst: *dst,
                op: *op,
                ty: ty@,
                lhs: *lhs,
                rhs: *rhs,
            },
            Instruction::ICmp { dst, pred, ty, lhs, rhs } => InstrV::ICmp {
                dst: *dst,
                pred: *pred,
                ty: ty@,
                lhs: *lhs,
                rhs: *rhs,
            },
            Instruction::FCmp { dst, pred, ty, lhs, rhs } => InstrV::FCmp {
                dst: *dst,
                pred: *pred,
                ty: ty@,
                lhs: *lhs,
                rhs: *rhs,
            },
            Instruction::Select { dst, ty, cond, on_true, on_false } => InstrV::Select {
                dst: *dst,
                ty: ty@,
                cond: *cond,
                on_true: *on_true,
                on_false: *on_false,
            },
            Instruction::Cast { dst, op, dst_ty, src_ty, src } => InstrV::Cast {
                dst: *dst,
                op: *op,
                dst_ty: dst_ty@,
                src_ty: src_ty@,
                src: *src,
            },
            Instruction::Phi { dst, ty, incomings } => InstrV::Phi {
                dst: *dst,
                ty: ty@,
                incomings: incomings@,
            },
            Instruction::Extract { dst, dst_ty, tuple, index } => InstrV::Extract {
                dst: *dst,
                dst_ty: dst_ty@,
                tuple: *tuple,
                index: *index,
            },
            Instruction::Checked { dst, op, ty, lhs, rhs } => InstrV::Checked {
                dst: *dst,
                op: *op,
                ty: ty@,
                lhs: *lhs,
                rhs: *rhs,
            },
            Instruction::Alloca { dst, ty, align } => InstrV::Alloca {
                dst: *dst,
                ty: ty@,
                align: *align,
            },
            Instruction::Load { dst, ty, ptr, align } => InstrV::Load {
                dst: *dst,
                ty: ty@,
                ptr: *ptr,
                align: *align,
            },
            Instruction::Store { ty, value, ptr, align } => InstrV::Store {
                ty: ty@,
                value: *value,
                ptr: *ptr,
                align: *align,
            },
            Instruction::Gep { dst, dst_ty, base_ptr, indices } => InstrV::Gep {
                dst: *dst,
                dst_ty: dst_ty@,
                base_ptr: *base_ptr,
                indices: indices@,
            },
            Instruction::Memcpy { dst, src, n, align } => InstrV::Memcpy {
                dst: *dst,
                src: *src,
                n: *n,
                align: *align,
            },
            Instruction::Memset { dst, val, n, align } => InstrV::Memset {
                dst: *dst,
                val: *val,
                n: *n,
                align: *align,
            },
            Instruction::Call { dst, ret_ty, callee, args } => InstrV::Call {
                dst: *dst,
                ret_ty: ret_ty@,
                callee: callee@,
                args: args@,
            },
            Instruction::TrapIf { cond, reason } => InstrV::TrapIf { cond: *cond, reason: reason@ },
        }
    }
}

/// The value of a terminator.
#[allow(inconsistent_fields)]
pub enum TermV {
    Br { target: BlockId },
    CBr { cond: ValueId, then_bb: BlockId, else_bb: BlockId },
    Switch { ty: TypeV, value: ValueId, default_bb: BlockId, cases: Seq<(ConstValue, BlockId)> },
    Ret { ty: TypeV, value: Option<ValueId> },
    Trap { reason: Seq<char> },
}

impl View for Terminator {
    type V = TermV;

    open spec fn view(&self) -> TermV {
        match self {
            Terminator::Br { target } => TermV::Br { target: *target },
            Terminator::CBr { cond, then_bb, else_bb } => TermV::CBr {
                cond: *cond,
                then_bb: *then_bb,
                else_bb: *else_bb,
            },
            Terminator::Switch { ty, value, default_bb, cases } => TermV::Switch {
                ty: ty@,
                value: *value,
                default_bb: *default_bb,
                cases: cases@,
            },
            Terminator::Ret { ty, value } => TermV::Ret { ty: ty@, value: *value },
            Terminator::Trap { reason } => TermV::Trap { reason: reason@ },
        }
    }
}

/// The values of the instructions `s`, in order.
pub open spec fn instrs_view(s: Seq<Instruction>) -> Seq<InstrV> {
    Seq::new(s.len(), |i: int| s[i]@)
}

/// The value of a basic block.
pub struct BlockV {
    pub id: BlockId,
    pub name: Seq<char>,
    pub instructions: Seq<InstrV>,
    pub terminator: Option<TermV>,
}

impl View for BasicBlock {
    type V = BlockV;

    open spec fn view(&self) -> BlockV {
        BlockV {
            id: self.id,
            name: self.name@,
            instructions: instrs_view(self.instructions@),
            terminator: match self.terminator {
                Some(t) => Some(t@),
                None => None,
            },
        }
    }
}

/// The values of the blocks `s`, in order.
pub open spec fn blocks_view(s: Seq<BasicBlock>) -> Seq<BlockV> {
    Seq::new(s.len(), |i: int| s[i]@)
}

/// The value of a parameter.
pub struct ParamV {
    pub name: Seq<char>,
    pub id: ValueId,
    pub ty: TypeV,
}

impl View for Param {
    type V = ParamV;

    open spec fn view(&self) -> ParamV {
        ParamV { name: self.name@, id: self.id, ty: self.ty@ }
    }
}

/// The value of a function.
pub struct FunctionV {
    pub name: Seq<char>,
    pub params: Seq<ParamV>,
    pub ret_ty: TypeV,
    pub blocks: Seq<BlockV>,
    pub entry: BlockId,
    pub value_types: Seq<(ValueId, TypeV)>,
}

impl View for Function {
    type V = FunctionV;

    open spec fn view(&self) -> FunctionV {
        FunctionV {
            name: self.name@,
            params: Seq::new(self.params@.len(), |i: int| self.params@[i]@),
            ret_ty: self.ret_ty@,
            blocks: blocks_view(self.blocks@),
            entry: self.entry,
            value_types: Seq::new(
                self.value_types@.len(),
                |i: int| (self.value_types@[i].0, self.value_types@[i].1@),
            ),
        }
    }
}

/// The value of a global.
pub struct GlobalV {
    pub name: Seq<char>,
    pub ty: TypeV,
    pub init: ConstValue,
    pub align: u32,
}

impl View for Global {
    type V = GlobalV;

    open spec fn view(&self) -> GlobalV {
        GlobalV { name: self.name@, ty: self.ty@, init: self.init, align: self.align }
    }
}

/// The value of a module.
pub struct ModuleV {
    pub target: Seq<char>,
    pub datalayout: DataLayout,
    pub globals: Seq<GlobalV>,
    pub functions: Seq<FunctionV>,
}

impl View for Module {
    type V = ModuleV;

    open spec fn view(&self) -> ModuleV {
        ModuleV {
            target: self.target@,
            datalayout: self.datalayout,
            globals: Seq::new(self.globals@.len(), |i: int| self.globals@[i]@),
            functions: Seq::new(self.functions@.len(), |i: int| self.functions@[i]@),
        }
    }
}

} // verus!
