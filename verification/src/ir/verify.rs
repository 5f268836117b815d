//! The structural verifier: every block has its terminator, every value is
//! defined before it is used, and every return agrees with the function's
//! return type.
//!
//! The check is flow-insensitive. It walks the blocks of a function in their
//! stored order and keeps one growing set of defined values, so a value counts
//! as defined at a use as soon as its definition stands earlier in that order,
//! whether or not the defining block dominates the use.

use vstd::prelude::*;
use std::collections::HashSet;
use crate::ir::block::BasicBlock;
use crate::ir::function::{Function, Param};
use crate::ir::instr::{Instruction, Terminator};
use crate::ir::module::Module;
use crate::ir::types::{Type, TypeV};
use crate::ir::value::ValueId;

verus! {

broadcast use vstd::std_specs::hash::group_hash_axioms;

/// Why a module is not well formed. Each error names the function it was
/// found in.
#[derive(Debug)]
pub enum VerifyError {
    UnterminatedBlock { func: String, block: String },
    RetTypeMismatch { func: String, expected: Type, got: Option<Type> },
    UseOfUndefinedValue { func: String, value: ValueId },
}

/// The mathematical value of a [`VerifyError`].
pub enum VerifyErrorV {
    UnterminatedBlock { func: Seq<char>, block: Seq<char> },
    RetTypeMismatch { func: Seq<char>, expected: TypeV, got: Option<TypeV> },
    UseOfUndefinedValue { func: Seq<char>, value: ValueId },
}

impl View for VerifyError {
    type V = VerifyErrorV;

    open spec fn view(&self) -> VerifyErrorV {
        match self {
            VerifyError::UnterminatedBlock { func, block } => VerifyErrorV::UnterminatedBlock {
                func: func@,
                block: block@,
            },
            VerifyError::RetTypeMismatch { func, expected, got } => VerifyErrorV::RetTypeMismatch {
                func: func@,
                expected: expected@,
                got: match got {
                    Some(t) => Some(t@),
                    None => None,
                },
            },
            VerifyError::UseOfUndefinedValue { func, value } => VerifyErrorV::UseOfUndefinedValue {
                func: func@,
                value: *value,
            },
        }
    }
}

/// The numbers of the values that the first `n` parameters stand for.
pub open spec fn param_ids(params: Seq<Param>, n: int) -> Set<u32>
    decreases n,
{
    if n <= 0 {
        Set::empty()
    } else {
        param_ids(params, n - 1).insert(params[n - 1].id.0)
    }
}

/// The numbers of the values that the first `n` instructions define.
pub open spec fn instr_defs(instrs: Seq<Instruction>, n: int) -> Set<u32>
    decreases n,
{
    if n <= 0 {
        Set::empty()
    } else {
        match instrs[n - 1].def() {
            Some(v) => instr_defs(instrs, n - 1).insert(v.0),
            None => instr_defs(instrs, n - 1),
        }
    }
}

/// The numbers of the values that the first `n` blocks define.
pub open spec fn block_defs(blocks: Seq<BasicBlock>, n: int) -> Set<u32>
    decreases n,
{
    if n <= 0 {
        Set::empty()
    } else {
        block_defs(blocks, n - 1).union(
            instr_defs(blocks[n - 1].instructions@, blocks[n - 1].instructions@.len() as int),
        )
    }
}

/// The numbers of the values that count as defined when the walk stands
/// before instruction `ii` of block `bi`: the parameters, what the earlier
/// blocks define, and what the earlier instructions of this block define.
pub open spec fn defined_before(f: Function, bi: int, ii: int) -> Set<u32> {
    param_ids(f.params@, f.params@.len() as int).union(block_defs(f.blocks@, bi)).union(
        instr_defs(f.blocks@[bi].instructions@, ii),
    )
}

/// The first value of `uses[from..]` that is not in `defined`.
pub open spec fn first_undefined(defined: Set<u32>, uses: Seq<ValueId>, from: int) -> Option<
    ValueId,
>
    decreases uses.len() - from,
{
    if from < 0 || from >= uses.len() {
        None
    } else if !defined.contains(uses[from].0) {
        Some(uses[from])
    } else {
        first_undefined(defined, uses, from + 1)
    }
}

/// The first undefined value that an instruction of block `bi` at index
/// `from` or later uses, each instruction seeing what stands before it.
pub open spec fn instrs_error(f: Function, bi: int, from: int) -> Option<ValueId>
    decreases f.blocks@[bi].instructions@.len() - from,
{
    let instrs = f.blocks@[bi].instructions@;
    if from < 0 || from >= instrs.len() {
        None
    } else {
        match first_undefined(defined_before(f, bi, from), instrs[from].uses(), 0) {
            Some(v) => Some(v),
            None => instrs_error(f, bi, from + 1),
        }
    }
}

/// What is wrong with the terminator `t` of block `bi`, if anything. A return
/// must state the function's return type and, unless that type is `void`,
/// carry a value; branches and returns must use defined values. A trap is
/// never at fault.
pub open spec fn terminator_error(f: Function, bi: int, t: Terminator) -> Option<VerifyErrorV> {
    let defined = defined_before(f, bi, f.blocks@[bi].instructions@.len() as int);
    match t {
        Terminator::Br { .. } => None,
        Terminator::Trap { .. } => None,
        Terminator::CBr { cond, .. } => if defined.contains(cond.0) {
            None
        } else {
            Some(VerifyErrorV::UseOfUndefinedValue { func: f.name@, value: cond })
        },
        Terminator::Switch { value, .. } => if defined.contains(value.0) {
            None
        } else {
            Some(VerifyErrorV::UseOfUndefinedValue { func: f.name@, value })
        },
        Terminator::Ret { ty, value } => if ty@ != f.ret_ty@ {
            Some(
                VerifyErrorV::RetTypeMismatch {
                    func: f.name@,
                    expected: f.ret_ty@,
                    got: Some(ty@),
                },
            )
        } else {
            match value {
                Some(v) => if defined.contains(v.0) {
                    None
                } else {
                    Some(VerifyErrorV::UseOfUndefinedValue { func: f.name@, value: v })
                },
                None => if f.ret_ty@ != TypeV::Void {
                    Some(
                        VerifyErrorV::RetTypeMismatch {
                            func: f.name@,
                            expected: f.ret_ty@,
                            got: None,
                        },
                    )
                } else {
                    None
                },
            }
        },
    }
}

/// The first thing wrong with block `bi`: a missing terminator, else an
/// undefined use in an instruction, else a fault of the terminator.
pub open spec fn block_error(f: Function, bi: int) -> Option<VerifyErrorV> {
    match f.blocks@[bi].terminator {
        None => Some(
            VerifyErrorV::UnterminatedBlock { func: f.name@, block: f.blocks@[bi].name@ },
        ),
        Some(t) => match instrs_error(f, bi, 0) {
            Some(v) => Some(VerifyErrorV::UseOfUndefinedValue { func: f.name@, value: v }),
            None => terminator_error(f, bi, t),
        },
    }
}

/// The error of the first faulty block at index `from` or later.
pub open spec fn blocks_error(f: Function, from: int) -> Option<VerifyErrorV>
    decreases f.blocks@.len() - from,
{
    if from < 0 || from >= f.blocks@.len() {
        None
    } else {
        match block_error(f, from) {
            Some(e) => Some(e),
            None => blocks_error(f, from + 1),
        }
    }
}

/// The first error of a function in the order of the walk, if it has one.
pub open spec fn function_error(f: Function) -> Option<VerifyErrorV> {
    blocks_error(f, 0)
}

/// The error of the first faulty function at index `from` or later.
pub open spec fn functions_error(fs: Seq<Function>, from: int) -> Option<VerifyErrorV>
    decreases fs.len() - from,
{
    if from < 0 || from >= fs.len() {
        None
    } else {
        match function_error(fs[from]) {
            Some(e) => Some(e),
            None => functions_error(fs, from + 1),
        }
    }
}

/// The first error of a module, if it has one. Globals are never at fault.
pub open spec fn module_error(m: Module) -> Option<VerifyErrorV> {
    functions_error(m.functions@, 0)
}

/// A module is well formed when the walk finds no error in it.
pub open spec fn well_formed(m: Module) -> bool {
    module_error(m) is None
}

/// The value that an instruction defines, if any.
pub fn instr_def(ins: &Instruction) -> (r: Option<ValueId>)
    ensures
        r == ins.def(),
{
    match ins {
        Instruction::Const { dst, .. } => Some(*dst),
        Instruction::Undef { dst, .. } => Some(*dst),
        Instruction::Mov { dst, .. } => Some(*dst),
        Instruction::Bin { dst, .. } => Some(*dst),
        Instruction::Not { dst, .. } => Some(*dst),
        Instruction::Cmp { dst, .. } => Some(*dst),
        Instruction::ICmp { dst, .. } => Some(*dst),
        Instruction::FCmp { dst, .. } => Some(*dst),
        Instruction::Select { dst, .. } => Some(*dst),
        Instruction::Cast { dst, .. } => Some(*dst),
        Instruction::Phi { dst, .. } => Some(*dst),
        Instruction::Extract { dst, .. } => Some(*dst),
        Instruction::Checked { dst, .. } => Some(*dst),
        Instruction::Alloca { dst, .. } => Some(*dst),
        Instruction::Load { dst, .. } => Some(*dst),
        Instruction::Gep { dst, .. } => Some(*dst),
        Instruction::Store { .. } => None,
        Instruction::Memcpy { .. } => None,
        Instruction::Memset { .. } => None,
        Instruction::Call { dst, .. } => *dst,
        Instruction::TrapIf { .. } => None,
    }
}

/// The first components of `pairs`, in order.
fn incoming_values(pairs: &Vec<(ValueId, crate::ir::value::BlockId)>) -> (r: Vec<ValueId>)
    ensures
        r@ == Seq::new(pairs@.len(), |i: int| pairs@[i].0),
{
    let mut out: Vec<ValueId> = Vec::new();
    let mut i: usize = 0;
    while i < pairs.len()
        invariant
            i <= pairs.len(),
            out@.len() == i,
            forall|k: int| 0 <= k < i ==> out@[k] == pairs@[k].0,
        decreases pairs.len() - i,
    {
        out.push(pairs[i].0);
        i += 1;
    }
    assert(out@ =~= Seq::new(pairs@.len(), |i: int| pairs@[i].0));
    out
}

/// `first` followed by the elements of `rest`.
fn prepend(first: ValueId, rest: &Vec<ValueId>) -> (r: Vec<ValueId>)
    ensures
        r@ == seq![first] + rest@,
{
    let mut out: Vec<ValueId> = Vec::new();
    out.push(first);
    let mut i: usize = 0;
    while i < rest.len()
        invariant
            i <= rest.len(),
            out@.len() == i + 1,
            out@[0] == first,
            forall|k: int| 0 <= k < i ==> out@[k + 1] == rest@[k],
        decreases rest.len() - i,
    {
        out.push(rest[i]);
        i += 1;
    }
    assert(out@ =~= seq![first] + rest@);
    out
}

/// `rest`, element for element.
fn copied(rest: &Vec<ValueId>) -> (r: Vec<ValueId>)
    ensures
        r@ == rest@,
{
    let mut out: Vec<ValueId> = Vec::new();
    let mut i: usize = 0;
    while i < rest.len()
        invariant
            i <= rest.len(),
            out@.len() == i,
            forall|k: int| 0 <= k < i ==> out@[k] == rest@[k],
        decreases rest.len() - i,
    {
        out.push(rest[i]);
        i += 1;
    }
    assert(out@ =~= rest@);
    out
}

/// The values that an instruction reads, in operand order.
pub fn instr_uses(ins: &Instruction) -> (r: Vec<ValueId>)
    ensures
        r@ == ins.uses(),
{
    let r = match ins {
        Instruction::Const { .. } => Vec::new(),
        Instruction::Undef { .. } => Vec::new(),
        Instruction::Mov { src, .. } => vec![*src],
        Instruction::Bin { lhs, rhs, .. } => vec![*lhs, *rhs],
        Instruction::Not { src, .. } => vec![*src],
        Instruction::Cmp { lhs, rhs, .. } => vec![*lhs, *rhs],
        Instruction::ICmp { lhs, rhs, .. } => vec![*lhs, *rhs],
        Instruction::FCmp { lhs, rhs, .. } => vec![*lhs, *rhs],
        Instruction::Select { cond, on_true, on_false, .. } => vec![*cond, *on_true, *on_false],
        Instruction::Cast { src, .. } => vec![*src],
        Instruction::Phi { incomings, .. } => incoming_values(incomings),
        Instruction::Extract { tuple, .. } => vec![*tuple],
        Instruction::Checked { lhs, rhs, .. } => vec![*lhs, *rhs],
        Instruction::Alloca { .. } => Vec::new(),
        Instruction::Load { ptr, .. } => vec![*ptr],
        Instruction::Store { value, ptr, .. } => vec![*value, *ptr],
        Instruction::Gep { base_ptr, indices, .. } => prepend(*base_ptr, indices),
        Instruction::Memcpy { dst, src, n, .. } => vec![*dst, *src, *n],
        Instruction::Memset { dst, val, n, .. } => vec![*dst, *val, *n],
        Instruction::Call { args, .. } => copied(args),
        Instruction::TrapIf { cond, .. } => vec![*cond],
    };
    assert(r@ =~= ins.uses());
    r
}

/// Checks that every value that `ins` uses is in `defined`, and names the
/// first that is not.
fn check_uses(ins: &Instruction, defined: &HashSet<u32>, func: &String) -> (r: Result<
    (),
    VerifyError,
>)
    ensures
        match first_undefined(defined@, ins.uses(), 0) {
            None => r is Ok,
            Some(v) => r is Err && r->Err_0@ == (VerifyErrorV::UseOfUndefinedValue {
                func: func@,
                value: v,
            }),
        },
{
    let uses = instr_uses(ins);
    let mut k: usize = 0;
    while k < uses.len()
        invariant
            k <= uses.len(),
            uses@ == ins.uses(),
            first_undefined(defined@, uses@, 0) == first_undefined(defined@, uses@, k as int),
        decreases uses.len() - k,
    {
        let u = uses[k];
        if !defined.contains(&u.0) {
            return Err(VerifyError::UseOfUndefinedValue { func: func.clone(), value: u });
        }
        k += 1;
    }
    Ok(())
}

/// Checks the terminator `t` of block `bi` against the values defined by the
/// end of that block.
fn check_terminator(f: &Function, bi: usize, t: &Terminator, defined: &HashSet<u32>) -> (r: Result<
    (),
    VerifyError,
>)
    requires
        bi < f.blocks@.len(),
        defined@ == defined_before(*f, bi as int, f.blocks@[bi as int].instructions@.len() as int),
    ensures
        match terminator_error(*f, bi as int, *t) {
            None => r is Ok,
            Some(e) => r is Err && r->Err_0@ == e,
        },
{
    match t {
        Terminator::Br { .. } => Ok(()),
        Terminator::Trap { .. } => Ok(()),
        Terminator::CBr { cond, .. } => {
            if !defined.contains(&cond.0) {
                return Err(
                    VerifyError::UseOfUndefinedValue { func: f.name.clone(), value: *cond },
                );
            }
            Ok(())
        },
        Terminator::Switch { value, .. } => {
            if !defined.contains(&value.0) {
                return Err(
                    VerifyError::UseOfUndefinedValue { func: f.name.clone(), value: *value },
                );
            }
            Ok(())
        },
        Terminator::Ret { ty, value } => {
            if !ty.same(&f.ret_ty) {
                return Err(
                    VerifyError::RetTypeMismatch {
                        func: f.name.clone(),
                        expected: f.ret_ty.clone(),
                        got: Some(ty.clone()),
                    },
                );
            }
            match value {
                Some(v) => {
                    if !defined.contains(&v.0) {
                        return Err(
                            VerifyError::UseOfUndefinedValue { func: f.name.clone(), value: *v },
                        );
                    }
                    Ok(())
                },
                None => {
                    if !matches!(f.ret_ty, Type::Void) {
                        return Err(
                            VerifyError::RetTypeMismatch {
                                func: f.name.clone(),
                                expected: f.ret_ty.clone(),
                                got: None,
                            },
                        );
                    }
                    Ok(())
                },
            }
        },
    }
}

/// Checks one function: seeds the defined set with the parameters, then walks
/// the blocks in their stored order and stops at the first error.
pub fn verify_function(f: &Function) -> (r: Result<(), VerifyError>)
    ensures
        match function_error(*f) {
            None => r is Ok,
            Some(e) => r is Err && r->Err_0@ == e,
        },
{
    let mut defined: HashSet<u32> = HashSet::new();
    let mut p: usize = 0;
    while p < f.params.len()
        invariant
            p <= f.params.len(),
            defined@ == param_ids(f.params@, p as int),
        decreases f.params.len() - p,
    {
        defined.insert(f.params[p].id.0);
        p += 1;
    }
    let mut bi: usize = 0;
    assert(defined@ =~= param_ids(f.params@, f.params@.len() as int).union(
        block_defs(f.blocks@, 0),
    ));
    while bi < f.blocks.len()
        invariant
            bi <= f.blocks.len(),
            defined@ == param_ids(f.params@, f.params@.len() as int).union(
                block_defs(f.blocks@, bi as int),
            ),
            function_error(*f) == blocks_error(*f, bi as int),
        decreases f.blocks.len() - bi,
    {
        let b = &f.blocks[bi];
        match &b.terminator {
            None => {
                return Err(
                    VerifyError::UnterminatedBlock { func: f.name.clone(), block: b.name.clone() },
                );
            },
            Some(t) => {
                let mut ii: usize = 0;
                assert(defined@ =~= defined_before(*f, bi as int, 0));
                while ii < b.instructions.len()
                    invariant
                        bi < f.blocks.len(),
                        *b == f.blocks@[bi as int],
                        ii <= b.instructions.len(),
                        defined@ == defined_before(*f, bi as int, ii as int),
                        instrs_error(*f, bi as int, 0) == instrs_error(*f, bi as int, ii as int),
                        function_error(*f) == blocks_error(*f, bi as int),
                        b.terminator is Some,
                    decreases b.instructions.len() - ii,
                {
                    let ins = &b.instructions[ii];
                    check_uses(ins, &defined, &f.name)?;
                    match instr_def(ins) {
                        Some(dst) => {
                            defined.insert(dst.0);
                        },
                        None => {},
                    }
                    assert(defined@ =~= defined_before(*f, bi as int, ii + 1));
                    ii += 1;
                }
                check_terminator(f, bi, t, &defined)?;
                assert(defined@ =~= param_ids(f.params@, f.params@.len() as int).union(
                    block_defs(f.blocks@, bi + 1),
                ));
            },
        }
        bi += 1;
    }
    Ok(())
}

/// Decides whether a finished module is well formed, function by function in
/// stored order, and reports the first error. The module is only read.
pub fn verify_module(m: &Module) -> (r: Result<(), VerifyError>)
    ensures
        match module_error(*m) {
            None => r is Ok,
            Some(e) => r is Err && r->Err_0@ == e,
        },
        r is Ok <==> well_formed(*m),
{
    let mut fi: usize = 0;
    while fi < m.functions.len()
        invariant
            fi <= m.functions.len(),
            module_error(*m) == functions_error(m.functions@, fi as int),
        decreases m.functions.len() - fi,
    {
        verify_function(&m.functions[fi])?;
        fi += 1;
    }
    Ok(())
}

/// A value of `uses[from..]` that is not in `defined` makes one of them the
/// first undefined one.
pub proof fn lemma_first_undefined_some(defined: Set<u32>, uses: Seq<ValueId>, from: int, u: int)
    requires
        0 <= from <= u < uses.len(),
        !defined.contains(uses[u].0),
    ensures
        first_undefined(defined, uses, from) is Some,
    decreases u - from,
{
    if defined.contains(uses[from].0) {
        lemma_first_undefined_some(defined, uses, from + 1, u);
    }
}

/// An instruction at index `ii`, not before `from`, that uses a value that
/// is not defined before it gives the block an undefined use.
pub proof fn lemma_instrs_error_some(f: Function, bi: int, from: int, ii: int, u: int)
    requires
        0 <= from <= ii < f.blocks@[bi].instructions@.len(),
        0 <= u < f.blocks@[bi].instructions@[ii].uses().len(),
        !defined_before(f, bi, ii).contains(f.blocks@[bi].instructions@[ii].uses()[u].0),
    ensures
        instrs_error(f, bi, from) is Some,
    decreases ii - from,
{
    if from < ii {
        lemma_instrs_error_some(f, bi, from + 1, ii, u);
    } else {
        lemma_first_undefined_some(
            defined_before(f, bi, ii),
            f.blocks@[bi].instructions@[ii].uses(),
            0,
            u,
        );
    }
}

/// A faulty block at index `bi`, not before `from`, makes the function
/// faulty.
pub proof fn lemma_blocks_error_some(f: Function, from: int, bi: int)
    requires
        0 <= from <= bi < f.blocks@.len(),
        block_error(f, bi) is Some,
    ensures
        blocks_error(f, from) is Some,
    decreases bi - from,
{
    if from < bi {
        lemma_blocks_error_some(f, from + 1, bi);
    }
}

/// A faulty function at index `fi`, not before `from`, makes the module
/// faulty.
pub proof fn lemma_functions_error_some(fs: Seq<Function>, from: int, fi: int)
    requires
        0 <= from <= fi < fs.len(),
        function_error(fs[fi]) is Some,
    ensures
        functions_error(fs, from) is Some,
    decreases fi - from,
{
    if from < fi {
        lemma_functions_error_some(fs, from + 1, fi);
    }
}

/// A module with a block that has no terminator is not well formed: the
/// verifier rejects it.
pub proof fn lemma_unterminated_block_rejected(m: Module, fi: int, bi: int)
    requires
        0 <= fi < m.functions@.len(),
        0 <= bi < m.functions@[fi].blocks@.len(),
        m.functions@[fi].blocks@[bi].terminator is None,
    ensures
        !well_formed(m),
{
    let f = m.functions@[fi];
    lemma_blocks_error_some(f, 0, bi);
    lemma_functions_error_some(m.functions@, 0, fi);
}

/// A module with an instruction that uses a value that no parameter stands
/// for and that nothing before the instruction defines, in the order of the
/// walk, is not well formed: the verifier rejects it.
pub proof fn lemma_use_before_definition_rejected(m: Module, fi: int, bi: int, ii: int, u: int)
    requires
        0 <= fi < m.functions@.len(),
        0 <= bi < m.functions@[fi].blocks@.len(),
        0 <= ii < m.functions@[fi].blocks@[bi].instructions@.len(),
        0 <= u < m.functions@[fi].blocks@[bi].instructions@[ii].uses().len(),
        !defined_before(m.functions@[fi], bi, ii).contains(
            m.functions@[fi].blocks@[bi].instructions@[ii].uses()[u].0,
        ),
    ensures
        !well_formed(m),
{
    let f = m.functions@[fi];
    if f.blocks@[bi].terminator is Some {
        lemma_instrs_error_some(f, bi, 0, ii, u);
    }
    lemma_blocks_error_some(f, 0, bi);
    lemma_functions_error_some(m.functions@, 0, fi);
}

/// A trap is never at fault: it uses no value and is exempt from the
/// check of the return type.
pub proof fn lemma_trap_is_never_at_fault(f: Function, bi: int, reason: String)
    ensures
        terminator_error(f, bi, Terminator::Trap { reason }) is None,
{
}

} // verus!
