//! What lowering produces, stated as a function of the source program.
//!
//! The model works on the mathematical values of functions and mirrors the
//! builder: a function under construction with its insertion point and the
//! two counters that identifiers come from.

use vstd::prelude::*;
use crate::ir::instr::ConstValue;
use crate::ir::lower_ast::binding::{BindingV, find, sig_of};
use crate::ir::lower_ast::consteval::{const_eval, lit_value, FloatFold};
use crate::ir::lower_ast::error::LowerErrorV;
use crate::ir::lower_ast::frontend::{Expr, Function, GlobalConst, Parameter, Program, Stmt};
use crate::ir::lower_ast::rules::param_types;
use crate::ir::lower_ast::support::{align_spec, binop_of, compare_of, type_of};
use crate::ir::types::{DataLayout, TypeV};
use crate::ir::value::{BlockId, ValueId};
use crate::ir::view::{BlockV, FunctionV, GlobalV, InstrV, ModuleV, ParamV, TermV};

verus! {

/// A function under construction: what is built so far, the identity of the
/// block that code is added to, and the numbers of the next value and block
/// identifiers.
pub struct Build {
    pub func: FunctionV,
    pub insert: BlockId,
    pub next_value: u32,
    pub next_block: u32,
}

/// The bindings of a scope, oldest first.
pub type EnvV = Seq<(Seq<char>, BindingV)>;

/// The index of the first block with the identity `id`, or the number of
/// blocks.
pub open spec fn index_of(blocks: Seq<BlockV>, id: BlockId) -> int
    decreases blocks.len(),
{
    if blocks.len() == 0 {
        0
    } else if blocks[0].id == id {
        0
    } else {
        1 + index_of(blocks.subrange(1, blocks.len() as int), id)
    }
}

/// The index of the current block.
pub open spec fn cur(b: Build) -> int {
    index_of(b.func.blocks, b.insert)
}

/// Whether the current block has ended. Where the insertion point names no
/// block, it has not.
pub open spec fn ended(b: Build) -> bool {
    0 <= cur(b) < b.func.blocks.len() && b.func.blocks[cur(b)].terminator is Some
}

/// The value that is issued next.
pub open spec fn fresh(b: Build) -> ValueId {
    ValueId(b.next_value)
}

/// The function with `ins` added to block `k` at index `at`.
#[verifier::opaque]
pub open spec fn with_instr(f: FunctionV, k: int, at: int, ins: InstrV) -> FunctionV {
    FunctionV {
        blocks: f.blocks.update(
            k,
            BlockV { instructions: f.blocks[k].instructions.insert(at, ins), ..f.blocks[k] },
        ),
        ..f
    }
}

/// `ins` is added at the end of the current block.
#[verifier::opaque]
pub open spec fn emit(b: Build, ins: InstrV) -> Build {
    Build {
        func: with_instr(b.func, cur(b), b.func.blocks[cur(b)].instructions.len() as int, ins),
        ..b
    }
}

/// The next value is issued and entered in the value table with the type
/// `ty`.
#[verifier::opaque]
pub open spec fn define(b: Build, ty: TypeV) -> Build {
    Build {
        func: FunctionV { value_types: b.func.value_types.push((fresh(b), ty)), ..b.func },
        next_value: (b.next_value + 1) as u32,
        ..b
    }
}

/// The next value is issued with the type `ty`, and `ins`, which defines
/// it, is added at the end of the current block.
pub open spec fn emit_def(b: Build, ins: InstrV, ty: TypeV) -> Build {
    emit(define(b, ty), ins)
}

/// The length of the run of stack allocations at the start of `instrs`.
pub open spec fn prefix_len(instrs: Seq<InstrV>) -> int
    decreases instrs.len(),
{
    if instrs.len() == 0 {
        0
    } else if !(instrs[0] is Alloca) {
        0
    } else {
        1 + prefix_len(instrs.subrange(1, instrs.len() as int))
    }
}

/// A stack slot for a value of type `ty` is allocated at the top of the
/// entry block, behind the slots that stand there already.
#[verifier::opaque]
pub open spec fn hoist(b: Build, ty: TypeV, align: u32) -> Build {
    let d = define(b, TypeV::Ptr(Box::new(ty)));
    Build {
        func: with_instr(
            d.func,
            0,
            prefix_len(d.func.blocks[0].instructions),
            InstrV::Alloca { dst: fresh(b), ty, align },
        ),
        ..d
    }
}

/// The value `v` of type `ty` is stored into a fresh hoisted slot.
pub open spec fn spilled(b: Build, ty: TypeV, v: ValueId, align: u32) -> Build {
    emit(hoist(b, ty, align), InstrV::Store { ty, value: v, ptr: fresh(b), align })
}

/// An empty, open block named `name` is added at the end of the function.
#[verifier::opaque]
pub open spec fn new_block(b: Build, name: Seq<char>) -> Build {
    Build {
        func: FunctionV {
            blocks: b.func.blocks.push(
                BlockV {
                    id: BlockId(b.next_block),
                    name,
                    instructions: Seq::empty(),
                    terminator: None,
                },
            ),
            ..b.func
        },
        next_block: (b.next_block + 1) as u32,
        ..b
    }
}

/// The current block gets the terminator `t`.
#[verifier::opaque]
pub open spec fn terminate(b: Build, t: TermV) -> Build {
    Build {
        func: FunctionV {
            blocks: b.func.blocks.update(
                cur(b),
                BlockV { terminator: Some(t), ..b.func.blocks[cur(b)] },
            ),
            ..b.func
        },
        ..b
    }
}

/// The insertion point moves to the block `id`.
pub open spec fn at(b: Build, id: BlockId) -> Build {
    Build { insert: id, ..b }
}

/// The current block is ended with a branch to `target` unless it has ended
/// already, and the insertion point moves to `next`.
pub open spec fn closed(b: Build, target: BlockId, next: BlockId) -> Build {
    if ended(b) {
        at(b, next)
    } else {
        at(terminate(b, TermV::Br { target }), next)
    }
}

/// Three open blocks are added at the end of the function.
pub open spec fn opened(b: Build, n0: Seq<char>, n1: Seq<char>, n2: Seq<char>) -> Build {
    new_block(new_block(new_block(b, n0), n1), n2)
}

/// The constant `value` of type `ty` is materialized. A boolean is always
/// of the boolean type.
pub open spec fn with_const(b: Build, ty: TypeV, value: ConstValue) -> Build {
    if value is Bool {
        emit_def(b, InstrV::Const { dst: fresh(b), ty: TypeV::I1, value }, TypeV::I1)
    } else {
        emit_def(b, InstrV::Const { dst: fresh(b), ty, value }, ty)
    }
}

/// Where lowering an expression stopped: the function as it then stood, and
/// the error.
pub struct Failure {
    pub build: Build,
    pub error: LowerErrorV,
}

/// Lowering stops with `error` while the function stands as `build`.
pub open spec fn fail<T>(build: Build, error: LowerErrorV) -> Result<T, Failure> {
    Err(Failure { build, error })
}

/// The code for the expression `e`: the function afterwards, the value
/// that holds the result, and its type; or the error, with the function as
/// it stands when lowering stops. An unknown name and a literal that is
/// refused stop before any code is added; an operation whose operands
/// disagree, or that its type does not have, stops behind the code of both
/// operands.
///
/// A variable is loaded from its slot. A constant is materialized as its
/// literal, and so is a literal. An operation lowers its left operand, then
/// its right operand, then itself.
pub open spec fn expr_model(b: Build, env: EnvV, globals: EnvV, e: Expr, ptr_bits: u32) -> Result<
    (Build, ValueId, TypeV),
    Failure,
>
    decreases e,
{
    match e {
        Expr::Var(name) => match find(env, name@) {
            Some(BindingV::Addr { ptr, ty }) => Ok(
                (
                    emit_def(
                        b,
                        InstrV::Load { dst: fresh(b), ty, ptr, align: align_spec(ty, ptr_bits) },
                        ty,
                    ),
                    fresh(b),
                    ty,
                ),
            ),
            Some(BindingV::Const { ty, value }) => Ok((with_const(b, ty, value), fresh(b), ty)),
            None => match find(globals, name@) {
                Some(BindingV::Const { ty, value }) => Ok(
                    (with_const(b, ty, value), fresh(b), ty),
                ),
                _ => fail(b, LowerErrorV::UnknownVariable(name@)),
            },
        },
        Expr::Lit(l) => match lit_value(l) {
            Err(e) => fail(b, e),
            Ok(v) => Ok(
                (emit_def(b, InstrV::Const { dst: fresh(b), ty: v.0, value: v.1 }, v.0), fresh(b),
                    v.0),
            ),
        },
        Expr::Binary { left, op, right } => match expr_model(b, env, globals, *left, ptr_bits) {
            Err(e) => Err(e),
            Ok(l) => match expr_model(l.0, env, globals, *right, ptr_bits) {
                Err(e) => Err(e),
                Ok(r) => if l.2 != r.2 {
                    fail(r.0, LowerErrorV::TypeMismatch { expected: l.2, got: r.2 })
                } else {
                    match binop_of(op, l.2) {
                        Err(e) => fail(r.0, e),
                        Ok(binop) => Ok(
                            (
                                emit_def(
                                    r.0,
                                    InstrV::Bin {
                                        dst: fresh(r.0),
                                        op: binop,
                                        ty: l.2,
                                        lhs: l.1,
                                        rhs: r.1,
                                    },
                                    l.2,
                                ),
                                fresh(r.0),
                                l.2,
                            ),
                        ),
                    }
                },
            },
        },
        Expr::Cmp { left, op, right } => match expr_model(b, env, globals, *left, ptr_bits) {
            Err(e) => Err(e),
            Ok(l) => match expr_model(l.0, env, globals, *right, ptr_bits) {
                Err(e) => Err(e),
                Ok(r) => if l.2 != r.2 {
                    fail(r.0, LowerErrorV::TypeMismatch { expected: l.2, got: r.2 })
                } else {
                    match compare_of(op, l.2) {
                        Err(e) => fail(r.0, e),
                        Ok(test) => Ok(
                            (
                                emit_def(
                                    r.0,
                                    InstrV::Cmp {
                                        dst: fresh(r.0),
                                        op: test,
                                        ty: l.2,
                                        lhs: l.1,
                                        rhs: r.1,
                                    },
                                    TypeV::I1,
                                ),
                                fresh(r.0),
                                TypeV::I1,
                            ),
                        ),
                    }
                },
            },
        },
    }
}

/// The two blocks that `continue` and `break` branch to inside a loop.
#[derive(Clone, Copy, Debug)]
pub struct LoopCtx {
    pub cond_bb: BlockId,
    pub exit_bb: BlockId,
}

/// The loops around a statement, innermost last.
pub type Loops = Seq<LoopCtx>;

/// Where lowering a statement stopped: the function, the scope and the
/// loops as they then stood, and the error.
pub struct Stopped {
    pub build: Build,
    pub env: EnvV,
    pub loops: Loops,
    pub error: LowerErrorV,
}

/// Lowering stops with `error` while the function stands as `build`, in the
/// scope `env` and inside `loops`.
pub open spec fn stop<T>(build: Build, env: EnvV, loops: Loops, error: LowerErrorV) -> Result<
    T,
    Stopped,
> {
    Err(Stopped { build, env, loops, error })
}

/// The code for the statement `s`: the function and the scope afterwards,
/// or the error, with the state in which lowering stops. A statement that
/// stops leaves the scope as it found it, and stops in the function as it
/// stood when the error was found: before any code where the statement
/// itself is refused, behind the code of its expression where that has
/// another type than is asked for, and inside an arm or a body where that
/// is where the error lies.
///
/// Behind the end of the current block nothing is added. A return ends the
/// block. A constant declaration adds no code. A variable declaration
/// stores the initial value, or an undefined one, into a fresh hoisted
/// slot. An assignment stores into the slot of the variable. An `if`
/// branches on the condition to the blocks of its arms, each of which
/// branches on to the continuation unless it ended; code goes on in the
/// continuation. A `while` branches to the block of the condition, which
/// branches to the body or to the exit; the body branches back to the
/// condition unless it ended; code goes on in the exit.
pub open spec fn stmt_model(
    b: Build,
    env: EnvV,
    globals: EnvV,
    loops: Loops,
    s: Stmt,
    ret: TypeV,
    ptr_bits: u32,
    folds: Seq<FloatFold>,
) -> Result<(Build, EnvV), Stopped>
    decreases s,
{
    if ended(b) {
        Ok((b, env))
    } else {
        match s {
            Stmt::Return(opt) => if ret == TypeV::Void {
                Ok((terminate(b, TermV::Ret { ty: ret, value: None }), env))
            } else {
                match opt {
                    None => stop(b, env, loops, LowerErrorV::UnsupportedStmt),
                    Some(e) => match expr_model(b, env, globals, e, ptr_bits) {
                        Err(f) => stop(f.build, env, loops, f.error),
                        Ok(r) => if r.2 != ret {
                            stop(
                                r.0,
                                env,
                                loops,
                                LowerErrorV::TypeMismatch { expected: ret, got: r.2 },
                            )
                        } else {
                            Ok((terminate(r.0, TermV::Ret { ty: ret, value: Some(r.1) }), env))
                        },
                    },
                }
            },
            Stmt::ConstDecl { name, ty, init } => match type_of(ty) {
                Err(e) => stop(b, env, loops, e),
                Ok(decl) => match const_eval(init, Some(sig_of(env)), sig_of(globals), folds) {
                    Err(e) => stop(b, env, loops, e),
                    Ok(v) => if v.0 != decl {
                        stop(
                            b,
                            env,
                            loops,
                            LowerErrorV::TypeMismatch { expected: decl, got: v.0 },
                        )
                    } else {
                        Ok((b, env.push((name@, BindingV::Const { ty: v.0, value: v.1 }))))
                    },
                },
            },
            Stmt::VarDecl { name, ty, init } => match type_of(ty) {
                Err(e) => stop(b, env, loops, e),
                Ok(decl) => {
                    let value = match init {
                        Some(e) => expr_model(b, env, globals, e, ptr_bits),
                        None => Ok(
                            (
                                emit_def(b, InstrV::Undef { dst: fresh(b), ty: decl }, decl),
                                fresh(b),
                                decl,
                            ),
                        ),
                    };
                    match value {
                        Err(f) => stop(f.build, env, loops, f.error),
                        Ok(r) => if r.2 != decl {
                            stop(
                                r.0,
                                env,
                                loops,
                                LowerErrorV::TypeMismatch { expected: decl, got: r.2 },
                            )
                        } else {
                            Ok(
                                (
                                    spilled(r.0, decl, r.1, align_spec(decl, ptr_bits)),
                                    env.push(
                                        (name@, BindingV::Addr { ptr: fresh(r.0), ty: decl }),
                                    ),
                                ),
                            )
                        },
                    }
                },
            },
            Stmt::Assign { name, value } => match expr_model(b, env, globals, value, ptr_bits) {
                Err(f) => stop(f.build, env, loops, f.error),
                Ok(r) => match find(env, name@) {
                    None => stop(r.0, env, loops, LowerErrorV::UnknownVariable(name@)),
                    Some(BindingV::Const { .. }) => stop(
                        r.0,
                        env,
                        loops,
                        LowerErrorV::AssignToConst(name@),
                    ),
                    Some(BindingV::Addr { ptr, ty }) => if r.2 != ty {
                        stop(r.0, env, loops, LowerErrorV::TypeMismatch { expected: ty, got: r.2 })
                    } else {
                        Ok(
                            (
                                emit(
                                    r.0,
                                    InstrV::Store {
                                        ty,
                                        value: r.1,
                                        ptr,
                                        align: align_spec(ty, ptr_bits),
                                    },
                                ),
                                env,
                            ),
                        )
                    },
                },
            },
            Stmt::ExprStmt(e) => match expr_model(b, env, globals, e, ptr_bits) {
                Err(f) => stop(f.build, env, loops, f.error),
                Ok(r) => Ok((r.0, env)),
            },
            Stmt::If { cond, then_body, else_body } => match expr_model(
                b,
                env,
                globals,
                cond,
                ptr_bits,
            ) {
                Err(f) => stop(f.build, env, loops, f.error),
                Ok(c) => if c.2 != TypeV::I1 {
                    stop(
                        c.0,
                        env,
                        loops,
                        LowerErrorV::TypeMismatch { expected: TypeV::I1, got: c.2 },
                    )
                } else {
                    let then_bb = BlockId(c.0.next_block);
                    let else_bb = BlockId((c.0.next_block + 1) as u32);
                    let cont_bb = BlockId((c.0.next_block + 2) as u32);
                    let start = at(
                        terminate(
                            opened(c.0, "if.then"@, "if.else"@, "if.cont"@),
                            TermV::CBr { cond: c.1, then_bb, else_bb },
                        ),
                        then_bb,
                    );
                    match stmts_model(start, env, globals, loops, then_body@, 0, ret, ptr_bits,
                        folds) {
                        Err(t) => stop(t.build, env, t.loops, t.error),
                        Ok(t) => match stmts_model(
                            closed(t.0, cont_bb, else_bb),
                            env,
                            globals,
                            loops,
                            else_body@,
                            0,
                            ret,
                            ptr_bits,
                            folds,
                        ) {
                            Err(e) => stop(e.build, env, e.loops, e.error),
                            Ok(e) => Ok((closed(e.0, cont_bb, cont_bb), env)),
                        },
                    }
                },
            },
            Stmt::While { cond, body } => {
                let cond_bb = BlockId(b.next_block);
                let body_bb = BlockId((b.next_block + 1) as u32);
                let exit_bb = BlockId((b.next_block + 2) as u32);
                let head = at(
                    terminate(
                        opened(b, "while.cond"@, "while.body"@, "while.exit"@),
                        TermV::Br { target: cond_bb },
                    ),
                    cond_bb,
                );
                match expr_model(head, env, globals, cond, ptr_bits) {
                    Err(f) => stop(f.build, env, loops, f.error),
                    Ok(c) => if c.2 != TypeV::I1 {
                        stop(
                            c.0,
                            env,
                            loops,
                            LowerErrorV::TypeMismatch { expected: TypeV::I1, got: c.2 },
                        )
                    } else {
                        let start = at(
                            terminate(c.0, TermV::CBr { cond: c.1, then_bb: body_bb,
                                else_bb: exit_bb }),
                            body_bb,
                        );
                        match stmts_model(
                            start,
                            env,
                            globals,
                            loops.push(LoopCtx { cond_bb, exit_bb }),
                            body@,
                            0,
                            ret,
                            ptr_bits,
                            folds,
                        ) {
                            Err(t) => stop(t.build, env, t.loops, t.error),
                            Ok(t) => Ok((closed(t.0, cond_bb, exit_bb), env)),
                        }
                    },
                }
            },
            Stmt::Break => if loops.len() == 0 {
                stop(b, env, loops, LowerErrorV::BreakOutsideLoop)
            } else {
                Ok((terminate(b, TermV::Br { target: loops.last().exit_bb }), env))
            },
            Stmt::Continue => if loops.len() == 0 {
                stop(b, env, loops, LowerErrorV::ContinueOutsideLoop)
            } else {
                Ok((terminate(b, TermV::Br { target: loops.last().cond_bb }), env))
            },
        }
    }
}

/// The code for the statements `ss[from..]`, in order. Lowering stops
/// where the first of them stops, in the scope that the statements before
/// it left.
pub open spec fn stmts_model(
    b: Build,
    env: EnvV,
    globals: EnvV,
    loops: Loops,
    ss: Seq<Stmt>,
    from: int,
    ret: TypeV,
    ptr_bits: u32,
    folds: Seq<FloatFold>,
) -> Result<(Build, EnvV), Stopped>
    decreases ss, ss.len() - from,
{
    if 0 <= from < ss.len() {
        match stmt_model(b, env, globals, loops, ss[from], ret, ptr_bits, folds) {
            Err(e) => Err(e),
            Ok(next) => stmts_model(next.0, next.1, globals, loops, ss, from + 1, ret, ptr_bits,
                folds),
        }
    } else {
        Ok((b, env))
    }
}

/// A function that has just begun: its parameters stand for fresh values,
/// in order, and its one block is the empty entry block.
pub open spec fn begun(
    next_value: u32,
    next_block: u32,
    name: Seq<char>,
    params: Seq<Parameter>,
    types: Seq<TypeV>,
    ret: TypeV,
) -> Build {
    Build {
        func: FunctionV {
            name,
            params: Seq::new(
                params.len(),
                |i: int|
                    ParamV { name: params[i].name@, id: ValueId((next_value + i) as u32),
                        ty: types[i] },
            ),
            ret_ty: ret,
            blocks: seq![
                BlockV {
                    id: BlockId(next_block),
                    name: "entry"@,
                    instructions: Seq::empty(),
                    terminator: None,
                },
            ],
            entry: BlockId(next_block),
            value_types: Seq::new(
                params.len(),
                |i: int| (ValueId((next_value + i) as u32), types[i]),
            ),
        },
        insert: BlockId(next_block),
        next_value: (next_value + params.len()) as u32,
        next_block: (next_block + 1) as u32,
    }
}

/// The function and the scope after the first `n` parameters were stored
/// into slots of their own and bound to them.
pub open spec fn with_params(
    b: Build,
    params: Seq<Parameter>,
    types: Seq<TypeV>,
    n: int,
    ptr_bits: u32,
) -> (Build, EnvV)
    decreases n,
{
    if n <= 0 {
        (b, Seq::empty())
    } else {
        let p = with_params(b, params, types, n - 1, ptr_bits);
        let ty = types[n - 1];
        (
            spilled(p.0, ty, b.func.params[n - 1].id, align_spec(ty, ptr_bits)),
            p.1.push((params[n - 1].name@, BindingV::Addr { ptr: fresh(p.0), ty })),
        )
    }
}

/// Where lowering a function stopped: the numbers of the next value and
/// block identifiers as they then stood, and the error. No function is
/// added.
pub struct Halted {
    pub next_value: u32,
    pub next_block: u32,
    pub error: LowerErrorV,
}

/// The lowered function `f`, begun with the given counters, or the error.
/// Where the body leaves the last block open, the function returns if it
/// returns nothing, and traps if it should have returned a value. A type
/// that is refused stops the function before anything is issued; an error
/// in the body stops it with the counters as the body left them.
pub open spec fn function_model(
    next_value: u32,
    next_block: u32,
    f: Function,
    globals: EnvV,
    ptr_bits: u32,
    folds: Seq<FloatFold>,
) -> Result<Build, Halted> {
    match type_of(f.return_type) {
        Err(e) => Err(Halted { next_value, next_block, error: e }),
        Ok(ret) => match param_types(f.parameters@, f.parameters@.len() as int) {
            Err(e) => Err(Halted { next_value, next_block, error: e }),
            Ok(types) => {
                let b0 = begun(next_value, next_block, f.name@, f.parameters@, types, ret);
                let p = with_params(b0, f.parameters@, types, f.parameters@.len() as int, ptr_bits);
                match stmts_model(p.0, p.1, globals, Seq::empty(), f.body@, 0, ret, ptr_bits,
                    folds) {
                    Err(s) => Err(
                        Halted {
                            next_value: s.build.next_value,
                            next_block: s.build.next_block,
                            error: s.error,
                        },
                    ),
                    Ok(r) => Ok(
                        if ended(r.0) {
                            r.0
                        } else if ret == TypeV::Void {
                            terminate(r.0, TermV::Ret { ty: ret, value: None })
                        } else {
                            terminate(r.0, TermV::Trap { reason: "missing return"@ })
                        },
                    ),
                }
            },
        },
    }
}

/// The functions lowered so far and the two counters.
pub struct Lowered {
    pub functions: Seq<FunctionV>,
    pub next_value: u32,
    pub next_block: u32,
}

/// The first `n` functions of a program, lowered in order, or the first
/// error. The counters run on from function to function.
pub open spec fn functions_model(fs: Seq<Function>, n: int, globals: EnvV, ptr_bits: u32,
    folds: Seq<FloatFold>) -> Result<
    Lowered,
    LowerErrorV,
>
    decreases n,
{
    if n <= 0 {
        Ok(Lowered { functions: Seq::empty(), next_value: 0, next_block: 0 })
    } else {
        match functions_model(fs, n - 1, globals, ptr_bits, folds) {
            Err(e) => Err(e),
            Ok(l) => match function_model(l.next_value, l.next_block, fs[n - 1], globals,
                ptr_bits,
                folds,) {
                Err(h) => Err(h.error),
                Ok(b) => Ok(
                    Lowered {
                        functions: l.functions.push(b.func),
                        next_value: b.next_value,
                        next_block: b.next_block,
                    },
                ),
            },
        }
    }
}

/// The globals of the module and the scope of the global constants after
/// the first `n` globals of the program, or the first error.
pub open spec fn globals_model(gs: Seq<GlobalConst>, n: int, ptr_bits: u32,
    folds: Seq<FloatFold>) -> Result<
    (Seq<GlobalV>, EnvV),
    LowerErrorV,
>
    decreases n,
{
    if n <= 0 {
        Ok((Seq::empty(), Seq::empty()))
    } else {
        match globals_model(gs, n - 1, ptr_bits, folds) {
            Err(e) => Err(e),
            Ok(p) => {
                let g = gs[n - 1];
                if find(p.1, g.name@) is Some {
                    Err(LowerErrorV::DuplicateGlobal(g.name@))
                } else {
                    match type_of(g.ty) {
                        Err(e) => Err(e),
                        Ok(decl) => match const_eval(g.init, None, sig_of(p.1), folds) {
                            Err(e) => Err(e),
                            Ok(v) => if v.0 != decl {
                                Err(LowerErrorV::TypeMismatch { expected: decl, got: v.0 })
                            } else {
                                Ok(
                                    (
                                        p.0.push(
                                            GlobalV {
                                                name: g.name@,
                                                ty: v.0,
                                                init: v.1,
                                                align: align_spec(v.0, ptr_bits),
                                            },
                                        ),
                                        p.1.push(
                                            (g.name@, BindingV::Const { ty: v.0, value: v.1 }),
                                        ),
                                    ),
                                )
                            },
                        },
                    }
                }
            },
        }
    }
}

/// The module that lowering `p` for the target `target` gives, or the
/// error: the first among the globals, else the first among the functions.
pub open spec fn program_model(p: Program, target: Seq<char>, datalayout: DataLayout,
    folds: Seq<FloatFold>) -> Result<
    ModuleV,
    LowerErrorV,
> {
    match globals_model(p.globals@, p.globals@.len() as int, datalayout.ptr_bits, folds) {
        Err(e) => Err(e),
        Ok(g) => match functions_model(
            p.functions@,
            p.functions@.len() as int,
            g.1,
            datalayout.ptr_bits,
            folds,
        ) {
            Err(e) => Err(e),
            Ok(l) => Ok(ModuleV { target, datalayout, globals: g.0, functions: l.functions }),
        },
    }
}

} // verus!
