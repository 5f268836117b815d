//! Lowering without optimization: one walk over the source tree that drives
//! the builder. Every variable lives in a stack slot hoisted to the entry
//! block, structured control flow becomes explicit blocks and branches, and
//! constants are evaluated on the way.

use vstd::prelude::*;
use crate::ir::builder::{
    alloca_prefix, func_with_block, func_with_instr, FunctionBuilder, lemma_alloca_prefix,
    lemma_block_index, lemma_block_index_unique, ModuleBuilder,
};
use crate::ir::instr::{ConstValue, Instruction};
use crate::ir::lower_ast::binding::{Binding, BindingV, Env, Kind, Sig};
use crate::ir::lower_ast::consteval::{
    eval_const_expr, lit_value, wrap_i, wrap_u, ConstEvalCtx, FloatFold,
};
use crate::ir::lower_ast::error::{LowerError, LowerErrorV};
use crate::ir::lower_ast::frontend::{Expr, Function, GlobalConst, Lit, Parameter, Program, Stmt};
use crate::ir::lower_ast::bridge::{
    build_of, lemma_block_added, lemma_cur, lemma_emitted, lemma_emitted_def, lemma_hoisted,
    lemma_prefix_len, lemma_terminated,
};
use crate::ir::lower_ast::laws::{
    extends, lemma_begun_params_spilled, lemma_expression_only_adds_code,
    lemma_refused_statement_adds_nothing_of_its_own, param_spilled, param_store, param_stored,
    params_spilled, params_stored, while_head,
};
use crate::ir::lower_ast::model::{
    at, begun, Build, closed, emit_def, ended, EnvV, expr_model, fresh, function_model,
    functions_model, globals_model, LoopCtx, Lowered, opened, program_model, spilled, stmt_model,
    stmts_model, Stopped, terminate, with_const, with_params,
};
use crate::ir::view::{FunctionV, GlobalV, instrs_view, InstrV, TermV};
use crate::ir::lower_ast::rules::{
    expr_cost, expr_type, function_cost, function_outcome, functions_cost, functions_outcome,
    globals_outcome, open_scope, param_scope, param_types, program_cost, program_outcome, Scope,
    stmt_cost, stmt_outcome, stmts_cost, stmts_outcome,
};
use crate::ir::lower_ast::sound::{
    all_avail, avail, block_sound, entry_kept, func_sound, is_param, is_slot,
    lemma_block_keeps_sound,
    lemma_insert_keeps_sound, lemma_sound_function_verifies, lemma_terminator_keeps_sound,
    local_def, ret_ok, slots_kept,
};
use crate::ir::lower_ast::support::{
    align_of, align_spec, float_type, int_type, map_binop, map_cmp, socket_type_to_whale, type_of,
};
use crate::ir::module::{Global, Module};
use crate::ir::types::{DataLayout, Type, TypeV};
use crate::ir::verify::{
    function_error, functions_error, lemma_unterminated_block_rejected, well_formed,
};
use crate::ir::value::{BlockId, ValueId};

verus! {

/// Every variable of the environment lives in a hoisted slot of `f`.
pub open spec fn env_ok(env: Seq<(Seq<char>, BindingV)>, f: crate::ir::function::Function) -> bool {
    forall|i: int|
        0 <= i < env.len() ==> ((#[trigger] env[i]).1 matches BindingV::Addr { ptr, .. }
            ==> is_slot(f, ptr))
}

/// The number of instructions of the current block.
pub open spec fn cur_len(fb: FunctionBuilder) -> int {
    fb.cur_block().instructions@.len() as int
}

/// What straight-line code does to the function under construction: it
/// adds instructions at the end of the current block, which stays open, and
/// touches nothing else.
pub open spec fn straight(pre: FunctionBuilder, post: FunctionBuilder) -> bool {
    &&& post.wf()
    &&& post.can_emit()
    &&& func_sound(post.func)
    &&& slots_kept(pre.func, post.func)
    &&& post.insert_block == pre.insert_block
    &&& post.same_parent(pre)
    &&& post.next_block() == pre.next_block()
    &&& post.next_value() >= pre.next_value()
    &&& post.func.name == pre.func.name
    &&& post.func.ret_ty == pre.func.ret_ty
    &&& post.func.entry == pre.func.entry
    &&& post.cur() == pre.cur()
    &&& post.func.blocks@.len() == pre.func.blocks@.len()
    &&& forall|j: int|
        0 <= j < pre.func.blocks@.len() ==> (#[trigger] post.func.blocks@[j]).id
            == pre.func.blocks@[j].id && post.func.blocks@[j].terminator
            == pre.func.blocks@[j].terminator
    &&& cur_len(post) >= cur_len(pre)
    &&& forall|v: ValueId|
        local_def(pre.func, pre.cur(), cur_len(pre), v) ==> local_def(
            post.func,
            post.cur(),
            cur_len(post),
            v,
        )
}

/// Straight-line code after straight-line code is straight-line code.
pub proof fn lemma_straight_trans(a: FunctionBuilder, b: FunctionBuilder, c: FunctionBuilder)
    requires
        straight(a, b),
        straight(b, c),
    ensures
        straight(a, c),
{
    assert forall|j: int| 0 <= j < a.func.blocks@.len() implies (#[trigger] c.func.blocks@[j]).id
        == a.func.blocks@[j].id && c.func.blocks@[j].terminator
        == a.func.blocks@[j].terminator by {
        assert(b.func.blocks@[j].id == a.func.blocks@[j].id);
    }
}

/// The current block keeps its index where the blocks keep their
/// identities.
pub proof fn lemma_cur_stable(pre: FunctionBuilder, post: FunctionBuilder)
    requires
        pre.has_cur(),
        post.wf(),
        post.insert_block == pre.insert_block,
        post.func.blocks@.len() >= pre.func.blocks@.len(),
        forall|j: int|
            0 <= j < pre.func.blocks@.len() ==> (#[trigger] post.func.blocks@[j]).id
                == pre.func.blocks@[j].id,
    ensures
        post.cur() == pre.cur(),
{
    lemma_block_index(pre.func.blocks@, pre.insert_block);
    assert(post.func.blocks@[pre.cur()].id == pre.insert_block);
    lemma_block_index_unique(post.func.blocks@, pre.cur());
}

/// Adding an instruction that uses available values at the end of the
/// current block is straight-line code, and the value that it defines is
/// defined in the current block afterwards.
pub proof fn lemma_emit_straight(pre: FunctionBuilder, post: FunctionBuilder, ins: Instruction)
    requires
        pre.wf(),
        pre.can_emit(),
        func_sound(pre.func),
        post.wf(),
        func_with_instr(pre.func, post.func, pre.cur(), cur_len(pre), ins),
        post.insert_block == pre.insert_block,
        post.same_parent(pre),
        post.next_block() == pre.next_block(),
        post.next_value() >= pre.next_value(),
        all_avail(pre.func, pre.cur(), cur_len(pre), ins.uses()),
    ensures
        straight(pre, post),
        cur_len(post) == cur_len(pre) + 1,
        ins.def() matches Some(v) ==> local_def(post.func, post.cur(), cur_len(post), v),
        forall|k: int, i: int, v: ValueId|
            0 <= k < pre.func.blocks@.len() && #[trigger] avail(pre.func, k, i, v) ==> avail(
                post.func,
                k,
                if k == pre.cur() && i >= cur_len(pre) {
                    i + 1
                } else {
                    i
                },
                v,
            ),
{
    let k = pre.cur();
    let n = cur_len(pre);
    lemma_alloca_prefix(pre.func.blocks@[0].instructions@);
    lemma_insert_keeps_sound(pre.func, post.func, k, n, ins);
    assert forall|j: int| 0 <= j < pre.func.blocks@.len() implies (
    #[trigger] post.func.blocks@[j]).id == pre.func.blocks@[j].id && post.func.blocks@[j].terminator
        == pre.func.blocks@[j].terminator by {
        if j != k {
            assert(post.func.blocks@[j] == pre.func.blocks@[j]);
        }
    }
    lemma_cur_stable(pre, post);
    let s0 = pre.func.blocks@[k].instructions@;
    let s1 = post.func.blocks@[k].instructions@;
    assert(s1[n] == ins);
    assert forall|v: ValueId| local_def(pre.func, k, n, v) implies local_def(
        post.func,
        k,
        n + 1,
        v,
    ) by {
        let j = choose|j: int|
            0 <= j < n && j < s0.len() && (#[trigger] pre.func.blocks@[k].instructions@[j]).def()
                == Some(v);
        assert(s1[j] == s0[j]);
        assert(post.func.blocks@[k].instructions@[j].def() == Some(v));
    }
    if ins.def() is Some {
        assert(post.func.blocks@[k].instructions@[n].def() == ins.def());
    }
}

/// Materializes the constant `v` of type `ty` at the insertion point.
fn emit_const_value(fb: &mut FunctionBuilder<'_>, ty: &Type, v: &ConstValue) -> (dst: ValueId)
    requires
        old(fb).wf(),
        old(fb).can_emit(),
        func_sound(old(fb).func),
        old(fb).next_value() < u32::MAX,
    ensures
        straight(*old(fb), *final(fb)),
        final(fb).next_value() == old(fb).next_value() + 1,
        local_def(final(fb).func, final(fb).cur(), cur_len(*final(fb)), dst),
        *final(final(fb).mb) == *final(old(fb).mb),
        dst == fresh(build_of(*old(fb))),
        build_of(*final(fb)) == with_const(build_of(*old(fb)), ty@, *v),
{
    let dst = match v {
        ConstValue::Bool(b) => fb.const_bool(*b),
        ConstValue::I(i) => fb.const_int(ty.clone(), *i),
        ConstValue::U(u) => fb.const_uint(ty.clone(), *u),
        ConstValue::F(x) => fb.const_float(ty.clone(), x.clone()),
    };
    proof {
        let ins = fb.func.blocks@[old(fb).cur()].instructions@[cur_len(*old(fb))];
        assert(ins.uses() =~= Seq::<ValueId>::empty());
        lemma_emit_straight(*old(fb), *fb, ins);
        lemma_emitted_def(*old(fb), *fb, ins, if *v is Bool { TypeV::I1 } else { ty@ });
    }
    dst
}

/// Materializes a literal at the insertion point. An integer literal is
/// reduced to its width first.
fn lower_lit_o0(fb: &mut FunctionBuilder<'_>, lit: &Lit) -> (r: Result<
    (ValueId, Type),
    LowerError,
>)
    requires
        old(fb).wf(),
        old(fb).can_emit(),
        func_sound(old(fb).func),
        old(fb).next_value() < u32::MAX,
    ensures
        *final(final(fb).mb) == *final(old(fb).mb),
        final(fb).same_parent(*old(fb)),
        match lit_value(*lit) {
            Err(e) => r is Err && r->Err_0@ == e && *final(fb) == *old(fb),
            Ok(v) => r is Ok && r->Ok_0.1@ == v.0 && straight(*old(fb), *final(fb))
                && final(fb).next_value() == old(fb).next_value() + 1 && local_def(
                final(fb).func,
                final(fb).cur(),
                cur_len(*final(fb)),
                r->Ok_0.0,
            ) && r->Ok_0.0 == fresh(build_of(*old(fb))) && build_of(*final(fb)) == emit_def(
                build_of(*old(fb)),
                InstrV::Const { dst: fresh(build_of(*old(fb))), ty: v.0, value: v.1 },
                v.0,
            ),
        },
{
    let (dst, ty) = match lit {
        Lit::Bool(b) => (fb.const_bool(*b), Type::I1),
        Lit::Int { bits, signed, value } => {
            let ty = int_type(*bits, *signed)?;
            if *signed {
                (fb.const_int(ty.clone(), wrap_i(*value, &ty)), ty)
            } else {
                if *value < 0 {
                    return Err(LowerError::UnsupportedExpr);
                }
                (fb.const_uint(ty.clone(), wrap_u(*value as u128, &ty)), ty)
            }
        },
        Lit::Float { bits, value } => {
            let ty = float_type(*bits)?;
            (fb.const_float(ty.clone(), value.clone()), ty)
        },
    };
    proof {
        let ins = fb.func.blocks@[old(fb).cur()].instructions@[cur_len(*old(fb))];
        assert(ins.uses() =~= Seq::<ValueId>::empty());
        lemma_emit_straight(*old(fb), *fb, ins);
        lemma_emitted_def(*old(fb), *fb, ins, ty@);
    }
    Ok((dst, ty))
}

/// Lowers an expression to straight-line code at the insertion point and
/// gives the value that holds its result, with its type. A variable is
/// loaded from its slot; a constant is materialized as its literal.
///
/// Where the expression is refused, the function under construction is
/// left as it stood when the error was found: unchanged for a name that is
/// bound nowhere, and with the code of the operands that were lowered
/// before for an operation.
#[verifier::rlimit(40)]
fn lower_expr_o0(
    fb: &mut FunctionBuilder<'_>,
    env: &Env,
    global_consts: &Env,
    expr: &Expr,
    ptr_bits: u32,
) -> (r: Result<(ValueId, Type), LowerError>)
    requires
        old(fb).wf(),
        old(fb).can_emit(),
        func_sound(old(fb).func),
        env_ok(env@, old(fb).func),
        old(fb).next_value() + expr_cost(*expr) <= u32::MAX,
    ensures
        *final(final(fb).mb) == *final(old(fb).mb),
        final(fb).same_parent(*old(fb)),
        match expr_type(*expr, env.sig(), global_consts.sig()) {
            Err(e) => r is Err && r->Err_0@ == e,
            Ok(ty) => r is Ok && r->Ok_0.1@ == ty && straight(*old(fb), *final(fb))
                && final(fb).next_value() <= old(fb).next_value() + expr_cost(*expr)
                && local_def(final(fb).func, final(fb).cur(), cur_len(*final(fb)), r->Ok_0.0),
        },
        match expr_model(build_of(*old(fb)), env@, global_consts@, *expr, ptr_bits) {
            Err(f) => r is Err && r->Err_0@ == f.error && build_of(*final(fb)) == f.build,
            Ok(m) => r is Ok && build_of(*final(fb)) == m.0 && r->Ok_0.0 == m.1 && r->Ok_0.1@
                == m.2,
        },
        (*expr is Var && r is Err) ==> *final(fb) == *old(fb),
        extends(build_of(*old(fb)), build_of(*final(fb))),
    decreases expr,
{
    proof {
        lemma_cur(*fb);
        lemma_expression_only_adds_code(build_of(*fb), env@, global_consts@, *expr, ptr_bits);
    }
    match expr {
        Expr::Var(name) => {
            match env.get(name) {
                Some(Binding::Addr { ptr, ty }) => {
                    let align = align_of(ty, ptr_bits);
                    let v = fb.load(ty.clone(), *ptr, align);
                    proof {
                        let ins = fb.func.blocks@[old(fb).cur()].instructions@[cur_len(*old(fb))];
                        assert(ins.uses() =~= seq![*ptr]);
                        assert(is_slot(old(fb).func, *ptr));
                        lemma_emit_straight(*old(fb), *fb, ins);
                        lemma_emitted_def(*old(fb), *fb, ins, ty@);
                    }
                    Ok((v, ty.clone()))
                },
                Some(Binding::Const { ty, value }) => {
                    let v = emit_const_value(fb, ty, value);
                    Ok((v, ty.clone()))
                },
                None => {
                    match global_consts.get(name) {
                        Some(Binding::Const { ty, value }) => {
                            let v = emit_const_value(fb, ty, value);
                            Ok((v, ty.clone()))
                        },
                        _ => Err(LowerError::UnknownVariable(name.clone())),
                    }
                },
            }
        },
        Expr::Lit(lit) => lower_lit_o0(fb, lit),
        Expr::Binary { left, op, right } => {
            let (lv, lty) = lower_expr_o0(fb, env, global_consts, left, ptr_bits)?;
            let ghost mid1 = *fb;
            let (rv, rty) = lower_expr_o0(fb, env, global_consts, right, ptr_bits)?;
            if !lty.same(&rty) {
                return Err(LowerError::TypeMismatch { expected: lty, got: rty });
            }
            let binop = map_binop(*op, &lty)?;
            let ghost mid2 = *fb;
            let out = fb.bin(binop, lty.clone(), lv, rv);
            proof {
                let ins = fb.func.blocks@[mid2.cur()].instructions@[cur_len(mid2)];
                assert(ins.uses() =~= seq![lv, rv]);
                lemma_emit_straight(mid2, *fb, ins);
                lemma_emitted_def(mid2, *fb, ins, lty@);
                lemma_straight_trans(*old(fb), mid1, mid2);
                lemma_straight_trans(*old(fb), mid2, *fb);
            }
            Ok((out, lty))
        },
        Expr::Cmp { left, op, right } => {
            let (lv, lty) = lower_expr_o0(fb, env, global_consts, left, ptr_bits)?;
            let ghost mid1 = *fb;
            let (rv, rty) = lower_expr_o0(fb, env, global_consts, right, ptr_bits)?;
            if !lty.same(&rty) {
                return Err(LowerError::TypeMismatch { expected: lty, got: rty });
            }
            let test = map_cmp(*op, &lty)?;
            let ghost mid2 = *fb;
            let out = fb.cmp(test, lty, lv, rv);
            proof {
                let ins = fb.func.blocks@[mid2.cur()].instructions@[cur_len(mid2)];
                assert(ins.uses() =~= seq![lv, rv]);
                lemma_emit_straight(mid2, *fb, ins);
                lemma_emitted_def(mid2, *fb, ins, TypeV::I1);
                lemma_straight_trans(*old(fb), mid1, mid2);
                lemma_straight_trans(*old(fb), mid2, *fb);
            }
            Ok((out, Type::I1))
        },
    }
}

/// What lowering a statement does to the function under construction. It
/// adds code at the current block and may open blocks of its own, all of
/// which it ends again but the one that it leaves as the current block.
/// Blocks that were there before, other than the current one, keep their
/// state; a current block that is left behind has its terminator.
pub open spec fn flow(pre: FunctionBuilder, post: FunctionBuilder) -> bool {
    &&& post.wf()
    &&& post.has_cur()
    &&& func_sound(post.func)
    &&& slots_kept(pre.func, post.func)
    &&& post.same_parent(pre)
    &&& post.next_value() >= pre.next_value()
    &&& post.next_block() >= pre.next_block()
    &&& post.func.name == pre.func.name
    &&& post.func.ret_ty == pre.func.ret_ty
    &&& post.func.entry == pre.func.entry
    &&& post.func.blocks@.len() >= pre.func.blocks@.len()
    &&& forall|j: int|
        0 <= j < pre.func.blocks@.len() ==> (#[trigger] post.func.blocks@[j]).id
            == pre.func.blocks@[j].id
    &&& forall|j: int|
        0 <= j < pre.func.blocks@.len() && j != pre.cur() ==> ((
        #[trigger] post.func.blocks@[j]).terminator is Some
            <==> pre.func.blocks@[j].terminator is Some)
    &&& (post.cur() == pre.cur() || post.cur() >= pre.func.blocks@.len())
    &&& pre.cur_block().terminator is Some ==> post.func.blocks@[pre.cur()].terminator is Some
    &&& post.cur() != pre.cur() ==> post.func.blocks@[pre.cur()].terminator is Some
    &&& forall|j: int|
        pre.func.blocks@.len() <= j < post.func.blocks@.len() && j != post.cur() ==> (
        #[trigger] post.func.blocks@[j]).terminator is Some
}

/// Doing nothing is a flow.
pub proof fn lemma_flow_refl(a: FunctionBuilder)
    requires
        a.wf(),
        a.has_cur(),
        func_sound(a.func),
    ensures
        flow(a, a),
{
}

/// One flow after another is a flow.
pub proof fn lemma_flow_trans(a: FunctionBuilder, b: FunctionBuilder, c: FunctionBuilder)
    requires
        a.has_cur(),
        flow(a, b),
        flow(b, c),
    ensures
        flow(a, c),
{
    assert forall|j: int| 0 <= j < a.func.blocks@.len() implies (#[trigger] c.func.blocks@[j]).id
        == a.func.blocks@[j].id by {
        assert(b.func.blocks@[j].id == a.func.blocks@[j].id);
    }
    assert forall|j: int| 0 <= j < a.func.blocks@.len() && j != a.cur() implies ((
    #[trigger] c.func.blocks@[j]).terminator is Some <==> a.func.blocks@[j].terminator is Some) by {
        assert(b.func.blocks@[j].terminator is Some <==> a.func.blocks@[j].terminator is Some);
    }
    assert forall|j: int|
        a.func.blocks@.len() <= j < c.func.blocks@.len() && j != c.cur() implies (
    #[trigger] c.func.blocks@[j]).terminator is Some by {
        if j < b.func.blocks@.len() {
            if j != b.cur() {
                assert(b.func.blocks@[j].terminator is Some);
            }
        }
    }
    if a.cur_block().terminator is Some {
        assert(b.func.blocks@[a.cur()].terminator is Some);
    }
    if c.cur() != a.cur() {
        if b.cur() != a.cur() {
            assert(b.func.blocks@[a.cur()].terminator is Some);
        }
    }
}

/// Straight-line code is a flow.
pub proof fn lemma_straight_flow(a: FunctionBuilder, b: FunctionBuilder)
    requires
        a.has_cur(),
        straight(a, b),
    ensures
        flow(a, b),
        b.cur_block().terminator is None,
{
}

/// Giving the current block a fitting terminator that uses available
/// values is a flow that leaves the current block ended.
pub proof fn lemma_terminate_flow(pre: FunctionBuilder, post: FunctionBuilder)
    requires
        pre.wf(),
        pre.can_emit(),
        func_sound(pre.func),
        post.wf(),
        post.terminated(pre),
        all_avail(
            pre.func,
            pre.cur(),
            cur_len(pre),
            post.func.blocks@[pre.cur()].terminator->Some_0.uses(),
        ),
        ret_ok(pre.func, post.func.blocks@[pre.cur()].terminator->Some_0),
    ensures
        flow(pre, post),
        post.cur() == pre.cur(),
        post.cur_block().terminator is Some,
        post.func.blocks@.len() == pre.func.blocks@.len(),
        forall|j: int|
            0 <= j < pre.func.blocks@.len() && j != pre.cur() ==> #[trigger] post.func.blocks@[j]
                == pre.func.blocks@[j],
{
    let k = pre.cur();
    let t = post.func.blocks@[k].terminator->Some_0;
    lemma_terminator_keeps_sound(pre.func, post.func, k, t);
    assert forall|j: int| 0 <= j < pre.func.blocks@.len() implies (
    #[trigger] post.func.blocks@[j]).id == pre.func.blocks@[j].id by {
        if j != k {
            assert(post.func.blocks@[j] == pre.func.blocks@[j]);
        }
    }
    lemma_cur_stable(pre, post);
}

/// Adding a block keeps the function sound, the current block where it is
/// and every other block as it was.
pub proof fn lemma_new_block(
    pre: FunctionBuilder,
    post: FunctionBuilder,
    id: BlockId,
    name: Seq<char>,
)
    requires
        pre.wf(),
        pre.has_cur(),
        func_sound(pre.func),
        post.wf(),
        func_with_block(pre.func, post.func, id, name),
        post.insert_block == pre.insert_block,
    ensures
        func_sound(post.func),
        slots_kept(pre.func, post.func),
        post.cur() == pre.cur(),
        post.has_cur(),
        forall|j: int|
            0 <= j < pre.func.blocks@.len() ==> #[trigger] post.func.blocks@[j]
                == pre.func.blocks@[j],
        forall|b: int, i: int, v: ValueId|
            0 <= b < pre.func.blocks@.len() ==> (#[trigger] avail(pre.func, b, i, v) <==> avail(
                post.func,
                b,
                i,
                v,
            )),
{
    lemma_block_keeps_sound(pre.func, post.func, id, name);
    assert forall|j: int| 0 <= j < pre.func.blocks@.len() implies #[trigger] post.func.blocks@[j]
        == pre.func.blocks@[j] by {
        assert(post.func.blocks@.drop_last()[j] == post.func.blocks@[j]);
    }
    lemma_cur_stable(pre, post);
}

/// The block at index `k` is the current block once the insertion point
/// names its identity.
pub proof fn lemma_cur_at(fb: FunctionBuilder, k: int)
    requires
        fb.wf(),
        0 <= k < fb.func.blocks@.len(),
        fb.func.blocks@[k].id == fb.insert_block,
    ensures
        fb.cur() == k,
{
    lemma_block_index_unique(fb.func.blocks@, k);
}

/// The scope that lowering stands in: the names of the environment, and
/// whether the current block has ended.
pub open spec fn scope_at(fb: FunctionBuilder, env: Env) -> Scope {
    Scope { sig: env.sig(), terminated: fb.cur_block().terminator is Some }
}

/// What lowering a statement or a list of statements may rely on: the
/// builder's bookkeeping, a current block, a sound function, variables that
/// live in hoisted slots, and `cost` identifiers of either sort left.
pub open spec fn ready(fb: FunctionBuilder, env: Env, ret: Type, cost: nat) -> bool {
    &&& fb.wf()
    &&& fb.has_cur()
    &&& func_sound(fb.func)
    &&& env_ok(env@, fb.func)
    &&& ret@ == fb.func.ret_ty@
    &&& fb.next_value() + cost <= u32::MAX
    &&& fb.next_block() + cost <= u32::MAX
}

/// What lowering a statement or a list of statements achieves where the
/// rules accept it with the scope `sc`.
pub open spec fn done(
    pre: FunctionBuilder,
    post: FunctionBuilder,
    post_env: Env,
    cost: nat,
    sc: Scope,
) -> bool {
    &&& post_env.sig() == sc.sig
    &&& (post.cur_block().terminator is Some) == sc.terminated
    &&& flow(pre, post)
    &&& env_ok(post_env@, post.func)
    &&& post.next_value() <= pre.next_value() + cost
    &&& post.next_block() <= pre.next_block() + cost
}

/// The result `r` and the state after lowering agree with the outcome that
/// the rules give.
pub open spec fn lowered(
    r: Result<(), LowerError>,
    outcome: Result<Scope, LowerErrorV>,
    pre: FunctionBuilder,
    post: FunctionBuilder,
    post_env: Env,
    cost: nat,
) -> bool {
    match outcome {
        Err(e) => r is Err && r->Err_0@ == e,
        Ok(sc) => r is Ok && done(pre, post, post_env, cost, sc),
    }
}

/// The result `r` and the state after lowering are what the model gives,
/// also where lowering stops with an error.
pub open spec fn modeled(
    r: Result<(), LowerError>,
    m: Result<(Build, EnvV), Stopped>,
    post: FunctionBuilder,
    post_env: Env,
    post_loops: Seq<LoopCtx>,
) -> bool {
    match m {
        Err(s) => r is Err && r->Err_0@ == s.error && build_of(post) == s.build && post_env@
            == s.env && post_loops == s.loops,
        Ok(v) => r is Ok && build_of(post) == v.0 && post_env@ == v.1,
    }
}

/// Lowers a return statement. In a function without a return value the
/// expression, if there is one, is not looked at.
fn lower_return(
    fb: &mut FunctionBuilder<'_>,
    env: &Env,
    global_consts: &Env,
    opt: &Option<Expr>,
    func_ret_ty: &Type,
    ptr_bits: u32,
    in_loop: bool,
    Ghost(loops): Ghost<Seq<LoopCtx>>,
    folds: &Vec<FloatFold>,
) -> (r: Result<(), LowerError>)
    requires
        ready(*old(fb), *env, *func_ret_ty, stmt_cost(Stmt::Return(*opt))),
        old(fb).can_emit(),
    ensures
        *final(final(fb).mb) == *final(old(fb).mb),
        final(fb).same_parent(*old(fb)),
        modeled(
            r,
            stmt_model(
                build_of(*old(fb)),
                env@,
                global_consts@,
                loops,
                Stmt::Return(*opt),
                func_ret_ty@,
                ptr_bits,
                folds@,
            ),
            *final(fb),
            *env,
            loops,
        ),
        lowered(
            r,
            stmt_outcome(
                Stmt::Return(*opt),
                open_scope(env.sig()),
                global_consts.sig(),
                in_loop,
                func_ret_ty@,
                folds@,
            ),
            *old(fb),
            *final(fb),
            *env,
            stmt_cost(Stmt::Return(*opt)),
        ),
{
    proof {
        lemma_cur(*fb);
    }
    if matches!(func_ret_ty, Type::Void) {
        fb.ret(None);
        proof {
            let t = fb.func.blocks@[old(fb).cur()].terminator->Some_0;
            assert(t.uses() =~= Seq::<ValueId>::empty());
            lemma_terminate_flow(*old(fb), *fb);
            lemma_terminated(*old(fb), *fb, t);
        }
        return Ok(());
    }
    match opt {
        None => Err(LowerError::UnsupportedStmt),
        Some(e) => {
            let (v, ty) = lower_expr_o0(fb, env, global_consts, e, ptr_bits)?;
            if !ty.same(func_ret_ty) {
                return Err(LowerError::TypeMismatch { expected: func_ret_ty.clone(), got: ty });
            }
            let ghost mid = *fb;
            fb.ret(Some(v));
            proof {
                let t = fb.func.blocks@[mid.cur()].terminator->Some_0;
                assert(t.uses() =~= seq![v]);
                lemma_terminate_flow(mid, *fb);
                lemma_terminated(mid, *fb, t);
                lemma_straight_flow(*old(fb), mid);
                lemma_flow_trans(*old(fb), mid, *fb);
            }
            Ok(())
        },
    }
}

/// Stores the value `v` of type `ty` into a fresh stack slot hoisted to the
/// entry block, and gives the slot.
fn spill(fb: &mut FunctionBuilder<'_>, ty: &Type, v: ValueId, align: u32) -> (slot: ValueId)
    requires
        old(fb).wf(),
        old(fb).can_emit(),
        func_sound(old(fb).func),
        avail(old(fb).func, old(fb).cur(), cur_len(*old(fb)), v),
        old(fb).next_value() < u32::MAX,
    ensures
        *final(final(fb).mb) == *final(old(fb).mb),
        flow(*old(fb), *final(fb)),
        final(fb).can_emit(),
        final(fb).cur() == old(fb).cur(),
        final(fb).func.blocks@.len() == old(fb).func.blocks@.len(),
        final(fb).func.params == old(fb).func.params,
        final(fb).insert_block == old(fb).insert_block,
        final(fb).next_value() == old(fb).next_value() + 1,
        final(fb).next_block() == old(fb).next_block(),
        is_slot(final(fb).func, slot),
        slot == fresh(build_of(*old(fb))),
        build_of(*final(fb)) == spilled(build_of(*old(fb)), ty@, v, align),
{
    let ghost s1 = *fb;
    let slot = fb.alloca_in_entry(ty.clone(), align);
    let ghost s2 = *fb;
    proof {
        let at = alloca_prefix(s1.func.blocks@[0].instructions@);
        lemma_alloca_prefix(s1.func.blocks@[0].instructions@);
        let ins = s2.func.blocks@[0].instructions@[at];
        assert(ins.uses() =~= Seq::<ValueId>::empty());
        lemma_hoisted(s1, s2, ins, ty@, align);
        lemma_insert_keeps_sound(s1.func, s2.func, 0, at, ins);
        assert forall|j: int| 0 <= j < s1.func.blocks@.len() implies (
        #[trigger] s2.func.blocks@[j]).id == s1.func.blocks@[j].id
            && s2.func.blocks@[j].terminator == s1.func.blocks@[j].terminator by {
            if j != 0 {
                assert(s2.func.blocks@[j] == s1.func.blocks@[j]);
            }
        }
        lemma_cur_stable(s1, s2);
        assert(avail(s2.func, s2.cur(), cur_len(s2), v));
        assert(is_slot(s2.func, slot));
        assert(flow(s1, s2));
    }
    fb.store(ty.clone(), v, slot, align);
    proof {
        let ins = fb.func.blocks@[s2.cur()].instructions@[cur_len(s2)];
        assert(ins.uses() =~= seq![v, slot]);
        lemma_emit_straight(s2, *fb, ins);
        lemma_emitted(s2, *fb, ins);
        lemma_straight_flow(s2, *fb);
        lemma_flow_trans(s1, s2, *fb);
    }
    slot
}

/// Lowers the declaration of a variable: the initial value, or an
/// undefined one, is stored into a fresh slot hoisted to the entry block.
fn lower_var_decl(
    fb: &mut FunctionBuilder<'_>,
    env: &mut Env,
    global_consts: &Env,
    stmt: &Stmt,
    func_ret_ty: &Type,
    ptr_bits: u32,
    in_loop: bool,
    Ghost(loops): Ghost<Seq<LoopCtx>>,
    folds: &Vec<FloatFold>,
) -> (r: Result<(), LowerError>)
    requires
        *stmt is VarDecl,
        ready(*old(fb), *old(env), *func_ret_ty, stmt_cost(*stmt)),
        old(fb).can_emit(),
    ensures
        *final(final(fb).mb) == *final(old(fb).mb),
        final(fb).same_parent(*old(fb)),
        r is Err ==> *final(env) == *old(env),
        modeled(
            r,
            stmt_model(
                build_of(*old(fb)),
                old(env)@,
                global_consts@,
                loops,
                *stmt,
                func_ret_ty@,
                ptr_bits,
                folds@,
            ),
            *final(fb),
            *final(env),
            loops,
        ),
        lowered(
            r,
            stmt_outcome(
                *stmt,
                open_scope(old(env).sig()),
                global_consts.sig(),
                in_loop,
                func_ret_ty@,
                folds@,
            ),
            *old(fb),
            *final(fb),
            *final(env),
            stmt_cost(*stmt),
        ),
{
    proof {
        lemma_cur(*fb);
    }
    match stmt {
        Stmt::VarDecl { name, ty, init } => {
            let decl_ty = socket_type_to_whale(ty)?;
            let align = align_of(&decl_ty, ptr_bits);
            let (v, vty) = match init {
                Some(init_expr) => lower_expr_o0(fb, env, global_consts, init_expr, ptr_bits)?,
                None => {
                    let v = fb.undef(decl_ty.clone());
                    proof {
                        let ins = fb.func.blocks@[old(fb).cur()].instructions@[cur_len(*old(fb))];
                        assert(ins.uses() =~= Seq::<ValueId>::empty());
                        lemma_emit_straight(*old(fb), *fb, ins);
                        lemma_emitted_def(*old(fb), *fb, ins, decl_ty@);
                    }
                    (v, decl_ty.clone())
                },
            };
            if !vty.same(&decl_ty) {
                return Err(LowerError::TypeMismatch { expected: decl_ty, got: vty });
            }
            let ghost s1 = *fb;
            let slot = spill(fb, &decl_ty, v, align);
            proof {
                lemma_straight_flow(*old(fb), s1);
                lemma_flow_trans(*old(fb), s1, *fb);
            }
            env.insert(name.clone(), Binding::Addr { ptr: slot, ty: decl_ty });
            Ok(())
        },
        _ => Ok(()),
    }
}

/// Lowers an assignment: the value is stored into the slot of the
/// variable. A constant cannot be assigned to.
fn lower_assign(
    fb: &mut FunctionBuilder<'_>,
    env: &Env,
    global_consts: &Env,
    stmt: &Stmt,
    func_ret_ty: &Type,
    ptr_bits: u32,
    in_loop: bool,
    Ghost(loops): Ghost<Seq<LoopCtx>>,
    folds: &Vec<FloatFold>,
) -> (r: Result<(), LowerError>)
    requires
        *stmt is Assign,
        ready(*old(fb), *env, *func_ret_ty, stmt_cost(*stmt)),
        old(fb).can_emit(),
    ensures
        *final(final(fb).mb) == *final(old(fb).mb),
        final(fb).same_parent(*old(fb)),
        modeled(
            r,
            stmt_model(
                build_of(*old(fb)),
                env@,
                global_consts@,
                loops,
                *stmt,
                func_ret_ty@,
                ptr_bits,
                folds@,
            ),
            *final(fb),
            *env,
            loops,
        ),
        lowered(
            r,
            stmt_outcome(*stmt, open_scope(env.sig()), global_consts.sig(), in_loop, func_ret_ty@,
                folds@),
            *old(fb),
            *final(fb),
            *env,
            stmt_cost(*stmt),
        ),
{
    proof {
        lemma_cur(*fb);
    }
    match stmt {
        Stmt::Assign { name, value } => {
            let (v, vty) = lower_expr_o0(fb, env, global_consts, value, ptr_bits)?;
            match env.get(name) {
                None => Err(LowerError::UnknownVariable(name.clone())),
                Some(Binding::Const { .. }) => Err(LowerError::AssignToConst(name.clone())),
                Some(Binding::Addr { ptr, ty }) => {
                    if !vty.same(ty) {
                        return Err(LowerError::TypeMismatch { expected: ty.clone(), got: vty });
                    }
                    let align = align_of(ty, ptr_bits);
                    let ghost mid = *fb;
                    fb.store(ty.clone(), v, *ptr, align);
                    proof {
                        let ins = fb.func.blocks@[mid.cur()].instructions@[cur_len(mid)];
                        assert(ins.uses() =~= seq![v, *ptr]);
                        assert(is_slot(old(fb).func, *ptr));
                        lemma_emit_straight(mid, *fb, ins);
                        lemma_emitted(mid, *fb, ins);
                        lemma_straight_trans(*old(fb), mid, *fb);
                        lemma_straight_flow(*old(fb), *fb);
                    }
                    Ok(())
                },
            }
        },
        _ => Ok(()),
    }
}

/// `post` is `pre` after the current block was ended and three fresh, open
/// blocks `b0`, `b1` and `b2` were added, the first of which is the current
/// block now.
pub open spec fn branched(
    pre: FunctionBuilder,
    post: FunctionBuilder,
    b0: BlockId,
    b1: BlockId,
    b2: BlockId,
) -> bool {
    let n = pre.func.blocks@.len() as int;
    &&& post.wf()
    &&& func_sound(post.func)
    &&& slots_kept(pre.func, post.func)
    &&& post.same_parent(pre)
    &&& post.next_value() >= pre.next_value()
    &&& post.next_block() == pre.next_block() + 3
    &&& post.func.name == pre.func.name
    &&& post.func.ret_ty == pre.func.ret_ty
    &&& post.func.entry == pre.func.entry
    &&& post.func.blocks@.len() == n + 3
    &&& forall|j: int| 0 <= j < n ==> (#[trigger] post.func.blocks@[j]).id == pre.func.blocks@[j].id
    &&& forall|j: int|
        0 <= j < n && j != pre.cur() ==> ((#[trigger] post.func.blocks@[j]).terminator is Some
            <==> pre.func.blocks@[j].terminator is Some)
    &&& post.func.blocks@[pre.cur()].terminator is Some
    &&& post.func.blocks@[n].id == b0
    &&& post.func.blocks@[n + 1].id == b1
    &&& post.func.blocks@[n + 2].id == b2
    &&& post.func.blocks@[n].terminator is None
    &&& post.func.blocks@[n + 1].terminator is None
    &&& post.func.blocks@[n + 2].terminator is None
    &&& post.func.blocks@[n].instructions@.len() == 0
    &&& post.insert_block == b0
}

/// `post` is `pre` after the current block, if it was open, was ended, and
/// the insertion point was moved to the block `next`.
pub open spec fn arm_closed(pre: FunctionBuilder, post: FunctionBuilder, next: BlockId) -> bool {
    &&& post.wf()
    &&& func_sound(post.func)
    &&& slots_kept(pre.func, post.func)
    &&& post.same_parent(pre)
    &&& post.next_value() == pre.next_value()
    &&& post.next_block() == pre.next_block()
    &&& post.func.name == pre.func.name
    &&& post.func.ret_ty == pre.func.ret_ty
    &&& post.func.entry == pre.func.entry
    &&& post.func.blocks@.len() == pre.func.blocks@.len()
    &&& forall|j: int|
        0 <= j < pre.func.blocks@.len() ==> (#[trigger] post.func.blocks@[j]).id
            == pre.func.blocks@[j].id
    &&& forall|j: int|
        0 <= j < pre.func.blocks@.len() && j != pre.cur() ==> ((
        #[trigger] post.func.blocks@[j]).terminator is Some
            <==> pre.func.blocks@[j].terminator is Some)
    &&& post.func.blocks@[pre.cur()].terminator is Some
    &&& post.insert_block == next
}

/// Adds three fresh, open blocks at the end of the function.
fn open_blocks(fb: &mut FunctionBuilder<'_>, n0: &str, n1: &str, n2: &str) -> (r: (
    BlockId,
    BlockId,
    BlockId,
))
    requires
        old(fb).wf(),
        old(fb).has_cur(),
        func_sound(old(fb).func),
        old(fb).next_block() + 3 <= u32::MAX,
    ensures
        *final(final(fb).mb) == *final(old(fb).mb),
        final(fb).wf(),
        final(fb).has_cur(),
        func_sound(final(fb).func),
        slots_kept(old(fb).func, final(fb).func),
        final(fb).same_parent(*old(fb)),
        final(fb).insert_block == old(fb).insert_block,
        final(fb).cur() == old(fb).cur(),
        final(fb).next_value() == old(fb).next_value(),
        final(fb).next_block() == old(fb).next_block() + 3,
        final(fb).func.name == old(fb).func.name,
        final(fb).func.ret_ty == old(fb).func.ret_ty,
        final(fb).func.entry == old(fb).func.entry,
        final(fb).func.blocks@.len() == old(fb).func.blocks@.len() + 3,
        forall|j: int|
            0 <= j < old(fb).func.blocks@.len()
                ==> #[trigger] final(fb).func.blocks@[j] == old(fb).func.blocks@[j],
        forall|b: int, i: int, v: ValueId|
            0 <= b < old(fb).func.blocks@.len() ==> (#[trigger] avail(old(fb).func, b, i, v)
                ==> avail(final(fb).func, b, i, v)),
        final(fb).func.blocks@[old(fb).func.blocks@.len() as int + 0].id == r.0,
        final(fb).func.blocks@[old(fb).func.blocks@.len() as int + 1].id == r.1,
        final(fb).func.blocks@[old(fb).func.blocks@.len() as int + 2].id == r.2,
        final(fb).func.blocks@[old(fb).func.blocks@.len() as int + 0].terminator is None,
        final(fb).func.blocks@[old(fb).func.blocks@.len() as int + 1].terminator is None,
        final(fb).func.blocks@[old(fb).func.blocks@.len() as int + 2].terminator is None,
        final(fb).func.blocks@[old(fb).func.blocks@.len() as int + 0].instructions@.len() == 0,
        r.0 == BlockId(old(fb).next_block()),
        r.1 == BlockId((old(fb).next_block() + 1) as u32),
        r.2 == BlockId((old(fb).next_block() + 2) as u32),
        build_of(*final(fb)) == opened(build_of(*old(fb)), n0@, n1@, n2@),
{
    let b0 = fb.create_block(n0);
    let ghost s1 = *fb;
    proof {
        lemma_new_block(*old(fb), s1, b0, n0@);
        lemma_block_added(*old(fb), s1, n0@);
    }
    let b1 = fb.create_block(n1);
    let ghost s2 = *fb;
    proof {
        lemma_new_block(s1, s2, b1, n1@);
        lemma_block_added(s1, s2, n1@);
    }
    let b2 = fb.create_block(n2);
    proof {
        lemma_new_block(s2, *fb, b2, n2@);
        lemma_block_added(s2, *fb, n2@);
        let n = old(fb).func.blocks@.len() as int;
        assert(fb.func.blocks@[n] == s1.func.blocks@[n]);
        assert(s2.func.blocks@[n] == s1.func.blocks@[n]);
        assert(fb.func.blocks@[n + 1] == s2.func.blocks@[n + 1]);
        assert forall|j: int| 0 <= j < n
            implies #[trigger] fb.func.blocks@[j] == old(fb).func.blocks@[j] by {
            assert(s1.func.blocks@[j] == old(fb).func.blocks@[j]);
            assert(s2.func.blocks@[j] == s1.func.blocks@[j]);
        }
    }
    (b0, b1, b2)
}

/// Ends the current block with a conditional branch on `cv` and moves the
/// insertion point to `next`.
fn branch_into(
    fb: &mut FunctionBuilder<'_>,
    cv: ValueId,
    then_bb: BlockId,
    else_bb: BlockId,
    next: BlockId,
)
    requires
        old(fb).wf(),
        old(fb).can_emit(),
        func_sound(old(fb).func),
        avail(old(fb).func, old(fb).cur(), cur_len(*old(fb)), cv),
    ensures
        *final(final(fb).mb) == *final(old(fb).mb),
        arm_closed(*old(fb), *final(fb), next),
        forall|j: int|
            0 <= j < old(fb).func.blocks@.len() && j != old(fb).cur()
                ==> #[trigger] final(fb).func.blocks@[j] == old(fb).func.blocks@[j],
        build_of(*final(fb)) == at(
            terminate(build_of(*old(fb)), TermV::CBr { cond: cv, then_bb, else_bb }),
            next,
        ),
{
    fb.cbr(cv, then_bb, else_bb);
    proof {
        let t = fb.func.blocks@[old(fb).cur()].terminator->Some_0;
        assert(t.uses() =~= seq![cv]);
        lemma_terminate_flow(*old(fb), *fb);
        lemma_terminated(*old(fb), *fb, t);
    }
    fb.set_insert_point(next);
}

/// Ends the current block with a branch to `target` unless it has ended
/// already, and moves the insertion point to `next`.
fn end_arm(fb: &mut FunctionBuilder<'_>, target: BlockId, next: BlockId)
    requires
        old(fb).wf(),
        old(fb).has_cur(),
        func_sound(old(fb).func),
    ensures
        *final(final(fb).mb) == *final(old(fb).mb),
        arm_closed(*old(fb), *final(fb), next),
        build_of(*final(fb)) == closed(build_of(*old(fb)), target, next),
{
    proof {
        lemma_cur(*fb);
    }
    if !fb.is_current_block_terminated() {
        fb.br(target);
        proof {
            let t = fb.func.blocks@[old(fb).cur()].terminator->Some_0;
            assert(t.uses() =~= Seq::<ValueId>::empty());
            lemma_terminate_flow(*old(fb), *fb);
            lemma_terminated(*old(fb), *fb, t);
        }
    }
    fb.set_insert_point(next);
}

/// Begins an `if`: lowers the condition, which must be a boolean, opens the
/// blocks of the two arms and of the continuation, branches on the
/// condition and moves the insertion point to the first arm.
fn begin_if(
    fb: &mut FunctionBuilder<'_>,
    env: &Env,
    global_consts: &Env,
    cond: &Expr,
    ptr_bits: u32,
) -> (r: Result<(BlockId, BlockId, BlockId), LowerError>)
    requires
        old(fb).wf(),
        old(fb).can_emit(),
        func_sound(old(fb).func),
        env_ok(env@, old(fb).func),
        old(fb).next_value() + expr_cost(*cond) <= u32::MAX,
        old(fb).next_block() + 3 <= u32::MAX,
    ensures
        *final(final(fb).mb) == *final(old(fb).mb),
        final(fb).same_parent(*old(fb)),
        r is Err ==> extends(build_of(*old(fb)), build_of(*final(fb))),
        match expr_type(*cond, env.sig(), global_consts.sig()) {
            Err(e) => r is Err && r->Err_0@ == e,
            Ok(cty) => if cty != TypeV::I1 {
                r is Err && r->Err_0@ == (LowerErrorV::TypeMismatch {
                    expected: TypeV::I1,
                    got: cty,
                })
            } else {
                r is Ok && branched(*old(fb), *final(fb), r->Ok_0.0, r->Ok_0.1, r->Ok_0.2)
                    && final(fb).next_value() <= old(fb).next_value() + expr_cost(*cond)
            },
        },
        match expr_model(build_of(*old(fb)), env@, global_consts@, *cond, ptr_bits) {
            Err(f) => r is Err && r->Err_0@ == f.error && build_of(*final(fb)) == f.build,
            Ok(c) => if c.2 != TypeV::I1 {
                r is Err && r->Err_0@ == (LowerErrorV::TypeMismatch {
                    expected: TypeV::I1,
                    got: c.2,
                }) && build_of(*final(fb)) == c.0
            } else {
                &&& r is Ok
                &&& r->Ok_0.0 == BlockId(c.0.next_block)
                &&& r->Ok_0.1 == BlockId((c.0.next_block + 1) as u32)
                &&& r->Ok_0.2 == BlockId((c.0.next_block + 2) as u32)
                &&& build_of(*final(fb)) == at(
                    terminate(
                        opened(c.0, "if.then"@, "if.else"@, "if.cont"@),
                        TermV::CBr { cond: c.1, then_bb: r->Ok_0.0, else_bb: r->Ok_0.1 },
                    ),
                    r->Ok_0.0,
                )
            },
        },
{
    let (cv, cty) = lower_expr_o0(fb, env, global_consts, cond, ptr_bits)?;
    if !cty.same(&Type::I1) {
        return Err(LowerError::TypeMismatch { expected: Type::I1, got: cty });
    }
    let ghost s1 = *fb;
    let (then_bb, else_bb, cont_bb) = open_blocks(fb, "if.then", "if.else", "if.cont");
    let ghost s2 = *fb;
    proof {
        assert(avail(s1.func, s1.cur(), cur_len(s1), cv));
        assert(s2.func.blocks@[s1.cur()] == s1.func.blocks@[s1.cur()]);
    }
    branch_into(fb, cv, then_bb, else_bb, then_bb);
    proof {
        let n = old(fb).func.blocks@.len() as int;
        assert forall|j: int| 0 <= j < n
            implies (#[trigger] fb.func.blocks@[j]).id == old(fb).func.blocks@[j].id by {
            assert(s2.func.blocks@[j] == s1.func.blocks@[j]);
        }
        assert forall|j: int| 0 <= j < n && j != old(fb).cur() implies ((
        #[trigger] fb.func.blocks@[j]).terminator is Some
            <==> old(fb).func.blocks@[j].terminator is Some) by {
            assert(s2.func.blocks@[j] == s1.func.blocks@[j]);
        }
        assert(fb.func.blocks@[n] == s2.func.blocks@[n]);
        assert(fb.func.blocks@[n + 1] == s2.func.blocks@[n + 1]);
        assert(fb.func.blocks@[n + 2] == s2.func.blocks@[n + 2]);
    }
    Ok((then_bb, else_bb, cont_bb))
}

/// Begins a `while`: opens the blocks of the condition, of the body and of
/// the exit, branches to the condition and moves the insertion point
/// there.
fn begin_while(fb: &mut FunctionBuilder<'_>) -> (r: (BlockId, BlockId, BlockId))
    requires
        old(fb).wf(),
        old(fb).can_emit(),
        func_sound(old(fb).func),
        old(fb).next_block() + 3 <= u32::MAX,
    ensures
        *final(final(fb).mb) == *final(old(fb).mb),
        branched(*old(fb), *final(fb), r.0, r.1, r.2),
        final(fb).next_value() == old(fb).next_value(),
        r.0 == BlockId(old(fb).next_block()),
        r.1 == BlockId((old(fb).next_block() + 1) as u32),
        r.2 == BlockId((old(fb).next_block() + 2) as u32),
        build_of(*final(fb)) == at(
            terminate(
                opened(build_of(*old(fb)), "while.cond"@, "while.body"@, "while.exit"@),
                TermV::Br { target: r.0 },
            ),
            r.0,
        ),
{
    let (cond_bb, body_bb, exit_bb) = open_blocks(fb, "while.cond", "while.body", "while.exit");
    let ghost s2 = *fb;
    fb.br(cond_bb);
    proof {
        let t = fb.func.blocks@[s2.cur()].terminator->Some_0;
        assert(t.uses() =~= Seq::<ValueId>::empty());
        lemma_terminated(s2, *fb, t);
        assert(s2.func.blocks@[s2.cur()] == old(fb).func.blocks@[s2.cur()]);
        lemma_terminate_flow(s2, *fb);
        let n = old(fb).func.blocks@.len() as int;
        assert(fb.func.blocks@[n] == s2.func.blocks@[n]);
        assert(fb.func.blocks@[n + 1] == s2.func.blocks@[n + 1]);
        assert(fb.func.blocks@[n + 2] == s2.func.blocks@[n + 2]);
        assert forall|j: int| 0 <= j < n
            implies (#[trigger] fb.func.blocks@[j]).id == old(fb).func.blocks@[j].id by {
            assert(s2.func.blocks@[j] == old(fb).func.blocks@[j]);
        }
        assert forall|j: int| 0 <= j < n && j != old(fb).cur() implies ((
        #[trigger] fb.func.blocks@[j]).terminator is Some
            <==> old(fb).func.blocks@[j].terminator is Some) by {
            assert(s2.func.blocks@[j] == old(fb).func.blocks@[j]);
        }
    }
    fb.set_insert_point(cond_bb);
    (cond_bb, body_bb, exit_bb)
}

/// The steps of lowering an `if` make a flow that ends in the open
/// continuation block.
pub proof fn lemma_if_flow(
    s0: FunctionBuilder,
    a: FunctionBuilder,
    b: FunctionBuilder,
    c: FunctionBuilder,
    d: FunctionBuilder,
    e: FunctionBuilder,
    then_bb: BlockId,
    else_bb: BlockId,
    cont_bb: BlockId,
)
    requires
        s0.wf(),
        s0.has_cur(),
        branched(s0, a, then_bb, else_bb, cont_bb),
        flow(a, b),
        arm_closed(b, c, else_bb),
        flow(c, d),
        arm_closed(d, e, cont_bb),
    ensures
        a.cur() == s0.func.blocks@.len(),
        c.cur() == s0.func.blocks@.len() + 1,
        e.cur() == s0.func.blocks@.len() + 2,
        flow(s0, e),
        e.cur_block().terminator is None,
{
    let n = s0.func.blocks@.len() as int;
    lemma_block_index(s0.func.blocks@, s0.insert_block);
    lemma_cur_at(a, n);
    assert(b.func.blocks@[n + 1].id == a.func.blocks@[n + 1].id);
    assert(c.func.blocks@[n + 1].id == b.func.blocks@[n + 1].id);
    lemma_cur_at(c, n + 1);
    assert(b.func.blocks@[n + 2].id == a.func.blocks@[n + 2].id);
    assert(c.func.blocks@[n + 2].id == b.func.blocks@[n + 2].id);
    assert(d.func.blocks@[n + 2].id == c.func.blocks@[n + 2].id);
    assert(e.func.blocks@[n + 2].id == d.func.blocks@[n + 2].id);
    lemma_cur_at(e, n + 2);
    assert forall|j: int| 0 <= j < n implies (#[trigger] e.func.blocks@[j]).id
        == s0.func.blocks@[j].id by {
        assert(a.func.blocks@[j].id == s0.func.blocks@[j].id);
        assert(b.func.blocks@[j].id == a.func.blocks@[j].id);
        assert(c.func.blocks@[j].id == b.func.blocks@[j].id);
        assert(d.func.blocks@[j].id == c.func.blocks@[j].id);
    }
    // the state of every block that is not the current one at some step
    assert forall|j: int| 0 <= j < a.func.blocks@.len() && j != n && j != b.cur() implies ((
    #[trigger] e.func.blocks@[j]).terminator is Some
        <==> a.func.blocks@[j].terminator is Some) || j == n + 1 || j == d.cur() by {
        assert(b.func.blocks@[j].terminator is Some <==> a.func.blocks@[j].terminator is Some);
        assert(c.func.blocks@[j].terminator is Some <==> b.func.blocks@[j].terminator is Some);
        if j != n + 1 {
            assert(d.func.blocks@[j].terminator is Some <==> c.func.blocks@[j].terminator is Some);
            if j != d.cur() {
                assert(e.func.blocks@[j].terminator is Some
                    <==> d.func.blocks@[j].terminator is Some);
            }
        }
    }
    assert(d.cur() == n + 1 || d.cur() >= c.func.blocks@.len());
    assert(b.cur() == n || b.cur() >= a.func.blocks@.len());
    assert forall|j: int| 0 <= j < n && j != s0.cur() implies ((
    #[trigger] e.func.blocks@[j]).terminator is Some
        <==> s0.func.blocks@[j].terminator is Some) by {
        assert(a.func.blocks@[j].terminator is Some <==> s0.func.blocks@[j].terminator is Some);
    }
    assert(e.func.blocks@[s0.cur()].terminator is Some) by {
        let j = s0.cur();
        assert(b.func.blocks@[j].terminator is Some <==> a.func.blocks@[j].terminator is Some);
        assert(c.func.blocks@[j].terminator is Some <==> b.func.blocks@[j].terminator is Some);
        assert(d.func.blocks@[j].terminator is Some <==> c.func.blocks@[j].terminator is Some);
        assert(e.func.blocks@[j].terminator is Some <==> d.func.blocks@[j].terminator is Some);
    }
    assert(e.func.blocks@[n + 2].terminator is None) by {
        let j = n + 2;
        assert(b.func.blocks@[j].terminator is Some <==> a.func.blocks@[j].terminator is Some);
        assert(c.func.blocks@[j].terminator is Some <==> b.func.blocks@[j].terminator is Some);
        assert(d.func.blocks@[j].terminator is Some <==> c.func.blocks@[j].terminator is Some);
        assert(e.func.blocks@[j].terminator is Some <==> d.func.blocks@[j].terminator is Some);
    }
    assert forall|j: int| n <= j < e.func.blocks@.len() && j != n + 2 implies (
    #[trigger] e.func.blocks@[j]).terminator is Some by {
        // the block was ended in the first arm, or in the second
        if j < b.func.blocks@.len() {
            if j == n || j == b.cur() {
                assert(c.func.blocks@[j].terminator is Some) by {
                    if j != b.cur() {
                        assert(b.func.blocks@[n].terminator is Some);
                        assert(c.func.blocks@[j].terminator is Some
                            <==> b.func.blocks@[j].terminator is Some);
                    }
                }
            } else if j != n + 1 {
                assert(b.func.blocks@[j].terminator is Some);
                assert(c.func.blocks@[j].terminator is Some
                    <==> b.func.blocks@[j].terminator is Some);
            }
            if j != n + 1 {
                assert(d.func.blocks@[j].terminator is Some
                    <==> c.func.blocks@[j].terminator is Some);
                if j != d.cur() {
                    assert(e.func.blocks@[j].terminator is Some
                        <==> d.func.blocks@[j].terminator is Some);
                }
            } else {
                if d.cur() != n + 1 {
                    assert(d.func.blocks@[n + 1].terminator is Some);
                    assert(e.func.blocks@[j].terminator is Some
                        <==> d.func.blocks@[j].terminator is Some);
                }
            }
        } else {
            if j != d.cur() {
                assert(d.func.blocks@[j].terminator is Some);
                assert(e.func.blocks@[j].terminator is Some
                    <==> d.func.blocks@[j].terminator is Some);
            }
        }
    }
}

/// The steps of lowering a `while` make a flow that ends in the open exit
/// block.
pub proof fn lemma_while_flow(
    s0: FunctionBuilder,
    a: FunctionBuilder,
    b: FunctionBuilder,
    c: FunctionBuilder,
    d: FunctionBuilder,
    e: FunctionBuilder,
    cond_bb: BlockId,
    body_bb: BlockId,
    exit_bb: BlockId,
)
    requires
        s0.wf(),
        s0.has_cur(),
        branched(s0, a, cond_bb, body_bb, exit_bb),
        a.cur() == s0.func.blocks@.len(),
        straight(a, b),
        arm_closed(b, c, body_bb),
        flow(c, d),
        arm_closed(d, e, exit_bb),
    ensures
        c.cur() == s0.func.blocks@.len() + 1,
        e.cur() == s0.func.blocks@.len() + 2,
        flow(s0, e),
        e.cur_block().terminator is None,
{
    let n = s0.func.blocks@.len() as int;
    lemma_block_index(s0.func.blocks@, s0.insert_block);
    assert(b.func.blocks@[n + 1].id == a.func.blocks@[n + 1].id);
    assert(c.func.blocks@[n + 1].id == b.func.blocks@[n + 1].id);
    lemma_cur_at(c, n + 1);
    assert(b.func.blocks@[n + 2].id == a.func.blocks@[n + 2].id);
    assert(c.func.blocks@[n + 2].id == b.func.blocks@[n + 2].id);
    assert(d.func.blocks@[n + 2].id == c.func.blocks@[n + 2].id);
    assert(e.func.blocks@[n + 2].id == d.func.blocks@[n + 2].id);
    lemma_cur_at(e, n + 2);
    assert forall|j: int| 0 <= j < n implies (#[trigger] e.func.blocks@[j]).id
        == s0.func.blocks@[j].id by {
        assert(a.func.blocks@[j].id == s0.func.blocks@[j].id);
        assert(b.func.blocks@[j].id == a.func.blocks@[j].id);
        assert(c.func.blocks@[j].id == b.func.blocks@[j].id);
        assert(d.func.blocks@[j].id == c.func.blocks@[j].id);
    }
    assert(d.cur() == n + 1 || d.cur() >= c.func.blocks@.len());
    assert forall|j: int| 0 <= j < n + 3 && j != n && j != n + 1 implies ((
    #[trigger] e.func.blocks@[j]).terminator is Some <==> a.func.blocks@[j].terminator is Some) by {
        assert(b.func.blocks@[j].terminator == a.func.blocks@[j].terminator);
        assert(c.func.blocks@[j].terminator is Some <==> b.func.blocks@[j].terminator is Some);
        assert(d.func.blocks@[j].terminator is Some <==> c.func.blocks@[j].terminator is Some);
        assert(e.func.blocks@[j].terminator is Some <==> d.func.blocks@[j].terminator is Some);
    }
    assert forall|j: int| 0 <= j < n && j != s0.cur() implies ((
    #[trigger] e.func.blocks@[j]).terminator is Some
        <==> s0.func.blocks@[j].terminator is Some) by {
        assert(a.func.blocks@[j].terminator is Some <==> s0.func.blocks@[j].terminator is Some);
    }
    assert forall|j: int| n <= j < e.func.blocks@.len() && j != n + 2 implies (
    #[trigger] e.func.blocks@[j]).terminator is Some by {
        if j == n {
            assert(c.func.blocks@[n].terminator is Some);
            assert(d.func.blocks@[j].terminator is Some <==> c.func.blocks@[j].terminator is Some);
            assert(e.func.blocks@[j].terminator is Some <==> d.func.blocks@[j].terminator is Some);
        } else if j == n + 1 {
            if d.cur() != n + 1 {
                assert(d.func.blocks@[n + 1].terminator is Some);
                assert(e.func.blocks@[j].terminator is Some
                    <==> d.func.blocks@[j].terminator is Some);
            }
        } else {
            if j != d.cur() {
                assert(d.func.blocks@[j].terminator is Some);
                assert(e.func.blocks@[j].terminator is Some
                    <==> d.func.blocks@[j].terminator is Some);
            }
        }
    }
}

/// Lowers an `if`: a conditional branch to the blocks of the two arms, each
/// of which goes on to the continuation block unless it ended on its own.
/// Where the condition is refused or is no boolean, no block is opened and
/// no branch is emitted: only code of the condition was added.
fn lower_if(
    fb: &mut FunctionBuilder<'_>,
    env: &Env,
    global_consts: &Env,
    loop_stack: &mut Vec<LoopCtx>,
    stmt: &Stmt,
    func_ret_ty: &Type,
    ptr_bits: u32,
    folds: &Vec<FloatFold>,
) -> (r: Result<(), LowerError>)
    requires
        *stmt is If,
        ready(*old(fb), *env, *func_ret_ty, stmt_cost(*stmt)),
        old(fb).can_emit(),
    ensures
        *final(final(fb).mb) == *final(old(fb).mb),
        final(fb).same_parent(*old(fb)),
        !(expr_type(stmt->If_cond, env.sig(), global_consts.sig()) == Ok::<TypeV, LowerErrorV>(
            TypeV::I1,
        )) ==> r is Err && extends(build_of(*old(fb)), build_of(*final(fb))),
        r is Ok ==> final(loop_stack)@ == old(loop_stack)@,
        lowered(
            r,
            stmt_outcome(
                *stmt,
                open_scope(env.sig()),
                global_consts.sig(),
                old(loop_stack)@.len() > 0,
                func_ret_ty@,
                folds@,
            ),
            *old(fb),
            *final(fb),
            *env,
            stmt_cost(*stmt),
        ),
        modeled(
            r,
            stmt_model(
                build_of(*old(fb)),
                env@,
                global_consts@,
                old(loop_stack)@,
                *stmt,
                func_ret_ty@,
                ptr_bits,
                folds@,
            ),
            *final(fb),
            *env,
            final(loop_stack)@,
        ),
    decreases stmt, 0int,
{
    proof {
        lemma_cur(*fb);
    }
    match stmt {
        Stmt::If { cond, then_body, else_body } => {
            let (then_bb, else_bb, cont_bb) = begin_if(fb, env, global_consts, cond, ptr_bits)?;
            let ghost a = *fb;
            proof {
                lemma_block_index(old(fb).func.blocks@, old(fb).insert_block);
                lemma_cur_at(a, old(fb).func.blocks@.len() as int);
            }
            let mut then_env = env.cloned();
            lower_stmts_o0(
                fb,
                &mut then_env,
                global_consts,
                loop_stack,
                then_body,
                func_ret_ty,
                ptr_bits,
                folds,
            )?;
            let ghost b = *fb;
            end_arm(fb, cont_bb, else_bb);
            let ghost c = *fb;
            proof {
                let n = old(fb).func.blocks@.len() as int;
                assert(b.func.blocks@[n + 1].id == a.func.blocks@[n + 1].id);
                assert(c.func.blocks@[n + 1].id == b.func.blocks@[n + 1].id);
                lemma_cur_at(c, n + 1);
            }
            let mut else_env = env.cloned();
            lower_stmts_o0(
                fb,
                &mut else_env,
                global_consts,
                loop_stack,
                else_body,
                func_ret_ty,
                ptr_bits,
                folds,
            )?;
            let ghost d = *fb;
            end_arm(fb, cont_bb, cont_bb);
            proof {
                lemma_if_flow(*old(fb), a, b, c, d, *fb, then_bb, else_bb, cont_bb);
            }
            Ok(())
        },
        _ => Ok(()),
    }
}

/// Lowers a `while`: a branch to the block of the condition, which
/// branches to the body or to the exit; the body goes back to the condition
/// unless it ended on its own. Where the condition is refused or is no
/// boolean, the block of the condition holds only code of the condition
/// and stays open: no conditional branch is emitted.
fn lower_while(
    fb: &mut FunctionBuilder<'_>,
    env: &Env,
    global_consts: &Env,
    loop_stack: &mut Vec<LoopCtx>,
    stmt: &Stmt,
    func_ret_ty: &Type,
    ptr_bits: u32,
    folds: &Vec<FloatFold>,
) -> (r: Result<(), LowerError>)
    requires
        *stmt is While,
        ready(*old(fb), *env, *func_ret_ty, stmt_cost(*stmt)),
        old(fb).can_emit(),
    ensures
        *final(final(fb).mb) == *final(old(fb).mb),
        final(fb).same_parent(*old(fb)),
        !(expr_type(stmt->While_cond, env.sig(), global_consts.sig()) == Ok::<
            TypeV,
            LowerErrorV,
        >(TypeV::I1)) ==> r is Err && extends(
            while_head(build_of(*old(fb))),
            build_of(*final(fb)),
        ),
        r is Ok ==> final(loop_stack)@ == old(loop_stack)@,
        lowered(
            r,
            stmt_outcome(
                *stmt,
                open_scope(env.sig()),
                global_consts.sig(),
                old(loop_stack)@.len() > 0,
                func_ret_ty@,
                folds@,
            ),
            *old(fb),
            *final(fb),
            *env,
            stmt_cost(*stmt),
        ),
        modeled(
            r,
            stmt_model(
                build_of(*old(fb)),
                env@,
                global_consts@,
                old(loop_stack)@,
                *stmt,
                func_ret_ty@,
                ptr_bits,
                folds@,
            ),
            *final(fb),
            *env,
            final(loop_stack)@,
        ),
    decreases stmt, 0int,
{
    proof {
        lemma_cur(*fb);
    }
    match stmt {
        Stmt::While { cond, body } => {
            let (cond_bb, body_bb, exit_bb) = begin_while(fb);
            let ghost a = *fb;
            proof {
                lemma_block_index(old(fb).func.blocks@, old(fb).insert_block);
                lemma_cur_at(a, old(fb).func.blocks@.len() as int);
            }
            let (cv, cty) = lower_expr_o0(fb, env, global_consts, cond, ptr_bits)?;
            if !cty.same(&Type::I1) {
                return Err(LowerError::TypeMismatch { expected: Type::I1, got: cty });
            }
            let ghost b = *fb;
            branch_into(fb, cv, body_bb, exit_bb, body_bb);
            let ghost c = *fb;
            proof {
                let n = old(fb).func.blocks@.len() as int;
                assert(b.func.blocks@[n + 1].id == a.func.blocks@[n + 1].id);
                assert(c.func.blocks@[n + 1].id == b.func.blocks@[n + 1].id);
                lemma_cur_at(c, n + 1);
            }
            loop_stack.push(LoopCtx { cond_bb, exit_bb });
            let mut body_env = env.cloned();
            lower_stmts_o0(
                fb,
                &mut body_env,
                global_consts,
                loop_stack,
                body,
                func_ret_ty,
                ptr_bits,
                folds,
            )?;
            let ghost d = *fb;
            end_arm(fb, cond_bb, exit_bb);
            loop_stack.pop();
            proof {
                lemma_while_flow(*old(fb), a, b, c, d, *fb, cond_bb, body_bb, exit_bb);
                assert(loop_stack@ =~= old(loop_stack)@);
            }
            Ok(())
        },
        _ => Ok(()),
    }
}

/// Lowers one statement at the insertion point.
///
/// Where the current block has ended already the statement is dead and
/// nothing happens. An `if` becomes a conditional branch to the blocks of
/// its arms, each of which falls through to a continuation block unless it
/// ended on its own. A `while` becomes a branch to a condition block, which
/// branches to the body or to the exit; the body falls through to the
/// condition. `break` and `continue` branch to the exit and to the
/// condition of the innermost loop. The bodies are lowered in scopes of
/// their own.
///
/// A statement that is refused binds nothing, and leaves the function
/// under construction as it stood when the error was found: unchanged for
/// a `break` or a `continue` outside of every loop and for a constant that
/// is refused, and behind the code of the expression where that has
/// another type than is asked for, with no branch, return or store added.
fn lower_stmt_o0(
    fb: &mut FunctionBuilder<'_>,
    env: &mut Env,
    global_consts: &Env,
    loop_stack: &mut Vec<LoopCtx>,
    stmt: &Stmt,
    func_ret_ty: &Type,
    ptr_bits: u32,
    folds: &Vec<FloatFold>,
) -> (r: Result<(), LowerError>)
    requires
        ready(*old(fb), *old(env), *func_ret_ty, stmt_cost(*stmt)),
    ensures
        *final(final(fb).mb) == *final(old(fb).mb),
        final(fb).same_parent(*old(fb)),
        (*stmt is If && old(fb).cur_block().terminator is None && !(expr_type(
            stmt->If_cond,
            old(env).sig(),
            global_consts.sig(),
        ) == Ok::<TypeV, LowerErrorV>(TypeV::I1))) ==> r is Err && extends(
            build_of(*old(fb)),
            build_of(*final(fb)),
        ),
        (*stmt is While && old(fb).cur_block().terminator is None && !(expr_type(
            stmt->While_cond,
            old(env).sig(),
            global_consts.sig(),
        ) == Ok::<TypeV, LowerErrorV>(TypeV::I1))) ==> r is Err && extends(
            while_head(build_of(*old(fb))),
            build_of(*final(fb)),
        ),
        r is Err ==> *final(env) == *old(env),
        ((*stmt is Break || *stmt is Continue || *stmt is ConstDecl) && r is Err) ==> *final(fb)
            == *old(fb),
        (r is Err && !(*stmt is If) && !(*stmt is While)) ==> extends(
            build_of(*old(fb)),
            build_of(*final(fb)),
        ),
        r is Ok ==> final(loop_stack)@ == old(loop_stack)@,
        lowered(
            r,
            stmt_outcome(
                *stmt,
                scope_at(*old(fb), *old(env)),
                global_consts.sig(),
                old(loop_stack)@.len() > 0,
                func_ret_ty@,
                folds@,
            ),
            *old(fb),
            *final(fb),
            *final(env),
            stmt_cost(*stmt),
        ),
        modeled(
            r,
            stmt_model(
                build_of(*old(fb)),
                old(env)@,
                global_consts@,
                old(loop_stack)@,
                *stmt,
                func_ret_ty@,
                ptr_bits,
                folds@,
            ),
            *final(fb),
            *final(env),
            final(loop_stack)@,
        ),
    decreases stmt, 1int,
{
    proof {
        lemma_cur(*fb);
        let m = stmt_model(
            build_of(*fb),
            env@,
            global_consts@,
            loop_stack@,
            *stmt,
            func_ret_ty@,
            ptr_bits,
            folds@,
        );
        if m is Err && !(*stmt is If) && !(*stmt is While) {
            lemma_refused_statement_adds_nothing_of_its_own(
                build_of(*fb),
                env@,
                global_consts@,
                loop_stack@,
                *stmt,
                func_ret_ty@,
                ptr_bits,
                folds@,
            );
        }
    }
    if fb.is_current_block_terminated() {
        proof {
            lemma_flow_refl(*fb);
        }
        return Ok(());
    }
    let in_loop = loop_stack.len() > 0;
    match stmt {
        Stmt::Return(opt) => lower_return(
            fb,
            env,
            global_consts,
            opt,
            func_ret_ty,
            ptr_bits,
            in_loop,
            Ghost(loop_stack@),
            folds,
        ),
        Stmt::ConstDecl { name, ty, init } => {
            let decl_ty = socket_type_to_whale(ty)?;
            let (cty, cv) = eval_const_expr(
                init,
                &ConstEvalCtx { local_consts: Some(env), global_consts, folds },
            )?;
            if !cty.same(&decl_ty) {
                return Err(LowerError::TypeMismatch { expected: decl_ty, got: cty });
            }
            env.insert(name.clone(), Binding::Const { ty: cty, value: cv });
            proof {
                lemma_flow_refl(*fb);
            }
            Ok(())
        },
        Stmt::VarDecl { .. } => lower_var_decl(
            fb,
            env,
            global_consts,
            stmt,
            func_ret_ty,
            ptr_bits,
            in_loop,
            Ghost(loop_stack@),
            folds,
        ),
        Stmt::Assign { .. } => lower_assign(
            fb,
            env,
            global_consts,
            stmt,
            func_ret_ty,
            ptr_bits,
            in_loop,
            Ghost(loop_stack@),
            folds,
        ),
        Stmt::ExprStmt(e) => {
            let _ = lower_expr_o0(fb, env, global_consts, e, ptr_bits)?;
            proof {
                lemma_straight_flow(*old(fb), *fb);
            }
            Ok(())
        },
        Stmt::If { .. } => lower_if(
            fb,
            env,
            global_consts,
            loop_stack,
            stmt,
            func_ret_ty,
            ptr_bits,
            folds,
        ),
        Stmt::While { .. } => lower_while(
            fb,
            env,
            global_consts,
            loop_stack,
            stmt,
            func_ret_ty,
            ptr_bits,
            folds,
        ),
        Stmt::Break => {
            if loop_stack.len() == 0 {
                return Err(LowerError::BreakOutsideLoop);
            }
            let ctx = loop_stack[loop_stack.len() - 1];
            fb.br(ctx.exit_bb);
            proof {
                let t = fb.func.blocks@[old(fb).cur()].terminator->Some_0;
                assert(t.uses() =~= Seq::<ValueId>::empty());
                lemma_terminate_flow(*old(fb), *fb);
                lemma_terminated(*old(fb), *fb, t);
            }
            Ok(())
        },
        Stmt::Continue => {
            if loop_stack.len() == 0 {
                return Err(LowerError::ContinueOutsideLoop);
            }
            let ctx = loop_stack[loop_stack.len() - 1];
            fb.br(ctx.cond_bb);
            proof {
                let t = fb.func.blocks@[old(fb).cur()].terminator->Some_0;
                assert(t.uses() =~= Seq::<ValueId>::empty());
                lemma_terminate_flow(*old(fb), *fb);
                lemma_terminated(*old(fb), *fb, t);
            }
            Ok(())
        },
    }
}

/// Lowers the statements of a body in order, in the scope `env`.
fn lower_stmts_o0(
    fb: &mut FunctionBuilder<'_>,
    env: &mut Env,
    global_consts: &Env,
    loop_stack: &mut Vec<LoopCtx>,
    stmts: &Vec<Stmt>,
    func_ret_ty: &Type,
    ptr_bits: u32,
    folds: &Vec<FloatFold>,
) -> (r: Result<(), LowerError>)
    requires
        ready(*old(fb), *old(env), *func_ret_ty, stmts_cost(stmts@, 0)),
    ensures
        *final(final(fb).mb) == *final(old(fb).mb),
        final(fb).same_parent(*old(fb)),
        r is Ok ==> final(loop_stack)@ == old(loop_stack)@,
        lowered(
            r,
            stmts_outcome(
                stmts@,
                0,
                scope_at(*old(fb), *old(env)),
                global_consts.sig(),
                old(loop_stack)@.len() > 0,
                func_ret_ty@,
                folds@,
            ),
            *old(fb),
            *final(fb),
            *final(env),
            stmts_cost(stmts@, 0),
        ),
        modeled(
            r,
            stmts_model(
                build_of(*old(fb)),
                old(env)@,
                global_consts@,
                old(loop_stack)@,
                stmts@,
                0,
                func_ret_ty@,
                ptr_bits,
                folds@,
            ),
            *final(fb),
            *final(env),
            final(loop_stack)@,
        ),
    decreases stmts, 2int,
{
    let mut i: usize = 0;
    proof {
        lemma_flow_refl(*fb);
    }
    while i < stmts.len()
        invariant
            i <= stmts.len(),
            old(fb).has_cur(),
            ready(*fb, *env, *func_ret_ty, stmts_cost(stmts@, i as int)),
            flow(*old(fb), *fb),
            *final(fb.mb) == *final(old(fb).mb),
            loop_stack@ == old(loop_stack)@,
            fb.next_value() + stmts_cost(stmts@, i as int) <= old(fb).next_value() + stmts_cost(
                stmts@,
                0,
            ),
            fb.next_block() + stmts_cost(stmts@, i as int) <= old(fb).next_block() + stmts_cost(
                stmts@,
                0,
            ),
            stmts_outcome(
                stmts@,
                0,
                scope_at(*old(fb), *old(env)),
                global_consts.sig(),
                old(loop_stack)@.len() > 0,
                func_ret_ty@,
                folds@,
            ) == stmts_outcome(
                stmts@,
                i as int,
                scope_at(*fb, *env),
                global_consts.sig(),
                old(loop_stack)@.len() > 0,
                func_ret_ty@,
                folds@,
            ),
            stmts_model(
                build_of(*old(fb)),
                old(env)@,
                global_consts@,
                old(loop_stack)@,
                stmts@,
                0,
                func_ret_ty@,
                ptr_bits,
                folds@,
            ) == stmts_model(
                build_of(*fb),
                env@,
                global_consts@,
                old(loop_stack)@,
                stmts@,
                i as int,
                func_ret_ty@,
                ptr_bits,
                folds@,
            ),
        decreases stmts.len() - i,
    {
        let ghost pre = *fb;
        lower_stmt_o0(fb, env, global_consts, loop_stack, &stmts[i], func_ret_ty, ptr_bits, folds)?;
        proof {
            lemma_flow_trans(*old(fb), pre, *fb);
        }
        i += 1;
    }
    Ok(())
}

/// Once the types of some parameters give an error, the types of more
/// parameters give the same error.
pub proof fn lemma_param_types_err(ps: Seq<Parameter>, k: int, n: int)
    requires
        0 <= k <= n,
        param_types(ps, k) is Err,
    ensures
        param_types(ps, n) == param_types(ps, k),
    decreases n - k,
{
    if k < n {
        lemma_param_types_err(ps, k, n - 1);
    }
}

/// The types of the first `n` parameters are `n` types.
pub proof fn lemma_param_types_len(ps: Seq<Parameter>, n: int)
    requires
        0 <= n,
        param_types(ps, n) is Ok,
    ensures
        param_types(ps, n)->Ok_0.len() == n,
        forall|k: int| 0 <= k < n ==> type_of(ps[k].ty) == Ok::<TypeV, LowerErrorV>(
            #[trigger] param_types(ps, n)->Ok_0[k],
        ),
    decreases n,
{
    if n > 0 {
        lemma_param_types_len(ps, n - 1);
    }
}

/// Gives every parameter a hoisted stack slot, stores the parameter into
/// it, and binds the parameter's name to the slot.
fn lower_params(
    fb: &mut FunctionBuilder<'_>,
    env: &mut Env,
    f: &Function,
    ptr_bits: u32,
    Ghost(types): Ghost<Seq<TypeV>>,
) -> (r: Result<(), LowerError>)
    requires
        old(fb).wf(),
        old(fb).can_emit(),
        func_sound(old(fb).func),
        old(env)@.len() == 0,
        param_types(f.parameters@, f.parameters@.len() as int) == Ok::<Seq<TypeV>, LowerErrorV>(
            types,
        ),
        old(fb).func.params@.len() == f.parameters@.len(),
        old(fb).next_value() + f.parameters@.len() <= u32::MAX,
    ensures
        *final(final(fb).mb) == *final(old(fb).mb),
        r is Ok,
        flow(*old(fb), *final(fb)),
        final(fb).can_emit(),
        final(fb).cur() == old(fb).cur(),
        final(fb).func.blocks@.len() == old(fb).func.blocks@.len(),
        final(fb).func.params == old(fb).func.params,
        final(fb).next_value() == old(fb).next_value() + f.parameters@.len(),
        final(fb).next_block() == old(fb).next_block(),
        env_ok(final(env)@, final(fb).func),
        final(env).sig() == param_scope(f.parameters@, types),
        (build_of(*final(fb)), final(env)@) == with_params(
            build_of(*old(fb)),
            f.parameters@,
            types,
            f.parameters@.len() as int,
            ptr_bits,
        ),
{
    proof {
        lemma_param_types_len(f.parameters@, f.parameters@.len() as int);
        lemma_flow_refl(*fb);
        assert(env@ =~= Seq::<(Seq<char>, BindingV)>::empty());
    }
    let mut i: usize = 0;
    while i < f.parameters.len()
        invariant
            i <= f.parameters.len(),
            old(fb).has_cur(),
            fb.wf(),
            fb.can_emit(),
            func_sound(fb.func),
            flow(*old(fb), *fb),
            fb.cur() == old(fb).cur(),
            fb.func.blocks@.len() == old(fb).func.blocks@.len(),
            fb.func.params == old(fb).func.params,
            fb.func.params@.len() == f.parameters@.len(),
            fb.next_value() == old(fb).next_value() + i,
            old(fb).next_value() + f.parameters@.len() <= u32::MAX,
            fb.next_block() == old(fb).next_block(),
            *final(fb.mb) == *final(old(fb).mb),
            env_ok(env@, fb.func),
            types.len() == f.parameters@.len(),
            forall|k: int|
                0 <= k < f.parameters@.len() ==> type_of(f.parameters@[k].ty) == Ok::<
                    TypeV,
                    LowerErrorV,
                >(#[trigger] types[k]),
            env.sig().len() == i,
            forall|k: int|
                0 <= k < i ==> #[trigger] env.sig()[k] == (
                    f.parameters@[k].name@,
                    Kind::Var(types[k]),
                ),
            (build_of(*fb), env@) == with_params(
                build_of(*old(fb)),
                f.parameters@,
                types,
                i as int,
                ptr_bits,
            ),
        decreases f.parameters.len() - i,
    {
        let p = &f.parameters[i];
        let param_val = fb.param_value(i);
        proof {
            assert(type_of(f.parameters@[i as int].ty) == Ok::<TypeV, LowerErrorV>(
                types[i as int],
            ));
        }
        let ty = socket_type_to_whale(&p.ty)?;
        let align = align_of(&ty, ptr_bits);
        let ghost pre = *fb;
        proof {
            assert(fb.func.params@[i as int].id == param_val);
            assert(is_param(fb.func, param_val));
        }
        let slot = spill(fb, &ty, param_val, align);
        proof {
            lemma_flow_trans(*old(fb), pre, *fb);
        }
        env.insert(p.name.clone(), Binding::Addr { ptr: slot, ty });
        i += 1;
    }
    proof {
        assert(env.sig() =~= param_scope(f.parameters@, types));
    }
    Ok(())
}

/// A function that the builder has just begun is what the model begins
/// with.
pub proof fn lemma_begun(
    fb: FunctionBuilder,
    next_value: u32,
    next_block: u32,
    params: Seq<Parameter>,
    types: Seq<TypeV>,
)
    requires
        types.len() == params.len(),
        next_value + params.len() <= u32::MAX,
        next_block < u32::MAX,
        fb.func.params@.len() == params.len(),
        forall|i: int|
            0 <= i < params.len() ==> {
                &&& (#[trigger] fb.func.params@[i]).name@ == params[i].name@
                &&& fb.func.params@[i].id == ValueId((next_value + i) as u32)
                &&& fb.func.params@[i].ty@ == types[i]
            },
        fb.func.value_types@.len() == params.len(),
        forall|i: int|
            0 <= i < params.len() ==> {
                &&& (#[trigger] fb.func.value_types@[i]).0 == ValueId((next_value + i) as u32)
                &&& fb.func.value_types@[i].1@ == types[i]
            },
        fb.func.blocks@.len() == 1,
        fb.func.blocks@[0].id == fb.func.entry,
        fb.func.blocks@[0].name@ == "entry"@,
        fb.func.blocks@[0].instructions@.len() == 0,
        fb.func.blocks@[0].terminator is None,
        fb.func.entry == BlockId(next_block),
        fb.insert_block == fb.func.entry,
        fb.next_value() == next_value + params.len(),
        fb.next_block() == next_block + 1,
    ensures
        build_of(fb)
            == begun(next_value, next_block, fb.func.name@, params, types, fb.func.ret_ty@),
{
    let want = begun(next_value, next_block, fb.func.name@, params, types, fb.func.ret_ty@);
    assert(fb.func@.params =~= want.func.params);
    assert(fb.func@.value_types =~= want.func.value_types);
    assert(crate::ir::view::instrs_view(fb.func.blocks@[0].instructions@) =~= Seq::<
        InstrV,
    >::empty());
    assert(fb.func@.blocks =~= want.func.blocks);
}

/// `m1` is `m0` with one more function at its end, which lowers `f`: it has
/// the name, the return type and the parameters of `f`, every parameter
/// has its slot, and it passes the structural verifier.
pub open spec fn function_added(m0: Module, m1: Module, f: Function, ptr_bits: u32) -> bool {
    &&& m1.target == m0.target
    &&& m1.datalayout == m0.datalayout
    &&& m1.globals == m0.globals
    &&& m1.functions@.len() == m0.functions@.len() + 1
    &&& m1.functions@.drop_last() == m0.functions@
    &&& lowers(m1.functions@.last(), f, ptr_bits)
}

/// The function `g` of the representation has the name, the return type
/// and the parameters of the source function `f`, holds a slot for every
/// parameter at the start of its entry block and stores the parameter into
/// it, and passes the structural verifier.
pub open spec fn lowers(g: crate::ir::function::Function, f: Function, ptr_bits: u32) -> bool {
    &&& function_error(g) is None
    &&& params_stored(g@, ptr_bits)
    &&& g.name@ == f.name@
    &&& type_of(f.return_type) == Ok::<TypeV, LowerErrorV>(g.ret_ty@)
    &&& g.params@.len() == f.parameters@.len()
    &&& forall|i: int|
        0 <= i < f.parameters@.len() ==> (#[trigger] g.params@[i]).name@ == f.parameters@[i].name@
            && type_of(f.parameters@[i].ty) == Ok::<TypeV, LowerErrorV>(g.params@[i].ty@)
}

/// The values of the instructions of an entry block that keeps what
/// another one holds: instruction `i` of its first `n` is that of the other
/// one, and what the other one holds at `n + i` is held behind the first
/// `n`.
pub proof fn lemma_entry_views_kept(e0: Seq<Instruction>, e1: Seq<Instruction>, n: int, i: int)
    requires
        entry_kept(e0, e1),
        alloca_prefix(e0) == n,
        e0.len() == 2 * n,
        0 <= i < n,
        instrs_view(e0)[n + i] is Store,
    ensures
        e1.len() >= n,
        instrs_view(e1)[i] == instrs_view(e0)[i],
        exists|k: int|
            n <= k < e1.len() && #[trigger] instrs_view(e1)[k] == instrs_view(e0)[n + i],
{
    lemma_alloca_prefix(e0);
    lemma_alloca_prefix(e1);
    assert(e1[i] == e0[i]);
    assert(e1.contains(e0[n + i]));
    let k = choose|k: int| 0 <= k < e1.len() && e1[k] == e0[n + i];
    if k < n {
        assert(e1[k] is Alloca);
    }
    assert(instrs_view(e1)[k] == instrs_view(e0)[n + i]);
}

/// Where the entry block of `f0` is the allocations of the slots of the
/// parameters followed by the stores into them, and `f1` has the
/// parameters of `f0` and keeps what its entry block holds, every parameter
/// of `f1` has its slot and is stored into it.
pub proof fn lemma_params_kept(
    f0: crate::ir::function::Function,
    f1: crate::ir::function::Function,
    ptr_bits: u32,
)
    requires
        f0.blocks@.len() >= 1,
        f1.blocks@.len() >= 1,
        f1.params == f0.params,
        entry_kept(f0.blocks@[0].instructions@, f1.blocks@[0].instructions@),
        alloca_prefix(f0.blocks@[0].instructions@) == f0.params@.len(),
        params_spilled(f0@, ptr_bits),
    ensures
        params_stored(f1@, ptr_bits),
{
    let n = f0.params@.len() as int;
    let e0 = f0.blocks@[0].instructions@;
    let e1 = f1.blocks@[0].instructions@;
    let g0 = f0@;
    let g1 = f1@;
    assert(g0.blocks[0].instructions == instrs_view(e0));
    assert(g1.blocks[0].instructions == instrs_view(e1));
    assert(g1.params == g0.params);
    lemma_alloca_prefix(e1);
    assert forall|i: int| 0 <= i < n implies #[trigger] param_stored(g1, i, ptr_bits) by {
        assert(param_spilled(g0, i, ptr_bits));
        lemma_entry_views_kept(e0, e1, n, i);
        let k = choose|k: int|
            n <= k < e1.len() && #[trigger] instrs_view(e1)[k] == instrs_view(e0)[n + i];
        assert(g1.blocks[0].instructions[k] == param_store(g1, i, ptr_bits));
    }
}

/// What lowering the function `f` does to the module builder, which goes
/// from `pre` to `post`.
///
/// The result is the error that the rules of [`function_outcome`] give, or
/// `post` holds one more function, which lowers `f` and passes the
/// structural verifier. And it is what [`function_model`] gives: the
/// function with every block and every instruction as the model says, or
/// the same error, with the module as it was and the counters as they stood
/// when the error was found. Every block of the function has a terminator.
pub open spec fn function_lowering_of(
    pre: ModuleBuilder,
    post: ModuleBuilder,
    f: Function,
    global_consts: Env,
    ptr_bits: u32,
    folds: Seq<FloatFold>,
    r: Result<(), LowerError>,
) -> bool {
    &&& match function_outcome(f, global_consts.sig(), folds) {
        Some(e) => r is Err && r->Err_0@ == e,
        None => r is Ok && function_added(pre.module(), post.module(), f, ptr_bits)
            && post.next_value() <= pre.next_value() + function_cost(f) && post.next_block()
            <= pre.next_block() + function_cost(f),
    }
    &&& match function_model(
        pre.next_value(),
        pre.next_block(),
        f,
        global_consts@,
        ptr_bits,
        folds,
    ) {
        Err(h) => r is Err && r->Err_0@ == h.error && post.module() == pre.module()
            && post.next_value() == h.next_value && post.next_block() == h.next_block,
        Ok(b) => r is Ok && post.module().functions@.last()@ == b.func && post.next_value()
            == b.next_value && post.next_block() == b.next_block,
    }
    &&& r is Ok ==> forall|k: int|
        0 <= k < post.module().functions@.last().blocks@.len() ==> (
        #[trigger] post.module().functions@.last().blocks@[k]).terminator is Some
}

/// Lowers one function and adds it to the module. Every parameter is
/// stored into a slot of its own first. Where the body falls off its end,
/// the function returns if it returns nothing and traps if it should have
/// returned a value.
///
/// Where the function is refused, nothing is added to the module; the
/// identifiers that were issued up to the error are not issued again.
pub fn lower_function_o0(
    mb: &mut ModuleBuilder,
    f: &Function,
    global_consts: &Env,
    ptr_bits: u32,
    folds: &Vec<FloatFold>,
) -> (r: Result<(), LowerError>)
    requires
        old(mb).next_value() + function_cost(*f) <= u32::MAX,
        old(mb).next_block() + function_cost(*f) <= u32::MAX,
    ensures
        function_lowering_of(*old(mb), *final(mb), *f, *global_consts, ptr_bits, folds@, r),
{
    let ret_ty = socket_type_to_whale(&f.return_type)?;
    let mut params: Vec<(String, Type)> = Vec::new();
    let mut i: usize = 0;
    while i < f.parameters.len()
        invariant
            i <= f.parameters.len(),
            params@.len() == i,
            type_of(f.return_type) is Ok,
            param_types(f.parameters@, i as int) is Ok,
            param_types(f.parameters@, i as int)->Ok_0.len() == i,
            forall|k: int|
                0 <= k < i ==> (#[trigger] params@[k]).0@ == f.parameters@[k].name@
                    && params@[k].1@ == param_types(f.parameters@, i as int)->Ok_0[k],
        decreases f.parameters.len() - i,
    {
        let r = socket_type_to_whale(&f.parameters[i].ty);
        match r {
            Err(e) => {
                proof {
                    lemma_param_types_err(f.parameters@, i + 1, f.parameters@.len() as int);
                }
                return Err(e);
            },
            Ok(ty) => {
                params.push((f.parameters[i].name.clone(), ty));
            },
        }
        i += 1;
    }
    let ghost types = param_types(f.parameters@, f.parameters@.len() as int)->Ok_0;
    proof {
        lemma_param_types_len(f.parameters@, f.parameters@.len() as int);
    }
    let mut fb = mb.begin_function(f.name.as_str(), params, ret_ty.clone());
    let ghost s0 = fb;
    proof {
        lemma_begun(s0, old(mb).next_value(), old(mb).next_block(), f.parameters@, types);
        assert(s0.func.blocks@[0].instructions@ =~= Seq::<Instruction>::empty());
        assert(func_sound(s0.func)) by {
            assert forall|k: int| 0 <= k < s0.func.blocks@.len() implies #[trigger] block_sound(
                s0.func,
                k,
            ) by {}
        }
        lemma_cur_at(s0, 0);
    }
    let mut env = Env::new();
    let mut loop_stack: Vec<LoopCtx> = Vec::new();
    let _ = lower_params(&mut fb, &mut env, f, ptr_bits, Ghost(types));
    let ghost s1 = fb;
    proof {
        lemma_begun_params_spilled(
            old(mb).next_value(),
            old(mb).next_block(),
            f.name@,
            f.parameters@,
            types,
            ret_ty@,
            ptr_bits,
        );
        lemma_prefix_len(s1.func.blocks@[0].instructions@);
    }
    let r = lower_stmts_o0(
        &mut fb,
        &mut env,
        global_consts,
        &mut loop_stack,
        &f.body,
        &ret_ty,
        ptr_bits,
        folds,
    );
    match r {
        Err(e) => {
            return Err(e);
        },
        Ok(()) => {},
    }
    let ghost s2 = fb;
    proof {
        lemma_cur(fb);
    }
    if !fb.is_current_block_terminated() {
        if matches!(ret_ty, Type::Void) {
            fb.ret(None);
        } else {
            fb.trap("missing return");
        }
        proof {
            let t = fb.func.blocks@[s2.cur()].terminator->Some_0;
            assert(t.uses() =~= Seq::<ValueId>::empty());
            lemma_terminate_flow(s2, fb);
            lemma_terminated(s2, fb, t);
        }
    }
    proof {
        lemma_flow_trans(s0, s1, s2);
        if fb != s2 {
            lemma_flow_trans(s0, s2, fb);
            lemma_flow_trans(s1, s2, fb);
        }
        assert forall|k: int| 0 <= k < fb.func.blocks@.len() implies (
        #[trigger] fb.func.blocks@[k]).terminator is Some by {}
        lemma_sound_function_verifies(fb.func);
        lemma_params_kept(s1.func, fb.func, ptr_bits);
    }
    let ghost g = fb.func;
    fb.finish();
    proof {
        assert(mb.module().functions@.last() == g);
        assert(mb.module().functions@.drop_last() =~= old(mb).module().functions@);
    }
    Ok(())
}

/// Once the model of some globals gives an error, that of more globals
/// gives the same error.
pub proof fn lemma_globals_model_err(gs: Seq<GlobalConst>, k: int, n: int, ptr_bits: u32,
    folds: Seq<FloatFold>)
    requires
        0 <= k <= n,
        globals_model(gs, k, ptr_bits, folds) is Err,
    ensures
        globals_model(gs, n, ptr_bits, folds) == globals_model(gs, k, ptr_bits, folds),
    decreases n - k,
{
    if k < n {
        lemma_globals_model_err(gs, k, n - 1, ptr_bits, folds);
    }
}

/// Once the model of some functions gives an error, that of more functions
/// gives the same error.
pub proof fn lemma_functions_model_err(
    fs: Seq<Function>,
    k: int,
    n: int,
    globals: EnvV,
    ptr_bits: u32,
    folds: Seq<FloatFold>,
)
    requires
        0 <= k <= n,
        functions_model(fs, k, globals, ptr_bits, folds) is Err,
    ensures
        functions_model(fs, n, globals, ptr_bits, folds)
            == functions_model(fs, k, globals, ptr_bits, folds),
    decreases n - k,
{
    if k < n {
        lemma_functions_model_err(fs, k, n - 1, globals, ptr_bits, folds);
    }
}

/// Once some globals give an error, more globals give the same error.
pub proof fn lemma_globals_err(gs: Seq<GlobalConst>, k: int, n: int, folds: Seq<FloatFold>)
    requires
        0 <= k <= n,
        globals_outcome(gs, k, folds) is Err,
    ensures
        globals_outcome(gs, n, folds) == globals_outcome(gs, k, folds),
    decreases n - k,
{
    if k < n {
        lemma_globals_err(gs, k, n - 1, folds);
    }
}

/// Functions that have no error one by one have no error together.
pub proof fn lemma_functions_verify(fs: Seq<crate::ir::function::Function>, from: int)
    requires
        0 <= from,
        forall|k: int| 0 <= k < fs.len() ==> function_error(#[trigger] fs[k]) is None,
    ensures
        functions_error(fs, from) is None,
    decreases fs.len() - from,
{
    if from < fs.len() {
        lemma_functions_verify(fs, from + 1);
    }
}

/// The globals `gs` of a module are the constants `sig`, in order, each
/// with the alignment of its type.
pub open spec fn globals_match(gs: Seq<Global>, sig: Sig, ptr_bits: u32) -> bool {
    &&& gs.len() == sig.len()
    &&& forall|i: int|
        0 <= i < gs.len() ==> {
            &&& (#[trigger] gs[i]).name@ == sig[i].0
            &&& sig[i].1 == Kind::Const(gs[i].ty@, gs[i].init)
            &&& gs[i].align == align_spec(gs[i].ty@, ptr_bits)
        }
}

/// The functions `gs` of a module lower the source functions `fs`, one for
/// one and in order.
pub open spec fn functions_match(
    gs: Seq<crate::ir::function::Function>,
    fs: Seq<Function>,
    ptr_bits: u32,
) -> bool {
    &&& gs.len() == fs.len()
    &&& forall|i: int| 0 <= i < gs.len() ==> lowers(#[trigger] gs[i], fs[i], ptr_bits)
}

/// What lowering `program` for `target` gives.
///
/// The result is the error that the rules of [`program_outcome`] give, or a
/// module that is well formed, has the target and the data layout asked
/// for, holds the global constants of the program in order, and holds one
/// function for each function of the program, in order. And the result is
/// the one that [`program_model`] gives: the same error, or the module with
/// every block and every instruction as the model says.
pub open spec fn lowering_of(
    program: Program,
    target: Seq<char>,
    datalayout: DataLayout,
    r: Result<Module, LowerError>,
    folds: Seq<FloatFold>,
) -> bool {
    &&& lowering_obeys_rules(program, target, datalayout, r, folds)
    &&& match program_model(program, target, datalayout, folds) {
        Err(e) => r is Err && r->Err_0@ == e,
        Ok(m) => r is Ok && r->Ok_0@ == m,
    }
}

/// The part of [`lowering_of`] that speaks of the rules and of the shape of
/// the module.
pub open spec fn lowering_obeys_rules(
    program: Program,
    target: Seq<char>,
    datalayout: DataLayout,
    r: Result<Module, LowerError>,
    folds: Seq<FloatFold>,
) -> bool {
    match program_outcome(program, folds) {
        Err(e) => r is Err && r->Err_0@ == e,
        Ok(sig) => {
            &&& r is Ok
            &&& well_formed(r->Ok_0)
            &&& r->Ok_0.target@ == target
            &&& r->Ok_0.datalayout == datalayout
            &&& globals_match(r->Ok_0.globals@, sig, datalayout.ptr_bits)
            &&& functions_match(r->Ok_0.functions@, program.functions@, datalayout.ptr_bits)
        },
    }
}

/// Lowers a program to a module for the given target, with a table of the
/// results of floating-point arithmetic on constants.
///
/// The global constants are evaluated and added in order, then the
/// functions are lowered in order. Lowering stops at the first error. Where
/// a constant expression needs floating-point arithmetic that the table
/// does not hold, the error names the operation: the caller works it out,
/// adds it to the table and lowers again. A module that comes out is well
/// formed: the structural verifier accepts it. The program must be small
/// enough for 32-bit identifiers.
pub fn lower_o0_with(
    program: &Program,
    target: &str,
    datalayout: DataLayout,
    folds: &Vec<FloatFold>,
) -> (r: Result<Module, LowerError>)
    requires
        program_cost(*program) <= u32::MAX,
    ensures
        lowering_of(*program, target@, datalayout, r, folds@),
{
    let ptr_bits = datalayout.ptr_bits;
    let mut mb = ModuleBuilder::new(target, datalayout);
    let mut gconsts = Env::new();
    let mut i: usize = 0;
    proof {
        assert(mb.module()@.globals =~= Seq::<GlobalV>::empty());
    }
    while i < program.globals.len()
        invariant
            i <= program.globals.len(),
            globals_outcome(program.globals@, i as int, folds@)
                == Ok::<Sig, LowerErrorV>(gconsts.sig()),
            globals_match(mb.module().globals@, gconsts.sig(), ptr_bits),
            ptr_bits == datalayout.ptr_bits,
            globals_model(program.globals@, i as int, ptr_bits, folds@) == Ok::<
                (Seq<GlobalV>, EnvV),
                LowerErrorV,
            >((mb.module()@.globals, gconsts@)),
            mb.module().target@ == target@,
            mb.module().datalayout == datalayout,
            mb.module().functions@.len() == 0,
            mb.next_value() == 0,
            mb.next_block() == 0,
        decreases program.globals.len() - i,
    {
        let g = &program.globals[i];
        proof {
            if globals_outcome(program.globals@, i + 1, folds@) is Err {
                lemma_globals_err(program.globals@, i + 1, program.globals@.len() as int, folds@);
            }
            if globals_model(program.globals@, i + 1, ptr_bits, folds@) is Err {
                lemma_globals_model_err(
                    program.globals@,
                    i + 1,
                    program.globals@.len() as int,
                    ptr_bits,
                    folds@,
                );
            }
        }
        if gconsts.get(&g.name).is_some() {
            return Err(LowerError::DuplicateGlobal(g.name.clone()));
        }
        let decl_ty = socket_type_to_whale(&g.ty)?;
        let (vty, v) = eval_const_expr(
            &g.init,
            &ConstEvalCtx { local_consts: None, global_consts: &gconsts, folds },
        )?;
        if !vty.same(&decl_ty) {
            return Err(LowerError::TypeMismatch { expected: decl_ty, got: vty });
        }
        let align = align_of(&vty, ptr_bits);
        let ghost old_globals = mb.module().globals@;
        let ghost old_sig = gconsts.sig();
        let ghost old_view = mb.module()@.globals;
        mb.add_global(g.name.as_str(), vty.clone(), v.clone(), align);
        gconsts.insert(g.name.clone(), Binding::Const { ty: vty, value: v });
        proof {
            let gs = mb.module().globals@;
            assert forall|k: int| 0 <= k < gs.len() implies {
                &&& (#[trigger] gs[k]).name@ == gconsts.sig()[k].0
                &&& gconsts.sig()[k].1 == Kind::Const(gs[k].ty@, gs[k].init)
                &&& gs[k].align == align_spec(gs[k].ty@, ptr_bits)
            } by {
                if k < old_globals.len() {
                    assert(gs.drop_last()[k] == gs[k]);
                    assert(gconsts.sig()[k] == old_sig[k]);
                }
            }
            assert forall|k: int| 0 <= k < old_globals.len() implies gs[k] == old_globals[k] by {
                assert(gs.drop_last()[k] == gs[k]);
            }
            assert(mb.module()@.globals =~= old_view.push(gs.last()@));
        }
        i += 1;
    }
    let ghost sig = gconsts.sig();
    let mut j: usize = 0;
    proof {
        assert(mb.module()@.functions =~= Seq::<FunctionV>::empty());
    }
    while j < program.functions.len()
        invariant
            j <= program.functions.len(),
            sig == gconsts.sig(),
            globals_outcome(program.globals@, program.globals@.len() as int, folds@) == Ok::<
                Sig,
                LowerErrorV,
            >(sig),
            functions_outcome(program.functions@, 0, sig, folds@) == functions_outcome(
                program.functions@,
                j as int,
                sig,
                folds@,
            ),
            globals_match(mb.module().globals@, sig, ptr_bits),
            mb.module().target@ == target@,
            mb.module().datalayout == datalayout,
            mb.module().functions@.len() == j,
            forall|k: int|
                0 <= k < j ==> lowers(
                    #[trigger] mb.module().functions@[k],
                    program.functions@[k],
                    ptr_bits,
                ),
            ptr_bits == datalayout.ptr_bits,
            globals_model(program.globals@, program.globals@.len() as int, ptr_bits, folds@)
                == Ok::<
                (Seq<GlobalV>, EnvV),
                LowerErrorV,
            >((mb.module()@.globals, gconsts@)),
            functions_model(program.functions@, j as int, gconsts@, ptr_bits, folds@) == Ok::<
                Lowered,
                LowerErrorV,
            >(
                Lowered {
                    functions: mb.module()@.functions,
                    next_value: mb.next_value(),
                    next_block: mb.next_block(),
                },
            ),
            mb.next_value() + functions_cost(program.functions@, j as int) <= u32::MAX,
            mb.next_block() + functions_cost(program.functions@, j as int) <= u32::MAX,
        decreases program.functions.len() - j,
    {
        let ghost before = mb.module().functions@;
        let ghost before_view = mb.module()@.functions;
        let ghost before_globals = mb.module()@.globals;
        proof {
            if functions_model(program.functions@, j + 1, gconsts@, ptr_bits, folds@) is Err {
                lemma_functions_model_err(
                    program.functions@,
                    j + 1,
                    program.functions@.len() as int,
                    gconsts@,
                    ptr_bits,
                    folds@,
                );
            }
        }
        lower_function_o0(&mut mb, &program.functions[j], &gconsts, ptr_bits, folds)?;
        proof {
            let fs = mb.module().functions@;
            assert forall|k: int| 0 <= k < j implies fs[k] == before[k] by {
                assert(fs.drop_last()[k] == fs[k]);
            }
            assert(mb.module()@.functions =~= before_view.push(fs.last()@));
            assert(mb.module()@.globals =~= before_globals);
            assert forall|k: int| 0 <= k < j + 1 implies lowers(
                #[trigger] fs[k],
                program.functions@[k],
                ptr_bits,
            ) by {
                if k < j {
                    assert(fs.drop_last()[k] == fs[k]);
                    assert(before[k] == fs[k]);
                }
            }
        }
        j += 1;
    }
    let m = mb.finish();
    proof {
        lemma_functions_verify(m.functions@, 0);
    }
    Ok(m)
}

/// Whatever lowering gives for a program, the structural verifier accepts
/// it: a lowered module is well formed.
pub proof fn lemma_lowered_module_is_well_formed(
    program: Program,
    target: Seq<char>,
    datalayout: DataLayout,
    r: Result<Module, LowerError>,
    folds: Seq<FloatFold>,
)
    requires
        lowering_of(program, target, datalayout, r, folds),
        r is Ok,
    ensures
        well_formed(r->Ok_0),
{
}

/// Every block of every function that lowering gives ends in a terminator:
/// a body that falls off its end was given a return or a trap.
pub proof fn lemma_lowered_blocks_are_terminated(
    program: Program,
    target: Seq<char>,
    datalayout: DataLayout,
    r: Result<Module, LowerError>,
    folds: Seq<FloatFold>,
    fi: int,
    bi: int,
)
    requires
        lowering_of(program, target, datalayout, r, folds),
        r is Ok,
        0 <= fi < r->Ok_0.functions@.len(),
        0 <= bi < r->Ok_0.functions@[fi].blocks@.len(),
    ensures
        r->Ok_0.functions@[fi].blocks@[bi].terminator is Some,
{
    if r->Ok_0.functions@[fi].blocks@[bi].terminator is None {
        lemma_unterminated_block_rejected(r->Ok_0, fi, bi);
    }
}

/// Every parameter of every function that lowering gives has a slot of its
/// own at the start of the entry block, in the order of the parameters, and
/// is stored into it further on in that block.
pub proof fn lemma_lowered_parameters_have_slots(
    program: Program,
    target: Seq<char>,
    datalayout: DataLayout,
    r: Result<Module, LowerError>,
    folds: Seq<FloatFold>,
    fi: int,
)
    requires
        lowering_of(program, target, datalayout, r, folds),
        r is Ok,
        0 <= fi < r->Ok_0.functions@.len(),
    ensures
        params_stored(r->Ok_0.functions@[fi]@, datalayout.ptr_bits),
{
    assert(lowers(r->Ok_0.functions@[fi], program.functions@[fi], datalayout.ptr_bits));
}

/// Lowers a program to a module for the given target, without a table of
/// floating-point results: a constant expression that needs floating-point
/// arithmetic is reported back as an error.
pub fn lower_o0(program: &Program, target: &str, datalayout: DataLayout) -> (r: Result<
    Module,
    LowerError,
>)
    requires
        program_cost(*program) <= u32::MAX,
    ensures
        lowering_of(*program, target@, datalayout, r, Seq::<FloatFold>::empty()),
{
    let folds: Vec<FloatFold> = Vec::new();
    lower_o0_with(program, target, datalayout, &folds)
}

} // verus!
