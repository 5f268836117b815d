//! What holds of every lowering, proved of the model that the lowering
//! functions are held to.

use vstd::prelude::*;
use crate::ir::instr::ConstValue;
use crate::ir::lower_ast::binding::{BindingV, find};
use crate::ir::lower_ast::consteval::{lit_value, FloatFold};
use crate::ir::lower_ast::error::LowerErrorV;
use crate::ir::lower_ast::frontend::{Expr, Function, Parameter, Stmt};
use crate::ir::lower_ast::model::{
    at, begun, Build, cur, define, emit, emit_def, ended, EnvV, expr_model, fresh,
    function_model, hoist, index_of, Loops, new_block, opened, prefix_len, stmt_model,
    stmts_model, stop, Stopped, terminate, with_const, with_instr, with_params,
};
use crate::ir::lower_ast::rules::param_types;
use crate::ir::lower_ast::support::{align_spec, binop_of, compare_of, type_of};
use crate::ir::types::TypeV;
use crate::ir::value::{BlockId, ValueId};
use crate::ir::view::{BlockV, FunctionV, InstrV, TermV};

verus! {

/// The insertion point of `b` names one of its blocks.
pub open spec fn has_current(b: Build) -> bool {
    0 <= cur(b) < b.func.blocks.len()
}

/// `post` is `pre` with instructions added at the end of the current block
/// and nothing else: the blocks are the same in number, identity, name and
/// terminator, the insertion point stands where it stood, and every block
/// but the current one holds what it held.
pub open spec fn extends(pre: Build, post: Build) -> bool {
    &&& post.insert == pre.insert
    &&& post.next_block == pre.next_block
    &&& post.func.blocks.len() == pre.func.blocks.len()
    &&& forall|j: int|
        0 <= j < pre.func.blocks.len() ==> {
            &&& (#[trigger] post.func.blocks[j]).id == pre.func.blocks[j].id
            &&& post.func.blocks[j].name == pre.func.blocks[j].name
            &&& post.func.blocks[j].terminator == pre.func.blocks[j].terminator
            &&& pre.func.blocks[j].instructions.is_prefix_of(post.func.blocks[j].instructions)
            &&& j != cur(pre) ==> post.func.blocks[j].instructions
                == pre.func.blocks[j].instructions
        }
}

/// Blocks with the same identities, one by one, give every identity the
/// same index.
pub proof fn lemma_index_by_identity(s: Seq<BlockV>, t: Seq<BlockV>, id: BlockId)
    requires
        s.len() == t.len(),
        forall|j: int| 0 <= j < s.len() ==> (#[trigger] t[j]).id == s[j].id,
    ensures
        index_of(t, id) == index_of(s, id),
    decreases s.len(),
{
    if s.len() > 0 {
        assert(t[0].id == s[0].id);
        if s[0].id != id {
            let s1 = s.subrange(1, s.len() as int);
            let t1 = t.subrange(1, t.len() as int);
            assert forall|j: int| 0 <= j < s1.len() implies (#[trigger] t1[j]).id == s1[j].id by {
                assert(t[j + 1].id == s[j + 1].id);
            }
            lemma_index_by_identity(s1, t1, id);
        }
    }
}

/// Code that is added leaves the current block the current block, and
/// open if it was open.
pub proof fn lemma_extends_keeps_current(pre: Build, post: Build)
    requires
        extends(pre, post),
    ensures
        cur(post) == cur(pre),
        has_current(post) == has_current(pre),
        ended(post) == ended(pre),
{
    lemma_index_by_identity(pre.func.blocks, post.func.blocks, pre.insert);
}

/// Code added behind added code is added code.
pub proof fn lemma_extends_trans(a: Build, b: Build, c: Build)
    requires
        extends(a, b),
        extends(b, c),
    ensures
        extends(a, c),
{
    lemma_extends_keeps_current(a, b);
    assert forall|j: int| 0 <= j < a.func.blocks.len() implies {
        &&& (#[trigger] c.func.blocks[j]).id == a.func.blocks[j].id
        &&& c.func.blocks[j].name == a.func.blocks[j].name
        &&& c.func.blocks[j].terminator == a.func.blocks[j].terminator
        &&& a.func.blocks[j].instructions.is_prefix_of(c.func.blocks[j].instructions)
        &&& j != cur(a) ==> c.func.blocks[j].instructions == a.func.blocks[j].instructions
    } by {
        let x = a.func.blocks[j].instructions;
        let y = b.func.blocks[j].instructions;
        let z = c.func.blocks[j].instructions;
        assert(b.func.blocks[j].id == a.func.blocks[j].id);
        assert(x.is_prefix_of(y));
        assert(y.is_prefix_of(z));
        assert(x =~= z.subrange(0, x.len() as int)) by {
            assert(x =~= y.subrange(0, x.len() as int));
            assert(y =~= z.subrange(0, y.len() as int));
        }
    }
}

/// An instruction that defines a fresh value is code added at the end of
/// the current block.
pub proof fn lemma_emit_def_extends(b: Build, ins: InstrV, ty: TypeV)
    requires
        has_current(b),
    ensures
        extends(b, emit_def(b, ins, ty)),
{
    reveal(define);
    reveal(emit);
    reveal(with_instr);
    let d = define(b, ty);
    let post = emit_def(b, ins, ty);
    assert(cur(d) == cur(b));
    assert forall|j: int| 0 <= j < b.func.blocks.len() implies {
        &&& (#[trigger] post.func.blocks[j]).id == b.func.blocks[j].id
        &&& post.func.blocks[j].name == b.func.blocks[j].name
        &&& post.func.blocks[j].terminator == b.func.blocks[j].terminator
        &&& b.func.blocks[j].instructions.is_prefix_of(post.func.blocks[j].instructions)
        &&& j != cur(b) ==> post.func.blocks[j].instructions == b.func.blocks[j].instructions
    } by {
        let x = b.func.blocks[j].instructions;
        let y = post.func.blocks[j].instructions;
        if j == cur(b) {
            assert(y == x.insert(x.len() as int, ins));
            assert(x =~= y.subrange(0, x.len() as int));
        } else {
            assert(x =~= y.subrange(0, x.len() as int));
        }
    }
}

/// A materialized constant is code added at the end of the current block.
pub proof fn lemma_const_extends(b: Build, ty: TypeV, value: ConstValue)
    requires
        has_current(b),
    ensures
        extends(b, with_const(b, ty, value)),
{
    if value is Bool {
        lemma_emit_def_extends(
            b,
            InstrV::Const { dst: fresh(b), ty: TypeV::I1, value },
            TypeV::I1,
        );
    } else {
        lemma_emit_def_extends(
            b,
            InstrV::Const { dst: fresh(b), ty, value },
            ty,
        );
    }
}

/// The build in which lowering the expression `e` ends, whether it
/// succeeds or stops.
pub open spec fn expr_end(b: Build, env: EnvV, globals: EnvV, e: Expr, ptr_bits: u32) -> Build {
    match expr_model(b, env, globals, e, ptr_bits) {
        Ok(m) => m.0,
        Err(f) => f.build,
    }
}

/// Lowering an expression adds code at the end of the current block and
/// nothing else, whether it succeeds or stops with an error: it opens and
/// ends no block, and so emits no branch and no return.
pub proof fn lemma_expression_only_adds_code(
    b: Build,
    env: EnvV,
    globals: EnvV,
    e: Expr,
    ptr_bits: u32,
)
    requires
        has_current(b),
    ensures
        extends(b, expr_end(b, env, globals, e, ptr_bits)),
    decreases e,
{
    match e {
        Expr::Var(name) => {
            match find(env, name@) {
                Some(BindingV::Addr { ptr, ty }) => {
                    lemma_emit_def_extends(
                        b,
                        InstrV::Load {
                            dst: fresh(b),
                            ty,
                            ptr,
                            align: align_spec(ty, ptr_bits),
                        },
                        ty,
                    );
                },
                Some(BindingV::Const { ty, value }) => {
                    lemma_const_extends(b, ty, value);
                },
                None => {
                    match find(globals, name@) {
                        Some(BindingV::Const { ty, value }) => {
                            lemma_const_extends(b, ty, value);
                        },
                        _ => {},
                    }
                },
            }
        },
        Expr::Lit(l) => {
            match lit_value(l) {
                Err(_) => {},
                Ok(v) => {
                    lemma_emit_def_extends(
                        b,
                        InstrV::Const {
                            dst: fresh(b),
                            ty: v.0,
                            value: v.1,
                        },
                        v.0,
                    );
                },
            }
        },
        Expr::Binary { left, op, right } => {
            lemma_expression_only_adds_code(b, env, globals, *left, ptr_bits);
            match expr_model(b, env, globals, *left, ptr_bits) {
                Err(_) => {},
                Ok(l) => {
                    lemma_extends_keeps_current(b, l.0);
                    lemma_expression_only_adds_code(l.0, env, globals, *right, ptr_bits);
                    lemma_extends_trans(b, l.0, expr_end(l.0, env, globals, *right, ptr_bits));
                    match expr_model(l.0, env, globals, *right, ptr_bits) {
                    Err(_) => {},
                    Ok(r) => {
                        if l.2 == r.2 {
                            match binop_of(op, l.2) {
                                Err(_) => {},
                                Ok(binop) => {
                                    let ins = InstrV::Bin {
                                        dst: fresh(r.0),
                                        op: binop,
                                        ty: l.2,
                                        lhs: l.1,
                                        rhs: r.1,
                                    };
                                    lemma_extends_keeps_current(b, r.0);
                                    lemma_emit_def_extends(r.0, ins, l.2);
                                    lemma_extends_trans(b, r.0, emit_def(r.0, ins, l.2));
                                },
                            }
                        }
                    },
                    }
                },
            }
        },
        Expr::Cmp { left, op, right } => {
            lemma_expression_only_adds_code(b, env, globals, *left, ptr_bits);
            match expr_model(b, env, globals, *left, ptr_bits) {
                Err(_) => {},
                Ok(l) => {
                    lemma_extends_keeps_current(b, l.0);
                    lemma_expression_only_adds_code(l.0, env, globals, *right, ptr_bits);
                    lemma_extends_trans(b, l.0, expr_end(l.0, env, globals, *right, ptr_bits));
                    match expr_model(l.0, env, globals, *right, ptr_bits) {
                    Err(_) => {},
                    Ok(r) => {
                        if l.2 == r.2 {
                            match compare_of(op, l.2) {
                                Err(_) => {},
                                Ok(test) => {
                                    let ins = InstrV::Cmp {
                                        dst: fresh(r.0),
                                        op: test,
                                        ty: l.2,
                                        lhs: l.1,
                                        rhs: r.1,
                                    };
                                    lemma_extends_keeps_current(b, r.0);
                                    lemma_emit_def_extends(r.0, ins, TypeV::I1);
                                    lemma_extends_trans(b, r.0, emit_def(r.0, ins, TypeV::I1));
                                },
                            }
                        }
                    },
                    }
                },
            }
        },
    }
}

/// A statement that stops with an error leaves the scope as it found it:
/// a declaration whose initial value has another type than it declares
/// binds nothing, and neither does anything else that is refused.
pub proof fn lemma_stopped_statement_keeps_the_scope(
    b: Build,
    env: EnvV,
    globals: EnvV,
    loops: Loops,
    s: Stmt,
    ret: TypeV,
    ptr_bits: u32,
    folds: Seq<FloatFold>,
)
    requires
        stmt_model(b, env, globals, loops, s, ret, ptr_bits, folds) is Err,
    ensures
        stmt_model(b, env, globals, loops, s, ret, ptr_bits, folds)->Err_0.env == env,
{
}

/// What an `if` or a `while` binds ends with it: the scope behind the
/// statement is the scope in front of it, whatever its arms or its body
/// declare and whether or not it is lowered to the end.
pub proof fn lemma_bodies_bind_nothing(
    b: Build,
    env: EnvV,
    globals: EnvV,
    loops: Loops,
    s: Stmt,
    ret: TypeV,
    ptr_bits: u32,
    folds: Seq<FloatFold>,
)
    requires
        s is If || s is While,
    ensures
        match stmt_model(b, env, globals, loops, s, ret, ptr_bits, folds) {
            Ok(v) => v.1 == env,
            Err(t) => t.env == env,
        },
{
}

/// In a block that has not ended, an assignment to a name that is bound to
/// a constant never succeeds. Where the value can be lowered the error is
/// the one for constants; either way the function is as lowering the value
/// left it, with no store behind it, and the scope is as it was.
pub proof fn lemma_assignment_to_constant_stores_nothing(
    b: Build,
    env: EnvV,
    globals: EnvV,
    loops: Loops,
    name: String,
    value: Expr,
    ret: TypeV,
    ptr_bits: u32,
    folds: Seq<FloatFold>,
)
    requires
        !ended(b),
        find(env, name@) matches Some(BindingV::Const { .. }),
    ensures
        stmt_model(b, env, globals, loops, Stmt::Assign { name, value }, ret, ptr_bits, folds)
            == stop::<(Build, EnvV)>(
            expr_end(b, env, globals, value, ptr_bits),
            env,
            loops,
            match expr_model(b, env, globals, value, ptr_bits) {
                Ok(_) => LowerErrorV::AssignToConst(name@),
                Err(f) => f.error,
            },
        ),
{
}

/// `break` and `continue` outside of every loop are refused, and leave the
/// function, the scope and the loops as they were.
pub proof fn lemma_jump_outside_loops_changes_nothing(
    b: Build,
    env: EnvV,
    globals: EnvV,
    s: Stmt,
    ret: TypeV,
    ptr_bits: u32,
    folds: Seq<FloatFold>,
)
    requires
        !ended(b),
        s is Break || s is Continue,
    ensures
        stmt_model(b, env, globals, Seq::empty(), s, ret, ptr_bits, folds) == stop::<
            (Build, EnvV),
        >(
            b,
            env,
            Seq::empty(),
            if s is Break {
                LowerErrorV::BreakOutsideLoop
            } else {
                LowerErrorV::ContinueOutsideLoop
            },
        ),
{
}

/// An `if` whose condition is not of the boolean type is refused behind
/// the code of the condition: no block is opened and no branch is emitted,
/// and the current block stays open.
pub proof fn lemma_if_needs_a_boolean(
    b: Build,
    env: EnvV,
    globals: EnvV,
    loops: Loops,
    cond: Expr,
    then_body: Vec<Stmt>,
    else_body: Vec<Stmt>,
    ret: TypeV,
    ptr_bits: u32,
    folds: Seq<FloatFold>,
)
    requires
        has_current(b),
        !ended(b),
        expr_model(b, env, globals, cond, ptr_bits) is Ok,
        expr_model(b, env, globals, cond, ptr_bits)->Ok_0.2 != TypeV::I1,
    ensures
        ({
            let c = expr_model(b, env, globals, cond, ptr_bits)->Ok_0;
            &&& stmt_model(
                b,
                env,
                globals,
                loops,
                Stmt::If { cond, then_body, else_body },
                ret,
                ptr_bits,
                folds,
            ) == stop::<(Build, EnvV)>(
                c.0,
                env,
                loops,
                LowerErrorV::TypeMismatch { expected: TypeV::I1, got: c.2 },
            )
            &&& extends(b, c.0)
            &&& !ended(c.0)
        }),
{
    lemma_expression_only_adds_code(b, env, globals, cond, ptr_bits);
    lemma_extends_keeps_current(b, expr_end(b, env, globals, cond, ptr_bits));
}

/// The function as it stands when the condition of a `while` is lowered:
/// the three blocks of the loop are open, the block before them branches
/// to the block of the condition, and code goes on there.
pub open spec fn while_head(b: Build) -> Build {
    at(
        terminate(
            opened(b, "while.cond"@, "while.body"@, "while.exit"@),
            TermV::Br { target: BlockId(b.next_block) },
        ),
        BlockId(b.next_block),
    )
}

/// Every block of `b` has an identity that was issued before the next one.
pub open spec fn blocks_issued(b: Build) -> bool {
    forall|j: int|
        0 <= j < b.func.blocks.len() ==> (#[trigger] b.func.blocks[j]).id.0 < b.next_block
}

/// An identity that no block has gets the number of blocks as its index.
pub proof fn lemma_index_absent(s: Seq<BlockV>, id: BlockId)
    requires
        forall|j: int| 0 <= j < s.len() ==> (#[trigger] s[j]).id != id,
    ensures
        index_of(s, id) == s.len(),
    decreases s.len(),
{
    if s.len() > 0 {
        assert(s[0].id != id);
        let r = s.subrange(1, s.len() as int);
        assert forall|j: int| 0 <= j < r.len() implies (#[trigger] r[j]).id != id by {
            assert(s[j + 1].id != id);
        }
        lemma_index_absent(r, id);
    }
}

/// The index of an identity among blocks with one more block at their end.
pub proof fn lemma_index_pushed(s: Seq<BlockV>, x: BlockV, id: BlockId)
    ensures
        index_of(s, id) <= s.len(),
        index_of(s.push(x), id) == if index_of(s, id) < s.len() {
            index_of(s, id)
        } else if x.id == id {
            s.len() as int
        } else {
            s.len() as int + 1
        },
    decreases s.len(),
{
    let t = s.push(x);
    if s.len() == 0 {
        assert(t.subrange(1, t.len() as int) =~= Seq::<BlockV>::empty());
        assert(index_of(Seq::<BlockV>::empty(), id) == 0);
        assert(t[0] == x);
    } else if s[0].id != id {
        assert(t[0] == s[0]);
        let r = s.subrange(1, s.len() as int);
        assert(t.subrange(1, t.len() as int) =~= r.push(x));
        lemma_index_pushed(r, x, id);
    } else {
        assert(t[0] == s[0]);
    }
}

/// Where the condition of a `while` is lowered, the current block is the
/// block of the condition, which is open: the first of the three blocks
/// that the loop adds.
pub proof fn lemma_while_head(b: Build)
    requires
        has_current(b),
        blocks_issued(b),
    ensures
        cur(while_head(b)) == b.func.blocks.len(),
        has_current(while_head(b)),
        !ended(while_head(b)),
{
    reveal(new_block);
    reveal(terminate);
    let cond = BlockId(b.next_block);
    let s0 = b.func.blocks;
    let b1 = new_block(b, "while.cond"@);
    let b2 = new_block(b1, "while.body"@);
    let o = opened(b, "while.cond"@, "while.body"@, "while.exit"@);
    let s1 = b1.func.blocks;
    let s2 = b2.func.blocks;
    let s3 = o.func.blocks;
    lemma_index_pushed(s0, s1.last(), b.insert);
    lemma_index_pushed(s1, s2.last(), b.insert);
    lemma_index_pushed(s2, s3.last(), b.insert);
    assert(cur(o) == cur(b));
    assert forall|j: int| 0 <= j < s0.len() implies (#[trigger] s0[j]).id != cond by {}
    lemma_index_absent(s0, cond);
    lemma_index_pushed(s0, s1.last(), cond);
    lemma_index_pushed(s1, s2.last(), cond);
    lemma_index_pushed(s2, s3.last(), cond);
    let t = terminate(o, TermV::Br { target: cond });
    lemma_index_by_identity(s3, t.func.blocks, cond);
}

/// A `while` whose condition is not of the boolean type is refused behind
/// the code of the condition, which stands in the block of the condition:
/// no conditional branch is emitted, and the loop is not entered.
pub proof fn lemma_while_needs_a_boolean(
    b: Build,
    env: EnvV,
    globals: EnvV,
    loops: Loops,
    cond: Expr,
    body: Vec<Stmt>,
    ret: TypeV,
    ptr_bits: u32,
    folds: Seq<FloatFold>,
)
    requires
        has_current(b),
        blocks_issued(b),
        !ended(b),
        expr_model(while_head(b), env, globals, cond, ptr_bits) is Ok,
        expr_model(while_head(b), env, globals, cond, ptr_bits)->Ok_0.2 != TypeV::I1,
    ensures
        ({
            let c = expr_model(while_head(b), env, globals, cond, ptr_bits)->Ok_0;
            &&& stmt_model(
                b,
                env,
                globals,
                loops,
                Stmt::While { cond, body },
                ret,
                ptr_bits,
                folds,
            ) == stop::<(Build, EnvV)>(
                c.0,
                env,
                loops,
                LowerErrorV::TypeMismatch { expected: TypeV::I1, got: c.2 },
            )
            &&& extends(while_head(b), c.0)
            &&& !ended(c.0)
        }),
{
    lemma_while_head(b);
    lemma_expression_only_adds_code(while_head(b), env, globals, cond, ptr_bits);
    lemma_extends_keeps_current(
        while_head(b),
        expr_end(while_head(b), env, globals, cond, ptr_bits),
    );
}

/// A `return` of a value of another type than the function returns is
/// refused behind the code of the value: the current block stays open, and
/// no return is emitted.
pub proof fn lemma_return_of_another_type_ends_nothing(
    b: Build,
    env: EnvV,
    globals: EnvV,
    loops: Loops,
    e: Expr,
    ret: TypeV,
    ptr_bits: u32,
    folds: Seq<FloatFold>,
)
    requires
        has_current(b),
        !ended(b),
        ret != TypeV::Void,
        expr_model(b, env, globals, e, ptr_bits) is Ok,
        expr_model(b, env, globals, e, ptr_bits)->Ok_0.2 != ret,
    ensures
        ({
            let r = expr_model(b, env, globals, e, ptr_bits)->Ok_0;
            &&& stmt_model(b, env, globals, loops, Stmt::Return(Some(e)), ret, ptr_bits, folds)
                == stop::<(Build, EnvV)>(
                r.0,
                env,
                loops,
                LowerErrorV::TypeMismatch { expected: ret, got: r.2 },
            )
            &&& extends(b, r.0)
            &&& !ended(r.0)
        }),
{
    lemma_expression_only_adds_code(b, env, globals, e, ptr_bits);
    lemma_extends_keeps_current(b, expr_end(b, env, globals, e, ptr_bits));
}

/// The body of the function `f`, lowered behind the code that stores its
/// parameters. It is looked at only where the types of `f` are accepted.
pub open spec fn body_model(
    next_value: u32,
    next_block: u32,
    f: Function,
    globals: EnvV,
    ptr_bits: u32,
    folds: Seq<FloatFold>,
) -> Result<(Build, EnvV), Stopped> {
    let ret = type_of(f.return_type)->Ok_0;
    let types = param_types(f.parameters@, f.parameters@.len() as int)->Ok_0;
    let b0 = begun(next_value, next_block, f.name@, f.parameters@, types, ret);
    let p = with_params(b0, f.parameters@, types, f.parameters@.len() as int, ptr_bits);
    stmts_model(p.0, p.1, globals, Seq::empty(), f.body@, 0, ret, ptr_bits, folds)
}

/// The terminator that ends a function whose body leaves its last block
/// open: a return where the function returns nothing, else a trap.
pub open spec fn closing(ret: TypeV) -> TermV {
    if ret == TypeV::Void {
        TermV::Ret { ty: ret, value: None }
    } else {
        TermV::Trap { reason: "missing return"@ }
    }
}

/// The current block gets its terminator and nothing else changes.
pub proof fn lemma_terminate_ends(b: Build, t: TermV)
    requires
        has_current(b),
    ensures
        cur(terminate(b, t)) == cur(b),
        terminate(b, t).func.blocks[cur(b)].terminator == Some(t),
        ended(terminate(b, t)),
{
    reveal(terminate);
    lemma_index_by_identity(b.func.blocks, terminate(b, t).func.blocks, b.insert);
}

/// A lowered function never ends in an open block. Where the body leaves
/// the current block open, the function returns there if it returns
/// nothing, and traps there if it should have returned a value; where the
/// body ended the block itself, nothing is added.
pub proof fn lemma_open_end_returns_or_traps(
    next_value: u32,
    next_block: u32,
    f: Function,
    globals: EnvV,
    ptr_bits: u32,
    folds: Seq<FloatFold>,
)
    requires
        function_model(next_value, next_block, f, globals, ptr_bits, folds) is Ok,
    ensures
        ({
            let g = function_model(next_value, next_block, f, globals, ptr_bits, folds)->Ok_0;
            let body = body_model(next_value, next_block, f, globals, ptr_bits, folds);
            let ret = type_of(f.return_type)->Ok_0;
            &&& body is Ok
            &&& ended(body->Ok_0.0) ==> g == body->Ok_0.0
            &&& !ended(body->Ok_0.0) ==> g == terminate(body->Ok_0.0, closing(ret))
            &&& has_current(body->Ok_0.0) ==> ended(g) && (!ended(body->Ok_0.0)
                ==> g.func.blocks[cur(g)].terminator == Some(closing(ret)))
        }),
{
    let body = body_model(next_value, next_block, f, globals, ptr_bits, folds);
    let ret = type_of(f.return_type)->Ok_0;
    if has_current(body->Ok_0.0) && !ended(body->Ok_0.0) {
        lemma_terminate_ends(body->Ok_0.0, closing(ret));
    }
}

/// The slot of the parameter `i` of `g`: the slots are issued behind the
/// parameters, in their order.
pub open spec fn param_slot(g: FunctionV, i: int) -> ValueId {
    ValueId((g.params[i].id.0 + g.params.len()) as u32)
}

/// The allocation of the slot of the parameter `i` of `g`.
pub open spec fn param_alloca(g: FunctionV, i: int, ptr_bits: u32) -> InstrV {
    InstrV::Alloca {
        dst: param_slot(g, i),
        ty: g.params[i].ty,
        align: align_spec(g.params[i].ty, ptr_bits),
    }
}

/// The store of the parameter `i` of `g` into its slot.
pub open spec fn param_store(g: FunctionV, i: int, ptr_bits: u32) -> InstrV {
    InstrV::Store {
        ty: g.params[i].ty,
        value: g.params[i].id,
        ptr: param_slot(g, i),
        align: align_spec(g.params[i].ty, ptr_bits),
    }
}

/// The parameter `i` of `g` has a slot of its own: the instruction `i` of
/// the entry block allocates it, and further on, behind the allocations
/// for all the parameters, the entry block stores the parameter into it.
pub open spec fn param_stored(g: FunctionV, i: int, ptr_bits: u32) -> bool {
    &&& g.blocks[0].instructions[i] == param_alloca(g, i, ptr_bits)
    &&& exists|k: int|
        g.params.len() <= k < g.blocks[0].instructions.len()
            && #[trigger] g.blocks[0].instructions[k] == param_store(g, i, ptr_bits)
}

/// Every parameter of `g` has a slot of its own: the entry block starts
/// with the allocations of these slots, in the order of the parameters, and
/// further on it stores every parameter into its slot.
pub open spec fn params_stored(g: FunctionV, ptr_bits: u32) -> bool {
    &&& g.blocks.len() >= 1
    &&& g.blocks[0].instructions.len() >= g.params.len()
    &&& forall|i: int| 0 <= i < g.params.len() ==> #[trigger] param_stored(g, i, ptr_bits)
}

/// The index `p` is the length of the run of stack allocations at the start
/// of `s` where it bounds that run from both sides.
pub proof fn lemma_prefix_len_is(s: Seq<InstrV>, p: int)
    requires
        0 <= p <= s.len(),
        forall|j: int| 0 <= j < p ==> (#[trigger] s[j]) is Alloca,
        p < s.len() ==> !(s[p] is Alloca),
    ensures
        prefix_len(s) == p,
    decreases s.len(),
{
    if s.len() > 0 && p > 0 {
        assert(s[0] is Alloca);
        let r = s.subrange(1, s.len() as int);
        assert forall|j: int| 0 <= j < p - 1 implies (#[trigger] r[j]) is Alloca by {
            assert(s[j + 1] is Alloca);
        }
        lemma_prefix_len_is(r, p - 1);
    }
}

/// The entry block behind the first `n` parameters: the allocations of
/// their slots, then the stores into them.
pub open spec fn params_code(b: Build, types: Seq<TypeV>, n: int, ptr_bits: u32) -> Seq<InstrV> {
    Seq::new(
        n as nat,
        |i: int|
            InstrV::Alloca {
                dst: ValueId((b.next_value + i) as u32),
                ty: types[i],
                align: align_spec(types[i], ptr_bits),
            },
    ) + Seq::new(
        n as nat,
        |i: int|
            InstrV::Store {
                ty: types[i],
                value: b.func.params[i].id,
                ptr: ValueId((b.next_value + i) as u32),
                align: align_spec(types[i], ptr_bits),
            },
    )
}

/// Storing the first `n` parameters of a function that has just begun
/// fills its entry block with the allocations of their slots, in order,
/// followed by the stores into them, in order, and does nothing else to
/// the blocks.
pub proof fn lemma_params_spilled(
    b: Build,
    params: Seq<Parameter>,
    types: Seq<TypeV>,
    n: int,
    ptr_bits: u32,
)
    requires
        b.func.blocks.len() == 1,
        b.func.blocks[0].id == b.insert,
        b.func.blocks[0].instructions.len() == 0,
        0 <= n,
        b.next_value + n <= u32::MAX,
    ensures
        ({
            let p = with_params(b, params, types, n, ptr_bits).0;
            &&& p.insert == b.insert
            &&& p.next_value == b.next_value + n
            &&& p.func.params == b.func.params
            &&& p.func.blocks.len() == 1
            &&& p.func.blocks[0].id == b.func.blocks[0].id
            &&& p.func.blocks[0].instructions == params_code(b, types, n, ptr_bits)
            &&& prefix_len(p.func.blocks[0].instructions) == n
        }),
    decreases n,
{
    reveal(define);
    reveal(emit);
    reveal(hoist);
    reveal(with_instr);
    let p = with_params(b, params, types, n, ptr_bits).0;
    if n <= 0 {
        assert(p.func.blocks[0].instructions =~= params_code(b, types, n, ptr_bits));
    } else {
        lemma_params_spilled(b, params, types, n - 1, ptr_bits);
        let q = with_params(b, params, types, n - 1, ptr_bits).0;
        let ty = types[n - 1];
        let align = align_spec(ty, ptr_bits);
        let h = hoist(q, ty, align);
        assert(cur(q) == 0);
        assert(h.func.blocks[0].id == b.insert);
        assert(cur(h) == 0);
        let e0 = q.func.blocks[0].instructions;
        let e1 = h.func.blocks[0].instructions;
        let e2 = p.func.blocks[0].instructions;
        let slot = InstrV::Alloca { dst: fresh(q), ty, align };
        let store = InstrV::Store { ty, value: b.func.params[n - 1].id, ptr: fresh(q), align };
        assert(e1 == e0.insert(n - 1, slot));
        assert(e2 == e1.insert(e1.len() as int, store));
        let want = params_code(b, types, n, ptr_bits);
        assert(e2.len() == want.len());
        assert forall|j: int| 0 <= j < e2.len() implies e2[j] == want[j] by {
            if j < n - 1 {
                assert(e1[j] == e0[j]);
            } else if j == n - 1 {
                assert(e1[j] == slot);
            } else if j < 2 * n - 1 {
                assert(e1[j] == e0[j - 1]);
            } else {
                assert(e2[j] == store);
            }
        }
        assert(e2 =~= want);
        lemma_prefix_len_is(e2, n);
    }
}

/// The entry block of `g` is the allocations of the slots of its
/// parameters, in order, followed by the stores of the parameters into
/// them, in order.
pub open spec fn params_spilled(g: FunctionV, ptr_bits: u32) -> bool {
    &&& g.blocks.len() >= 1
    &&& g.blocks[0].instructions.len() == 2 * g.params.len()
    &&& forall|i: int| 0 <= i < g.params.len() ==> #[trigger] param_spilled(g, i, ptr_bits)
}

/// Instruction `i` of the entry block of `g` allocates the slot of the
/// parameter `i`, and instruction `i` behind the allocations stores the
/// parameter into it.
pub open spec fn param_spilled(g: FunctionV, i: int, ptr_bits: u32) -> bool {
    &&& g.blocks[0].instructions[i] == param_alloca(g, i, ptr_bits)
    &&& g.blocks[0].instructions[g.params.len() + i] == param_store(g, i, ptr_bits)
}

/// A function that has just begun and has stored its parameters holds the
/// allocations of their slots and the stores into them, and nothing else.
pub proof fn lemma_begun_params_spilled(
    next_value: u32,
    next_block: u32,
    name: Seq<char>,
    params: Seq<Parameter>,
    types: Seq<TypeV>,
    ret: TypeV,
    ptr_bits: u32,
)
    requires
        types.len() == params.len(),
        next_value + 2 * params.len() <= u32::MAX,
    ensures
        ({
            let b = begun(next_value, next_block, name, params, types, ret);
            let p = with_params(b, params, types, params.len() as int, ptr_bits).0;
            &&& params_spilled(p.func, ptr_bits)
            &&& prefix_len(p.func.blocks[0].instructions) == params.len()
        }),
{
    let n = params.len() as int;
    let b = begun(next_value, next_block, name, params, types, ret);
    let p = with_params(b, params, types, n, ptr_bits).0;
    lemma_params_spilled(b, params, types, n, ptr_bits);
    let e = p.func.blocks[0].instructions;
    assert forall|i: int| 0 <= i < n implies #[trigger] param_spilled(p.func, i, ptr_bits) by {
        assert(p.func.params[i].id == ValueId((next_value + i) as u32));
        assert(p.func.params[i].ty == types[i]);
    }
}

/// The expression that a statement lowers first, for the statements that
/// have one and are no `if` and no `while`.
pub open spec fn leading_expr(s: Stmt) -> Option<Expr> {
    match s {
        Stmt::Return(Some(e)) => Some(e),
        Stmt::VarDecl { init: Some(e), .. } => Some(e),
        Stmt::Assign { value, .. } => Some(value),
        Stmt::ExprStmt(e) => Some(e),
        _ => None,
    }
}

/// A statement other than an `if` or a `while` that is refused has added
/// nothing of its own: the function is as it was, or as the expression of
/// the statement left it. Either way only code was added at the end of the
/// current block: no block was opened or ended, so that nothing was
/// branched or returned.
pub proof fn lemma_refused_statement_adds_nothing_of_its_own(
    b: Build,
    env: EnvV,
    globals: EnvV,
    loops: Loops,
    s: Stmt,
    ret: TypeV,
    ptr_bits: u32,
    folds: Seq<FloatFold>,
)
    requires
        has_current(b),
        !(s is If),
        !(s is While),
        stmt_model(b, env, globals, loops, s, ret, ptr_bits, folds) is Err,
    ensures
        ({
            let t = stmt_model(b, env, globals, loops, s, ret, ptr_bits, folds)->Err_0;
            &&& t.env == env
            &&& t.loops == loops
            &&& extends(b, t.build)
            &&& t.build == b || (leading_expr(s) is Some && t.build == expr_end(
                b,
                env,
                globals,
                leading_expr(s)->Some_0,
                ptr_bits,
            ))
        }),
{
    match leading_expr(s) {
        Some(e) => {
            lemma_expression_only_adds_code(b, env, globals, e, ptr_bits);
        },
        None => {},
    }
}

} // verus!
