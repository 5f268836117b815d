//! Whether a program is small enough to be lowered with 32-bit
//! identifiers.

use vstd::prelude::*;
use crate::ir::builder::ModuleBuilder;
use crate::ir::lower_ast::binding::Env;
use crate::ir::lower_ast::error::LowerError;
use crate::ir::lower_ast::frontend::{Expr, Function, Program, Stmt};
use crate::ir::lower_ast::consteval::FloatFold;
use crate::ir::lower_ast::o0::{
    function_lowering_of, lower_function_o0, lower_o0, lower_o0_with, lowering_of,
};
use crate::ir::lower_ast::rules::{
    expr_cost, function_cost, functions_cost, program_cost, stmt_cost, stmts_cost,
};
use crate::ir::module::Module;
use crate::ir::types::DataLayout;

verus! {

/// The number `n`, or two to the power of 32 where `n` is larger.
pub open spec fn capped(n: nat) -> u64 {
    if n >= 0x1_0000_0000 {
        0x1_0000_0000u64
    } else {
        n as u64
    }
}

/// The sum of two capped numbers, capped.
fn add_capped(a: u64, b: u64) -> (r: u64)
    requires
        a <= 0x1_0000_0000,
        b <= 0x1_0000_0000,
    ensures
        r <= 0x1_0000_0000,
        forall|x: nat, y: nat| a == capped(x) && b == capped(y) ==> r == #[trigger] capped(x + y),
{
    let sum = a + b;
    if sum >= 0x1_0000_0000 {
        0x1_0000_0000
    } else {
        sum
    }
}

/// The cost of an expression, capped.
fn expr_cost_capped(e: &Expr) -> (r: u64)
    ensures
        r == capped(expr_cost(*e)),
    decreases e,
{
    match e {
        Expr::Var(_) => 1,
        Expr::Lit(_) => 1,
        Expr::Binary { left, right, .. } => {
            let l = expr_cost_capped(left);
            let r = expr_cost_capped(right);
            let both = add_capped(l, r);
            assert(both == capped(expr_cost(**left) + expr_cost(**right)));
            let all = add_capped(both, 1);
            assert(capped(1) == 1);
            assert(all == capped(expr_cost(**left) + expr_cost(**right) + 1));
            all
        },
        Expr::Cmp { left, right, .. } => {
            let l = expr_cost_capped(left);
            let r = expr_cost_capped(right);
            let both = add_capped(l, r);
            assert(both == capped(expr_cost(**left) + expr_cost(**right)));
            let all = add_capped(both, 1);
            assert(capped(1) == 1);
            assert(all == capped(expr_cost(**left) + expr_cost(**right) + 1));
            all
        },
    }
}

/// The cost of a list of statements, capped.
fn stmts_cost_capped(ss: &Vec<Stmt>) -> (r: u64)
    ensures
        r == capped(stmts_cost(ss@, 0)),
    decreases ss,
{
    let mut acc: u64 = 0;
    let mut i: usize = ss.len();
    while i > 0
        invariant
            i <= ss.len(),
            acc == capped(stmts_cost(ss@, i as int)),
        decreases i,
    {
        i -= 1;
        let c = stmt_cost_capped(&ss[i]);
        let next = add_capped(c, acc);
        assert(next == capped(stmt_cost(ss@[i as int]) + stmts_cost(ss@, i + 1)));
        acc = next;
    }
    acc
}

/// The cost of a statement, capped.
fn stmt_cost_capped(s: &Stmt) -> (r: u64)
    ensures
        r == capped(stmt_cost(*s)),
    decreases s,
{
    match s {
        Stmt::Return(opt) => match opt {
            Some(e) => expr_cost_capped(e),
            None => 0,
        },
        Stmt::ConstDecl { .. } => 0,
        Stmt::VarDecl { init, .. } => match init {
            Some(e) => {
                let c = expr_cost_capped(e);
                assert(capped(1) == 1);
                let all = add_capped(c, 1);
                assert(all == capped(expr_cost(*e) + 1));
                all
            },
            None => 2,
        },
        Stmt::Assign { value, .. } => expr_cost_capped(value),
        Stmt::ExprStmt(e) => expr_cost_capped(e),
        Stmt::If { cond, then_body, else_body } => {
            let c = expr_cost_capped(cond);
            assert(capped(3) == 3);
            let a = add_capped(c, 3);
            assert(a == capped(expr_cost(*cond) + 3));
            let t = stmts_cost_capped(then_body);
            let b = add_capped(a, t);
            assert(b == capped(expr_cost(*cond) + 3 + stmts_cost(then_body@, 0)));
            let e = stmts_cost_capped(else_body);
            let all = add_capped(b, e);
            assert(all == capped(
                expr_cost(*cond) + 3 + stmts_cost(then_body@, 0) + stmts_cost(else_body@, 0),
            ));
            all
        },
        Stmt::While { cond, body } => {
            let c = expr_cost_capped(cond);
            assert(capped(3) == 3);
            let a = add_capped(c, 3);
            assert(a == capped(expr_cost(*cond) + 3));
            let t = stmts_cost_capped(body);
            let all = add_capped(a, t);
            assert(all == capped(expr_cost(*cond) + 3 + stmts_cost(body@, 0)));
            all
        },
        Stmt::Break => 0,
        Stmt::Continue => 0,
    }
}

/// The cost of a function, capped.
fn function_cost_capped(f: &Function) -> (r: u64)
    ensures
        r == capped(function_cost(*f)),
{
    let n = f.parameters.len();
    let params: u64 = if n >= 0x8000_0000 {
        0x1_0000_0000
    } else {
        2 * (n as u64) + 1
    };
    assert(params == capped(2 * f.parameters@.len() + 1));
    let body = stmts_cost_capped(&f.body);
    let all = add_capped(params, body);
    assert(all == capped(2 * f.parameters@.len() + 1 + stmts_cost(f.body@, 0)));
    all
}

/// Whether the program is small enough to be lowered: whether the bound on
/// the number of identifiers that lowering issues is below two to the power
/// of 32.
pub fn program_fits(program: &Program) -> (r: bool)
    ensures
        r == (program_cost(*program) <= u32::MAX),
{
    let mut acc: u64 = 0;
    let mut i: usize = program.functions.len();
    while i > 0
        invariant
            i <= program.functions.len(),
            acc == capped(functions_cost(program.functions@, i as int)),
        decreases i,
    {
        i -= 1;
        let c = function_cost_capped(&program.functions[i]);
        let next = add_capped(c, acc);
        assert(next == capped(
            function_cost(program.functions@[i as int]) + functions_cost(
                program.functions@,
                i + 1,
            ),
        ));
        acc = next;
    }
    acc <= 0xffff_ffff
}

/// Lowers the program with a table of floating-point results where it is
/// small enough to be lowered, and gives nothing where it is not.
pub fn try_lower_o0_with(
    program: &Program,
    target: &str,
    datalayout: DataLayout,
    folds: &Vec<FloatFold>,
) -> (r: Option<Result<Module, LowerError>>)
    ensures
        r is None <==> program_cost(*program) > u32::MAX,
        r matches Some(lowered) ==> lowering_of(*program, target@, datalayout, lowered, folds@),
{
    if program_fits(program) {
        Some(lower_o0_with(program, target, datalayout, folds))
    } else {
        None
    }
}

/// Lowers the program where it is small enough to be lowered, and gives
/// nothing where it is not.
pub fn try_lower_o0(program: &Program, target: &str, datalayout: DataLayout) -> (r: Option<
    Result<Module, LowerError>,
>)
    ensures
        r is None <==> program_cost(*program) > u32::MAX,
        r matches Some(lowered) ==> lowering_of(
            *program,
            target@,
            datalayout,
            lowered,
            Seq::<FloatFold>::empty(),
        ),
{
    if program_fits(program) {
        Some(lower_o0(program, target, datalayout))
    } else {
        None
    }
}

/// Whether enough identifiers are left to lower the function `f` with the
/// module builder `mb`: whether the bound on what lowering issues, added
/// to what was issued already, stays below two to the power of 32.
pub fn function_fits(mb: &ModuleBuilder, f: &Function) -> (r: bool)
    ensures
        r == (mb.next_value() + function_cost(*f) <= u32::MAX
            && mb.next_block() + function_cost(*f) <= u32::MAX),
{
    let cost = function_cost_capped(f);
    let values: u64 = mb.values_issued() as u64;
    let blocks: u64 = mb.blocks_issued() as u64;
    values + cost <= 0xffff_ffff && blocks + cost <= 0xffff_ffff
}

/// Lowers the function and adds it to the module where enough identifiers
/// are left, and does nothing where they are not.
pub fn try_lower_function_o0(
    mb: &mut ModuleBuilder,
    f: &Function,
    global_consts: &Env,
    ptr_bits: u32,
    folds: &Vec<FloatFold>,
) -> (r: Option<Result<(), LowerError>>)
    ensures
        r is Some <==> (old(mb).next_value() + function_cost(*f) <= u32::MAX
            && old(mb).next_block() + function_cost(*f) <= u32::MAX),
        r is None ==> *final(mb) == *old(mb),
        r matches Some(lowered) ==> function_lowering_of(
            *old(mb),
            *final(mb),
            *f,
            *global_consts,
            ptr_bits,
            folds@,
            lowered,
        ),
{
    if function_fits(mb, f) {
        Some(lower_function_o0(mb, f, global_consts, ptr_bits, folds))
    } else {
        None
    }
}

} // verus!
