//! The rules by which lowering accepts or rejects a program, stated apart
//! from the code that lowering emits: the type of every expression, the
//! scope that every statement leaves behind, and the first error in source
//! order.

use vstd::prelude::*;
use crate::ir::instr::ConstValue;
use crate::ir::lower_ast::binding::{Kind, lookup, Sig};
use crate::ir::lower_ast::consteval::{const_eval, lit_value, FloatFold};
use crate::ir::lower_ast::error::LowerErrorV;
use crate::ir::lower_ast::frontend::{Expr, Function, GlobalConst, Parameter, Program, Stmt};
use crate::ir::lower_ast::support::{binop_of, compare_of, type_of};
use crate::ir::types::TypeV;

verus! {

/// The type of the value that the expression `e` lowers to, or the error
/// that lowering it gives. A name is looked up in the scope first and among
/// the global constants second. The operands of an operation are lowered
/// left to right and must have the same type, on which the operation must
/// exist.
pub open spec fn expr_type(e: Expr, sig: Sig, globals: Sig) -> Result<TypeV, LowerErrorV>
    decreases e,
{
    match e {
        Expr::Var(name) => match lookup(sig, name@) {
            Some(Kind::Var(ty)) => Ok(ty),
            Some(Kind::Const(ty, _)) => Ok(ty),
            None => match lookup(globals, name@) {
                Some(Kind::Const(ty, _)) => Ok(ty),
                _ => Err(LowerErrorV::UnknownVariable(name@)),
            },
        },
        Expr::Lit(l) => match lit_value(l) {
            Ok(v) => Ok(v.0),
            Err(e) => Err(e),
        },
        Expr::Binary { left, op, right } => match expr_type(*left, sig, globals) {
            Err(e) => Err(e),
            Ok(lt) => match expr_type(*right, sig, globals) {
                Err(e) => Err(e),
                Ok(rt) => if lt != rt {
                    Err(LowerErrorV::TypeMismatch { expected: lt, got: rt })
                } else {
                    match binop_of(op, lt) {
                        Err(e) => Err(e),
                        Ok(_) => Ok(lt),
                    }
                },
            },
        },
        Expr::Cmp { left, op, right } => match expr_type(*left, sig, globals) {
            Err(e) => Err(e),
            Ok(lt) => match expr_type(*right, sig, globals) {
                Err(e) => Err(e),
                Ok(rt) => if lt != rt {
                    Err(LowerErrorV::TypeMismatch { expected: lt, got: rt })
                } else {
                    match compare_of(op, lt) {
                        Err(e) => Err(e),
                        Ok(_) => Ok(TypeV::I1),
                    }
                },
            },
        },
    }
}

/// Where lowering stands between two statements: the names in scope, and
/// whether the block that code is added to has ended already, in which case
/// the statements that follow are dead and are passed over.
pub struct Scope {
    pub sig: Sig,
    pub terminated: bool,
}

/// The scope with the block still open.
pub open spec fn open_scope(sig: Sig) -> Scope {
    Scope { sig, terminated: false }
}

/// The scope with the block ended.
pub open spec fn closed_scope(sig: Sig) -> Scope {
    Scope { sig, terminated: true }
}

/// The scope that the statement `s` leaves behind, or the error that
/// lowering it gives.
///
/// A statement behind the end of its block is passed over, whatever it
/// holds. A return ends the block; in a function that returns a value it
/// must carry an expression of the return type. A constant declaration
/// binds the name to the value of its initializer, which must be a constant
/// of the declared type. A variable declaration binds the name to a
/// variable of the declared type; an initializer must have that type. An
/// assignment needs a variable of the type of the value. The condition of
/// an `if` or a `while` is a boolean; the bodies are scopes of their own,
/// and what they bind ends with them. `break` and `continue` need a loop
/// around them and end the block.
pub open spec fn stmt_outcome(
    s: Stmt,
    scope: Scope,
    globals: Sig,
    in_loop: bool,
    ret: TypeV,
    folds: Seq<FloatFold>,
) -> Result<Scope, LowerErrorV>
    decreases s,
{
    let sig = scope.sig;
    if scope.terminated {
        Ok(scope)
    } else {
        match s {
            Stmt::Return(opt) => if ret == TypeV::Void {
                Ok(closed_scope(sig))
            } else {
                match opt {
                    None => Err(LowerErrorV::UnsupportedStmt),
                    Some(e) => match expr_type(e, sig, globals) {
                        Err(e) => Err(e),
                        Ok(ty) => if ty != ret {
                            Err(LowerErrorV::TypeMismatch { expected: ret, got: ty })
                        } else {
                            Ok(closed_scope(sig))
                        },
                    },
                }
            },
            Stmt::ConstDecl { name, ty, init } => match type_of(ty) {
                Err(e) => Err(e),
                Ok(decl) => match const_eval(init, Some(sig), globals, folds) {
                    Err(e) => Err(e),
                    Ok(v) => if v.0 != decl {
                        Err(LowerErrorV::TypeMismatch { expected: decl, got: v.0 })
                    } else {
                        Ok(open_scope(sig.push((name@, Kind::Const(v.0, v.1)))))
                    },
                },
            },
            Stmt::VarDecl { name, ty, init } => match type_of(ty) {
                Err(e) => Err(e),
                Ok(decl) => {
                    let value = match init {
                        Some(e) => expr_type(e, sig, globals),
                        None => Ok(decl),
                    };
                    match value {
                        Err(e) => Err(e),
                        Ok(vty) => if vty != decl {
                            Err(LowerErrorV::TypeMismatch { expected: decl, got: vty })
                        } else {
                            Ok(open_scope(sig.push((name@, Kind::Var(decl)))))
                        },
                    }
                },
            },
            Stmt::Assign { name, value } => match expr_type(value, sig, globals) {
                Err(e) => Err(e),
                Ok(vty) => match lookup(sig, name@) {
                    None => Err(LowerErrorV::UnknownVariable(name@)),
                    Some(Kind::Const(_, _)) => Err(LowerErrorV::AssignToConst(name@)),
                    Some(Kind::Var(ty)) => if vty != ty {
                        Err(LowerErrorV::TypeMismatch { expected: ty, got: vty })
                    } else {
                        Ok(scope)
                    },
                },
            },
            Stmt::ExprStmt(e) => match expr_type(e, sig, globals) {
                Err(e) => Err(e),
                Ok(_) => Ok(scope),
            },
            Stmt::If { cond, then_body, else_body } => match expr_type(cond, sig, globals) {
                Err(e) => Err(e),
                Ok(cty) => if cty != TypeV::I1 {
                    Err(LowerErrorV::TypeMismatch { expected: TypeV::I1, got: cty })
                } else {
                    match stmts_outcome(then_body@, 0, open_scope(sig), globals, in_loop, ret,
                        folds) {
                        Err(e) => Err(e),
                        Ok(_) => match stmts_outcome(
                            else_body@,
                            0,
                            open_scope(sig),
                            globals,
                            in_loop,
                            ret,
                            folds,
                        ) {
                            Err(e) => Err(e),
                            Ok(_) => Ok(scope),
                        },
                    }
                },
            },
            Stmt::While { cond, body } => match expr_type(cond, sig, globals) {
                Err(e) => Err(e),
                Ok(cty) => if cty != TypeV::I1 {
                    Err(LowerErrorV::TypeMismatch { expected: TypeV::I1, got: cty })
                } else {
                    match stmts_outcome(body@, 0, open_scope(sig), globals, true, ret, folds) {
                        Err(e) => Err(e),
                        Ok(_) => Ok(scope),
                    }
                },
            },
            Stmt::Break => if in_loop {
                Ok(closed_scope(sig))
            } else {
                Err(LowerErrorV::BreakOutsideLoop)
            },
            Stmt::Continue => if in_loop {
                Ok(closed_scope(sig))
            } else {
                Err(LowerErrorV::ContinueOutsideLoop)
            },
        }
    }
}

/// The scope that the statements `ss[from..]` leave behind, taken in order,
/// or the first error among them.
pub open spec fn stmts_outcome(
    ss: Seq<Stmt>,
    from: int,
    scope: Scope,
    globals: Sig,
    in_loop: bool,
    ret: TypeV,
    folds: Seq<FloatFold>,
) -> Result<Scope, LowerErrorV>
    decreases ss, ss.len() - from,
{
    if 0 <= from < ss.len() {
        match stmt_outcome(ss[from], scope, globals, in_loop, ret, folds) {
            Err(e) => Err(e),
            Ok(next) => stmts_outcome(ss, from + 1, next, globals, in_loop, ret, folds),
        }
    } else {
        Ok(scope)
    }
}

/// The types of the first `n` parameters, or the first error among them.
pub open spec fn param_types(ps: Seq<Parameter>, n: int) -> Result<Seq<TypeV>, LowerErrorV>
    decreases n,
{
    if n <= 0 {
        Ok(Seq::empty())
    } else {
        match param_types(ps, n - 1) {
            Err(e) => Err(e),
            Ok(ts) => match type_of(ps[n - 1].ty) {
                Err(e) => Err(e),
                Ok(t) => Ok(ts.push(t)),
            },
        }
    }
}

/// The scope at the start of a function's body: every parameter is a
/// variable of its type, in order.
pub open spec fn param_scope(ps: Seq<Parameter>, types: Seq<TypeV>) -> Sig {
    Seq::new(ps.len(), |i: int| (ps[i].name@, Kind::Var(types[i])))
}

/// The error that lowering the function `f` gives, if any: that of its
/// return type, else the first among its parameter types, else the first
/// in its body.
pub open spec fn function_outcome(f: Function, globals: Sig,
    folds: Seq<FloatFold>) -> Option<LowerErrorV> {
    match type_of(f.return_type) {
        Err(e) => Some(e),
        Ok(ret) => match param_types(f.parameters@, f.parameters@.len() as int) {
            Err(e) => Some(e),
            Ok(types) => match stmts_outcome(
                f.body@,
                0,
                open_scope(param_scope(f.parameters@, types)),
                globals,
                false,
                ret,
                folds,
            ) {
                Err(e) => Some(e),
                Ok(_) => None,
            },
        },
    }
}

/// The first error among the functions `fs[from..]`.
pub open spec fn functions_outcome(fs: Seq<Function>, from: int, globals: Sig,
    folds: Seq<FloatFold>) -> Option<
    LowerErrorV,
>
    decreases fs.len() - from,
{
    if 0 <= from < fs.len() {
        match function_outcome(fs[from], globals, folds) {
            Some(e) => Some(e),
            None => functions_outcome(fs, from + 1, globals, folds),
        }
    } else {
        None
    }
}

/// The global constants that the first `n` globals of the program define,
/// or the first error among them. A name may be defined once. The
/// initializer is a constant expression over the globals before it, and has
/// the declared type.
pub open spec fn globals_outcome(gs: Seq<GlobalConst>, n: int,
    folds: Seq<FloatFold>) -> Result<Sig, LowerErrorV>
    decreases n,
{
    if n <= 0 {
        Ok(Seq::empty())
    } else {
        match globals_outcome(gs, n - 1, folds) {
            Err(e) => Err(e),
            Ok(sig) => {
                let g = gs[n - 1];
                if lookup(sig, g.name@) is Some {
                    Err(LowerErrorV::DuplicateGlobal(g.name@))
                } else {
                    match type_of(g.ty) {
                        Err(e) => Err(e),
                        Ok(decl) => match const_eval(g.init, None, sig, folds) {
                            Err(e) => Err(e),
                            Ok(v) => if v.0 != decl {
                                Err(LowerErrorV::TypeMismatch { expected: decl, got: v.0 })
                            } else {
                                Ok(sig.push((g.name@, Kind::Const(v.0, v.1))))
                            },
                        },
                    }
                }
            },
        }
    }
}

/// The global constants of a program that lowering accepts, or the error
/// for which it rejects the program: the first among the globals, else the
/// first among the functions.
pub open spec fn program_outcome(p: Program, folds: Seq<FloatFold>) -> Result<Sig, LowerErrorV> {
    match globals_outcome(p.globals@, p.globals@.len() as int, folds) {
        Err(e) => Err(e),
        Ok(sig) => match functions_outcome(p.functions@, 0, sig, folds) {
            Some(e) => Err(e),
            None => Ok(sig),
        },
    }
}

/// An upper bound on the number of values, and on the number of blocks,
/// that lowering the expression `e` issues.
pub open spec fn expr_cost(e: Expr) -> nat
    decreases e,
{
    match e {
        Expr::Var(_) => 1,
        Expr::Lit(_) => 1,
        Expr::Binary { left, right, .. } => expr_cost(*left) + expr_cost(*right) + 1,
        Expr::Cmp { left, right, .. } => expr_cost(*left) + expr_cost(*right) + 1,
    }
}

/// An upper bound on the number of values, and on the number of blocks,
/// that lowering the statement `s` issues.
pub open spec fn stmt_cost(s: Stmt) -> nat
    decreases s,
{
    match s {
        Stmt::Return(opt) => match opt {
            Some(e) => expr_cost(e),
            None => 0,
        },
        Stmt::ConstDecl { .. } => 0,
        Stmt::VarDecl { init, .. } => match init {
            Some(e) => expr_cost(e) + 1,
            None => 2,
        },
        Stmt::Assign { value, .. } => expr_cost(value),
        Stmt::ExprStmt(e) => expr_cost(e),
        Stmt::If { cond, then_body, else_body } => expr_cost(cond) + 3 + stmts_cost(then_body@, 0)
            + stmts_cost(else_body@, 0),
        Stmt::While { cond, body } => expr_cost(cond) + 3 + stmts_cost(body@, 0),
        Stmt::Break => 0,
        Stmt::Continue => 0,
    }
}

/// The sum of the bounds for the statements `ss[from..]`.
pub open spec fn stmts_cost(ss: Seq<Stmt>, from: int) -> nat
    decreases ss, ss.len() - from,
{
    if 0 <= from < ss.len() {
        stmt_cost(ss[from]) + stmts_cost(ss, from + 1)
    } else {
        0
    }
}

/// An upper bound on the number of values, and on the number of blocks,
/// that lowering the function `f` issues: a value and a stack slot for each
/// parameter, the entry block, and what the body needs.
pub open spec fn function_cost(f: Function) -> nat {
    2 * f.parameters@.len() + 1 + stmts_cost(f.body@, 0)
}

/// The sum of the bounds for the functions `fs[from..]`.
pub open spec fn functions_cost(fs: Seq<Function>, from: int) -> nat
    decreases fs.len() - from,
{
    if 0 <= from < fs.len() {
        function_cost(fs[from]) + functions_cost(fs, from + 1)
    } else {
        0
    }
}

/// An upper bound on the number of values, and on the number of blocks,
/// that lowering the program issues. Identifiers are 32 bits wide, so a
/// program can be lowered where this bound is below two to the power of 32.
pub open spec fn program_cost(p: Program) -> nat {
    functions_cost(p.functions@, 0)
}

/// What an `if` or a `while` binds ends with it: the names in scope behind
/// the statement are those in front of it.
pub proof fn lemma_bodies_keep_the_scope(
    s: Stmt,
    scope: Scope,
    globals: Sig,
    in_loop: bool,
    ret: TypeV,
    folds: Seq<FloatFold>,
)
    requires
        s is If || s is While,
        stmt_outcome(s, scope, globals, in_loop, ret, folds) is Ok,
    ensures
        stmt_outcome(s, scope, globals, in_loop, ret, folds)->Ok_0.sig == scope.sig,
{
}

/// An assignment to a name that is bound to a constant is rejected,
/// whatever the value is, as long as the value itself can be lowered.
pub proof fn lemma_constants_cannot_be_assigned(
    name: String,
    value: Expr,
    scope: Scope,
    globals: Sig,
    in_loop: bool,
    ret: TypeV,
    folds: Seq<FloatFold>,
)
    requires
        !scope.terminated,
        lookup(scope.sig, name@) matches Some(Kind::Const(_, _)),
        expr_type(value, scope.sig, globals) is Ok,
    ensures
        stmt_outcome(Stmt::Assign { name, value }, scope, globals, in_loop, ret, folds) == Err::<
            Scope,
            LowerErrorV,
        >(LowerErrorV::AssignToConst(name@)),
{
}

} // verus!
