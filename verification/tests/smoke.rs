use whale::ir::lower_ast::frontend as s;
use whale::ir::{lower_o0, print_module, verify_module, DataLayout, ModuleBuilder, Type};

#[test]
fn smoke_build_print_verify() {
    let mut mb = ModuleBuilder::new("x86_64-whale-linux", DataLayout::default_64bit_le());

    let mut fb = mb.begin_function(
        "add_i32",
        vec![("a".into(), Type::I32), ("b".into(), Type::I32)],
        Type::I32,
    );

    let a = fb.param_value(0);
    let b = fb.param_value(1);

    let t0 = fb.add(Type::I32, a, b);
    fb.ret(Some(t0));
    fb.finish();

    let module = mb.finish();

    verify_module(&module).unwrap();

    let s = print_module(&module);
    assert!(s.contains("fn @add_i32"));
}

#[test]
fn smoke_lower_socket_o0_global_const() {
    let i32s = s::TypeRef::Int { bits: 32, signed: true };

    let program = s::Program {
        globals: vec![s::GlobalConst {
            name: "A".into(),
            ty: i32s.clone(),
            init: s::Expr::Lit(s::Lit::Int { bits: 32, signed: true, value: 123 }),
        }],
        functions: vec![s::Function {
            name: "main".into(),
            parameters: vec![],
            return_type: i32s.clone(),
            body: vec![s::Stmt::Return(Some(s::Expr::Var("A".into())))],
        }],
    };

    let module = lower_o0(&program, "x86_64-whale-linux", DataLayout::default_64bit_le()).unwrap();
    verify_module(&module).unwrap();

    let txt = print_module(&module);
    assert!(txt.contains("global @A: i32 = const i32 123, align 4"));
    assert!(txt.contains("fn @main"));
    assert!(txt.contains("ret i32"));
}

#[test]
fn smoke_lower_socket_o0_add() {
    let program = s::Program {
        globals: vec![],
        functions: vec![s::Function {
            name: "add".into(),
            parameters: vec![
                s::Parameter { name: "a".into(), ty: s::TypeRef::Int { bits: 32, signed: true } },
                s::Parameter { name: "b".into(), ty: s::TypeRef::Int { bits: 32, signed: true } },
            ],
            return_type: s::TypeRef::Int { bits: 32, signed: true },
            body: vec![s::Stmt::Return(Some(s::Expr::Binary {
                left: Box::new(s::Expr::Var("a".into())),
                op: s::BinOpRef::Add,
                right: Box::new(s::Expr::Var("b".into())),
            }))],
        }],
    };

    let module = lower_o0(&program, "x86_64-whale-linux", DataLayout::default_64bit_le()).unwrap();
    verify_module(&module).unwrap();

    let s = print_module(&module);
    assert!(s.contains("fn @add"));
    assert!(s.contains("add i32"));
    assert!(s.contains("ret i32"));
}

#[test]
fn smoke_lower_socket_o0_if_max() {
    let i32s = s::TypeRef::Int { bits: 32, signed: true };

    let program = s::Program {
        globals: vec![],
        functions: vec![s::Function {
            name: "max".into(),
            parameters: vec![
                s::Parameter { name: "a".into(), ty: i32s.clone() },
                s::Parameter { name: "b".into(), ty: i32s.clone() },
            ],
            return_type: i32s.clone(),
            body: vec![
                s::Stmt::VarDecl {
                    name: "x".into(),
                    ty: i32s.clone(),
                    init: Some(s::Expr::Lit(s::Lit::Int { bits: 32, signed: true, value: 0 })),
                },
                s::Stmt::If {
                    cond: s::Expr::Cmp {
                        left: Box::new(s::Expr::Var("a".into())),
                        op: s::CmpOpRef::Gt,
                        right: Box::new(s::Expr::Var("b".into())),
                    },
                    then_body: vec![s::Stmt::Assign {
                        name: "x".into(),
                        value: s::Expr::Var("a".into()),
                    }],
                    else_body: vec![s::Stmt::Assign {
                        name: "x".into(),
                        value: s::Expr::Var("b".into()),
                    }],
                },
                s::Stmt::Return(Some(s::Expr::Var("x".into()))),
            ],
        }],
    };

    let module = lower_o0(&program, "x86_64-whale-linux", DataLayout::default_64bit_le()).unwrap();
    verify_module(&module).unwrap();

    let s = print_module(&module);
    assert!(s.contains("fn @max"));
    assert!(s.contains("cmp sgt i32"));
    assert!(s.contains("cbr i1"));
    assert!(s.contains("ret i32"));
}

fn lit_i32(v: i128) -> s::Expr {
    s::Expr::Lit(s::Lit::Int { bits: 32, signed: true, value: v })
}

#[test]
fn smoke_lower_socket_o0_while_sum() {
    let i32s = s::TypeRef::Int { bits: 32, signed: true };

    let program = s::Program {
        globals: vec![],
        functions: vec![s::Function {
            name: "sum_to_n".into(),
            parameters: vec![s::Parameter { name: "n".into(), ty: i32s.clone() }],
            return_type: i32s.clone(),
            body: vec![
                s::Stmt::VarDecl { name: "i".into(), ty: i32s.clone(), init: Some(lit_i32(0)) },
                s::Stmt::VarDecl { name: "sum".into(), ty: i32s.clone(), init: Some(lit_i32(0)) },
                s::Stmt::While {
                    cond: s::Expr::Cmp {
                        left: Box::new(s::Expr::Var("i".into())),
                        op: s::CmpOpRef::Lt,
                        right: Box::new(s::Expr::Var("n".into())),
                    },
                    body: vec![
                        s::Stmt::Assign {
                            name: "sum".into(),
                            value: s::Expr::Binary {
                                left: Box::new(s::Expr::Var("sum".into())),
                                op: s::BinOpRef::Add,
                                right: Box::new(s::Expr::Var("i".into())),
                            },
                        },
                        s::Stmt::Assign {
                            name: "i".into(),
                            value: s::Expr::Binary {
                                left: Box::new(s::Expr::Var("i".into())),
                                op: s::BinOpRef::Add,
                                right: Box::new(lit_i32(1)),
                            },
                        },
                    ],
                },
                s::Stmt::Return(Some(s::Expr::Var("sum".into()))),
            ],
        }],
    };

    let module = lower_o0(&program, "x86_64-whale-linux", DataLayout::default_64bit_le()).unwrap();
    verify_module(&module).unwrap();

    let txt = print_module(&module);
    assert!(txt.contains("while.cond:"));
    assert!(txt.contains("while.body:"));
    assert!(txt.contains("while.exit:"));
    assert!(txt.contains("cbr i1"));
    assert!(txt.contains("ret i32"));
}

#[test]
fn smoke_lower_socket_o0_while_break() {
    let program = s::Program {
        globals: vec![],
        functions: vec![s::Function {
            name: "main".into(),
            parameters: vec![],
            return_type: s::TypeRef::Int { bits: 32, signed: true },
            body: vec![
                s::Stmt::VarDecl {
                    name: "x".into(),
                    ty: s::TypeRef::Int { bits: 32, signed: true },
                    init: Some(s::Expr::Lit(s::Lit::Int { bits: 32, signed: true, value: 0 })),
                },
                s::Stmt::While {
                    cond: s::Expr::Lit(s::Lit::Bool(true)),
                    body: vec![
                        s::Stmt::Assign {
                            name: "x".into(),
                            value: s::Expr::Lit(s::Lit::Int { bits: 32, signed: true, value: 1 }),
                        },
                        s::Stmt::Break,
                        s::Stmt::Assign {
                            name: "x".into(),
                            value: s::Expr::Lit(s::Lit::Int { bits: 32, signed: true, value: 2 }),
                        },
                    ],
                },
                s::Stmt::Return(Some(s::Expr::Var("x".into()))),
            ],
        }],
    };

    let module = lower_o0(&program, "x86_64-whale-linux", DataLayout::default_64bit_le()).unwrap();
    verify_module(&module).unwrap();

    let s = print_module(&module);
    assert!(s.contains("while.cond"));
    assert!(s.contains("while.exit"));
    assert!(s.contains("br label"));
}
