use whale::ir::lower_ast::frontend::{
    BinOpRef, CmpOpRef, Expr, Function, GlobalConst, Lit, Parameter, Program, Stmt, TypeRef,
};
use whale::ir::lower_ast::binding::Env;
use whale::ir::lower_ast::frontend::is_supported_version;
use whale::ir::lower_ast::{
    function_fits, lower_function_o0, lower_o0_with, program_fits, try_lower_function_o0,
    try_lower_o0, try_lower_o0_with, FloatFold, SOCKET_VERSION,
};
use whale::ir::{
    lower_o0, print_module, verify_module, BlockId, DataLayout, FloatConst, Instruction,
    LowerError, ModuleBuilder, Terminator, Type, ValueId,
};

fn i32t() -> TypeRef {
    TypeRef::Int { bits: 32, signed: true }
}

fn num(bits: u16, signed: bool, value: i128) -> Expr {
    Expr::Lit(Lit::Int { bits, signed, value })
}

fn var(name: &str) -> Expr {
    Expr::Var(name.to_string())
}

fn bin(left: Expr, op: BinOpRef, right: Expr) -> Expr {
    Expr::Binary { left: Box::new(left), op, right: Box::new(right) }
}

fn compare(left: Expr, op: CmpOpRef, right: Expr) -> Expr {
    Expr::Cmp { left: Box::new(left), op, right: Box::new(right) }
}

fn global(name: &str, ty: TypeRef, init: Expr) -> GlobalConst {
    GlobalConst { name: name.to_string(), ty, init }
}

fn function(name: &str, parameters: Vec<Parameter>, return_type: TypeRef, body: Vec<Stmt>) -> Function {
    Function { name: name.to_string(), parameters, return_type, body }
}

fn lower(program: &Program) -> Result<String, LowerError> {
    let module = lower_o0(program, "x86_64-whale-linux", DataLayout::default_64bit_le())?;
    verify_module(&module).unwrap();
    Ok(print_module(&module))
}

fn lower_body(return_type: TypeRef, body: Vec<Stmt>) -> Result<String, LowerError> {
    lower(&Program { globals: vec![], functions: vec![function("f", vec![], return_type, body)] })
}

fn lower_globals(globals: Vec<GlobalConst>) -> Result<String, LowerError> {
    lower(&Program { globals, functions: vec![] })
}

#[test]
fn unsigned_eight_bit_addition_wraps() {
    let u8t = TypeRef::Int { bits: 8, signed: false };
    let txt = lower_globals(vec![global(
        "G",
        u8t,
        bin(num(8, false, 250), BinOpRef::Add, num(8, false, 10)),
    )])
    .unwrap();
    assert!(txt.contains("global @G: u8 = const u8 4, align 1\n"));
}

#[test]
fn signed_eight_bit_addition_wraps_into_negative() {
    let i8t = TypeRef::Int { bits: 8, signed: true };
    let txt = lower_globals(vec![global(
        "G",
        i8t,
        bin(num(8, true, 120), BinOpRef::Add, num(8, true, 10)),
    )])
    .unwrap();
    assert!(txt.contains("global @G: i8 = const i8 -126, align 1\n"));
}

#[test]
fn constant_subtraction_and_multiplication_wrap() {
    let txt = lower_globals(vec![
        global(
            "A",
            TypeRef::Int { bits: 16, signed: false },
            bin(num(16, false, 1), BinOpRef::Sub, num(16, false, 2)),
        ),
        global(
            "B",
            TypeRef::Int { bits: 32, signed: true },
            bin(num(32, true, 65536), BinOpRef::Mul, num(32, true, 32768)),
        ),
        global(
            "C",
            TypeRef::Int { bits: 128, signed: false },
            bin(num(128, false, 0), BinOpRef::Sub, num(128, false, 1)),
        ),
        global(
            "D",
            TypeRef::Int { bits: 64, signed: true },
            bin(num(64, true, i64::MIN as i128), BinOpRef::Sub, num(64, true, 1)),
        ),
    ])
    .unwrap();
    assert!(txt.contains("global @A: u16 = const u16 65535, align 2\n"));
    assert!(txt.contains("global @B: i32 = const i32 -2147483648, align 4\n"));
    assert!(txt.contains(
        "global @C: u128 = const u128 340282366920938463463374607431768211455, align 16\n"
    ));
    assert!(txt.contains("global @D: i64 = const i64 9223372036854775807, align 8\n"));
}

#[test]
fn integer_literals_are_reduced_to_their_width() {
    let txt = lower_globals(vec![
        global("A", TypeRef::Int { bits: 8, signed: false }, num(8, false, 300)),
        global("B", TypeRef::Int { bits: 8, signed: true }, num(8, true, 200)),
        global("C", TypeRef::Int { bits: 8, signed: true }, num(8, true, -129)),
    ])
    .unwrap();
    assert!(txt.contains("global @A: u8 = const u8 44, align 1\n"));
    assert!(txt.contains("global @B: i8 = const i8 -56, align 1\n"));
    assert!(txt.contains("global @C: i8 = const i8 127, align 1\n"));
}

#[test]
fn constant_comparison_folds_to_a_boolean() {
    let txt = lower_globals(vec![
        global("A", TypeRef::Bool, compare(num(32, true, -1), CmpOpRef::Lt, num(32, true, 1))),
        global("B", TypeRef::Bool, compare(num(32, false, 5), CmpOpRef::Ge, num(32, false, 6))),
        global(
            "C",
            TypeRef::Bool,
            compare(Expr::Lit(Lit::Bool(true)), CmpOpRef::Ne, Expr::Lit(Lit::Bool(false))),
        ),
    ])
    .unwrap();
    assert!(txt.contains("global @A: i1 = const i1 true, align 1\n"));
    assert!(txt.contains("global @B: i1 = const i1 false, align 1\n"));
    assert!(txt.contains("global @C: i1 = const i1 true, align 1\n"));
}

fn float(value: f64) -> Expr {
    Expr::Lit(Lit::Float {
        bits: 64,
        value: FloatConst { bits: value.to_bits(), text: value.to_string() },
    })
}

#[test]
fn constant_float_comparison_orders_numbers() {
    let cases: Vec<(f64, CmpOpRef, f64, bool)> = vec![
        (1.5, CmpOpRef::Lt, 2.5, true),
        (-1.5, CmpOpRef::Lt, -2.5, false),
        (-0.0, CmpOpRef::Eq, 0.0, true),
        (f64::NAN, CmpOpRef::Eq, f64::NAN, false),
        (f64::NAN, CmpOpRef::Ne, 1.0, true),
        (f64::INFINITY, CmpOpRef::Gt, 1.0e300, true),
        (f64::NEG_INFINITY, CmpOpRef::Le, -1.0e300, true),
        (2.0, CmpOpRef::Ge, 2.0, true),
        (-3.0, CmpOpRef::Gt, 2.0, false),
    ];
    for (a, op, b, expected) in cases {
        let real = match op {
            CmpOpRef::Eq => a == b,
            CmpOpRef::Ne => a != b,
            CmpOpRef::Lt => a < b,
            CmpOpRef::Le => a <= b,
            CmpOpRef::Gt => a > b,
            CmpOpRef::Ge => a >= b,
        };
        assert_eq!(real, expected);
        let txt = lower_globals(vec![global("G", TypeRef::Bool, compare(float(a), op, float(b)))])
            .unwrap();
        assert!(txt.contains(&format!("global @G: i1 = const i1 {}, align 1\n", expected)));
    }
}

#[test]
fn constant_float_arithmetic_is_reported_back() {
    let r = lower_globals(vec![global(
        "G",
        TypeRef::Float { bits: 64 },
        bin(float(1.0), BinOpRef::Add, float(2.0)),
    )]);
    match r {
        Err(LowerError::FloatArithmetic { op, left, right }) => {
            assert_eq!(op, BinOpRef::Add);
            assert_eq!(left.bits, 1.0f64.to_bits());
            assert_eq!(right.bits, 2.0f64.to_bits());
            assert_eq!(left.text, "1");
        },
        other => panic!("unexpected {:?}", other),
    }
}

fn fold(op: BinOpRef, left: f64, right: f64) -> FloatFold {
    let value = match op {
        BinOpRef::Add => left + right,
        BinOpRef::Sub => left - right,
        BinOpRef::Mul => left * right,
    };
    FloatFold {
        op,
        left: left.to_bits(),
        right: right.to_bits(),
        result: FloatConst { bits: value.to_bits(), text: value.to_string() },
    }
}

fn lower_with_floats(program: &Program) -> Result<String, LowerError> {
    let mut folds: Vec<FloatFold> = Vec::new();
    loop {
        match lower_o0_with(program, "t", DataLayout::default_64bit_le(), &folds) {
            Err(LowerError::FloatArithmetic { op, left, right }) => {
                folds.push(fold(op, f64::from_bits(left.bits), f64::from_bits(right.bits)));
            },
            Err(e) => return Err(e),
            Ok(module) => {
                verify_module(&module).unwrap();
                return Ok(print_module(&module));
            },
        }
    }
}

#[test]
fn constant_float_arithmetic_uses_the_results_handed_in() {
    let f64t = || TypeRef::Float { bits: 64 };
    let program = Program {
        globals: vec![
            global("A", f64t(), bin(float(1.5), BinOpRef::Add, float(2.25))),
            global("B", f64t(), bin(var("A"), BinOpRef::Mul, bin(float(4.0), BinOpRef::Sub, var("A")))),
        ],
        functions: vec![function(
            "f",
            vec![],
            f64t(),
            vec![
                Stmt::ConstDecl {
                    name: "c".to_string(),
                    ty: f64t(),
                    init: bin(var("B"), BinOpRef::Sub, float(0.5)),
                },
                Stmt::Return(Some(var("c"))),
            ],
        )],
    };
    assert!(matches!(lower(&program), Err(LowerError::FloatArithmetic { .. })));
    let txt = lower_with_floats(&program).unwrap();
    assert!(txt.contains("  global @A: f64 = const f64 3.75, align 8\n"));
    assert!(txt.contains("  global @B: f64 = const f64 0.9375, align 8\n"));
    assert!(txt.contains("    %v0: f64 = const f64 0.4375\n    ret f64 %v0\n"));

    let stale = vec![fold(BinOpRef::Add, 1.5, 2.0), fold(BinOpRef::Sub, 1.5, 2.25)];
    let r = lower_o0_with(&program, "t", DataLayout::default_64bit_le(), &stale);
    assert!(matches!(r, Err(LowerError::FloatArithmetic { op: BinOpRef::Add, .. })));

    let first_wins = vec![
        FloatFold {
            op: BinOpRef::Add,
            left: 1.5f64.to_bits(),
            right: 2.25f64.to_bits(),
            result: FloatConst { bits: 7.0f64.to_bits(), text: "7".to_string() },
        },
        fold(BinOpRef::Add, 1.5, 2.25),
    ];
    let only_a = Program {
        globals: vec![global("A", f64t(), bin(float(1.5), BinOpRef::Add, float(2.25)))],
        functions: vec![],
    };
    let m = lower_o0_with(&only_a, "t", DataLayout::default_64bit_le(), &first_wins).unwrap();
    assert!(print_module(&m).contains("  global @A: f64 = const f64 7, align 8\n"));
}

#[test]
fn float_arithmetic_on_other_constants_is_unsupported() {
    let r = lower_globals(vec![
        global("I", TypeRef::Int { bits: 32, signed: true }, num(32, true, 1)),
        global(
            "G",
            TypeRef::Float { bits: 64 },
            bin(float(1.0), BinOpRef::Add, var("I")),
        ),
    ]);
    assert!(matches!(r, Err(LowerError::TypeMismatch { .. })));
}

#[test]
fn float_literal_is_carried_through() {
    let txt = lower_body(
        TypeRef::Float { bits: 64 },
        vec![Stmt::Return(Some(bin(float(1.5), BinOpRef::Mul, float(2.0))))],
    )
    .unwrap();
    assert!(txt.contains("%v0: f64 = const f64 1.5\n"));
    assert!(txt.contains("%v1: f64 = const f64 2\n"));
    assert!(txt.contains("%v2: f64 = fmul f64 %v0, %v1\n"));
    assert!(txt.contains("ret f64 %v2\n"));
}

#[test]
fn binding_of_an_if_arm_does_not_leak() {
    let r = lower_body(
        i32t(),
        vec![
            Stmt::If {
                cond: Expr::Lit(Lit::Bool(true)),
                then_body: vec![Stmt::VarDecl {
                    name: "x".to_string(),
                    ty: i32t(),
                    init: Some(num(32, true, 1)),
                }],
                else_body: vec![],
            },
            Stmt::Return(Some(var("x"))),
        ],
    );
    match r {
        Err(LowerError::UnknownVariable(name)) => assert_eq!(name, "x"),
        other => panic!("expected an unknown variable, got {:?}", other),
    }
}

#[test]
fn shadowing_in_a_body_reverts_at_its_end() {
    let txt = lower_body(
        i32t(),
        vec![
            Stmt::ConstDecl { name: "x".to_string(), ty: i32t(), init: num(32, true, 7) },
            Stmt::While {
                cond: Expr::Lit(Lit::Bool(false)),
                body: vec![Stmt::ConstDecl {
                    name: "x".to_string(),
                    ty: i32t(),
                    init: num(32, true, 9),
                }],
            },
            Stmt::Return(Some(var("x"))),
        ],
    )
    .unwrap();
    assert!(txt.contains("const i32 7\n"));
    assert!(!txt.contains("const i32 9\n"));
}

#[test]
fn assignment_to_a_constant_is_rejected() {
    let r = lower_body(
        TypeRef::Void,
        vec![
            Stmt::ConstDecl { name: "c".to_string(), ty: i32t(), init: num(32, true, 1) },
            Stmt::Assign { name: "c".to_string(), value: num(32, true, 2) },
        ],
    );
    match r {
        Err(LowerError::AssignToConst(name)) => assert_eq!(name, "c"),
        other => panic!("expected an assignment to a constant, got {:?}", other),
    }
}

#[test]
fn while_with_break_has_no_code_behind_the_break() {
    let txt = lower_body(
        i32t(),
        vec![
            Stmt::VarDecl { name: "x".to_string(), ty: i32t(), init: Some(num(32, true, 0)) },
            Stmt::While {
                cond: Expr::Lit(Lit::Bool(true)),
                body: vec![
                    Stmt::Assign { name: "x".to_string(), value: num(32, true, 1) },
                    Stmt::Break,
                    Stmt::Assign { name: "x".to_string(), value: num(32, true, 2) },
                ],
            },
            Stmt::Return(Some(var("x"))),
        ],
    )
    .unwrap();
    let expected = "module {\n  target \"x86_64-whale-linux\"\n  datalayout { ptr=64, endian=little }\n\n  fn @f() -> i32 {\n  entry:\n    %v1: ptr<i32> = alloca i32, align 4\n    %v0: i32 = const i32 0\n    store i32 %v0, ptr<i32> %v1, align 4\n    br label %b1\n  while.cond:\n    %v2: i1 = const i1 true\n    cbr i1 %v2, label %b2, label %b3\n  while.body:\n    %v3: i32 = const i32 1\n    store i32 %v3, ptr<i32> %v1, align 4\n    br label %b3\n  while.exit:\n    %v4: i32 = load i32, ptr<i32> %v1, align 4\n    ret i32 %v4\n  }\n\n}\n";
    assert_eq!(txt, expected);
    assert!(!txt.contains("const i32 2"));
}

#[test]
fn missing_return_becomes_a_trap() {
    let program = Program {
        globals: vec![],
        functions: vec![function(
            "f",
            vec![],
            i32t(),
            vec![Stmt::VarDecl { name: "x".to_string(), ty: i32t(), init: None }],
        )],
    };
    let module = lower_o0(&program, "t", DataLayout::default_64bit_le()).unwrap();
    verify_module(&module).unwrap();
    let last = module.functions[0].blocks.last().unwrap();
    match &last.terminator {
        Some(Terminator::Trap { reason }) => assert_eq!(reason, "missing return"),
        other => panic!("expected a trap, got {:?}", other),
    }
    let txt = print_module(&module);
    assert!(txt.contains("    %v0: i32 = undef i32\n"));
    assert!(txt.contains("    trap reason=\"missing return\"\n"));
}

#[test]
fn void_function_returns_at_its_end() {
    let txt = lower_body(TypeRef::Void, vec![]).unwrap();
    assert!(txt.contains("  entry:\n    ret void\n"));
}

#[test]
fn return_in_a_void_function_ignores_its_expression() {
    let txt = lower_body(TypeRef::Void, vec![Stmt::Return(Some(var("nowhere")))]).unwrap();
    assert!(txt.contains("  entry:\n    ret void\n"));
}

#[test]
fn statements_behind_a_return_are_dead() {
    let txt = lower_body(
        i32t(),
        vec![
            Stmt::Return(Some(num(32, true, 1))),
            Stmt::Assign { name: "nowhere".to_string(), value: num(32, true, 2) },
            Stmt::Break,
        ],
    )
    .unwrap();
    assert!(txt.contains("    %v0: i32 = const i32 1\n    ret i32 %v0\n  }\n"));
}

#[test]
fn max_of_two_lowers_to_the_expected_text() {
    let program = Program {
        globals: vec![],
        functions: vec![function(
            "max",
            vec![
                Parameter { name: "a".to_string(), ty: i32t() },
                Parameter { name: "b".to_string(), ty: i32t() },
            ],
            i32t(),
            vec![
                Stmt::VarDecl { name: "x".to_string(), ty: i32t(), init: Some(num(32, true, 0)) },
                Stmt::If {
                    cond: compare(var("a"), CmpOpRef::Gt, var("b")),
                    then_body: vec![Stmt::Assign { name: "x".to_string(), value: var("a") }],
                    else_body: vec![Stmt::Assign { name: "x".to_string(), value: var("b") }],
                },
                Stmt::Return(Some(var("x"))),
            ],
        )],
    };
    let txt = lower(&program).unwrap();
    let expected = "module {\n  target \"x86_64-whale-linux\"\n  datalayout { ptr=64, endian=little }\n\n  fn @max(a: i32, b: i32) -> i32 {\n  entry:\n    %v2: ptr<i32> = alloca i32, align 4\n    %v3: ptr<i32> = alloca i32, align 4\n    %v5: ptr<i32> = alloca i32, align 4\n    store i32 %v0, ptr<i32> %v2, align 4\n    store i32 %v1, ptr<i32> %v3, align 4\n    %v4: i32 = const i32 0\n    store i32 %v4, ptr<i32> %v5, align 4\n    %v6: i32 = load i32, ptr<i32> %v2, align 4\n    %v7: i32 = load i32, ptr<i32> %v3, align 4\n    %v8: i1 = cmp sgt i32 %v6, %v7\n    cbr i1 %v8, label %b1, label %b2\n  if.then:\n    %v9: i32 = load i32, ptr<i32> %v2, align 4\n    store i32 %v9, ptr<i32> %v5, align 4\n    br label %b3\n  if.else:\n    %v10: i32 = load i32, ptr<i32> %v3, align 4\n    store i32 %v10, ptr<i32> %v5, align 4\n    br label %b3\n  if.cont:\n    %v11: i32 = load i32, ptr<i32> %v5, align 4\n    ret i32 %v11\n  }\n\n}\n";
    assert_eq!(txt, expected);
}

#[test]
fn identifiers_go_on_across_functions() {
    let program = Program {
        globals: vec![],
        functions: vec![
            function("f", vec![], i32t(), vec![Stmt::Return(Some(num(32, true, 1)))]),
            function("g", vec![], i32t(), vec![Stmt::Return(Some(num(32, true, 2)))]),
        ],
    };
    let txt = lower(&program).unwrap();
    assert!(txt.contains("  fn @f() -> i32 {\n  entry:\n    %v0: i32 = const i32 1\n    ret i32 %v0\n  }\n"));
    assert!(txt.contains("  fn @g() -> i32 {\n  entry:\n    %v1: i32 = const i32 2\n    ret i32 %v1\n  }\n"));
}

#[test]
fn local_constant_shadows_global() {
    let program = Program {
        globals: vec![global("K", i32t(), num(32, true, 1))],
        functions: vec![function(
            "f",
            vec![],
            i32t(),
            vec![
                Stmt::ConstDecl {
                    name: "K".to_string(),
                    ty: i32t(),
                    init: bin(var("K"), BinOpRef::Add, num(32, true, 41)),
                },
                Stmt::Return(Some(var("K"))),
            ],
        )],
    };
    let txt = lower(&program).unwrap();
    assert!(txt.contains("    %v0: i32 = const i32 42\n    ret i32 %v0\n"));
}

#[test]
fn unsupported_types_are_rejected_with_their_description() {
    let r = lower_globals(vec![global("G", TypeRef::Opaque("Thing".to_string()), num(32, true, 1))]);
    match r {
        Err(LowerError::UnsupportedType(msg)) => assert_eq!(msg, "opaque Thing"),
        other => panic!("unexpected {:?}", other),
    }
    let r = lower_globals(vec![global("G", TypeRef::Int { bits: 7, signed: false }, num(32, true, 1))]);
    match r {
        Err(LowerError::UnsupportedType(msg)) => assert_eq!(msg, "int bits=7 signed=false"),
        other => panic!("unexpected {:?}", other),
    }
    let r = lower_globals(vec![global("G", TypeRef::Float { bits: 80 }, num(32, true, 1))]);
    match r {
        Err(LowerError::UnsupportedType(msg)) => assert_eq!(msg, "float bits=80"),
        other => panic!("unexpected {:?}", other),
    }
    let r = lower_globals(vec![global(
        "G",
        TypeRef::Ptr(Box::new(TypeRef::Int { bits: 12, signed: true })),
        num(32, true, 1),
    )]);
    match r {
        Err(LowerError::UnsupportedType(msg)) => assert_eq!(msg, "int bits=12 signed=true"),
        other => panic!("unexpected {:?}", other),
    }
}

#[test]
fn unknown_variable_is_rejected() {
    let r = lower_body(i32t(), vec![Stmt::Return(Some(var("y")))]);
    match r {
        Err(LowerError::UnknownVariable(name)) => assert_eq!(name, "y"),
        other => panic!("unexpected {:?}", other),
    }
    let r = lower_body(
        TypeRef::Void,
        vec![Stmt::Assign { name: "y".to_string(), value: num(32, true, 1) }],
    );
    match r {
        Err(LowerError::UnknownVariable(name)) => assert_eq!(name, "y"),
        other => panic!("unexpected {:?}", other),
    }
}

#[test]
fn type_mismatches_are_rejected_with_both_types() {
    let r = lower_body(
        i32t(),
        vec![Stmt::Return(Some(bin(num(32, true, 1), BinOpRef::Add, num(64, true, 1))))],
    );
    match r {
        Err(LowerError::TypeMismatch { expected, got }) => {
            assert_eq!(expected, Type::I32);
            assert_eq!(got, Type::I64);
        },
        other => panic!("unexpected {:?}", other),
    }
    let r = lower_body(i32t(), vec![Stmt::Return(Some(num(8, false, 1)))]);
    match r {
        Err(LowerError::TypeMismatch { expected, got }) => {
            assert_eq!(expected, Type::I32);
            assert_eq!(got, Type::U8);
        },
        other => panic!("unexpected {:?}", other),
    }
    let r = lower_body(
        TypeRef::Void,
        vec![Stmt::If { cond: num(32, true, 1), then_body: vec![], else_body: vec![] }],
    );
    match r {
        Err(LowerError::TypeMismatch { expected, got }) => {
            assert_eq!(expected, Type::I1);
            assert_eq!(got, Type::I32);
        },
        other => panic!("unexpected {:?}", other),
    }
    let r = lower_globals(vec![global("G", TypeRef::Int { bits: 64, signed: true }, num(32, true, 1))]);
    match r {
        Err(LowerError::TypeMismatch { expected, got }) => {
            assert_eq!(expected, Type::I64);
            assert_eq!(got, Type::I32);
        },
        other => panic!("unexpected {:?}", other),
    }
}

#[test]
fn return_without_a_value_is_unsupported_where_one_is_due() {
    let r = lower_body(i32t(), vec![Stmt::Return(None)]);
    assert!(matches!(r, Err(LowerError::UnsupportedStmt)));
}

#[test]
fn unsupported_expressions_are_rejected() {
    let r = lower_body(i32t(), vec![Stmt::Return(Some(num(32, false, -1)))]);
    assert!(matches!(r, Err(LowerError::UnsupportedExpr)));
    let r = lower_body(
        TypeRef::Bool,
        vec![Stmt::Return(Some(compare(
            Expr::Lit(Lit::Bool(true)),
            CmpOpRef::Lt,
            Expr::Lit(Lit::Bool(false)),
        )))],
    );
    assert!(matches!(r, Err(LowerError::UnsupportedExpr)));
    let r = lower_globals(vec![global(
        "G",
        TypeRef::Bool,
        bin(Expr::Lit(Lit::Bool(true)), BinOpRef::Add, Expr::Lit(Lit::Bool(false))),
    )]);
    assert!(matches!(r, Err(LowerError::UnsupportedExpr)));
}

#[test]
fn break_and_continue_need_a_loop() {
    let r = lower_body(TypeRef::Void, vec![Stmt::Break]);
    assert!(matches!(r, Err(LowerError::BreakOutsideLoop)));
    let r = lower_body(TypeRef::Void, vec![Stmt::Continue]);
    assert!(matches!(r, Err(LowerError::ContinueOutsideLoop)));
    let r = lower_body(
        TypeRef::Void,
        vec![Stmt::If { cond: Expr::Lit(Lit::Bool(true)), then_body: vec![Stmt::Break], else_body: vec![] }],
    );
    assert!(matches!(r, Err(LowerError::BreakOutsideLoop)));
}

#[test]
fn continue_branches_to_the_condition() {
    let txt = lower_body(
        TypeRef::Void,
        vec![Stmt::While {
            cond: Expr::Lit(Lit::Bool(true)),
            body: vec![Stmt::If {
                cond: Expr::Lit(Lit::Bool(false)),
                then_body: vec![Stmt::Continue],
                else_body: vec![Stmt::Break],
            }],
        }],
    )
    .unwrap();
    assert!(txt.contains(
        "  while.exit:\n    ret void\n  if.then:\n    br label %b1\n  if.else:\n    br label %b3\n  if.cont:\n    br label %b1\n  }\n"
    ));
}

#[test]
fn duplicate_global_is_rejected() {
    let r = lower_globals(vec![
        global("A", i32t(), num(32, true, 1)),
        global("A", i32t(), num(32, true, 2)),
    ]);
    match r {
        Err(LowerError::DuplicateGlobal(name)) => assert_eq!(name, "A"),
        other => panic!("unexpected {:?}", other),
    }
}

#[test]
fn variable_in_a_constant_expression_is_rejected() {
    let r = lower_body(
        TypeRef::Void,
        vec![
            Stmt::VarDecl { name: "v".to_string(), ty: i32t(), init: Some(num(32, true, 1)) },
            Stmt::ConstDecl { name: "c".to_string(), ty: i32t(), init: var("v") },
        ],
    );
    assert!(matches!(r, Err(LowerError::NonConstExpr)));
}

#[test]
fn first_error_in_source_order_wins() {
    let r = lower(&Program {
        globals: vec![global("A", TypeRef::Opaque("T".to_string()), var("missing"))],
        functions: vec![function("f", vec![], i32t(), vec![Stmt::Break])],
    });
    assert!(matches!(r, Err(LowerError::UnsupportedType(_))));
    let r = lower_body(
        i32t(),
        vec![Stmt::Return(Some(bin(var("p"), BinOpRef::Add, var("q"))))],
    );
    match r {
        Err(LowerError::UnknownVariable(name)) => assert_eq!(name, "p"),
        other => panic!("unexpected {:?}", other),
    }
}

#[test]
fn small_program_fits_and_lowers() {
    let program = Program {
        globals: vec![],
        functions: vec![function("f", vec![], TypeRef::Void, vec![])],
    };
    assert!(program_fits(&program));
    let lowered = try_lower_o0(&program, "t", DataLayout::default_64bit_le());
    let module = lowered.unwrap().unwrap();
    let empty: Vec<FloatFold> = vec![];
    assert!(try_lower_o0_with(&program, "t", DataLayout::default_64bit_le(), &empty)
        .unwrap()
        .is_ok());
    assert_eq!(module.target, "t");
    assert_eq!(module.functions.len(), 1);
    assert_eq!(module.functions[0].name, "f");
}

#[test]
fn pointer_and_array_types_are_lowered() {
    let txt = lower(&Program {
        globals: vec![],
        functions: vec![function(
            "f",
            vec![
                Parameter { name: "p".to_string(), ty: TypeRef::Ptr(Box::new(TypeRef::Bool)) },
                Parameter {
                    name: "a".to_string(),
                    ty: TypeRef::Array { elem: Box::new(TypeRef::Float { bits: 32 }), len: 4 },
                },
            ],
            TypeRef::Void,
            vec![],
        )],
    })
    .unwrap();
    assert!(txt.contains("  fn @f(p: ptr<i1>, a: array<f32, 4>) -> void {\n"));
    assert!(txt.contains("    %v2: ptr<ptr<i1>> = alloca ptr<i1>, align 8\n"));
    assert!(txt.contains("    %v3: ptr<array<f32, 4>> = alloca array<f32, 4>, align 4\n"));
}

#[test]
fn only_the_current_tree_version_is_supported() {
    assert_eq!(SOCKET_VERSION, 3);
    assert!(is_supported_version(3));
    assert!(!is_supported_version(2));
    assert!(!is_supported_version(4));
}

#[test]
fn a_function_that_fails_adds_nothing_to_the_module() {
    let mut mb = ModuleBuilder::new("t", DataLayout::default_64bit_le());
    let bad = function(
        "bad",
        vec![Parameter { name: "a".to_string(), ty: i32t() }],
        TypeRef::Void,
        vec![
            Stmt::VarDecl { name: "x".to_string(), ty: i32t(), init: Some(num(32, true, 1)) },
            Stmt::Break,
        ],
    );
    let r = lower_function_o0(&mut mb, &bad, &Env::new(), 64, &vec![]);
    assert!(matches!(r, Err(LowerError::BreakOutsideLoop)));
    let good = function("good", vec![], TypeRef::Void, vec![]);
    assert!(lower_function_o0(&mut mb, &good, &Env::new(), 64, &vec![]).is_ok());
    let module = mb.finish();
    assert_eq!(module.functions.len(), 1);
    assert_eq!(module.functions[0].name, "good");
    verify_module(&module).unwrap();
    // The identifiers that the failed function took are not issued again.
    assert_eq!(module.functions[0].entry, BlockId(1));
    assert_eq!(module.functions[0].blocks[0].terminator, Some(Terminator::Ret {
        ty: Type::Void,
        value: None,
    }));
}

#[test]
fn every_parameter_gets_a_slot_at_the_start_of_the_entry_block() {
    let mut mb = ModuleBuilder::new("t", DataLayout::default_64bit_le());
    let f = function(
        "f",
        vec![
            Parameter { name: "a".to_string(), ty: i32t() },
            Parameter { name: "b".to_string(), ty: TypeRef::Int { bits: 64, signed: false } },
        ],
        i32t(),
        vec![
            Stmt::VarDecl { name: "x".to_string(), ty: i32t(), init: Some(var("a")) },
            Stmt::While {
                cond: Expr::Lit(Lit::Bool(true)),
                body: vec![Stmt::VarDecl { name: "y".to_string(), ty: i32t(), init: None }],
            },
        ],
    );
    assert!(lower_function_o0(&mut mb, &f, &Env::new(), 64, &vec![]).is_ok());
    let module = mb.finish();
    verify_module(&module).unwrap();
    let g = &module.functions[0];
    let entry = &g.blocks[0].instructions;
    assert_eq!(
        entry[0],
        Instruction::Alloca { dst: ValueId(2), ty: Type::I32, align: 4 }
    );
    assert_eq!(
        entry[1],
        Instruction::Alloca { dst: ValueId(3), ty: Type::U64, align: 8 }
    );
    let store_a = Instruction::Store { ty: Type::I32, value: ValueId(0), ptr: ValueId(2), align: 4 };
    let store_b = Instruction::Store { ty: Type::U64, value: ValueId(1), ptr: ValueId(3), align: 8 };
    let at_a = entry.iter().position(|i| *i == store_a).unwrap();
    let at_b = entry.iter().position(|i| *i == store_b).unwrap();
    assert!(at_a >= 2 && at_b > at_a);
    for block in &g.blocks {
        assert!(block.terminator.is_some());
    }
    match &g.blocks.last().unwrap().terminator {
        Some(Terminator::Trap { reason }) => assert_eq!(reason, "missing return"),
        other => panic!("expected a trap, got {:?}", other),
    }
}

#[test]
fn a_function_is_lowered_where_identifiers_are_left() {
    let mut mb = ModuleBuilder::new("t", DataLayout::default_64bit_le());
    assert_eq!((mb.values_issued(), mb.blocks_issued()), (0, 0));
    let f = function(
        "f",
        vec![Parameter { name: "a".to_string(), ty: i32t() }],
        i32t(),
        vec![Stmt::Return(Some(var("a")))],
    );
    assert!(function_fits(&mb, &f));
    let r = try_lower_function_o0(&mut mb, &f, &Env::new(), 64, &vec![]);
    assert!(matches!(r, Some(Ok(()))));
    // The parameter, its slot and the loaded value; the entry block.
    assert_eq!((mb.values_issued(), mb.blocks_issued()), (3, 1));
    let module = mb.finish();
    verify_module(&module).unwrap();
    assert_eq!(module.functions.len(), 1);
}
