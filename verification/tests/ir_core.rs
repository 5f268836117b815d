use whale::ir::builder::ModuleBuilder;
use whale::ir::lower_ast::consteval::{const_bin, const_cmp, wrap_i, wrap_u};
use whale::ir::lower_ast::frontend::{BinOpRef, CmpOpRef};
use whale::ir::lower_ast::support::{align_of, int_type, map_binop, map_cmp};
use whale::ir::printer::{escape, fmt_callee, fmt_const, print_instr, print_term};
use whale::ir::verify::{instr_def, instr_uses, verify_function};
use whale::ir::{
    print_module, verify_module, BasicBlock, BinOp, BlockId, Callee, CastOp, CheckedOp, CmpOp,
    ConstValue, DataLayout, Endian, FCmpPred, FloatConst, Function, Global, ICmpPred,
    Instruction, LowerError, Module, Param, Terminator, Type, ValueId, VerifyError,
};

fn v(n: u32) -> ValueId {
    ValueId(n)
}

fn float(x: f64) -> ConstValue {
    ConstValue::F(FloatConst { bits: x.to_bits(), text: x.to_string() })
}

fn block(id: u32, name: &str, instructions: Vec<Instruction>, terminator: Option<Terminator>) -> BasicBlock {
    BasicBlock { id: BlockId(id), name: name.to_string(), instructions, terminator }
}

fn function(ret_ty: Type, params: Vec<Param>, blocks: Vec<BasicBlock>) -> Function {
    Function {
        name: "f".to_string(),
        params,
        ret_ty,
        blocks,
        entry: BlockId(0),
        value_types: vec![],
    }
}

fn module(functions: Vec<Function>) -> Module {
    Module {
        target: "t".to_string(),
        datalayout: DataLayout::default_64bit_le(),
        globals: vec![],
        functions,
    }
}

#[test]
fn default_layout_is_64_bit_little_endian() {
    let dl = DataLayout::default_64bit_le();
    assert_eq!(dl.ptr_bits, 64);
    assert_eq!(dl.endian, Endian::Little);
}

#[test]
fn pointer_type_wraps_its_target() {
    assert_eq!(Type::ptr_to(Type::I8), Type::Ptr(Box::new(Type::I8)));
}

#[test]
fn types_compare_by_structure() {
    let a = Type::Struct(vec![Type::I32, Type::Ptr(Box::new(Type::U8))]);
    let b = Type::Struct(vec![Type::I32, Type::Ptr(Box::new(Type::U8))]);
    let c = Type::Struct(vec![Type::I32, Type::Ptr(Box::new(Type::I8))]);
    let d = Type::Tuple(vec![Type::I32, Type::Ptr(Box::new(Type::U8))]);
    assert!(a.same(&b));
    assert!(!a.same(&c));
    assert!(!a.same(&d));
    assert!(a.same(&a.clone()));
    assert!(Type::Array(Box::new(Type::I1), 3).same(&Type::Array(Box::new(Type::I1), 3)));
    assert!(!Type::Array(Box::new(Type::I1), 3).same(&Type::Array(Box::new(Type::I1), 4)));
    assert!(!Type::Struct(vec![Type::I32]).same(&Type::Struct(vec![Type::I32, Type::I32])));
}

#[test]
fn types_have_their_text() {
    assert_eq!(Type::Void.to_text(), "void");
    assert_eq!(Type::F16.to_text(), "f16");
    assert_eq!(Type::Ptr(Box::new(Type::U128)).to_text(), "ptr<u128>");
    assert_eq!(Type::Array(Box::new(Type::I64), 12).to_text(), "array<i64, 12>");
    assert_eq!(Type::Struct(vec![]).to_text(), "struct{}");
    assert_eq!(Type::Struct(vec![Type::I8, Type::F32, Type::I1]).to_text(), "struct{i8, f32, i1}");
    assert_eq!(
        Type::Tuple(vec![Type::I32, Type::Tuple(vec![Type::U16])]).to_text(),
        "tuple<i32, tuple<u16>>"
    );
}

#[test]
fn identifiers_have_their_text() {
    assert_eq!(ValueId(0).to_text(), "%v0");
    assert_eq!(ValueId(4294967295).to_text(), "%v4294967295");
    assert_eq!(BlockId(17).to_text(), "%b17");
}

#[test]
fn alignment_follows_the_type() {
    assert_eq!(align_of(&Type::Void, 64), 1);
    assert_eq!(align_of(&Type::I1, 64), 1);
    assert_eq!(align_of(&Type::F16, 64), 2);
    assert_eq!(align_of(&Type::U32, 64), 4);
    assert_eq!(align_of(&Type::F64, 64), 8);
    assert_eq!(align_of(&Type::I128, 64), 16);
    assert_eq!(align_of(&Type::Ptr(Box::new(Type::I8)), 64), 8);
    assert_eq!(align_of(&Type::Ptr(Box::new(Type::I8)), 32), 4);
    assert_eq!(align_of(&Type::Ptr(Box::new(Type::I8)), 4), 1);
    assert_eq!(align_of(&Type::Array(Box::new(Type::U16), 9), 64), 2);
    assert_eq!(align_of(&Type::Struct(vec![]), 64), 1);
    assert_eq!(align_of(&Type::Struct(vec![Type::I8, Type::I64, Type::I16]), 64), 8);
    assert_eq!(align_of(&Type::Tuple(vec![Type::I32, Type::I1]), 64), 4);
}

#[test]
fn integer_types_come_by_width_and_sign() {
    assert_eq!(int_type(1, true).unwrap(), Type::I1);
    assert_eq!(int_type(1, false).unwrap(), Type::I1);
    assert_eq!(int_type(8, true).unwrap(), Type::I8);
    assert_eq!(int_type(16, false).unwrap(), Type::U16);
    assert_eq!(int_type(128, true).unwrap(), Type::I128);
    assert!(matches!(int_type(24, true), Err(LowerError::UnsupportedType(_))));
}

#[test]
fn operators_map_by_type() {
    assert_eq!(map_binop(BinOpRef::Add, &Type::I32).unwrap(), BinOp::Add);
    assert_eq!(map_binop(BinOpRef::Mul, &Type::F32).unwrap(), BinOp::FMul);
    assert_eq!(map_binop(BinOpRef::Sub, &Type::I1).unwrap(), BinOp::Sub);
    assert!(matches!(map_binop(BinOpRef::Add, &Type::Void), Err(LowerError::UnsupportedExpr)));
    assert_eq!(map_cmp(CmpOpRef::Lt, &Type::I8).unwrap(), CmpOp::SLt);
    assert_eq!(map_cmp(CmpOpRef::Lt, &Type::U8).unwrap(), CmpOp::ULt);
    assert_eq!(map_cmp(CmpOpRef::Ge, &Type::F64).unwrap(), CmpOp::FGe);
    assert_eq!(map_cmp(CmpOpRef::Ne, &Type::I1).unwrap(), CmpOp::Ne);
    assert_eq!(map_cmp(CmpOpRef::Eq, &Type::U64).unwrap(), CmpOp::Eq);
    assert!(matches!(map_cmp(CmpOpRef::Le, &Type::I1), Err(LowerError::UnsupportedExpr)));
    assert!(matches!(
        map_cmp(CmpOpRef::Eq, &Type::Ptr(Box::new(Type::I8))),
        Err(LowerError::UnsupportedExpr)
    ));
}

#[test]
fn wrapping_reduces_to_the_width() {
    assert_eq!(wrap_u(260, &Type::U8), 4);
    assert_eq!(wrap_u(65536, &Type::U16), 0);
    assert_eq!(wrap_u(u128::MAX, &Type::U128), u128::MAX);
    assert_eq!(wrap_u(3, &Type::I1), 1);
    assert_eq!(wrap_u(77, &Type::Void), 77);
    assert_eq!(wrap_i(130, &Type::I8), -126);
    assert_eq!(wrap_i(-129, &Type::I8), 127);
    assert_eq!(wrap_i(-1, &Type::I32), -1);
    assert_eq!(wrap_i(1, &Type::I1), -1);
    assert_eq!(wrap_i(2, &Type::I1), 0);
    assert_eq!(wrap_i(i128::MIN, &Type::I128), i128::MIN);
    assert_eq!(wrap_i(1i128 << 63, &Type::I64), i64::MIN as i128);
}

#[test]
fn constant_arithmetic_wraps_at_the_width() {
    assert_eq!(
        const_bin(BinOpRef::Add, &Type::U8, &ConstValue::U(250), &ConstValue::U(10), &vec![])
            .unwrap(),
        ConstValue::U(4)
    );
    assert_eq!(
        const_bin(BinOpRef::Add, &Type::I8, &ConstValue::I(120), &ConstValue::I(10), &vec![])
            .unwrap(),
        ConstValue::I(-126)
    );
    assert_eq!(
        const_bin(BinOpRef::Mul, &Type::I128, &ConstValue::I(i128::MAX), &ConstValue::I(2), &vec![])
            .unwrap(),
        ConstValue::I(-2)
    );
    assert_eq!(
        const_bin(BinOpRef::Sub, &Type::U32, &ConstValue::U(0), &ConstValue::U(1), &vec![])
            .unwrap(),
        ConstValue::U(4294967295)
    );
    assert!(matches!(
        const_bin(BinOpRef::Add, &Type::U8, &ConstValue::I(1), &ConstValue::U(1), &vec![]),
        Err(LowerError::UnsupportedExpr)
    ));
    assert!(matches!(
        const_bin(BinOpRef::Add, &Type::I1, &ConstValue::Bool(true), &ConstValue::Bool(true), &vec![]),
        Err(LowerError::UnsupportedExpr)
    ));
    assert!(matches!(
        const_bin(BinOpRef::Add, &Type::F64, &float(1.0), &ConstValue::I(1), &vec![]),
        Err(LowerError::UnsupportedExpr)
    ));
    assert_eq!(
        const_cmp(CmpOpRef::Lt, &Type::I8, &ConstValue::I(-1), &ConstValue::I(0)).unwrap(),
        true
    );
    assert_eq!(
        const_cmp(CmpOpRef::Gt, &Type::U8, &ConstValue::U(1), &ConstValue::U(200)).unwrap(),
        false
    );
}

#[test]
fn every_instruction_says_what_it_defines_and_uses() {
    let cases: Vec<(Instruction, Option<ValueId>, Vec<ValueId>)> = vec![
        (Instruction::Const { dst: v(1), ty: Type::I1, value: ConstValue::Bool(true) }, Some(v(1)), vec![]),
        (Instruction::Undef { dst: v(1), ty: Type::I1 }, Some(v(1)), vec![]),
        (Instruction::Mov { dst: v(1), ty: Type::I1, src: v(2) }, Some(v(1)), vec![v(2)]),
        (
            Instruction::Bin { dst: v(1), op: BinOp::Add, ty: Type::I8, lhs: v(2), rhs: v(3) },
            Some(v(1)),
            vec![v(2), v(3)],
        ),
        (Instruction::Not { dst: v(1), ty: Type::I8, src: v(2) }, Some(v(1)), vec![v(2)]),
        (
            Instruction::Cmp { dst: v(1), op: CmpOp::Eq, ty: Type::I8, lhs: v(2), rhs: v(3) },
            Some(v(1)),
            vec![v(2), v(3)],
        ),
        (
            Instruction::ICmp { dst: v(1), pred: ICmpPred::Eq, ty: Type::I8, lhs: v(2), rhs: v(3) },
            Some(v(1)),
            vec![v(2), v(3)],
        ),
        (
            Instruction::FCmp { dst: v(1), pred: FCmpPred::Oeq, ty: Type::F32, lhs: v(2), rhs: v(3) },
            Some(v(1)),
            vec![v(2), v(3)],
        ),
        (
            Instruction::Select { dst: v(1), ty: Type::I8, cond: v(2), on_true: v(3), on_false: v(4) },
            Some(v(1)),
            vec![v(2), v(3), v(4)],
        ),
        (
            Instruction::Cast { dst: v(1), op: CastOp::ZExt, dst_ty: Type::I16, src_ty: Type::I8, src: v(2) },
            Some(v(1)),
            vec![v(2)],
        ),
        (
            Instruction::Phi {
                dst: v(1),
                ty: Type::I8,
                incomings: vec![(v(2), BlockId(0)), (v(3), BlockId(1))],
            },
            Some(v(1)),
            vec![v(2), v(3)],
        ),
        (
            Instruction::Extract { dst: v(1), dst_ty: Type::I8, tuple: v(2), index: 0 },
            Some(v(1)),
            vec![v(2)],
        ),
        (
            Instruction::Checked { dst: v(1), op: CheckedOp::UAdd, ty: Type::I8, lhs: v(2), rhs: v(3) },
            Some(v(1)),
            vec![v(2), v(3)],
        ),
        (Instruction::Alloca { dst: v(1), ty: Type::I8, align: 1 }, Some(v(1)), vec![]),
        (Instruction::Load { dst: v(1), ty: Type::I8, ptr: v(2), align: 1 }, Some(v(1)), vec![v(2)]),
        (Instruction::Store { ty: Type::I8, value: v(2), ptr: v(3), align: 1 }, None, vec![v(2), v(3)]),
        (
            Instruction::Gep { dst: v(1), dst_ty: Type::I8, base_ptr: v(2), indices: vec![v(3), v(4)] },
            Some(v(1)),
            vec![v(2), v(3), v(4)],
        ),
        (Instruction::Memcpy { dst: v(1), src: v(2), n: v(3), align: 1 }, None, vec![v(1), v(2), v(3)]),
        (Instruction::Memset { dst: v(1), val: v(2), n: v(3), align: 1 }, None, vec![v(1), v(2), v(3)]),
        (
            Instruction::Call {
                dst: Some(v(1)),
                ret_ty: Type::I8,
                callee: Callee::Symbol("g".to_string()),
                args: vec![v(2), v(3)],
            },
            Some(v(1)),
            vec![v(2), v(3)],
        ),
        (
            Instruction::Call {
                dst: None,
                ret_ty: Type::Void,
                callee: Callee::Symbol("g".to_string()),
                args: vec![],
            },
            None,
            vec![],
        ),
        (Instruction::TrapIf { cond: v(2), reason: "r".to_string() }, None, vec![v(2)]),
    ];
    for (ins, def, uses) in cases {
        assert_eq!(instr_def(&ins), def);
        assert_eq!(instr_uses(&ins), uses);
    }
}

#[test]
fn verifier_rejects_an_unterminated_block() {
    let m = module(vec![function(
        Type::Void,
        vec![],
        vec![block(0, "entry", vec![], Some(Terminator::Br { target: BlockId(1) })), block(1, "open", vec![], None)],
    )]);
    match verify_module(&m) {
        Err(VerifyError::UnterminatedBlock { func, block }) => {
            assert_eq!(func, "f");
            assert_eq!(block, "open");
        },
        other => panic!("unexpected {:?}", other),
    }
}

#[test]
fn verifier_rejects_a_use_before_its_definition() {
    let m = module(vec![function(
        Type::Void,
        vec![],
        vec![block(
            0,
            "entry",
            vec![
                Instruction::Mov { dst: v(1), ty: Type::I8, src: v(2) },
                Instruction::Const { dst: v(2), ty: Type::I8, value: ConstValue::I(1) },
            ],
            Some(Terminator::Ret { ty: Type::Void, value: None }),
        )],
    )]);
    match verify_module(&m) {
        Err(VerifyError::UseOfUndefinedValue { func, value }) => {
            assert_eq!(func, "f");
            assert_eq!(value, v(2));
        },
        other => panic!("unexpected {:?}", other),
    }
}

#[test]
fn verifier_is_insensitive_to_flow() {
    let m = module(vec![function(
        Type::I8,
        vec![],
        vec![
            block(0, "entry", vec![], Some(Terminator::Br { target: BlockId(2) })),
            block(
                1,
                "never",
                vec![Instruction::Const { dst: v(1), ty: Type::I8, value: ConstValue::I(1) }],
                Some(Terminator::Trap { reason: "x".to_string() }),
            ),
            block(2, "last", vec![], Some(Terminator::Ret { ty: Type::I8, value: Some(v(1)) })),
        ],
    )]);
    assert!(verify_module(&m).is_ok());
}

#[test]
fn verifier_checks_terminators() {
    let undefined_cond = function(
        Type::Void,
        vec![],
        vec![block(
            0,
            "entry",
            vec![],
            Some(Terminator::CBr { cond: v(7), then_bb: BlockId(0), else_bb: BlockId(0) }),
        )],
    );
    assert!(matches!(
        verify_function(&undefined_cond),
        Err(VerifyError::UseOfUndefinedValue { value: ValueId(7), .. })
    ));
    let undefined_switch = function(
        Type::Void,
        vec![],
        vec![block(
            0,
            "entry",
            vec![],
            Some(Terminator::Switch { ty: Type::I8, value: v(8), default_bb: BlockId(0), cases: vec![] }),
        )],
    );
    assert!(matches!(
        verify_function(&undefined_switch),
        Err(VerifyError::UseOfUndefinedValue { value: ValueId(8), .. })
    ));
    let wrong_type = function(
        Type::I32,
        vec![Param { name: "p".to_string(), id: v(0), ty: Type::I64 }],
        vec![block(0, "entry", vec![], Some(Terminator::Ret { ty: Type::I64, value: Some(v(0)) }))],
    );
    match verify_function(&wrong_type) {
        Err(VerifyError::RetTypeMismatch { func, expected, got }) => {
            assert_eq!(func, "f");
            assert_eq!(expected, Type::I32);
            assert_eq!(got, Some(Type::I64));
        },
        other => panic!("unexpected {:?}", other),
    }
    let missing_value = function(
        Type::I32,
        vec![],
        vec![block(0, "entry", vec![], Some(Terminator::Ret { ty: Type::I32, value: None }))],
    );
    match verify_function(&missing_value) {
        Err(VerifyError::RetTypeMismatch { expected, got, .. }) => {
            assert_eq!(expected, Type::I32);
            assert_eq!(got, None);
        },
        other => panic!("unexpected {:?}", other),
    }
    let undefined_return = function(
        Type::I32,
        vec![],
        vec![block(0, "entry", vec![], Some(Terminator::Ret { ty: Type::I32, value: Some(v(3)) }))],
    );
    assert!(matches!(
        verify_function(&undefined_return),
        Err(VerifyError::UseOfUndefinedValue { value: ValueId(3), .. })
    ));
    let parameter_is_defined = function(
        Type::I32,
        vec![Param { name: "p".to_string(), id: v(0), ty: Type::I32 }],
        vec![block(0, "entry", vec![], Some(Terminator::Ret { ty: Type::I32, value: Some(v(0)) }))],
    );
    assert!(verify_function(&parameter_is_defined).is_ok());
    let trap = function(
        Type::I32,
        vec![],
        vec![block(0, "entry", vec![], Some(Terminator::Trap { reason: "stop".to_string() }))],
    );
    assert!(verify_function(&trap).is_ok());
}

#[test]
fn verifier_stops_at_the_first_faulty_function() {
    let bad = function(Type::Void, vec![], vec![block(0, "a", vec![], None)]);
    let mut worse = function(Type::Void, vec![], vec![block(0, "b", vec![], None)]);
    worse.name = "g".to_string();
    let m = module(vec![bad, worse]);
    match verify_module(&m) {
        Err(VerifyError::UnterminatedBlock { func, block }) => {
            assert_eq!(func, "f");
            assert_eq!(block, "a");
        },
        other => panic!("unexpected {:?}", other),
    }
}

#[test]
fn builder_hoists_slots_to_the_top_of_the_entry_block() {
    let mut mb = ModuleBuilder::new("t", DataLayout::default_64bit_le());
    let mut fb = mb.begin_function("f", vec![("p".to_string(), Type::I32)], Type::Void);
    assert_eq!(fb.entry_block(), BlockId(0));
    let p = fb.param_value(0);
    assert_eq!(p, ValueId(0));
    let c = fb.const_i32(5);
    let s1 = fb.alloca_in_entry(Type::I32, 4);
    fb.store(Type::I32, c, s1, 4);
    let other = fb.create_block("other");
    assert_eq!(other, BlockId(1));
    fb.br(other);
    assert!(fb.is_current_block_terminated());
    fb.set_insert_point(other);
    assert!(!fb.is_current_block_terminated());
    let s2 = fb.alloca_in_entry(Type::I64, 8);
    let a = fb.alloca(Type::I8, 1);
    fb.store(Type::I32, p, s2, 8);
    let _ = a;
    fb.ret(None);
    fb.finish();
    let m = mb.finish();
    verify_module(&m).unwrap();
    let f = &m.functions[0];
    assert_eq!(f.value_type(s1), Some(&Type::Ptr(Box::new(Type::I32))));
    assert_eq!(f.value_type(c), Some(&Type::I32));
    assert_eq!(f.value_type(p), Some(&Type::I32));
    assert_eq!(f.value_type(ValueId(99)), None);
    let txt = print_module(&m);
    let expected = "module {\n  target \"t\"\n  datalayout { ptr=64, endian=little }\n\n  fn @f(p: i32) -> void {\n  entry:\n    %v2: ptr<i32> = alloca i32, align 4\n    %v3: ptr<i64> = alloca i64, align 8\n    %v1: i32 = const i32 5\n    store i32 %v1, ptr<i32> %v2, align 4\n    br label %b1\n  other:\n    %v4: ptr<i8> = alloca i8, align 1\n    store i32 %v0, ptr<i32> %v3, align 8\n    ret void\n  }\n\n}\n";
    assert_eq!(txt, expected);
}

#[test]
fn builder_emits_every_kind_of_value() {
    let mut mb = ModuleBuilder::new("t", DataLayout { ptr_bits: 32, endian: Endian::Big });
    mb.add_global("g", Type::U8, ConstValue::U(7), 1);
    let mut fb = mb.begin_function("f", vec![], Type::I32);
    let u = fb.undef(Type::I32);
    let b = fb.const_bool(true);
    let i = fb.const_int(Type::I64, -3);
    let n = fb.const_uint(Type::U64, 3);
    let x = fb.const_float(Type::F64, FloatConst { bits: 0.5f64.to_bits(), text: "0.5".to_string() });
    let s = fb.bin(BinOp::Xor, Type::I32, u, u);
    let c = fb.icmp(ICmpPred::Slt, Type::I32, u, s);
    let d = fb.cmp(CmpOp::UGe, Type::U64, n, n);
    let k = fb.checked(CheckedOp::SMul, Type::I64, i, i);
    let e = fb.extract(Type::Tuple(vec![Type::I64, Type::I1]), Type::I1, k, 1);
    fb.trap_if(e, "over\"flow");
    let r = fb.call(Type::I32, Callee::Symbol("h".to_string()), vec![b, x]);
    let none = fb.call(Type::Void, Callee::Symbol("@k".to_string()), vec![]);
    assert_eq!(none, None);
    let l = fb.load(Type::I32, u, 4);
    let _ = (c, d, l);
    let exit = fb.create_block("exit");
    fb.cbr(c, exit, exit);
    fb.set_insert_point(exit);
    fb.trap("done");
    fb.finish();
    let mut fb = mb.begin_function("g", vec![], Type::I32);
    let z = fb.const_i32(0);
    fb.ret(Some(z));
    fb.finish();
    let m = mb.finish();
    verify_module(&m).unwrap();
    assert_eq!(r, Some(ValueId(10)));
    let txt = print_module(&m);
    let expected = "module {\n  target \"t\"\n  datalayout { ptr=32, endian=big }\n\n  global @g: u8 = const u8 7, align 1\n\n  fn @f() -> i32 {\n  entry:\n    %v0: i32 = undef i32\n    %v1: i1 = const i1 true\n    %v2: i64 = const i64 -3\n    %v3: u64 = const u64 3\n    %v4: f64 = const f64 0.5\n    %v5: i32 = xor i32 %v0, %v0\n    %v6: i1 = icmp slt i32 %v0, %v5\n    %v7: i1 = cmp uge u64 %v3, %v3\n    %v8: tuple<i64, i1> = smul_chk i64 %v2, %v2\n    %v9: i1 = extract %v8, 1\n    trap_if i1 %v9, reason=\"over\\\"flow\"\n    %v10: i32 = call i32 @h(%v1, %v4)\n    call void @k()\n    %v11: i32 = load i32, ptr<i32> %v0, align 4\n    cbr i1 %v6, label %b1, label %b1\n  exit:\n    trap reason=\"done\"\n  }\n\n  fn @g() -> i32 {\n  entry:\n    %v12: i32 = const i32 0\n    ret i32 %v12\n  }\n\n}\n";
    assert_eq!(txt, expected);
    assert_eq!(m.functions[0].value_type(k), Some(&Type::Tuple(vec![Type::I64, Type::I1])));
    assert_eq!(m.functions[1].blocks[0].id, BlockId(2));
}

#[test]
fn remaining_instructions_print_in_their_format() {
    let cases: Vec<(Instruction, &str)> = vec![
        (Instruction::Mov { dst: v(1), ty: Type::I8, src: v(2) }, "%v1: i8 = mov i8 %v2"),
        (Instruction::Not { dst: v(1), ty: Type::I8, src: v(2) }, "%v1: i8 = not i8 %v2"),
        (
            Instruction::FCmp { dst: v(1), pred: FCmpPred::Une, ty: Type::F32, lhs: v(2), rhs: v(3) },
            "%v1: i1 = fcmp une f32 %v2, %v3",
        ),
        (
            Instruction::Select { dst: v(1), ty: Type::I8, cond: v(2), on_true: v(3), on_false: v(4) },
            "%v1: i8 = select i1 %v2, i8 %v3, i8 %v4",
        ),
        (
            Instruction::Cast { dst: v(1), op: CastOp::IToF_S, dst_ty: Type::F64, src_ty: Type::I32, src: v(2) },
            "%v1: f64 = itof_s i32 %v2 to f64",
        ),
        (
            Instruction::Phi {
                dst: v(1),
                ty: Type::I8,
                incomings: vec![(v(2), BlockId(0)), (v(3), BlockId(4))],
            },
            "%v1: i8 = phi i8 [ %v2, %b0 ], [ %v3, %b4 ]",
        ),
        (Instruction::Phi { dst: v(1), ty: Type::I8, incomings: vec![] }, "%v1: i8 = phi i8 "),
        (
            Instruction::Gep { dst: v(1), dst_ty: Type::Ptr(Box::new(Type::I8)), base_ptr: v(2), indices: vec![v(3), v(4)] },
            "%v1: ptr<i8> = gep %v2, %v3, %v4",
        ),
        (
            Instruction::Memcpy { dst: v(1), src: v(2), n: v(3), align: 8 },
            "memcpy ptr<u8> %v1, ptr<u8> %v2, u64 %v3, align 8",
        ),
        (
            Instruction::Memset { dst: v(1), val: v(2), n: v(3), align: 16 },
            "memset ptr<u8> %v1, u8 %v2, u64 %v3, align 16",
        ),
        (
            Instruction::Checked { dst: v(1), op: CheckedOp::UAdd, ty: Type::U8, lhs: v(2), rhs: v(3) },
            "%v1: tuple<u8, i1> = uadd_chk u8 %v2, %v3",
        ),
        (
            Instruction::TrapIf { cond: v(1), reason: "a\\b".to_string() },
            "trap_if i1 %v1, reason=\"a\\\\b\"",
        ),
    ];
    for (ins, text) in cases {
        assert_eq!(print_instr(&ins), text);
    }
}

#[test]
fn terminators_print_in_their_format() {
    assert_eq!(print_term(&Terminator::Br { target: BlockId(3) }), "br label %b3");
    assert_eq!(
        print_term(&Terminator::Switch {
            ty: Type::I8,
            value: v(1),
            default_bb: BlockId(2),
            cases: vec![(ConstValue::I(-1), BlockId(3)), (ConstValue::U(4), BlockId(5))],
        }),
        "switch i8 %v1, label %b2 [ -1: %b3, 4: %b5 ]"
    );
    assert_eq!(
        print_term(&Terminator::Switch { ty: Type::I8, value: v(1), default_bb: BlockId(2), cases: vec![] }),
        "switch i8 %v1, label %b2 [ ]"
    );
    assert_eq!(print_term(&Terminator::Ret { ty: Type::Void, value: Some(v(1)) }), "ret void");
    assert_eq!(print_term(&Terminator::Ret { ty: Type::I8, value: None }), "ret i8 <missing>");
    assert_eq!(print_term(&Terminator::Ret { ty: Type::I8, value: Some(v(1)) }), "ret i8 %v1");
}

#[test]
fn constants_print_in_their_format() {
    assert_eq!(fmt_const(&ConstValue::Bool(false)), "false");
    assert_eq!(fmt_const(&ConstValue::I(0)), "0");
    assert_eq!(fmt_const(&ConstValue::I(i128::MIN)), i128::MIN.to_string());
    assert_eq!(fmt_const(&ConstValue::U(u128::MAX)), u128::MAX.to_string());
    assert_eq!(fmt_const(&ConstValue::U(1000)), "1000");
    assert_eq!(fmt_const(&float(f64::NAN)), "nan");
    assert_eq!(fmt_const(&float(-f64::NAN)), "nan");
    assert_eq!(fmt_const(&float(f64::INFINITY)), "+inf");
    assert_eq!(fmt_const(&float(f64::NEG_INFINITY)), "-inf");
    assert_eq!(fmt_const(&float(1.25)), "1.25");
    assert_eq!(fmt_const(&float(-0.0)), "-0");
    assert_eq!(fmt_const(&float(f64::MAX)), f64::MAX.to_string());
}

#[test]
fn reasons_are_escaped() {
    assert_eq!(escape("plain"), "plain");
    assert_eq!(escape("a\"b\\c"), "a\\\"b\\\\c");
    assert_eq!(escape(""), "");
    assert_eq!(escape("é\"ü"), "é\\\"ü");
}

#[test]
fn callee_gets_its_at_sign() {
    assert_eq!(fmt_callee(&Callee::Symbol("f".to_string())), "@f");
    assert_eq!(fmt_callee(&Callee::Symbol("@f".to_string())), "@f");
    assert_eq!(fmt_callee(&Callee::Symbol("".to_string())), "@");
}

#[test]
fn globals_are_followed_by_an_empty_line() {
    let m = Module {
        target: "x".to_string(),
        datalayout: DataLayout { ptr_bits: 16, endian: Endian::Big },
        globals: vec![
            Global { name: "a".to_string(), ty: Type::I1, init: ConstValue::Bool(true), align: 1 },
            Global { name: "b".to_string(), ty: Type::F32, init: float(2.5), align: 4 },
        ],
        functions: vec![],
    };
    assert_eq!(
        print_module(&m),
        "module {\n  target \"x\"\n  datalayout { ptr=16, endian=big }\n\n  global @a: i1 = const i1 true, align 1\n  global @b: f32 = const f32 2.5, align 4\n\n}\n"
    );
    assert_eq!(
        print_module(&module(vec![])),
        "module {\n  target \"t\"\n  datalayout { ptr=64, endian=little }\n\n}\n"
    );
}
