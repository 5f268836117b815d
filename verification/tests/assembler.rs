use whale::assembler::ast::{ASTNode, Directive, DirectiveValue, Instruction, MemoryOperand, Operand, AST};
use whale::assembler::error::AsmError;
use whale::assembler::isa::amd64::encoder::{
    encode, encode_directive, encode_dw, encode_instruction, encode_mov, lookup_reg,
};
use whale::assembler::isa::amd64::encoding::{encode_address, ModRM, REX, SIB};
use whale::assembler::isa::amd64::parser::{
    is_directive, is_register, parse, parse_instruction, parse_operand, parse_operand_list,
};
use whale::assembler::isa::AMD64;
use whale::assembler::tokens::{tokenize, try_tokenize, Token, TokenKind};
use whale::assembler::{assemble, try_assemble, RelocKind};

fn kinds(src: &str) -> Vec<(TokenKind, usize)> {
    tokenize(src).unwrap().into_iter().map(|t| (t.kind, t.position)).collect()
}

fn ident(s: &str) -> TokenKind {
    TokenKind::Identifier(s.to_string())
}

fn tokens(src: &str) -> Vec<Token> {
    tokenize(src).unwrap()
}

fn memory(base: Option<&str>, disp: i64) -> MemoryOperand {
    MemoryOperand { base: base.map(|b| b.to_string()), index: None, scale: 1, disp }
}

#[test]
fn modrm_packs_its_fields() {
    assert_eq!(ModRM::new(3, 0, 0).encode(), 0xC0);
    assert_eq!(ModRM::new(1, 2, 5).encode(), 0x55);
    assert_eq!(ModRM::new(0, 7, 7).encode(), 0x3F);
    assert_eq!(ModRM::new(2, 9, 12).encode(), 0x8C);
    assert_eq!(ModRM::new(7, 0, 0).encode(), 0xC0);
    let m = ModRM::new(1, 2, 3);
    assert_eq!((m.mod_bits, m.reg, m.rm), (1, 2, 3));
}

#[test]
fn sib_packs_its_fields() {
    assert_eq!(SIB::new(0, 0, 0).encode(), 0x00);
    assert_eq!(SIB::new(2, 1, 5).encode(), 0x8D);
    assert_eq!(SIB::new(7, 15, 15).encode(), 0xFF);
    assert_eq!(SIB::new(1, 4, 4).encode(), 0x64);
}

#[test]
fn rex_packs_its_flags() {
    assert_eq!(REX::new().encode(), 0x40);
    assert_eq!(REX { w: true, r: false, x: false, b: false }.encode(), 0x48);
    assert_eq!(REX { w: false, r: true, x: false, b: false }.encode(), 0x44);
    assert_eq!(REX { w: false, r: false, x: true, b: false }.encode(), 0x42);
    assert_eq!(REX { w: false, r: false, x: false, b: true }.encode(), 0x41);
    assert_eq!(REX { w: true, r: true, x: true, b: true }.encode(), 0x4F);
}

#[test]
fn registers_are_looked_up_by_name() {
    assert_eq!(lookup_reg("rax", 64), Some(0));
    assert_eq!(lookup_reg("rcx", 64), Some(1));
    assert_eq!(lookup_reg("rbp", 64), Some(5));
    assert_eq!(lookup_reg("r15", 64), Some(15));
    assert_eq!(lookup_reg("eax", 64), None);
    assert_eq!(lookup_reg("eax", 32), Some(0));
    assert_eq!(lookup_reg("r9d", 32), Some(9));
    assert_eq!(lookup_reg("rax", 32), None);
    assert_eq!(lookup_reg("rax", 16), None);
    assert_eq!(lookup_reg("", 64), None);
    assert!(is_register("rax"));
    assert!(is_register("dbp"));
    assert!(is_register("dh"));
    assert!(!is_register("ebp"));
    assert!(!is_register("r16"));
    assert!(is_directive("dq"));
    assert!(!is_directive("dz"));
}

#[test]
fn address_without_displacement_has_mode_zero() {
    let a = encode_address(&memory(Some("rax"), 0), 3).unwrap();
    assert_eq!((a.modrm.mod_bits, a.modrm.reg, a.modrm.rm), (0, 3, 0));
    assert!(a.sib.is_none());
    assert_eq!(a.disp, None);
}

#[test]
fn address_of_rbp_always_has_a_displacement() {
    let a = encode_address(&memory(Some("rbp"), 0), 1).unwrap();
    assert_eq!((a.modrm.mod_bits, a.modrm.reg, a.modrm.rm), (1, 1, 5));
    assert_eq!(a.disp, Some(vec![0]));
}

#[test]
fn small_displacement_takes_one_byte() {
    let a = encode_address(&memory(Some("rbx"), -8), 0).unwrap();
    assert_eq!((a.modrm.mod_bits, a.modrm.rm), (1, 3));
    assert_eq!(a.disp, Some(vec![0xF8]));
    let a = encode_address(&memory(Some("rbx"), 127), 0).unwrap();
    assert_eq!(a.disp, Some(vec![0x7F]));
    let a = encode_address(&memory(Some("rbx"), -128), 0).unwrap();
    assert_eq!(a.disp, Some(vec![0x80]));
}

#[test]
fn large_displacement_takes_four_bytes() {
    let a = encode_address(&memory(Some("r12"), 128), 0).unwrap();
    assert_eq!((a.modrm.mod_bits, a.modrm.rm), (2, 12));
    assert_eq!(a.disp, Some(vec![0x80, 0, 0, 0]));
    let a = encode_address(&memory(Some("rdi"), -129), 0).unwrap();
    assert_eq!(a.disp, Some((-129i32).to_le_bytes().to_vec()));
    let a = encode_address(&memory(Some("rdi"), 0x1_2345_6789), 0).unwrap();
    assert_eq!(a.disp, Some(vec![0x89, 0x67, 0x45, 0x23]));
    let a = encode_address(&memory(Some("rdi"), i64::MIN), 0).unwrap();
    assert_eq!(a.disp, Some(vec![0, 0, 0, 0]));
}

#[test]
fn address_needs_a_64_bit_base() {
    match encode_address(&memory(None, 4), 0) {
        Err(AsmError::EncodeError(msg)) => {
            assert_eq!(msg, "Complex memory addressing not yet implemented")
        },
        other => panic!("unexpected {:?}", other.map(|_| ())),
    }
    match encode_address(&memory(Some("eax"), 4), 0) {
        Err(AsmError::EncodeError(msg)) => assert_eq!(msg, "Invalid base register"),
        other => panic!("unexpected {:?}", other.map(|_| ())),
    }
}

#[test]
fn tokenizer_places_every_token() {
    assert_eq!(
        kinds("mov rax, 1"),
        vec![(ident("mov"), 3), (ident("rax"), 7), (TokenKind::Comma, 7), (TokenKind::Number(1), 10)]
    );
    assert_eq!(
        kinds("l1:\n\t[rbx+8-x_1]"),
        vec![
            (ident("l1"), 2),
            (TokenKind::Colon, 2),
            (TokenKind::LBracket, 5),
            (ident("rbx"), 9),
            (TokenKind::Plus, 9),
            (TokenKind::Number(8), 11),
            (TokenKind::Minus, 11),
            (ident("x_1"), 15),
            (TokenKind::RBracket, 15),
        ]
    );
    assert_eq!(kinds(""), vec![]);
    assert_eq!(kinds(" \r\n\t"), vec![]);
}

#[test]
fn tokenizer_reads_strings_to_the_next_quote() {
    assert_eq!(
        kinds("db \"a b\",\"\""),
        vec![
            (ident("db"), 2),
            (TokenKind::StringLiteral("a b".to_string()), 8),
            (TokenKind::Comma, 8),
            (TokenKind::StringLiteral("".to_string()), 11),
        ]
    );
    assert_eq!(kinds("\"open"), vec![(TokenKind::StringLiteral("open".to_string()), 5)]);
    assert_eq!(kinds("\""), vec![(TokenKind::StringLiteral("".to_string()), 1)]);
}

#[test]
fn tokenizer_reads_numbers_and_words() {
    assert_eq!(kinds("007"), vec![(TokenKind::Number(7), 3)]);
    assert_eq!(
        kinds("9223372036854775807"),
        vec![(TokenKind::Number(i64::MAX), 19)]
    );
    assert_eq!(kinds("12ab"), vec![(TokenKind::Number(12), 2), (ident("ab"), 4)]);
    assert_eq!(kinds("ab12"), vec![(ident("ab12"), 4)]);
    assert_eq!(kinds("_x"), vec![(ident("_x"), 2)]);
    assert_eq!(kinds("größe"), vec![(ident("größe"), 5)]);
}

#[test]
fn tokenizer_rejects_what_it_cannot_place() {
    assert_eq!(tokenize("mov $1").unwrap_err(), "Unexpected char '$' at 4");
    assert_eq!(tokenize("*").unwrap_err(), "Unexpected char '*' at 0");
    assert_eq!(tokenize("a\n;b").unwrap_err(), "Unexpected char ';' at 2");
}

#[test]
fn numbers_that_do_not_fit_are_told_apart() {
    assert!(try_tokenize("9223372036854775808").is_none());
    assert!(try_tokenize("1 99999999999999999999999 2").is_none());
    assert!(try_tokenize("٣").is_none());
    assert!(try_tokenize("1²").is_none());
    assert_eq!(try_tokenize("12").unwrap().unwrap().len(), 1);
    assert_eq!(try_tokenize("?").unwrap().unwrap_err(), "Unexpected char '?' at 0");
    assert!(try_assemble("mov rax, 99999999999999999999", &AMD64).is_none());
}

fn parsed(src: &str) -> Vec<ASTNode> {
    parse(&tokens(src)).unwrap().items
}

fn describe(node: &ASTNode) -> String {
    format!("{:?}", node)
}

#[test]
fn parser_finds_labels_instructions_and_directives() {
    let items = parsed("start: mov rax, 1 db 1, \"a\" x , end: nop");
    let text: Vec<String> = items.iter().map(describe).collect();
    assert_eq!(
        text,
        vec![
            "Label(\"start\")".to_string(),
            "Instruction(Instruction { mnemonic: \"mov\", operands: [Register(\"rax\"), Immediate(1)] })".to_string(),
            "Directive(Directive { name: \"db\", values: [Number(1), StringLiteral(\"a\"), StringLiteral(\"x\"), StringLiteral(\"end\")] })".to_string(),
            "Instruction(Instruction { mnemonic: \"nop\", operands: [] })".to_string(),
        ]
    );
}

#[test]
fn parser_takes_operands_while_commas_follow() {
    let text: Vec<String> = parsed("add rax, lbl, 3 ret").iter().map(describe).collect();
    assert_eq!(
        text,
        vec![
            "Instruction(Instruction { mnemonic: \"add\", operands: [Register(\"rax\"), Label(\"lbl\"), Immediate(3)] })".to_string(),
            "Instruction(Instruction { mnemonic: \"ret\", operands: [] })".to_string(),
        ]
    );
    let text: Vec<String> = parsed("nop nop").iter().map(describe).collect();
    assert_eq!(
        text,
        vec!["Instruction(Instruction { mnemonic: \"nop\", operands: [Label(\"nop\")] })".to_string()]
    );
    let text: Vec<String> = parsed(", 5 : ]").iter().map(describe).collect();
    assert_eq!(text, Vec::<String>::new());
}

#[test]
fn parser_reads_memory_operands() {
    let text: Vec<String> = parsed("mov [rbx + rcx + 8 - 3], 1").iter().map(describe).collect();
    assert_eq!(
        text,
        vec!["Instruction(Instruction { mnemonic: \"mov\", operands: [Memory(MemoryOperand { base: Some(\"rbx\"), index: Some(\"rcx\"), scale: 1, disp: 5 }), Immediate(1)] })".to_string()]
    );
    let text: Vec<String> = parsed("push [rbp - 16").iter().map(describe).collect();
    assert_eq!(
        text,
        vec!["Instruction(Instruction { mnemonic: \"push\", operands: [Memory(MemoryOperand { base: Some(\"rbp\"), index: None, scale: 1, disp: -16 })] })".to_string()]
    );
    let text: Vec<String> = parsed("push [rax, 2").iter().map(describe).collect();
    assert_eq!(
        text,
        vec!["Instruction(Instruction { mnemonic: \"push\", operands: [Memory(MemoryOperand { base: Some(\"rax\"), index: None, scale: 1, disp: 0 }), Immediate(2)] })".to_string()]
    );
    let text: Vec<String> = parsed("push [rax + lbl + 4]").iter().map(describe).collect();
    assert_eq!(
        text,
        vec![
            "Instruction(Instruction { mnemonic: \"push\", operands: [Memory(MemoryOperand { base: None, index: None, scale: 1, disp: 0 })] })".to_string(),
        ]
    );
}

#[test]
fn parser_reports_its_errors() {
    match parse(&tokens("mov [rax + rbx + rcx]")) {
        Err(AsmError::ParserError(msg)) => assert_eq!(msg, "Too many registers in memory operand"),
        other => panic!("unexpected {:?}", other),
    }
    match parse(&tokens("mov [rax : 1]")) {
        Err(AsmError::ParserError(msg)) => assert_eq!(msg, "Unexpected token in memory operand"),
        other => panic!("unexpected {:?}", other),
    }
    match parse(&tokens("mov +")) {
        Err(AsmError::ParserError(msg)) => assert_eq!(msg, "Unexpected token in operand"),
        other => panic!("unexpected {:?}", other),
    }
    match parse(&tokens("mov rax, \"s\"")) {
        Err(AsmError::ParserError(msg)) => assert_eq!(msg, "Unexpected token in operand"),
        other => panic!("unexpected {:?}", other),
    }
}

fn instruction(mnemonic: &str, operands: Vec<Operand>) -> ASTNode {
    ASTNode::Instruction(Instruction { mnemonic: mnemonic.to_string(), operands })
}

fn directive(name: &str, values: Vec<DirectiveValue>) -> ASTNode {
    ASTNode::Directive(Directive { name: name.to_string(), values })
}

fn encode_error(items: Vec<ASTNode>) -> String {
    match encode(&AST { items }) {
        Err(AsmError::EncodeError(msg)) => msg,
        Err(other) => panic!("unexpected {:?}", other),
        Ok(_) => panic!("unexpected success"),
    }
}

#[test]
fn encoder_encodes_the_two_forms_of_mov() {
    let out = encode(&AST {
        items: vec![
            instruction("nop", vec![]),
            ASTNode::Label("here".to_string()),
            instruction("mov", vec![Operand::Label("rcx".to_string()), Operand::Immediate(-2)]),
            instruction("mov", vec![Operand::Label("r9".to_string()), Operand::Label("here".to_string())]),
            ASTNode::Section("s".to_string()),
            ASTNode::Label("end".to_string()),
        ],
    })
    .unwrap();
    assert_eq!(
        out.bytes,
        vec![
            0x90, 0x48, 0xB9, 0xFE, 0xFF, 0xFF, 0xFF, 0xFF, 0xFF, 0xFF, 0xFF, 0x48, 0xC1, 0, 0, 0, 0, 0,
            0, 0, 0
        ]
    );
    assert_eq!(out.symbols, vec![("here".to_string(), 1), ("end".to_string(), 21)]);
    assert_eq!(out.relocations.len(), 1);
    assert_eq!(out.relocations[0].offset, 13);
    assert_eq!(out.relocations[0].symbol, "here");
    assert_eq!(out.relocations[0].kind, RelocKind::Absolute);
}

#[test]
fn encoder_writes_data_lowest_byte_first() {
    let out = encode(&AST {
        items: vec![
            directive(
                "db",
                vec![
                    DirectiveValue::Number(0x1FF),
                    DirectiveValue::Number(-1),
                    DirectiveValue::StringLiteral("hé".to_string()),
                ],
            ),
            directive("dw", vec![DirectiveValue::Number(0x1234), DirectiveValue::Number(-2)]),
            directive("dd", vec![DirectiveValue::Number(0x1_0203_0405)]),
            directive("dq", vec![DirectiveValue::Number(i64::MIN), DirectiveValue::Number(1)]),
        ],
    })
    .unwrap();
    let mut expected: Vec<u8> = vec![0xFF, 0xFF, b'h', 0xC3, 0xA9, 0x34, 0x12, 0xFE, 0xFF, 0x05, 0x04, 0x03, 0x02];
    expected.extend_from_slice(&i64::MIN.to_le_bytes());
    expected.extend_from_slice(&1i64.to_le_bytes());
    assert_eq!(out.bytes, expected);
}

#[test]
fn encoder_reports_its_errors() {
    assert_eq!(encode_error(vec![instruction("jmp", vec![])]), "Unknown mnemonic jmp");
    assert_eq!(
        encode_error(vec![instruction("mov", vec![Operand::Immediate(1)])]),
        "mov expects 2 operands"
    );
    assert_eq!(
        encode_error(vec![instruction(
            "mov",
            vec![Operand::Register("rax".to_string()), Operand::Immediate(1)]
        )]),
        "Unsupported mov form"
    );
    assert_eq!(
        encode_error(vec![instruction(
            "mov",
            vec![Operand::Label("eax".to_string()), Operand::Immediate(1)]
        )]),
        "Unsupported mov form"
    );
    assert_eq!(
        encode_error(vec![instruction(
            "mov",
            vec![Operand::Label("rax".to_string()), Operand::Register("rbx".to_string())]
        )]),
        "Unsupported mov form"
    );
    assert_eq!(encode_error(vec![directive("dz", vec![])]), "Unknown directive dz");
    let id = || DirectiveValue::Identifier("x".to_string());
    let st = || DirectiveValue::StringLiteral("x".to_string());
    assert_eq!(encode_error(vec![directive("db", vec![id()])]), "db does not support identifier");
    assert_eq!(encode_error(vec![directive("dw", vec![id()])]), "dw supports only numbers");
    assert_eq!(encode_error(vec![directive("dw", vec![st()])]), "dw supports only numbers");
    assert_eq!(
        encode_error(vec![directive("dd", vec![id()])]),
        "dd identifier reloc not implemented yet"
    );
    assert_eq!(encode_error(vec![directive("dd", vec![st()])]), "dd supports only numbers");
    assert_eq!(
        encode_error(vec![directive("dq", vec![id()])]),
        "dq identifier reloc not implemented yet"
    );
    assert_eq!(encode_error(vec![directive("dq", vec![st()])]), "dq supports only numbers");
}

#[test]
fn assembling_runs_the_three_stages() {
    let out = assemble("db 7 : top: dw 258, 3", &AMD64).unwrap();
    assert_eq!(out.bytes, vec![7, 2, 1, 3, 0]);
    assert_eq!(out.symbols, vec![("top".to_string(), 1)]);
    assert_eq!(assemble("nop dq 2", &AMD64).unwrap().bytes, vec![0x90]);
    match assemble("nop #", &AMD64) {
        Err(AsmError::LexerError(msg)) => assert_eq!(msg, "Unexpected char '#' at 4"),
        other => panic!("unexpected {:?}", other.map(|o| o.bytes)),
    }
    match assemble("mov [rax : ]", &AMD64) {
        Err(AsmError::ParserError(msg)) => assert_eq!(msg, "Unexpected token in memory operand"),
        other => panic!("unexpected {:?}", other.map(|o| o.bytes)),
    }
    match assemble("mov rax, 1", &AMD64) {
        Err(AsmError::EncodeError(msg)) => assert_eq!(msg, "Unsupported mov form"),
        other => panic!("unexpected {:?}", other.map(|o| o.bytes)),
    }
    assert_eq!(try_assemble("nop", &AMD64).unwrap().unwrap().bytes, vec![0x90]);
}

#[test]
fn errors_have_their_text() {
    assert_eq!(AsmError::LexerError("a".to_string()).to_text(), "Lexer error: a");
    assert_eq!(AsmError::ParserError("b".to_string()).to_text(), "Parser error: b");
    assert_eq!(AsmError::EncodeError("c".to_string()).to_text(), "Encode error: c");
    assert_eq!(AsmError::SymbolError("d".to_string()).to_text(), "Symbol error: d");
    assert_eq!(AsmError::UnexpectedToken("e".to_string()).to_text(), "Unexpected token: e");
}

#[test]
fn a_refused_directive_keeps_the_values_before_the_bad_one() {
    let mut bytes = vec![0xAA];
    let dir = Directive {
        name: "dw".to_string(),
        values: vec![
            DirectiveValue::Number(0x0102),
            DirectiveValue::Identifier("x".to_string()),
            DirectiveValue::Number(3),
        ],
    };
    match encode_dw(&dir, &mut bytes) {
        Err(AsmError::EncodeError(m)) => assert_eq!(m, "dw supports only numbers"),
        other => panic!("expected an encode error, got {:?}", other),
    }
    assert_eq!(bytes, vec![0xAA, 0x02, 0x01]);

    let mut bytes = vec![0xAA];
    let unknown = Directive { name: "dz".to_string(), values: vec![DirectiveValue::Number(1)] };
    match encode_directive(&unknown, &mut bytes) {
        Err(AsmError::EncodeError(m)) => assert_eq!(m, "Unknown directive dz"),
        other => panic!("expected an encode error, got {:?}", other),
    }
    assert_eq!(bytes, vec![0xAA]);
}

#[test]
fn a_refused_instruction_adds_nothing() {
    let mut bytes = vec![0x90];
    let mut relocs = Vec::new();
    let bad_mov = Instruction {
        mnemonic: "mov".to_string(),
        operands: vec![Operand::Label("eax".to_string()), Operand::Immediate(1)],
    };
    match encode_mov(&bad_mov, &mut bytes, &mut relocs) {
        Err(AsmError::EncodeError(m)) => assert_eq!(m, "Unsupported mov form"),
        other => panic!("expected an encode error, got {:?}", other),
    }
    let unknown = Instruction { mnemonic: "hlt".to_string(), operands: vec![] };
    match encode_instruction(&unknown, &mut bytes, &mut relocs) {
        Err(AsmError::EncodeError(m)) => assert_eq!(m, "Unknown mnemonic hlt"),
        other => panic!("expected an encode error, got {:?}", other),
    }
    assert_eq!(bytes, vec![0x90]);
    assert!(relocs.is_empty());
}

#[test]
fn a_refused_operand_leaves_the_position_where_it_gave_up() {
    let toks = tokens("mov rax, [rax rbx rcx]");
    let mut pos = 1;
    match parse_operand_list(&toks, &mut pos) {
        Err(AsmError::ParserError(m)) => assert_eq!(m, "Too many registers in memory operand"),
        other => panic!("expected a parser error, got {:?}", other),
    }
    assert_eq!(pos, 7);

    let mut pos = 0;
    assert!(parse_instruction(&toks, &mut pos).is_err());
    assert_eq!(pos, 7);

    let toks = tokens("mov , rax");
    let mut pos = 1;
    match parse_operand(&toks, &mut pos) {
        Err(AsmError::ParserError(m)) => assert_eq!(m, "Unexpected token in operand"),
        other => panic!("expected a parser error, got {:?}", other),
    }
    assert_eq!(pos, 1);

    let toks = tokens("mov rax, [rbx + 8], 3");
    let mut pos = 1;
    assert_eq!(parse_operand_list(&toks, &mut pos).unwrap().len(), 3);
    assert_eq!(pos, toks.len());
}
