use nova::bytecode::OpCode;
use nova::compiler::ast::{BinaryOperator, Expression, Literal, Statement};
use nova::compiler::generator::BytecodeGenerator;
use nova::instruction::instruction_decoder::{
    decode_destination_register, decode_immutable_address_small, decode_opcode,
    decode_source_register_1, decode_source_register_2,
};
use nova::machine::VirtualMachine;

fn num(v: i64) -> Expression {
    Expression::Literal(Literal::Integer(v))
}

fn var(name: &str) -> Expression {
    Expression::Variable(name.as_bytes().to_vec())
}

fn payload_words(opcode: u32) -> usize {
    if opcode == OpCode::LoadInt32.to_u32() || opcode == OpCode::LoadFloat32.to_u32() {
        1
    } else if opcode == OpCode::LoadInt64.to_u32() || opcode == OpCode::LoadFloat64.to_u32() {
        2
    } else {
        0
    }
}

fn headers(words: &[u32]) -> Vec<usize> {
    let mut i = 0;
    let mut out = vec![];
    while i < words.len() {
        out.push(i);
        i += 1 + payload_words(decode_opcode(words[i]));
    }
    assert_eq!(i, words.len());
    out
}

fn deep_sum(depth: usize) -> Expression {
    if depth == 0 {
        num(1)
    } else {
        Expression::Binary(Box::new(num(1)), BinaryOperator::Plus, Box::new(deep_sum(depth - 1)))
    }
}

#[test]
fn literal_widths_follow_their_range() {
    let statements = vec![
        Statement::VarDeclaration(b"a".to_vec(), Some(num(5))),
        Statement::VarDeclaration(b"b".to_vec(), Some(num(-5_000_000_000))),
    ];
    let program = BytecodeGenerator::new().generate_bytecode(&statements).unwrap();
    let w = &program.instructions;
    assert_eq!(decode_opcode(w[0]), OpCode::LoadInt32.to_u32());
    assert_eq!(w[1] as i32, 5);
    assert_eq!(decode_opcode(w[2]), OpCode::DefineGlobalIndirect.to_u32());
    assert_eq!(decode_opcode(w[3]), OpCode::StoreGlobalIndirect.to_u32());
    assert_eq!(decode_opcode(w[4]), OpCode::LoadInt64.to_u32());
    let merged = ((w[5] as u64) << 32) | w[6] as u64;
    assert_eq!(merged as i64, -5_000_000_000);
    assert_eq!(decode_opcode(*w.last().unwrap()), OpCode::Halt.to_u32());
}

#[test]
fn walk_over_generated_code_reaches_its_end() {
    let statements = vec![
        Statement::VarDeclaration(b"x".to_vec(), Some(num(1 << 40))),
        Statement::While(
            Expression::Binary(Box::new(var("x")), BinaryOperator::Less, Box::new(num(0))),
            Box::new(Statement::Block(vec![Statement::Expression(Expression::Assign(
                b"x".to_vec(),
                Box::new(num(-2_000_000_000_000)),
            ))])),
        ),
    ];
    let program = BytecodeGenerator::new().generate_bytecode(&statements).unwrap();
    let hs = headers(&program.instructions);
    assert_eq!(*hs.last().unwrap(), program.instructions.len() - 1);
}

#[test]
fn temporaries_stay_below_ten() {
    let statements = vec![Statement::Expression(Expression::Call(
        Box::new(var("println")),
        vec![deep_sum(8)],
    ))];
    let program = BytecodeGenerator::new().generate_bytecode(&statements).unwrap();
    for h in headers(&program.instructions) {
        let w = program.instructions[h];
        let op = decode_opcode(w);
        if op == OpCode::Add.to_u32() {
            assert!(decode_destination_register(w) < 10);
            assert!(decode_source_register_1(w) < 10);
            assert!(decode_source_register_2(w) < 10);
        }
    }
    let too_deep = vec![Statement::Expression(deep_sum(12))];
    assert!(BytecodeGenerator::new().generate_bytecode(&too_deep).is_err());
}

#[test]
fn unsupported_operators_are_generation_errors() {
    let statements = vec![Statement::Expression(Expression::Binary(
        Box::new(num(1)),
        BinaryOperator::And,
        Box::new(num(2)),
    ))];
    let error = BytecodeGenerator::new().generate_bytecode(&statements).err().unwrap();
    assert!(String::from_utf8(error).unwrap().starts_with("[Bytecode Gen Error]"));
}

#[test]
fn second_program_refers_to_its_own_names_after_loading() {
    let a = BytecodeGenerator::new()
        .generate_bytecode(&vec![Statement::VarDeclaration(b"a".to_vec(), Some(num(1)))])
        .unwrap();
    let b = BytecodeGenerator::new()
        .generate_bytecode(&vec![Statement::VarDeclaration(b"b".to_vec(), Some(num(2)))])
        .unwrap();
    let mut vm = VirtualMachine::new();
    vm.load_program(a).unwrap();
    let base = vm.instructions.len();
    let before = vm.immutables.len();
    vm.load_program(b).unwrap();
    let define = vm.instructions[base + 2];
    assert_eq!(decode_opcode(define), OpCode::DefineGlobalIndirect.to_u32());
    let index = decode_immutable_address_small(define) as usize;
    assert_eq!(index, before);
    match &vm.immutables[index] {
        nova::object::NovaObject::String(name) => assert_eq!(name, b"b"),
        _ => panic!("expected the name of b"),
    }
}

#[test]
fn straight_line_code_lowers_word_by_word() {
    let statements = vec![Statement::VarDeclaration(
        b"a".to_vec(),
        Some(Expression::Binary(Box::new(num(1)), BinaryOperator::Greater, Box::new(var("b")))),
    )];
    let program = BytecodeGenerator::new().generate_bytecode(&statements).unwrap();
    let w = &program.instructions;
    assert_eq!(w.len(), 8);
    assert_eq!(decode_opcode(w[0]), OpCode::LoadInt32.to_u32());
    assert_eq!(w[1], 1);
    assert_eq!(decode_opcode(w[2]), OpCode::LoadGlobalIndirect.to_u32());
    assert_eq!(decode_destination_register(w[2]), 1);
    assert_eq!(decode_immutable_address_small(w[2]), 0);
    assert_eq!(decode_opcode(w[3]), OpCode::LessEqual.to_u32());
    assert_eq!(decode_opcode(w[4]), OpCode::Not.to_u32());
    assert_eq!(decode_opcode(w[5]), OpCode::DefineGlobalIndirect.to_u32());
    assert_eq!(decode_immutable_address_small(w[5]), 1);
    assert_eq!(decode_opcode(w[6]), OpCode::StoreGlobalIndirect.to_u32());
    assert_eq!(decode_opcode(w[7]), OpCode::Halt.to_u32());
    assert_eq!(program.immutables.len(), 2);
}
