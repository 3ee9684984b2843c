use nova::bytecode::OpCode;
use nova::debug::{debug_immutable, debug_instruction};
use nova::file::{read_program, write_program, FileError};
use nova::instruction::InstructionBuilder;
use nova::object::{NovaFunction, NovaObject};
use nova::program::Program;

fn get_program() -> Program {
    let immutables = vec![NovaObject::String("I am Timothy".as_bytes().to_vec())];

    let instructions = vec![
        InstructionBuilder::new_load_float32_instruction(0),
        10.0f32.to_bits(),
        InstructionBuilder::new_load_float32_instruction(1),
        15.0f32.to_bits(),
        InstructionBuilder::new_binary_op_instruction(OpCode::Add, 0, 0, 1),
        InstructionBuilder::new_print_instruction(0, true),
        InstructionBuilder::new_binary_op_instruction(OpCode::Mod, 0, 0, 1),
        InstructionBuilder::new_print_instruction(0, true),
        InstructionBuilder::new_load_constant_instruction(2, 0),
        InstructionBuilder::new_print_instruction(2, true),
        InstructionBuilder::new_binary_op_instruction(OpCode::Add, 0, 0, 2),
        InstructionBuilder::new_print_instruction(0, true),
        InstructionBuilder::new_halt_instruction(),
    ];
    Program {
        instructions,
        immutables,
        line_definitions: vec![],
    }
}

fn same_objects(a: &[NovaObject], b: &[NovaObject]) -> bool {
    a.len() == b.len()
        && a.iter().zip(b.iter()).all(|(x, y)| match (x, y) {
            (NovaObject::String(p), NovaObject::String(q)) => p == q,
            (NovaObject::NovaFunction(p), NovaObject::NovaFunction(q)) => {
                p.name == q.name && p.address == q.address && p.arity == q.arity
                    && p.is_method == q.is_method
            }
            _ => false,
        })
}

#[test]
fn test_write_and_read() {
    let program = get_program();
    let bytes = write_program(&program);
    let r_program = read_program(&bytes).unwrap();
    assert_eq!(program.instructions, r_program.instructions);
    assert!(same_objects(&program.immutables, &r_program.immutables));
}

#[test]
fn written_header_is_little_endian() {
    let program = get_program();
    let bytes = write_program(&program);
    assert_eq!(&bytes[0..4], &nova::version::major().to_le_bytes());
    assert_eq!(&bytes[4..8], &nova::version::minor().to_le_bytes());
    assert_eq!(&bytes[8..12], &13u32.to_le_bytes());
    assert_eq!(&bytes[12..16], &1u32.to_le_bytes());
    assert_eq!(&bytes[16..20], &program.instructions[0].to_le_bytes());
    let tail = 16 + 13 * 4;
    assert_eq!(bytes[tail], 0);
    assert_eq!(&bytes[tail + 1..tail + 9], &12u64.to_le_bytes());
    assert_eq!(&bytes[tail + 9..], b"I am Timothy");
}

#[test]
fn functions_round_trip_without_locals() {
    let program = Program {
        instructions: vec![InstructionBuilder::new_halt_instruction()],
        immutables: vec![
            NovaObject::String(b"f".to_vec()),
            NovaObject::NovaFunction(NovaFunction {
                name: b"f".to_vec(),
                address: 7,
                arity: 2,
                is_method: true,
                number_of_locals: 0,
            }),
        ],
        line_definitions: vec![],
    };
    let bytes = write_program(&program);
    let read = read_program(&bytes).unwrap();
    assert!(same_objects(&program.immutables, &read.immutables));
}

#[test]
fn newer_versions_are_rejected() {
    let mut bytes = write_program(&get_program());
    bytes[0..4].copy_from_slice(&(nova::version::major() + 1).to_le_bytes());
    assert_eq!(read_program(&bytes).err(), Some(FileError::VersionTooNew));
}

#[test]
fn truncated_files_are_rejected() {
    let bytes = write_program(&get_program());
    assert_eq!(read_program(&bytes[..10]).err(), Some(FileError::UnexpectedEnd));
    assert_eq!(
        read_program(&bytes[..bytes.len() - 1]).err(),
        Some(FileError::UnexpectedEnd)
    );
}

#[test]
fn unknown_kinds_bad_utf8_and_trailing_bytes_are_rejected() {
    let bytes = write_program(&get_program());
    let tail = 16 + 13 * 4;
    let mut unknown = bytes.clone();
    unknown[tail] = 9;
    assert_eq!(read_program(&unknown).err(), Some(FileError::UnknownImmutableKind));
    let mut invalid = bytes.clone();
    invalid[tail + 9] = 0xff;
    assert_eq!(read_program(&invalid).err(), Some(FileError::InvalidUtf8));
    let mut longer = bytes.clone();
    longer.push(0);
    assert_eq!(read_program(&longer).err(), Some(FileError::TrailingBytes));
}

#[test]
fn disassembly_names_opcodes_and_operands() {
    let words = vec![
        InstructionBuilder::new_binary_op_instruction(OpCode::Add, 1, 2, 3),
        InstructionBuilder::new_jump_instruction(4, false),
        InstructionBuilder::new_load_bool(5, 1),
        InstructionBuilder::new().add_opcode(OpCode::LoadInt32).add_destination_register(2).build(),
        (-12i32) as u32,
        InstructionBuilder::new_invoke_instruction(0, 2, 3),
        InstructionBuilder::new_halt_instruction(),
        63u32 << 26,
    ];
    let text = |i: usize| String::from_utf8(debug_instruction(&words, i)).unwrap();
    assert_eq!(text(0), "ADD 1 2 3");
    assert_eq!(text(1), "JUMP 4 back");
    assert_eq!(text(2), "LOADBOOL 5 true");
    assert_eq!(text(3), "LOADINT32 2 -12");
    assert_eq!(text(5), "INVOKE 0 2 3");
    assert_eq!(text(6), "HALT");
    assert_eq!(text(7), "Unsupported opcode instruction (63)");
    assert_eq!(
        String::from_utf8(debug_immutable(&NovaObject::String(b"hi".to_vec()))).unwrap(),
        "String hi"
    );
}
