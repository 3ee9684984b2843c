use nova::bytecode::OpCode;
use nova::instruction::instruction_decoder;
use nova::instruction::{Instruction, InstructionBuilder};
use nova::object::{NovaFunction, NovaFunctionID};

#[test]
fn test_opcode_encoding_and_decoding() {
    // prefix r_ means raw, d_ means decoded
    let code = OpCode::Break;
    let r_code = code.to_u32();
    let instruction = InstructionBuilder::new().add_opcode(code).build();
    let d_code = instruction_decoder::decode_opcode(instruction);

    assert_eq!(r_code, d_code);
}

#[test]
fn test_register_encoding_and_decoding() {
    let r_destination = 5u32;
    let r_source1 = 3u32;
    let r_source2 = 4u32;

    let instruction = InstructionBuilder::new()
        .add_destination_register(r_destination)
        .add_source_register_1(r_source1)
        .add_source_register_2(r_source2)
        .build();

    let d_destination = instruction_decoder::decode_destination_register(instruction);
    let d_source1 = instruction_decoder::decode_source_register_1(instruction);
    let d_source2 = instruction_decoder::decode_source_register_2(instruction);

    assert_eq!(r_destination, d_destination);
    assert_eq!(r_source1, d_source1);
    assert_eq!(r_source2, d_source2);
}

#[test]
fn test_immutable_encoding_and_decoding() {
    let r_immutable = 20u32;

    let instruction = InstructionBuilder::new()
        .add_address_small(r_immutable)
        .build();

    let d_immutable = instruction_decoder::decode_immutable_address_small(instruction);

    assert_eq!(r_immutable, d_immutable);
}

#[test]
fn test_splitting_and_merging_u64() {
    let number = 100000000000u64;

    let (first, second) = instruction_decoder::split_u64(number);
    let merged = instruction_decoder::merge_u32s(first, second);

    assert_eq!(number, merged)
}

#[test]
fn test_nova_function_id_serialization() {
    let novafunction = NovaFunction {
        name: String::from("Hello").into_bytes(),
        arity: 4,
        address: 50,
        is_method: false,
        number_of_locals: 20,
    };

    let name_address = 4444;
    let nova_function_id =
        NovaFunctionID::from_nova_function(&novafunction, name_address).unwrap();
    let labelled = nova_function_id.to_labelled();

    assert_eq!(novafunction.arity, labelled.arity);
    assert_eq!(novafunction.number_of_locals, labelled.number_of_locals);
    assert_eq!(novafunction.is_method, labelled.is_method);
    assert_eq!(name_address, labelled.name_address);
}

#[test]
fn codec_round_trip_over_all_register_fields() {
    let ops = [OpCode::Add, OpCode::Halt, OpCode::Invoke, OpCode::NoInstruction];
    for op in ops {
        for d in 0..16u32 {
            for s1 in 0..16u32 {
                for s2 in 0..16u32 {
                    let w = InstructionBuilder::new_binary_op_instruction(op, d, s1, s2);
                    assert_eq!(instruction_decoder::decode_opcode(w), op.to_u32());
                    assert_eq!(instruction_decoder::decode_destination_register(w), d);
                    assert_eq!(instruction_decoder::decode_source_register_1(w), s1);
                    assert_eq!(instruction_decoder::decode_source_register_2(w), s2);
                }
            }
        }
    }
}

#[test]
fn codec_round_trip_over_all_immediates() {
    for imm in [0u32, 1, 255, 256, 4096, 65534, 65535] {
        let w = InstructionBuilder::new_load_constant_instruction(9, imm);
        assert_eq!(instruction_decoder::decode_immutable_address_small(w), imm);
        assert_eq!(instruction_decoder::decode_destination_register(w), 9);
        assert_eq!(instruction_decoder::decode_opcode(w), OpCode::LoadK.to_u32());
    }
}

#[test]
fn encoded_word_has_exact_layout() {
    let w: Instruction = InstructionBuilder::new_binary_op_instruction(OpCode::Add, 1, 2, 3);
    assert_eq!(w, (12u32 << 26) | (1 << 22) | (2 << 18) | 3);
    let jump = InstructionBuilder::new_jump_instruction(7, true);
    assert_eq!(jump, (26u32 << 26) | (1 << 22) | 7);
}

#[test]
fn split_and_merge_edge_values() {
    for x in [0u64, 1, u32::MAX as u64, 1 << 32, u64::MAX, 0x0123_4567_89ab_cdef] {
        let (hi, lo) = instruction_decoder::split_u64(x);
        assert_eq!(hi as u64, x >> 32);
        assert_eq!(lo as u64, x & 0xffff_ffff);
        assert_eq!(instruction_decoder::merge_u32s(hi, lo), x);
    }
}

#[test]
fn clear_address_small_keeps_high_half() {
    let w = InstructionBuilder::new_load_constant_instruction(3, 0x1234);
    let cleared = InstructionBuilder::from(w).clear_address_small().build();
    assert_eq!(cleared, w & 0xffff_0000);
}

#[test]
fn opcode_numbers_round_trip() {
    for n in 0..44u32 {
        let op = OpCode::from_u32(n).unwrap();
        assert_eq!(op.to_u32(), n);
    }
    assert!(OpCode::from_u32(44).is_none());
    assert!(OpCode::from_u32(63).is_none());
}

#[test]
fn function_id_rejects_descriptors_that_do_not_fit() {
    let mut f = NovaFunction {
        name: b"f".to_vec(),
        arity: 8,
        address: 0,
        is_method: false,
        number_of_locals: 1,
    };
    assert!(NovaFunctionID::from_nova_function(&f, 0).is_none());
    f.arity = 7;
    f.number_of_locals = 32;
    assert!(NovaFunctionID::from_nova_function(&f, 0).is_none());
    f.number_of_locals = 31;
    assert!(NovaFunctionID::from_nova_function(&f, 1 << 20).is_none());
    let id = NovaFunctionID::from_nova_function(&f, (1 << 20) - 1).unwrap();
    let labelled = id.to_labelled();
    assert_eq!(labelled.arity, 7);
    assert_eq!(labelled.number_of_locals, 31);
    assert_eq!(labelled.name_address, (1 << 20) - 1);
}
