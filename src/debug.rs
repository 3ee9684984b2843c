use vstd::prelude::*;
use vstd::string::StringSliceAdditionalSpecFns;

use crate::bytecode::OpCode;
use crate::instruction::instruction_decoder::{
    decode_destination_register, decode_immutable_address_small, decode_opcode,
    decode_source_register_1, decode_source_register_2, merge_u32s,
};
use crate::instruction::{address_of, destination_of, opcode_of, source1_of, source2_of, Instruction};
use crate::object::NovaObject;
use crate::text::{append_bytes, append_decimal, append_str, bytes_of, decimal_of};

verus! {

/// A space and the decimal text of `v`.
pub open spec fn number_text(v: int) -> Seq<u8> {
    " ".spec_bytes() + decimal_of(v)
}

/// The text of the instruction at `at`, with the payload words that follow
/// it: mnemonic, then operands. Float payloads are shown as their bits.
pub open spec fn disassembly(words: Seq<u32>, at: int) -> Seq<u8> {
    let w = words[at];
    let op = opcode_of(w);
    if op == OpCode::LoadBool.spec_code() {
        "LOADBOOL".spec_bytes() + number_text(destination_of(w) as int) + if address_of(w) == 0 {
            " false".spec_bytes()
        } else {
            " true".spec_bytes()
        }
    } else if op == OpCode::Jump.spec_code() {
        "JUMP".spec_bytes() + number_text(address_of(w) as int) + if destination_of(w) == 0 {
            " back".spec_bytes()
        } else {
            " forward".spec_bytes()
        }
    } else if op == OpCode::LoadInt32.spec_code() && at + 1 < words.len() {
        "LOADINT32".spec_bytes() + number_text(destination_of(w) as int) + number_text(
            words[at + 1] as i32 as int,
        )
    } else if op == OpCode::LoadFloat32.spec_code() && at + 1 < words.len() {
        "LOADFLOAT32".spec_bytes() + number_text(destination_of(w) as int) + number_text(
            words[at + 1] as int,
        )
    } else if op == OpCode::LoadInt64.spec_code() && at + 2 < words.len() {
        "LOADINT64".spec_bytes() + number_text(destination_of(w) as int) + number_text(
            (words[at + 1] * 0x1_0000_0000 + words[at + 2]) as u64 as i64 as int,
        )
    } else if op == OpCode::LoadFloat64.spec_code() && at + 2 < words.len() {
        "LOADFLOAT64".spec_bytes() + number_text(destination_of(w) as int) + number_text(
            (words[at + 1] * 0x1_0000_0000 + words[at + 2]) as u64 as i64 as int,
        )
    } else if op == OpCode::NoInstruction.spec_code() {
        "NOINSTRUCTION".spec_bytes()
    } else if op == OpCode::Halt.spec_code() {
        "HALT".spec_bytes()
    } else if op == OpCode::Add.spec_code() {
        "ADD".spec_bytes() + number_text(destination_of(w) as int) + number_text(source1_of(w) as int) + number_text(source2_of(w) as int)
    } else if op == OpCode::Sub.spec_code() {
        "SUB".spec_bytes() + number_text(destination_of(w) as int) + number_text(source1_of(w) as int) + number_text(source2_of(w) as int)
    } else if op == OpCode::Mul.spec_code() {
        "MUL".spec_bytes() + number_text(destination_of(w) as int) + number_text(source1_of(w) as int) + number_text(source2_of(w) as int)
    } else if op == OpCode::Div.spec_code() {
        "DIV".spec_bytes() + number_text(destination_of(w) as int) + number_text(source1_of(w) as int) + number_text(source2_of(w) as int)
    } else if op == OpCode::Pow.spec_code() {
        "POW".spec_bytes() + number_text(destination_of(w) as int) + number_text(source1_of(w) as int) + number_text(source2_of(w) as int)
    } else if op == OpCode::Mod.spec_code() {
        "MOD".spec_bytes() + number_text(destination_of(w) as int) + number_text(source1_of(w) as int) + number_text(source2_of(w) as int)
    } else if op == OpCode::LoadK.spec_code() {
        "LOADK".spec_bytes() + number_text(destination_of(w) as int) + number_text(address_of(w) as int)
    } else if op == OpCode::LoadNil.spec_code() {
        "LOADNIL".spec_bytes() + number_text(destination_of(w) as int)
    } else if op == OpCode::LoadReturn.spec_code() {
        "LOADRETURN".spec_bytes() + number_text(destination_of(w) as int)
    } else if op == OpCode::Move.spec_code() {
        "MOVE".spec_bytes() + number_text(destination_of(w) as int) + number_text(source1_of(w) as int)
    } else if op == OpCode::DefineGlobalIndirect.spec_code() {
        "DEFINEGLOBALINDIRECT".spec_bytes() + number_text(address_of(w) as int)
    } else if op == OpCode::StoreGlobalIndirect.spec_code() {
        "STOREGLOBALINDIRECT".spec_bytes() + number_text(source1_of(w) as int) + number_text(address_of(w) as int)
    } else if op == OpCode::LoadGlobalIndirect.spec_code() {
        "LOADGLOBALINDIRECT".spec_bytes() + number_text(destination_of(w) as int) + number_text(address_of(w) as int)
    } else if op == OpCode::LoadGlobal.spec_code() {
        "LOADGLOBAL".spec_bytes() + number_text(destination_of(w) as int) + number_text(address_of(w) as int)
    } else if op == OpCode::AllocateLocal.spec_code() {
        "ALLOCATELOCAL".spec_bytes() + number_text(address_of(w) as int)
    } else if op == OpCode::DeallocateLocal.spec_code() {
        "DEALLOCATELOCAL".spec_bytes() + number_text(address_of(w) as int)
    } else if op == OpCode::StoreLocal.spec_code() {
        "STORELOCAL".spec_bytes() + number_text(source1_of(w) as int) + number_text(address_of(w) as int)
    } else if op == OpCode::LoadLocal.spec_code() {
        "LOADLOCAL".spec_bytes() + number_text(destination_of(w) as int) + number_text(address_of(w) as int)
    } else if op == OpCode::Less.spec_code() {
        "LESS".spec_bytes() + number_text(source1_of(w) as int) + number_text(source2_of(w) as int)
    } else if op == OpCode::LessEqual.spec_code() {
        "LESSEQUAL".spec_bytes() + number_text(source1_of(w) as int) + number_text(source2_of(w) as int)
    } else if op == OpCode::Equal.spec_code() {
        "EQUAL".spec_bytes() + number_text(source1_of(w) as int) + number_text(source2_of(w) as int)
    } else if op == OpCode::JumpFalse.spec_code() {
        "JUMPFALSE".spec_bytes() + number_text(source1_of(w) as int)
    } else if op == OpCode::NewFrame.spec_code() {
        "NEWFRAME".spec_bytes()
    } else if op == OpCode::Invoke.spec_code() {
        "INVOKE".spec_bytes() + number_text(destination_of(w) as int) + number_text(source1_of(w) as int) + number_text(source2_of(w) as int)
    } else if op == OpCode::ReturnNone.spec_code() {
        "RETURN_NONE".spec_bytes()
    } else if op == OpCode::ReturnVal.spec_code() {
        "RETURN_VAL".spec_bytes() + number_text(source1_of(w) as int)
    } else if op == OpCode::Print.spec_code() {
        "PRINT".spec_bytes() + number_text(source1_of(w) as int)
    } else if op == OpCode::And.spec_code() {
        "AND".spec_bytes() + number_text(source1_of(w) as int) + number_text(source2_of(w) as int)
    } else if op == OpCode::Or.spec_code() {
        "OR".spec_bytes() + number_text(source1_of(w) as int) + number_text(source2_of(w) as int)
    } else if op == OpCode::Not.spec_code() {
        "NOT".spec_bytes() + number_text(source1_of(w) as int)
    } else if op == OpCode::Neg.spec_code() {
        "NEGATE".spec_bytes() + number_text(source1_of(w) as int)
    } else {
        "Unsupported opcode instruction (".spec_bytes() + decimal_of(op as int) + ")".spec_bytes()
    }
}

/// Appends a space and the decimal text of `v`.
pub fn append_number(out: &mut Vec<u8>, v: i64)
    ensures
        final(out)@ == old(out)@ + number_text(v as int),
{
    append_str(out, " ");
    append_decimal(out, v);
    assert(final(out)@ =~= old(out)@ + number_text(v as int));
}

/// The text of the instruction at `instruction_pointer`.
pub fn debug_instruction(instructions: &Vec<Instruction>, instruction_pointer: usize) -> (r: Vec<u8>)
    requires
        instruction_pointer < instructions@.len(),
    ensures
        r@ == disassembly(instructions@, instruction_pointer as int),
{
    let w = instructions[instruction_pointer];
    let code = decode_opcode(w);
    let length = instructions.len();
    let next = instruction_pointer + 1;
    let op = match OpCode::from_u32(code) {
        Some(op) => op,
        None => {
            let mut out = bytes_of("Unsupported opcode instruction (");
            append_decimal(&mut out, code as i64);
            append_str(&mut out, ")");
            return out;
        },
    };
    let mut out: Vec<u8>;
    match op {
        OpCode::LoadBool => {
            out = bytes_of("LOADBOOL");
            append_number(&mut out, decode_destination_register(w) as i64);
            if decode_immutable_address_small(w) == 0 {
                append_str(&mut out, " false");
            } else {
                append_str(&mut out, " true");
            }
        },
        OpCode::Jump => {
            out = bytes_of("JUMP");
            append_number(&mut out, decode_immutable_address_small(w) as i64);
            if decode_destination_register(w) == 0 {
                append_str(&mut out, " back");
            } else {
                append_str(&mut out, " forward");
            }
        },
        OpCode::LoadInt32 if next < instructions.len() => {
            out = bytes_of("LOADINT32");
            append_number(&mut out, decode_destination_register(w) as i64);
            append_number(&mut out, (#[verifier::truncate] (instructions[next] as i32)) as i64);
        },
        OpCode::LoadFloat32 if next < instructions.len() => {
            out = bytes_of("LOADFLOAT32");
            append_number(&mut out, decode_destination_register(w) as i64);
            append_number(&mut out, instructions[next] as i64);
        },
        OpCode::LoadInt64 if next < instructions.len() - 1 => {
            out = bytes_of("LOADINT64");
            append_number(&mut out, decode_destination_register(w) as i64);
            let bits = merge_u32s(instructions[next], instructions[next + 1]);
            append_number(&mut out, #[verifier::truncate] (bits as i64));
        },
        OpCode::LoadFloat64 if next < instructions.len() - 1 => {
            out = bytes_of("LOADFLOAT64");
            append_number(&mut out, decode_destination_register(w) as i64);
            let bits = merge_u32s(instructions[next], instructions[next + 1]);
            append_number(&mut out, #[verifier::truncate] (bits as i64));
        },
        OpCode::NoInstruction => {
            out = bytes_of("NOINSTRUCTION");
        },
        OpCode::Halt => {
            out = bytes_of("HALT");
        },
        OpCode::Add => {
            out = bytes_of("ADD");
            append_number(&mut out, decode_destination_register(w) as i64);
            append_number(&mut out, decode_source_register_1(w) as i64);
            append_number(&mut out, decode_source_register_2(w) as i64);
        },
        OpCode::Sub => {
            out = bytes_of("SUB");
            append_number(&mut out, decode_destination_register(w) as i64);
            append_number(&mut out, decode_source_register_1(w) as i64);
            append_number(&mut out, decode_source_register_2(w) as i64);
        },
        OpCode::Mul => {
            out = bytes_of("MUL");
            append_number(&mut out, decode_destination_register(w) as i64);
            append_number(&mut out, decode_source_register_1(w) as i64);
            append_number(&mut out, decode_source_register_2(w) as i64);
        },
        OpCode::Div => {
            out = bytes_of("DIV");
            append_number(&mut out, decode_destination_register(w) as i64);
            append_number(&mut out, decode_source_register_1(w) as i64);
            append_number(&mut out, decode_source_register_2(w) as i64);
        },
        OpCode::Pow => {
            out = bytes_of("POW");
            append_number(&mut out, decode_destination_register(w) as i64);
            append_number(&mut out, decode_source_register_1(w) as i64);
            append_number(&mut out, decode_source_register_2(w) as i64);
        },
        OpCode::Mod => {
            out = bytes_of("MOD");
            append_number(&mut out, decode_destination_register(w) as i64);
            append_number(&mut out, decode_source_register_1(w) as i64);
            append_number(&mut out, decode_source_register_2(w) as i64);
        },
        OpCode::LoadK => {
            out = bytes_of("LOADK");
            append_number(&mut out, decode_destination_register(w) as i64);
            append_number(&mut out, decode_immutable_address_small(w) as i64);
        },
        OpCode::LoadNil => {
            out = bytes_of("LOADNIL");
            append_number(&mut out, decode_destination_register(w) as i64);
        },
        OpCode::LoadReturn => {
            out = bytes_of("LOADRETURN");
            append_number(&mut out, decode_destination_register(w) as i64);
        },
        OpCode::Move => {
            out = bytes_of("MOVE");
            append_number(&mut out, decode_destination_register(w) as i64);
            append_number(&mut out, decode_source_register_1(w) as i64);
        },
        OpCode::DefineGlobalIndirect => {
            out = bytes_of("DEFINEGLOBALINDIRECT");
            append_number(&mut out, decode_immutable_address_small(w) as i64);
        },
        OpCode::StoreGlobalIndirect => {
            out = bytes_of("STOREGLOBALINDIRECT");
            append_number(&mut out, decode_source_register_1(w) as i64);
            append_number(&mut out, decode_immutable_address_small(w) as i64);
        },
        OpCode::LoadGlobalIndirect => {
            out = bytes_of("LOADGLOBALINDIRECT");
            append_number(&mut out, decode_destination_register(w) as i64);
            append_number(&mut out, decode_immutable_address_small(w) as i64);
        },
        OpCode::LoadGlobal => {
            out = bytes_of("LOADGLOBAL");
            append_number(&mut out, decode_destination_register(w) as i64);
            append_number(&mut out, decode_immutable_address_small(w) as i64);
        },
        OpCode::AllocateLocal => {
            out = bytes_of("ALLOCATELOCAL");
            append_number(&mut out, decode_immutable_address_small(w) as i64);
        },
        OpCode::DeallocateLocal => {
            out = bytes_of("DEALLOCATELOCAL");
            append_number(&mut out, decode_immutable_address_small(w) as i64);
        },
        OpCode::StoreLocal => {
            out = bytes_of("STORELOCAL");
            append_number(&mut out, decode_source_register_1(w) as i64);
            append_number(&mut out, decode_immutable_address_small(w) as i64);
        },
        OpCode::LoadLocal => {
            out = bytes_of("LOADLOCAL");
            append_number(&mut out, decode_destination_register(w) as i64);
            append_number(&mut out, decode_immutable_address_small(w) as i64);
        },
        OpCode::Less => {
            out = bytes_of("LESS");
            append_number(&mut out, decode_source_register_1(w) as i64);
            append_number(&mut out, decode_source_register_2(w) as i64);
        },
        OpCode::LessEqual => {
            out = bytes_of("LESSEQUAL");
            append_number(&mut out, decode_source_register_1(w) as i64);
            append_number(&mut out, decode_source_register_2(w) as i64);
        },
        OpCode::Equal => {
            out = bytes_of("EQUAL");
            append_number(&mut out, decode_source_register_1(w) as i64);
            append_number(&mut out, decode_source_register_2(w) as i64);
        },
        OpCode::JumpFalse => {
            out = bytes_of("JUMPFALSE");
            append_number(&mut out, decode_source_register_1(w) as i64);
        },
        OpCode::NewFrame => {
            out = bytes_of("NEWFRAME");
        },
        OpCode::Invoke => {
            out = bytes_of("INVOKE");
            append_number(&mut out, decode_destination_register(w) as i64);
            append_number(&mut out, decode_source_register_1(w) as i64);
            append_number(&mut out, decode_source_register_2(w) as i64);
        },
        OpCode::ReturnNone => {
            out = bytes_of("RETURN_NONE");
        },
        OpCode::ReturnVal => {
            out = bytes_of("RETURN_VAL");
            append_number(&mut out, decode_source_register_1(w) as i64);
        },
        OpCode::Print => {
            out = bytes_of("PRINT");
            append_number(&mut out, decode_source_register_1(w) as i64);
        },
        OpCode::And => {
            out = bytes_of("AND");
            append_number(&mut out, decode_source_register_1(w) as i64);
            append_number(&mut out, decode_source_register_2(w) as i64);
        },
        OpCode::Or => {
            out = bytes_of("OR");
            append_number(&mut out, decode_source_register_1(w) as i64);
            append_number(&mut out, decode_source_register_2(w) as i64);
        },
        OpCode::Not => {
            out = bytes_of("NOT");
            append_number(&mut out, decode_source_register_1(w) as i64);
        },
        OpCode::Neg => {
            out = bytes_of("NEGATE");
            append_number(&mut out, decode_source_register_1(w) as i64);
        },
        _ => {
            out = bytes_of("Unsupported opcode instruction (");
            append_decimal(&mut out, code as i64);
            append_str(&mut out, ")");
        },
    }
    out
}

/// The text of a constant in the immutables listing.
pub fn debug_immutable(object: &NovaObject) -> (r: Vec<u8>)
    ensures
        object is String ==> r@ == "String ".spec_bytes() + object->String_0@,
{
    match object {
        NovaObject::String(text) => {
            let mut out = bytes_of("String ");
            append_bytes(&mut out, text.as_slice());
            out
        },
        NovaObject::NovaFunction(function) => {
            let mut out = bytes_of("Function ");
            append_bytes(&mut out, function.name.as_slice());
            append_number(&mut out, function.address as i64);
            append_number(&mut out, function.arity as i64);
            out
        },
        NovaObject::NativeFunction(function) => {
            let mut out = bytes_of("Native ");
            append_bytes(&mut out, function.name.as_slice());
            out
        },
        NovaObject::Int64(value) => {
            let mut out = bytes_of("Int64");
            append_number(&mut out, *value);
            out
        },
        NovaObject::Float64(bits) => {
            let mut out = bytes_of("Float64 bits");
            append_number(&mut out, *bits as i64);
            out
        },
        NovaObject::Bool(value) => {
            if *value { bytes_of("Bool true") } else { bytes_of("Bool false") }
        },
        NovaObject::Nil => bytes_of("None"),
    }
}

} // verus!
