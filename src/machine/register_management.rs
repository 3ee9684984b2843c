use vstd::prelude::*;

use crate::instruction::Instruction;
use crate::object::RegisterValueKind;
use crate::register::{empty_register, Register, REGISTER_COUNT};

verus! {

/// `None` and `false` are falsy; every other value is truthy.
pub open spec fn truthy(register: Register) -> bool {
    match register.kind {
        RegisterValueKind::Nil => false,
        RegisterValueKind::Bool => register.value != 0,
        _ => true,
    }
}

pub fn is_truthy(register: Register) -> (r: bool)
    ensures
        r == truthy(register),
{
    match register.kind {
        RegisterValueKind::Nil => false,
        RegisterValueKind::Bool => register.value != 0,
        _ => true,
    }
}

/// Copies register `source1` of `instruction` into its destination register.
pub fn move_register(registers: &mut Vec<Register>, instruction: Instruction)
    requires
        old(registers)@.len() == REGISTER_COUNT,
    ensures
        final(registers)@ == old(registers)@.update(
            crate::instruction::destination_of(instruction) as int,
            old(registers)@[crate::instruction::source1_of(instruction) as int],
        ),
{
    let destination = crate::instruction::instruction_decoder::decode_destination_register(
        instruction,
    );
    let source = crate::instruction::instruction_decoder::decode_source_register_1(instruction);
    let value = get_register(registers, source);
    set_value_in_register(registers, destination, value);
}

/// Sets the general-purpose registers `R0 .. R15` to `None`.
pub fn clear_registers(registers: &mut Vec<Register>)
    requires
        old(registers)@.len() == REGISTER_COUNT,
    ensures
        final(registers)@.len() == REGISTER_COUNT,
        forall|i: int| 0 <= i < 16 ==> #[trigger] final(registers)@[i] == empty_register(),
        forall|i: int| 16 <= i < REGISTER_COUNT ==> #[trigger] final(registers)@[i] == old(registers)@[i],
{
    let mut index: usize = 0;
    while index < 16
        invariant
            index <= 16,
            registers@.len() == REGISTER_COUNT,
            forall|i: int| 0 <= i < index ==> #[trigger] registers@[i] == empty_register(),
            forall|i: int| index <= i < REGISTER_COUNT ==> #[trigger] registers@[i] == old(registers)@[i],
        decreases 16 - index,
    {
        registers[index] = Register::empty();
        index = index + 1;
    }
}

pub fn clear_register(registers: &mut Vec<Register>, register_id: Instruction)
    requires
        (register_id as int) < old(registers)@.len(),
    ensures
        final(registers)@ == old(registers)@.update(register_id as int, empty_register()),
{
    registers[register_id as usize] = Register::empty();
}

pub fn get_register(registers: &Vec<Register>, register_id: Instruction) -> (r: Register)
    requires
        (register_id as int) < registers@.len(),
    ensures
        r == registers@[register_id as int],
{
    registers[register_id as usize]
}

pub fn set_value_in_register(registers: &mut Vec<Register>, register_id: Instruction, value: Register)
    requires
        (register_id as int) < old(registers)@.len(),
    ensures
        final(registers)@ == old(registers)@.update(register_id as int, value),
{
    registers[register_id as usize] = value;
}

/// Loads an integer into a register.
pub fn load_i64_to_register(registers: &mut Vec<Register>, destination: Instruction, number: i64)
    requires
        (destination as int) < old(registers)@.len(),
    ensures
        final(registers)@ == old(registers)@.update(
            destination as int,
            Register { kind: RegisterValueKind::Int64, value: number as u64 },
        ),
{
    set_value_in_register(registers, destination, Register::new(RegisterValueKind::Int64, number as u64));
}

/// Loads a memory address into a register.
pub fn load_memory_address_to_register(
    registers: &mut Vec<Register>,
    destination: Instruction,
    address: u64,
)
    requires
        (destination as int) < old(registers)@.len(),
    ensures
        final(registers)@ == old(registers)@.update(
            destination as int,
            Register { kind: RegisterValueKind::MemAddress, value: address },
        ),
{
    set_value_in_register(registers, destination, Register::new(RegisterValueKind::MemAddress, address));
}

} // verus!
