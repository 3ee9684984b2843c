use vstd::prelude::*;

use crate::bytecode::OpCode;

pub mod instruction_decoder;

verus! {

/// One 32-bit instruction word: opcode in bits 31-26, destination in 25-22,
/// first source in 21-18, second source or small address in the low bits.
pub type Instruction = u32;

pub const OPCODE_SHIFT_FACTOR: u32 = 0x400_0000;

pub const DESTINATION_SHIFT_FACTOR: u32 = 0x40_0000;

pub const SOURCE_1_SHIFT_FACTOR: u32 = 0x4_0000;

/// The word with the given fields, where `low` is the second source register
/// or the small address.
pub open spec fn encode(opcode: u32, destination: u32, source1: u32, low: u32) -> int {
    opcode * OPCODE_SHIFT_FACTOR + destination * DESTINATION_SHIFT_FACTOR + source1
        * SOURCE_1_SHIFT_FACTOR + low
}

/// The opcode field of a word.
pub open spec fn opcode_of(instruction: u32) -> u32 {
    instruction / OPCODE_SHIFT_FACTOR
}

/// The destination field of a word.
pub open spec fn destination_of(instruction: u32) -> u32 {
    (instruction / DESTINATION_SHIFT_FACTOR) % 16
}

/// The first source field of a word.
pub open spec fn source1_of(instruction: u32) -> u32 {
    (instruction / SOURCE_1_SHIFT_FACTOR) % 16
}

/// The second source field of a word: its low four bits.
pub open spec fn source2_of(instruction: u32) -> u32 {
    instruction % 16
}

/// The small address of a word: its low sixteen bits.
pub open spec fn address_of(instruction: u32) -> u32 {
    instruction % 0x1_0000
}

/// A register field holds a value in 0..15.
pub open spec fn is_register_field(value: u32) -> bool {
    value < 16
}

/// Builds an instruction word by adding its fields one at a time.
pub struct InstructionBuilder {
    pub instruction: Instruction,
}

impl Default for InstructionBuilder {
    fn default() -> (r: Self)
        ensures
            r.instruction == 0,
    {
        Self::new()
    }
}

proof fn lemma_shift_is_product(value: u32)
    requires
        value < 64,
    ensures
        value << 26u32 == value * OPCODE_SHIFT_FACTOR,
        value < 16 ==> value << 22u32 == value * DESTINATION_SHIFT_FACTOR,
        value < 16 ==> value << 18u32 == value * SOURCE_1_SHIFT_FACTOR,
{
    assert(value < 64 ==> value << 26u32 == value * 0x400_0000u32) by (bit_vector);
    assert(value < 16 ==> value << 22u32 == value * 0x40_0000u32) by (bit_vector);
    assert(value < 16 ==> value << 18u32 == value * 0x4_0000u32) by (bit_vector);
}

impl InstructionBuilder {
    pub fn new() -> (r: Self)
        ensures
            r.instruction == 0,
    {
        Self { instruction: 0 }
    }

    pub fn from(instruction: Instruction) -> (r: InstructionBuilder)
        ensures
            r.instruction == instruction,
    {
        let mut instruction_builder = InstructionBuilder::new();
        instruction_builder.instruction = instruction;
        instruction_builder
    }

    pub fn build(self) -> (r: Instruction)
        ensures
            r == self.instruction,
    {
        self.instruction
    }

    pub fn new_binary_op_instruction(
        op: OpCode,
        destination: Instruction,
        source1: Instruction,
        source2: Instruction,
    ) -> (r: Instruction)
        requires
            is_register_field(destination),
            is_register_field(source1),
            is_register_field(source2),
        ensures
            r == encode(op.spec_code(), destination, source1, source2),
    {
        InstructionBuilder::new().add_opcode(op).add_destination_register(
            destination,
        ).add_source_register_1(source1).add_source_register_2(source2).build()
    }

    pub fn new_comparison_instruction(
        op: OpCode,
        destination: Instruction,
        source1: Instruction,
        source2: Instruction,
    ) -> (r: Instruction)
        requires
            is_register_field(destination),
            is_register_field(source1),
            is_register_field(source2),
        ensures
            r == encode(op.spec_code(), destination, source1, source2),
    {
        InstructionBuilder::new().add_opcode(op).add_destination_register(
            destination,
        ).add_source_register_1(source1).add_source_register_2(source2).build()
    }

    /// `Not` flips the truthiness of a register in place.
    pub fn new_not_instruction(source1: Instruction) -> (r: Instruction)
        requires
            is_register_field(source1),
        ensures
            r == encode(OpCode::Not.spec_code(), source1, source1, 0),
    {
        InstructionBuilder::new().add_opcode(OpCode::Not).add_destination_register(
            source1,
        ).add_source_register_1(source1).build()
    }

    /// A jump by `offset`, forward when the destination bit is set.
    pub fn new_jump_instruction(offset: Instruction, forward: bool) -> (r: Instruction)
        requires
            offset < 0x1_0000,
        ensures
            r == encode(OpCode::Jump.spec_code(), if forward { 1 } else { 0 }, 0, offset),
    {
        let direction: u32 = if forward {
            1
        } else {
            0
        };
        InstructionBuilder::new().add_opcode(OpCode::Jump).add_destination_register(
            direction,
        ).add_address_small(offset).build()
    }

    pub fn new_jump_false_instruction(source1: Instruction) -> (r: Instruction)
        requires
            is_register_field(source1),
        ensures
            r == encode(OpCode::JumpFalse.spec_code(), 0, source1, 0),
    {
        InstructionBuilder::new().add_opcode(OpCode::JumpFalse).add_source_register_1(
            source1,
        ).build()
    }

    pub fn new_load_constant_instruction(destination: Instruction, constant_index: Instruction) -> (r:
        Instruction)
        requires
            is_register_field(destination),
            constant_index < 0x1_0000,
        ensures
            r == encode(OpCode::LoadK.spec_code(), destination, 0, constant_index),
    {
        InstructionBuilder::new().add_opcode(OpCode::LoadK).add_destination_register(
            destination,
        ).add_address_small(constant_index).build()
    }

    /// Calls the callable in `register_index` with the arguments in
    /// `parameter_start .. parameter_start + parameter_number`.
    pub fn new_invoke_instruction(
        parameter_start: Instruction,
        parameter_number: Instruction,
        register_index: Instruction,
    ) -> (r: Instruction)
        requires
            is_register_field(parameter_start),
            is_register_field(parameter_number),
            is_register_field(register_index),
        ensures
            r == encode(
                OpCode::Invoke.spec_code(),
                parameter_start,
                parameter_number,
                register_index,
            ),
    {
        InstructionBuilder::new().add_opcode(OpCode::Invoke).add_destination_register(
            parameter_start,
        ).add_source_register_1(parameter_number).add_source_register_2(register_index).build()
    }

    pub fn new_load_bool(destination: Instruction, value: Instruction) -> (r: Instruction)
        requires
            is_register_field(destination),
            value < 0x1_0000,
        ensures
            r == encode(OpCode::LoadBool.spec_code(), destination, 0, value),
    {
        InstructionBuilder::new().add_opcode(OpCode::LoadBool).add_destination_register(
            destination,
        ).add_address_small(value).build()
    }

    pub fn new_define_global_indirect(immutable_address: Instruction) -> (r: Instruction)
        requires
            immutable_address < 0x1_0000,
        ensures
            r == encode(OpCode::DefineGlobalIndirect.spec_code(), 0, 0, immutable_address),
    {
        InstructionBuilder::new().add_opcode(OpCode::DefineGlobalIndirect).add_address_small(
            immutable_address,
        ).build()
    }

    pub fn new_store_global_indirect(source1: Instruction, immutable_address: Instruction) -> (r:
        Instruction)
        requires
            is_register_field(source1),
            immutable_address < 0x1_0000,
        ensures
            r == encode(OpCode::StoreGlobalIndirect.spec_code(), 0, source1, immutable_address),
    {
        InstructionBuilder::new().add_opcode(OpCode::StoreGlobalIndirect).add_source_register_1(
            source1,
        ).add_address_small(immutable_address).build()
    }

    pub fn new_load_global_indirect(destination: Instruction, address: Instruction) -> (r:
        Instruction)
        requires
            is_register_field(destination),
            address < 0x1_0000,
        ensures
            r == encode(OpCode::LoadGlobalIndirect.spec_code(), destination, 0, address),
    {
        InstructionBuilder::new().add_opcode(OpCode::LoadGlobalIndirect).add_destination_register(
            destination,
        ).add_address_small(address).build()
    }

    pub fn new_allocate_local(number: Instruction) -> (r: Instruction)
        requires
            number < 0x1_0000,
        ensures
            r == encode(OpCode::AllocateLocal.spec_code(), 0, 0, number),
    {
        InstructionBuilder::new().add_opcode(OpCode::AllocateLocal).add_address_small(
            number,
        ).build()
    }

    pub fn new_deallocate_local(number: Instruction) -> (r: Instruction)
        requires
            number < 0x1_0000,
        ensures
            r == encode(OpCode::DeallocateLocal.spec_code(), 0, 0, number),
    {
        InstructionBuilder::new().add_opcode(OpCode::DeallocateLocal).add_address_small(
            number,
        ).build()
    }

    pub fn new_store_local(source1: Instruction, destination_variable: Instruction) -> (r:
        Instruction)
        requires
            is_register_field(source1),
            destination_variable < 0x1_0000,
        ensures
            r == encode(OpCode::StoreLocal.spec_code(), 0, source1, destination_variable),
    {
        InstructionBuilder::new().add_opcode(OpCode::StoreLocal).add_source_register_1(
            source1,
        ).add_address_small(destination_variable).build()
    }

    pub fn new_load_local(destination: Instruction, source_variable: Instruction) -> (r:
        Instruction)
        requires
            is_register_field(destination),
            source_variable < 0x1_0000,
        ensures
            r == encode(OpCode::LoadLocal.spec_code(), destination, 0, source_variable),
    {
        InstructionBuilder::new().add_opcode(OpCode::LoadLocal).add_destination_register(
            destination,
        ).add_address_small(source_variable).build()
    }

    pub fn new_load_float32_instruction(destination: Instruction) -> (r: Instruction)
        requires
            is_register_field(destination),
        ensures
            r == encode(OpCode::LoadFloat32.spec_code(), destination, 0, 0),
    {
        InstructionBuilder::new().add_opcode(OpCode::LoadFloat32).add_destination_register(
            destination,
        ).build()
    }

    pub fn new_move_instruction(destination: Instruction, source: Instruction) -> (r: Instruction)
        requires
            is_register_field(destination),
            is_register_field(source),
        ensures
            r == encode(OpCode::Move.spec_code(), destination, source, 0),
    {
        InstructionBuilder::new().add_opcode(OpCode::Move).add_destination_register(
            destination,
        ).add_source_register_1(source).build()
    }

    /// Prints the register `source`; the destination bit asks for a line end.
    pub fn new_print_instruction(source: Instruction, newline: bool) -> (r: Instruction)
        requires
            is_register_field(source),
        ensures
            r == encode(OpCode::Print.spec_code(), if newline { 1 } else { 0 }, source, 0),
    {
        let flag: u32 = if newline {
            1
        } else {
            0
        };
        InstructionBuilder::new().add_opcode(OpCode::Print).add_destination_register(
            flag,
        ).add_source_register_1(source).build()
    }

    pub fn new_return_none_instruction() -> (r: Instruction)
        ensures
            r == encode(OpCode::ReturnNone.spec_code(), 0, 0, 0),
    {
        InstructionBuilder::new().add_opcode(OpCode::ReturnNone).build()
    }

    pub fn new_return_value(source: Instruction) -> (r: Instruction)
        requires
            is_register_field(source),
        ensures
            r == encode(OpCode::ReturnVal.spec_code(), 0, source, 0),
    {
        InstructionBuilder::new().add_opcode(OpCode::ReturnVal).add_source_register_1(
            source,
        ).build()
    }

    pub fn new_halt_instruction() -> (r: Instruction)
        ensures
            r == encode(OpCode::Halt.spec_code(), 0, 0, 0),
    {
        InstructionBuilder::new().add_opcode(OpCode::Halt).build()
    }

    /// Adds the opcode into bits 31-26.
    pub fn add_opcode(self, opcode: OpCode) -> (r: Self)
        requires
            self.instruction < OPCODE_SHIFT_FACTOR,
        ensures
            r.instruction == self.instruction + opcode.spec_code() * OPCODE_SHIFT_FACTOR,
    {
        let mut builder = self;
        let opcode = opcode.to_u32();
        proof {
            lemma_shift_is_product(opcode);
        }
        let shifted = opcode << 26u32;
        builder.instruction = builder.instruction + shifted;
        builder
    }

    /// Adds a register index into bits 25-22.
    pub fn add_destination_register(self, destination: Instruction) -> (r: Self)
        requires
            is_register_field(destination),
            self.instruction % OPCODE_SHIFT_FACTOR < DESTINATION_SHIFT_FACTOR,
        ensures
            r.instruction == self.instruction + destination * DESTINATION_SHIFT_FACTOR,
    {
        let mut builder = self;
        proof {
            lemma_shift_is_product(destination);
        }
        let shifted = destination << 22u32;
        builder.instruction = builder.instruction + shifted;
        builder
    }

    /// Adds a register index into bits 21-18.
    pub fn add_source_register_1(self, source: Instruction) -> (r: Self)
        requires
            is_register_field(source),
            self.instruction % DESTINATION_SHIFT_FACTOR < SOURCE_1_SHIFT_FACTOR,
        ensures
            r.instruction == self.instruction + source * SOURCE_1_SHIFT_FACTOR,
    {
        let mut builder = self;
        proof {
            lemma_shift_is_product(source);
        }
        let shifted = source << 18u32;
        builder.instruction = builder.instruction + shifted;
        builder
    }

    /// Adds a register index into the low bits.
    pub fn add_source_register_2(self, source: Instruction) -> (r: Self)
        requires
            is_register_field(source),
            self.instruction % SOURCE_1_SHIFT_FACTOR == 0,
        ensures
            r.instruction == self.instruction + source,
    {
        let mut builder = self;
        builder.instruction = builder.instruction + source;
        builder
    }

    /// Adds a sixteen-bit address into the low bits.
    pub fn add_address_small(self, address: Instruction) -> (r: Self)
        requires
            address < 0x1_0000,
            self.instruction % SOURCE_1_SHIFT_FACTOR == 0,
        ensures
            r.instruction == self.instruction + address,
    {
        let mut builder = self;
        builder.instruction = builder.instruction + address;
        builder
    }

    /// Zeroes the low sixteen bits, keeping the high sixteen.
    pub fn clear_address_small(self) -> (r: Self)
        ensures
            r.instruction == self.instruction - self.instruction % 0x1_0000,
    {
        let mut builder = self;
        let w = builder.instruction;
        let cleared = (w >> 16u32) << 16u32;
        assert(((w >> 16u32) << 16u32) == w - w % 0x1_0000) by (bit_vector);
        builder.instruction = cleared;
        builder
    }
}

/// Decoding the fields of an encoded word gives back each field: opcode,
/// the three register fields, and a sixteen-bit address in the low bits.
pub proof fn lemma_codec_round_trip(opcode: u32, destination: u32, source1: u32, low: u32)
    requires
        opcode < 64,
        destination < 16,
        source1 < 16,
        low < SOURCE_1_SHIFT_FACTOR,
    ensures
        0 <= encode(opcode, destination, source1, low) <= u32::MAX,
        opcode_of(encode(opcode, destination, source1, low) as u32) == opcode,
        destination_of(encode(opcode, destination, source1, low) as u32) == destination,
        source1_of(encode(opcode, destination, source1, low) as u32) == source1,
        low < 16 ==> source2_of(encode(opcode, destination, source1, low) as u32) == low,
        low < 0x1_0000 ==> address_of(encode(opcode, destination, source1, low) as u32) == low,
{
    let w = encode(opcode, destination, source1, low);
    assert(0 <= w <= u32::MAX) by (nonlinear_arith)
        requires
            w == opcode * 0x400_0000 + destination * 0x40_0000 + source1 * 0x4_0000 + low,
            opcode < 64,
            destination < 16,
            source1 < 16,
            low < 0x4_0000,
    ;
    let x = w as u32;
    assert(x == opcode * 0x400_0000u32 + destination * 0x40_0000u32 + source1 * 0x4_0000u32 + low);
    assert(x / 0x400_0000u32 == opcode && (x / 0x40_0000u32) % 16 == destination && (x
        / 0x4_0000u32) % 16 == source1 && (low < 16 ==> x % 16 == low) && (low < 0x1_0000 ==> x
        % 0x1_0000 == low)) by (bit_vector)
        requires
            x == opcode * 0x400_0000u32 + destination * 0x40_0000u32 + source1 * 0x4_0000u32
                + low,
            opcode < 64,
            destination < 16,
            source1 < 16,
            low < 0x4_0000,
    ;
}

/// The high 32 bits of a 64-bit value.
pub open spec fn high_half(value: u64) -> u32 {
    (value / 0x1_0000_0000) as u32
}

/// The low 32 bits of a 64-bit value.
pub open spec fn low_half(value: u64) -> u32 {
    (value % 0x1_0000_0000) as u32
}

/// The 64-bit value with the given high and low halves.
pub open spec fn merged(first_half: u32, second_half: u32) -> int {
    first_half * 0x1_0000_0000 + second_half
}

/// Splitting a 64-bit value into halves and merging them gives the value back.
pub proof fn lemma_split_merge(value: u64)
    ensures
        merged(high_half(value), low_half(value)) == value,
{
}

} // verus!
