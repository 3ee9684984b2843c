use vstd::prelude::*;

use crate::instruction::{
    address_of, destination_of, high_half, low_half, merged, opcode_of, source1_of, source2_of,
    Instruction,
};

verus! {

pub fn split_u64(value: u64) -> (r: (Instruction, Instruction))
    ensures
        r.0 == high_half(value),
        r.1 == low_half(value),
{
    let first_half = (value >> 32u64) as u32;
    let last_half = value as u32;
    assert((value >> 32u64) as u32 == value / 0x1_0000_0000) by (bit_vector);
    assert(value as u32 == value % 0x1_0000_0000) by (bit_vector);
    (first_half, last_half)
}

pub fn merge_u32s(first_half: u32, second_half: u32) -> (r: u64)
    ensures
        r == merged(first_half, second_half),
{
    let first = first_half as u64;
    let second = second_half as u64;
    assert((first << 32u64) == first * 0x1_0000_0000) by (bit_vector)
        requires
            first < 0x1_0000_0000,
    ;
    let shifted = first << 32u64;
    shifted + second
}

pub fn decode_opcode(instruction: Instruction) -> (r: Instruction)
    ensures
        r == opcode_of(instruction),
        r < 64,
{
    assert(instruction >> 26u32 == instruction / 0x400_0000u32) by (bit_vector);
    instruction >> 26u32
}

pub fn decode_destination_register(instruction: Instruction) -> (r: Instruction)
    ensures
        r == destination_of(instruction),
        r < 16,
{
    assert((instruction >> 22u32) & 0xf == (instruction / 0x40_0000u32) % 16) by (bit_vector);
    (instruction >> 22u32) & 0xf
}

pub fn decode_source_register_1(instruction: Instruction) -> (r: Instruction)
    ensures
        r == source1_of(instruction),
        r < 16,
{
    assert((instruction >> 18u32) & 0xf == (instruction / 0x4_0000u32) % 16) by (bit_vector);
    (instruction >> 18u32) & 0xf
}

pub fn decode_source_register_2(instruction: Instruction) -> (r: Instruction)
    ensures
        r == source2_of(instruction),
        r < 16,
{
    assert(instruction & 0xf == instruction % 16) by (bit_vector);
    instruction & 0xf
}

pub fn decode_immutable_address_small(instruction: Instruction) -> (r: Instruction)
    ensures
        r == address_of(instruction),
        r < 0x1_0000,
{
    assert(instruction & 0xffff == instruction % 0x1_0000) by (bit_vector);
    instruction & 0xffff
}

} // verus!
