use vstd::prelude::*;

use crate::instruction::Instruction;
use crate::object::NovaObject;
use crate::register::{empty_register, Register};

verus! {

/// Stores an object in memory and returns its address.
pub fn store_object_in_memory(memory: &mut Vec<NovaObject>, object: NovaObject) -> (r: u64)
    ensures
        final(memory)@ == old(memory)@.push(object),
        r == old(memory)@.len(),
{
    memory.push(object);
    (memory.len() - 1) as u64
}

/// Appends a `None` global slot and returns its index.
pub fn allocate_global(globals: &mut Vec<Register>) -> (r: usize)
    ensures
        final(globals)@ == old(globals)@.push(empty_register()),
        r == old(globals)@.len(),
{
    globals.push(Register::empty());
    globals.len() - 1
}

/// Binds a name to a global slot; a later binding of one name hides earlier ones.
pub fn create_global(identifiers: &mut Vec<(Vec<u8>, usize)>, name: Vec<u8>, global_location: usize)
    ensures
        final(identifiers)@ == old(identifiers)@.push((name, global_location)),
{
    identifiers.push((name, global_location));
}

/// Sets the value of a global slot.
pub fn set_global_value(globals: &mut Vec<Register>, address: usize, new_value: Register)
    requires
        address < old(globals)@.len(),
    ensures
        final(globals)@ == old(globals)@.update(address as int, new_value),
{
    globals[address] = new_value;
}

/// Copies a global slot into a register.
pub fn load_global_value(
    registers: &mut Vec<Register>,
    globals: &Vec<Register>,
    destination: Instruction,
    global_address: usize,
)
    requires
        (destination as int) < old(registers)@.len(),
        global_address < globals@.len(),
    ensures
        final(registers)@ == old(registers)@.update(destination as int, globals@[global_address as int]),
{
    registers[destination as usize] = globals[global_address];
}

/// Pushes `number_of_locals` `None` locals.
pub fn allocate_local_variables(locals: &mut Vec<Register>, number_of_locals: Instruction)
    ensures
        final(locals)@ == old(locals)@ + Seq::new(number_of_locals as nat, |i: int| empty_register()),
{
    let ghost start = locals@;
    let mut i: u32 = 0;
    while i < number_of_locals
        invariant
            i <= number_of_locals,
            locals@ == start + Seq::new(i as nat, |k: int| empty_register()),
        decreases number_of_locals - i,
    {
        locals.push(Register::empty());
        i = i + 1;
        assert(locals@ =~= start + Seq::new(i as nat, |k: int| empty_register()));
    }
}

/// Drops the last `number_of_locals` locals.
pub fn deallocate_local_variables(locals: &mut Vec<Register>, number_of_locals: Instruction)
    requires
        number_of_locals <= old(locals)@.len(),
    ensures
        final(locals)@ == old(locals)@.subrange(0, old(locals)@.len() - number_of_locals),
{
    let keep = locals.len() - number_of_locals as usize;
    locals.truncate(keep);
}

} // verus!
