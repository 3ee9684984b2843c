use vstd::prelude::*;

use crate::register::{empty_register, Register, REGISTER_COUNT};

verus! {

/// A saved register file; the bottom frame of a machine is its main frame.
#[derive(Debug, Clone)]
pub struct Frame {
    pub is_main: bool,
    pub registers: Vec<Register>,
}

impl Frame {
    pub fn new(registers: Vec<Register>, is_main: bool) -> (r: Self)
        ensures
            r.registers == registers,
            r.is_main == is_main,
    {
        Self { is_main, registers }
    }

    /// A frame whose registers are all `None`.
    pub fn empty(is_main: bool) -> (r: Self)
        ensures
            r.is_main == is_main,
            r.registers@ == Seq::new(REGISTER_COUNT as nat, |i: int| empty_register()),
    {
        let registers = empty_registers();
        Self::new(registers, is_main)
    }

    pub fn main() -> (r: Self)
        ensures
            r.is_main,
            r.registers@ == Seq::new(REGISTER_COUNT as nat, |i: int| empty_register()),
    {
        Self::empty(true)
    }
}

/// A register file with every slot `None`.
pub fn empty_registers() -> (r: Vec<Register>)
    ensures
        r@ == Seq::new(REGISTER_COUNT as nat, |i: int| empty_register()),
{
    let mut registers: Vec<Register> = Vec::new();
    let mut i: usize = 0;
    while i < REGISTER_COUNT
        invariant
            i <= REGISTER_COUNT,
            registers@ == Seq::new(i as nat, |j: int| empty_register()),
        decreases REGISTER_COUNT - i,
    {
        registers.push(Register::empty());
        i = i + 1;
        assert(registers@ =~= Seq::new(i as nat, |j: int| empty_register()));
    }
    registers
}

} // verus!
