use vstd::prelude::*;

use crate::object::RegisterValueKind;

verus! {

/// Number of slots in one register file.
pub const REGISTER_COUNT: usize = 23;

/// Index of the local-offset register.
pub const RLO: usize = 17;

/// Index of the error register.
pub const RERR: usize = 18;

/// Index of the program counter.
pub const RPC: usize = 19;

/// Index of the register reserved for comparison results.
pub const RCND: usize = 20;

/// Index of the return-value register.
pub const RRTN: usize = 21;

/// Index of the register that holds the local count of the current call.
pub const RMAX: usize = 22;

/// Names of the slots of a register file.
#[derive(Debug, Clone, Copy, PartialEq, Eq, Structural)]
pub enum RegisterID {
    R0,
    R1,
    R2,
    R3,
    R4,
    R5,
    R6,
    R7,
    R8,
    R9,
    R10,
    /// Max number of general registers
    R15,
    /// Local offset
    RLO,
    /// Error tracker
    RERR,
    /// Program Counter
    RPC,
    /// Conditionals
    RCND,
    /// Return
    RRTN,
    /// Max number of all registers / also stores number of local variables in called function
    RMax,
}

impl RegisterID {
    pub open spec fn spec_index(self) -> usize {
        match self {
            RegisterID::R0 => 0,
            RegisterID::R1 => 1,
            RegisterID::R2 => 2,
            RegisterID::R3 => 3,
            RegisterID::R4 => 4,
            RegisterID::R5 => 5,
            RegisterID::R6 => 6,
            RegisterID::R7 => 7,
            RegisterID::R8 => 8,
            RegisterID::R9 => 9,
            RegisterID::R10 => 10,
            RegisterID::R15 => 16,
            RegisterID::RLO => RLO,
            RegisterID::RERR => RERR,
            RegisterID::RPC => RPC,
            RegisterID::RCND => RCND,
            RegisterID::RRTN => RRTN,
            RegisterID::RMax => RMAX,
        }
    }

    /// The slot of the register file that this name denotes.
    pub fn index(&self) -> (r: usize)
        ensures
            r == self.spec_index(),
            r < REGISTER_COUNT,
    {
        match self {
            RegisterID::R0 => 0,
            RegisterID::R1 => 1,
            RegisterID::R2 => 2,
            RegisterID::R3 => 3,
            RegisterID::R4 => 4,
            RegisterID::R5 => 5,
            RegisterID::R6 => 6,
            RegisterID::R7 => 7,
            RegisterID::R8 => 8,
            RegisterID::R9 => 9,
            RegisterID::R10 => 10,
            RegisterID::R15 => 16,
            RegisterID::RLO => RLO,
            RegisterID::RERR => RERR,
            RegisterID::RPC => RPC,
            RegisterID::RCND => RCND,
            RegisterID::RRTN => RRTN,
            RegisterID::RMax => RMAX,
        }
    }
}

/// A tagged value: `kind` says how to read the 64-bit `value`.
#[derive(Debug, Clone, Copy, PartialEq, Eq, Structural)]
pub struct Register {
    pub kind: RegisterValueKind,
    pub value: u64,
}

impl Register {
    pub fn new(kind: RegisterValueKind, value: u64) -> (r: Self)
        ensures
            r.kind == kind,
            r.value == value,
    {
        Self { kind, value }
    }

    pub fn empty() -> (r: Self)
        ensures
            r == empty_register(),
    {
        Self { kind: RegisterValueKind::Nil, value: 0 }
    }
}

impl Default for Register {
    fn default() -> (r: Self)
        ensures
            r == empty_register(),
    {
        Self::empty()
    }
}

/// The `None` register, holding zero.
pub open spec fn empty_register() -> Register {
    Register { kind: RegisterValueKind::Nil, value: 0 }
}

} // verus!
