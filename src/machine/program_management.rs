use vstd::prelude::*;

use crate::frame::Frame;
use crate::instruction::Instruction;
use crate::machine::bytecode_execution::binding_of;
use crate::machine::VirtualMachine;
use crate::object::{NovaObject, ObjectModel, RegisterValueKind};
use crate::register::{empty_register, Register, REGISTER_COUNT, RERR, RLO, RMAX, RPC, RRTN};
use crate::text::{append_bytes, append_decimal, append_str};
use vstd::string::StringSliceAdditionalSpecFns;

verus! {

/// A runtime error with text `message` was raised between `before` and `after`:
/// the text is a new memory entry, and the error register points at it.
pub open spec fn error_raised(before: &VirtualMachine, after: &VirtualMachine, message: Seq<u8>) -> bool {
    &&& after.memory@.len() == before.memory@.len() + 1
    &&& after.memory@.last()@ == ObjectModel::Text(message)
    &&& after.registers@[RERR as int] == Register {
        kind: RegisterValueKind::MemAddress,
        value: before.memory@.len() as u64,
    }
}

/// `after` differs from `before` at most in its memory and registers.
pub open spec fn same_except_registers_memory(before: &VirtualMachine, after: &VirtualMachine) -> bool {
    &&& after.instructions == before.instructions
    &&& after.immutables == before.immutables
    &&& after.frames == before.frames
    &&& after.locals == before.locals
    &&& after.globals == before.globals
    &&& after.identifiers == before.identifiers
    &&& after.running == before.running
    &&& after.line_definitions == before.line_definitions
}

/// A cached global slot is the slot that the name in the cached immutable is
/// bound to.
pub open spec fn cache_entry_sound(vm: &VirtualMachine, entry: (usize, usize)) -> bool {
    &&& entry.0 < vm.immutables@.len()
    &&& vm.immutables@[entry.0 as int] is String
    &&& binding_of(vm.identifiers@, vm.immutables@[entry.0 as int]->String_0@) == Some(entry.1)
}

impl VirtualMachine {
    /// Register files have their full size, and the cache of global slots
    /// agrees with the bindings.
    pub open spec fn wf(&self) -> bool {
        &&& self.registers@.len() == REGISTER_COUNT
        &&& forall|i: int|
            0 <= i < self.frames@.len() ==> #[trigger] self.frames@[i].registers@.len()
                == REGISTER_COUNT
        &&& self.mem_cache.wf()
        &&& forall|i: int|
            0 <= i < self.mem_cache.entries@.len() ==> cache_entry_sound(
                self,
                #[trigger] self.mem_cache.entries@[i],
            )
    }

    /// The machine is in error: its error register holds a memory address.
    pub open spec fn in_error(&self) -> bool {
        self.registers@[RERR as int].kind == RegisterValueKind::MemAddress
    }

    /// Raises a runtime error with text `message`.
    pub fn emit_error_with_message(&mut self, message: Vec<u8>)
        requires
            old(self).wf(),
        ensures
            final(self).wf(),
            error_raised(old(self), final(self), message@),
            final(self).memory@ == old(self).memory@.push(NovaObject::String(message)),
            final(self).memory@.drop_last() == old(self).memory@,
            final(self).memory@.last() is String,
            final(self).memory@.last()@ == ObjectModel::Text(message@),
            final(self).registers@ == old(self).registers@.update(
                RERR as int,
                Register { kind: RegisterValueKind::MemAddress, value: old(self).memory@.len() as u64 },
            ),
            same_except_registers_memory(old(self), final(self)),
            final(self).pending == old(self).pending,
    {
        self.memory.push(NovaObject::String(message));
        assert(self.memory@.drop_last() =~= old(self).memory@);
        let address = (self.memory.len() - 1) as u64;
        self.registers[RERR] = Register::new(RegisterValueKind::MemAddress, address);
    }

    /// Whether the machine is in error.
    pub fn check_error(&self) -> (r: bool)
        requires
            self.wf(),
        ensures
            r == self.in_error(),
    {
        match self.registers[RERR].kind {
            RegisterValueKind::MemAddress => true,
            _ => false,
        }
    }

    /// Leaves the error state so that the machine can run again.
    pub fn clear_error(&mut self)
        requires
            old(self).wf(),
        ensures
            final(self).wf(),
            final(self).registers@ == old(self).registers@.update(RERR as int, empty_register()),
            final(self).memory == old(self).memory,
            same_except_registers_memory(old(self), final(self)),
    {
        self.registers[RERR] = Register::empty();
    }

    /// Reads the word at the program counter and moves the counter past it;
    /// `None`, with the counter unchanged, when it points past the code.
    pub fn get_next_instruction(&mut self) -> (r: Option<Instruction>)
        requires
            old(self).wf(),
        ensures
            final(self).wf(),
            old(self).registers@[RPC as int].value < old(self).instructions@.len() ==> r == Some(
                old(self).instructions@[old(self).registers@[RPC as int].value as int],
            ) && final(self).registers@ == old(self).registers@.update(
                RPC as int,
                Register {
                    kind: old(self).registers@[RPC as int].kind,
                    value: (old(self).registers@[RPC as int].value + 1) as u64,
                },
            ),
            old(self).registers@[RPC as int].value >= old(self).instructions@.len() ==> r is None
                && final(self).registers == old(self).registers,
            final(self).memory == old(self).memory,
            same_except_registers_memory(old(self), final(self)),
            final(self).pending == old(self).pending,
    {
        let pc = self.registers[RPC];
        if pc.value >= self.instructions.len() as u64 {
            return None;
        }
        let instruction = self.instructions[pc.value as usize];
        self.registers[RPC] = Register::new(pc.kind, pc.value + 1);
        Some(instruction)
    }

    /// The first line definition, or the last one that ends at or before
    /// `program_counter`.
    pub fn get_source_line_definition(&self, program_counter: usize) -> (r: Option<usize>)
        ensures
            self.line_definitions@.len() == 0 <==> r is None,
            r matches Some(i) ==> i < self.line_definitions@.len() && (i == 0
                || self.line_definitions@[i as int].last_instruction <= program_counter) && forall|
                k: int,
            |
                i < k < self.line_definitions@.len() ==> #[trigger] self.line_definitions@[k].last_instruction
                    > program_counter,
    {
        if self.line_definitions.len() == 0 {
            return None;
        }
        let mut found: usize = 0;
        let mut i: usize = 0;
        while i < self.line_definitions.len()
            invariant
                i <= self.line_definitions@.len(),
                found < self.line_definitions@.len(),
                found == 0 || self.line_definitions@[found as int].last_instruction <= program_counter,
                forall|k: int|
                    found < k < i ==> #[trigger] self.line_definitions@[k].last_instruction
                        > program_counter,
            decreases self.line_definitions@.len() - i,
        {
            if self.line_definitions[i].last_instruction <= program_counter {
                found = i;
            }
            i = i + 1;
        }
        Some(found)
    }

    fn append_line_report(&self, out: &mut Vec<u8>, prefix: &str, program_counter: usize)
        ensures
            final(out)@.len() >= old(out)@.len(),
            final(out)@.subrange(0, old(out)@.len() as int) == old(out)@,
    {
        if let Some(index) = self.get_source_line_definition(program_counter) {
            let definition = &self.line_definitions[index];
            append_str(out, prefix);
            append_str(out, " line [");
            append_decimal(out, definition.source_line as i64);
            append_str(out, "] in file '");
            append_bytes(out, definition.source_file.as_slice());
            append_str(out, "'\n");
        }
        assert(final(out)@.subrange(0, old(out)@.len() as int) =~= old(out)@);
    }

    /// The report of the current error: its text, then the line of the
    /// program counter, then the call site of each saved frame, most recent first.
    pub fn print_error(&self) -> (r: Vec<u8>)
        requires
            self.wf(),
        ensures
            ({
                let e = self.registers@[RERR as int];
                let header = "Error: '".spec_bytes() + self.memory@[e.value as int]->String_0@
                    + "'".spec_bytes() + " Most recent call first\n".spec_bytes();
                (self.in_error() && e.value < self.memory@.len() && self.memory@[e.value as int] is String)
                    ==> r@.len() >= header.len() && r@.subrange(0, header.len() as int) == header
            }),
    {
        let mut out: Vec<u8> = Vec::new();
        let register = self.registers[RERR];
        if let RegisterValueKind::MemAddress = register.kind {
            let mut described = false;
            if register.value < self.memory.len() as u64 {
                if let NovaObject::String(text) = &self.memory[register.value as usize] {
                    append_str(&mut out, "Error: '");
                    append_bytes(&mut out, text.as_slice());
                    append_str(&mut out, "'");
                    described = true;
                }
            }
            if !described {
                append_str(&mut out, "Error:");
            }
            append_str(&mut out, " Most recent call first\n");
        }
        let ghost header = out@;
        let pc = self.registers[RPC].value;
        if pc <= usize::MAX as u64 {
            self.append_line_report(&mut out, "On", pc as usize);
            assert(out@.subrange(0, header.len() as int) =~= header);
        }
        let mut i: usize = self.frames.len();
        while i > 1
            invariant
                self.wf(),
                i <= self.frames@.len(),
                out@.len() >= header.len(),
                out@.subrange(0, header.len() as int) == header,
            decreases i,
        {
            i = i - 1;
            let saved = self.frames[i].registers[RPC].value;
            if saved >= 2 && saved - 2 <= usize::MAX as u64 {
                let ghost before = out@;
                self.append_line_report(&mut out, "Called from", (saved - 2) as usize);
                assert(out@.subrange(0, header.len() as int) =~= before.subrange(0, header.len() as int));
            }
        }
        out
    }

    /// Saves the register file as a new frame and opens a fresh one with
    /// `num_locals` locals above the current ones.
    pub fn new_frame(&mut self, num_locals: Instruction)
        requires
            old(self).wf(),
        ensures
            final(self).wf(),
            final(self).frames@.len() == old(self).frames@.len() + 1,
            final(self).frames@.drop_last() == old(self).frames@,
            final(self).frames@.last().registers@ == old(self).registers@,
            !final(self).frames@.last().is_main,
            final(self).locals@ == old(self).locals@ + Seq::new(
                num_locals as nat,
                |i: int| empty_register(),
            ),
            forall|i: int| 0 <= i < 16 ==> #[trigger] final(self).registers@[i] == empty_register(),
            final(self).registers@[RLO as int] == (Register {
                kind: RegisterValueKind::MemAddress,
                value: old(self).locals@.len() as u64,
            }),
            final(self).registers@[RMAX as int] == (Register {
                kind: RegisterValueKind::MemAddress,
                value: num_locals as u64,
            }),
            final(self).registers@[RPC as int] == old(self).registers@[RPC as int],
            final(self).registers@[RRTN as int] == old(self).registers@[RRTN as int],
            final(self).registers@[RERR as int] == old(self).registers@[RERR as int],
            final(self).instructions == old(self).instructions,
            final(self).immutables == old(self).immutables,
            final(self).memory == old(self).memory,
            final(self).globals == old(self).globals,
            final(self).identifiers == old(self).identifiers,
            final(self).running == old(self).running,
            final(self).line_definitions == old(self).line_definitions,
            final(self).pending == old(self).pending,
    {
        let ghost before = self.registers@;
        let mut saved: Vec<Register> = Vec::new();
        let mut i: usize = 0;
        while i < REGISTER_COUNT
            invariant
                i <= REGISTER_COUNT,
                self.registers@ == before,
                before.len() == REGISTER_COUNT,
                saved@ == before.subrange(0, i as int),
            decreases REGISTER_COUNT - i,
        {
            saved.push(self.registers[i]);
            i = i + 1;
            assert(saved@ =~= before.subrange(0, i as int));
        }
        assert(saved@ =~= before);
        let frame = Frame::new(saved, false);
        self.frames.push(frame);
        assert(self.frames@.last().registers@ == old(self).registers@);
        assert(self.frames@.drop_last() =~= old(self).frames@);
        crate::machine::register_management::clear_registers(&mut self.registers);
        set_local_offset(&mut self.registers, &self.locals);
        crate::machine::memory_management::allocate_local_variables(&mut self.locals, num_locals);
        self.registers[RMAX] = Register::new(RegisterValueKind::MemAddress, num_locals as u64);
    }

    /// Ends the current call: drains the `RMax` locals it allocated, pops its frame and restores
    /// the caller's registers, handing over the return register. Popping the
    /// main frame, or none, halts the machine.
    pub fn drop_frame(&mut self)
        requires
            old(self).wf(),
        ensures
            final(self).wf(),
            old(self).frames@.len() > 0 && !old(self).frames@.last().is_main ==> {
                &&& final(self).frames@ == old(self).frames@.drop_last()
                &&& final(self).registers@ == old(self).frames@.last().registers@.update(
                    RRTN as int,
                    old(self).registers@[RRTN as int],
                )
                &&& final(self).running == old(self).running
            },
            old(self).frames@.len() == 0 || old(self).frames@.last().is_main ==> !final(self).running,
            old(self).registers@[RMAX as int].value <= old(self).locals@.len() ==> final(self).locals@
                == old(self).locals@.subrange(
                0,
                old(self).locals@.len() - old(self).registers@[RMAX as int].value,
            ),
            final(self).instructions == old(self).instructions,
            final(self).immutables == old(self).immutables,
            final(self).memory == old(self).memory,
            final(self).globals == old(self).globals,
            final(self).identifiers == old(self).identifiers,
            final(self).line_definitions == old(self).line_definitions,
            final(self).pending == old(self).pending,
    {
        let return_value = self.registers[RRTN];
        let count = self.registers[RMAX].value;
        if count <= self.locals.len() as u64 {
            let keep = self.locals.len() - count as usize;
            self.locals.truncate(keep);
        }
        let frame = self.frames.pop();
        match frame {
            Some(frame) => {
                if frame.is_main {
                    self.running = false;
                    return;
                }
                self.registers = frame.registers;
                self.registers[RRTN] = return_value;
            },
            None => {
                self.running = false;
            },
        }
    }
}

/// Sets the local offset to the current number of locals.
pub fn set_local_offset(registers: &mut Vec<Register>, locals: &Vec<Register>)
    requires
        old(registers)@.len() == REGISTER_COUNT,
    ensures
        final(registers)@ == old(registers)@.update(
            RLO as int,
            Register { kind: RegisterValueKind::MemAddress, value: locals@.len() as u64 },
        ),
{
    registers[RLO] = Register::new(RegisterValueKind::MemAddress, locals.len() as u64);
}

} // verus!
