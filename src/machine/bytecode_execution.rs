use vstd::prelude::*;
use vstd::string::StringSliceAdditionalSpecFns;

use crate::bytecode::OpCode;
use crate::instruction::instruction_decoder::{
    decode_destination_register, decode_immutable_address_small, decode_source_register_1,
    decode_source_register_2, merge_u32s,
};
use crate::instruction::{address_of, destination_of, source1_of, source2_of, Instruction};
use crate::machine::arithmetic_operations::{
    op_float_float, op_float_int, op_int_float, op_int_int, truncated_remainder, ArithmeticOp,
};
use crate::machine::memory_management::{
    allocate_global, allocate_local_variables, create_global, deallocate_local_variables,
    load_global_value, set_global_value, store_object_in_memory,
};
use crate::machine::program_management::{error_raised, same_except_registers_memory};
use crate::machine::string_operations::{add_num_str, add_str_num};
use crate::machine::register_management::{
    clear_register, get_register, is_truthy, set_value_in_register, truthy,
};
use crate::machine::{Comparison, Effect, FloatRequest, Number, Pending, VirtualMachine};
use crate::object::{copy_bytes, NovaFunctionID, NovaObject, ObjectModel, RegisterValueKind};
use crate::register::{empty_register, Register, REGISTER_COUNT, RERR, RLO, RMAX, RPC, RRTN};
use crate::text::{
    append_bytes, append_decimal, append_str, bytes_equal, bytes_less, bytes_less_than, bytes_of,
    decimal_of,
};

verus! {

/// The sign bit of an IEEE-754 double.
pub const SIGN_BIT: u64 = 0x8000_0000_0000_0000;

/// Whether a register kind holds a number.
pub open spec fn is_number(kind: RegisterValueKind) -> bool {
    kind == RegisterValueKind::Int64 || kind == RegisterValueKind::Float64
}

/// The text that a register refers to, if it refers to a string.
pub open spec fn text_of(vm: &VirtualMachine, register: Register) -> Option<Seq<u8>> {
    if register.kind == RegisterValueKind::StrImm && register.value < vm.immutables@.len()
        && vm.immutables@[register.value as int] is String {
        Some(vm.immutables@[register.value as int]->String_0@)
    } else if register.kind == RegisterValueKind::StrMem && register.value < vm.memory@.len()
        && vm.memory@[register.value as int] is String {
        Some(vm.memory@[register.value as int]->String_0@)
    } else {
        None
    }
}

/// The number a register holds, for the host.
pub open spec fn number_of(register: Register) -> Number {
    if register.kind == RegisterValueKind::Int64 {
        Number::Int(register.value as i64)
    } else {
        Number::Float(register.value)
    }
}

/// Where a `Jump` word sends the program counter `pc`, which already points
/// past the jump: back by `imm16 + 1` when the direction bit is clear, else
/// forward by `imm16 - 1`.
pub open spec fn jump_target(pc: u64, word: u32) -> int {
    if destination_of(word) == 0 {
        pc - address_of(word) - 1
    } else {
        pc + address_of(word) - 1
    }
}

/// What a `Jump` instruction does.
pub open spec fn jump_post(pre: &VirtualMachine, post: &VirtualMachine, instruction: u32, r: Effect) -> bool {
    let pc = pre.registers@[RPC as int];
    let target = jump_target(pc.value, instruction);
    &&& 0 <= target <= u64::MAX ==> r is Continue && post.registers@ == pre.registers@.update(
        RPC as int,
        Register { kind: pc.kind, value: target as u64 },
    )
    &&& !(0 <= target <= u64::MAX) ==> r is Failed
}

/// What a `JumpFalse` instruction does: it reads the `Jump` word after it
/// and takes that jump when the tested register is falsy.
pub open spec fn jump_if_false_post(
    pre: &VirtualMachine,
    post: &VirtualMachine,
    instruction: u32,
    r: Effect,
) -> bool {
    let pc = pre.registers@[RPC as int];
    let taken = !truthy(pre.registers@[source1_of(instruction) as int]);
    &&& (!taken && pc.value < pre.instructions@.len()) ==> r is Continue && post.registers@
        == pre.registers@.update(
        RPC as int,
        Register { kind: pc.kind, value: (pc.value + 1) as u64 },
    )
    &&& pc.value >= pre.instructions@.len() ==> r is Failed
    &&& (taken && pc.value < pre.instructions@.len()) ==> ({
        let target = jump_target((pc.value + 1) as u64, pre.instructions@[pc.value as int]);
        &&& 0 <= target <= u64::MAX ==> r is Continue && post.registers@ == pre.registers@.update(
            RPC as int,
            Register { kind: pc.kind, value: target as u64 },
        )
        &&& !(0 <= target <= u64::MAX) ==> r is Failed
    })
}

/// What `load_constant_to_register` does.
pub open spec fn load_constant_to_register_post(pre: &VirtualMachine, post: &VirtualMachine, instruction: u32, r: Effect) -> bool {
    &&& (({
                let k = address_of(instruction);
                &&& k < pre.immutables@.len() ==> r is Continue
                    && post.registers@ == pre.registers@.update(
                    destination_of(instruction) as int,
                    Register {
                        kind: if pre.immutables@[k as int] is String {
                            RegisterValueKind::StrImm
                        } else {
                            RegisterValueKind::ImmAddress
                        },
                        value: k as u64,
                    },
                )
                &&& k >= pre.immutables@.len() ==> r is Failed
                    && post.registers@[RERR as int].kind == RegisterValueKind::MemAddress
            }))
    &&& (post.pending == pre.pending)
    &&& (same_except_registers_memory(pre, post))
}

/// What `negate` does.
pub open spec fn negate_post(pre: &VirtualMachine, post: &VirtualMachine, instruction: u32, r: Effect) -> bool {
    &&& (({
                let s = source1_of(instruction) as int;
                let a = pre.registers@[s];
                &&& a.kind == RegisterValueKind::Float64 ==> r is Continue
                    && post.registers@ == pre.registers@.update(
                    s,
                    Register { kind: RegisterValueKind::Float64, value: a.value ^ SIGN_BIT },
                )
                &&& a.kind != RegisterValueKind::Float64 ==> r is Failed && error_raised(
                    pre,
                    post,
                    "Cannot negate non float value".spec_bytes(),
                )
            }))
    &&& (post.pending == pre.pending)
    &&& (same_except_registers_memory(pre, post))
}

/// What `load_global_indirect` does.
pub open spec fn load_global_indirect_post(pre: &VirtualMachine, post: &VirtualMachine, instruction: u32, r: Effect) -> bool {
    &&& (({
                let k = address_of(instruction);
                let name = pre.immutables@[k as int]->String_0@;
                let slot = binding_of(pre.identifiers@, name);
                &&& (k < pre.immutables@.len() && pre.immutables@[k as int] is String
                    && slot is Some && slot.unwrap() < pre.globals@.len()) ==> r is Continue
                    && post.registers@ == pre.registers@.update(
                    destination_of(instruction) as int,
                    pre.globals@[slot.unwrap() as int],
                )
                &&& (k < pre.immutables@.len() && pre.immutables@[k as int] is String
                    && slot is None) ==> failed_with_error(pre, post, r)
                    && post.memory@.last()@ == ObjectModel::Text(
                    "Cannot find global named: ".spec_bytes() + name,
                )
                &&& !(r is Continue) ==> failed_with_error(pre, post, r)
            }))
    &&& (post.pending == pre.pending)
    &&& (same_except_registers_memory(pre, post))
}

/// What `store_global_indirect` does.
pub open spec fn store_global_indirect_post(pre: &VirtualMachine, post: &VirtualMachine, instruction: u32, r: Effect) -> bool {
    &&& (({
                let k = address_of(instruction);
                let s = source1_of(instruction) as int;
                let name = pre.immutables@[k as int]->String_0@;
                let slot = binding_of(pre.identifiers@, name);
                let failed = failed_and_cleared(pre, post, s, r);
                &&& (k < pre.immutables@.len() && pre.immutables@[k as int] is String
                    && slot is Some && slot.unwrap() < pre.globals@.len()) ==> r is Continue
                    && post.globals@ == pre.globals@.update(
                    slot.unwrap() as int,
                    pre.registers@[s],
                ) && post.registers@ == pre.registers@.update(s, empty_register())
                &&& (k < pre.immutables@.len() && pre.immutables@[k as int] is String
                    && slot is None) ==> failed && post.memory@.last()@ == ObjectModel::Text(
                    "Cannot find global named: ".spec_bytes() + name,
                )
                &&& !(r is Continue) ==> failed
            }))
    &&& (post.pending == pre.pending)
    &&& (post.frames == pre.frames)
    &&& (post.locals == pre.locals)
    &&& (post.identifiers == pre.identifiers)
    &&& (post.instructions == pre.instructions)
    &&& (post.immutables == pre.immutables)
}

/// What `store_local` does.
pub open spec fn store_local_post(pre: &VirtualMachine, post: &VirtualMachine, instruction: u32, r: Effect) -> bool {
    &&& (({
                let s = source1_of(instruction) as int;
                let at = pre.registers@[RLO as int].value + address_of(instruction);
                &&& at < pre.locals@.len() ==> r is Continue && post.locals@
                    == pre.locals@.update(at, pre.registers@[s])
                    && post.registers@ == pre.registers@.update(s, empty_register())
                &&& at >= pre.locals@.len() ==> r is Failed
            }))
    &&& (post.pending == pre.pending)
    &&& (post.frames == pre.frames)
    &&& (post.globals == pre.globals)
    &&& (post.instructions == pre.instructions)
    &&& (post.immutables == pre.immutables)
}

/// What `load_local` does.
pub open spec fn load_local_post(pre: &VirtualMachine, post: &VirtualMachine, instruction: u32, r: Effect) -> bool {
    &&& (({
                let at = pre.registers@[RLO as int].value + address_of(instruction);
                &&& at < pre.locals@.len() ==> r is Continue && post.registers@
                    == pre.registers@.update(
                    destination_of(instruction) as int,
                    pre.locals@[at],
                )
                &&& at >= pre.locals@.len() ==> r is Failed
            }))
    &&& (post.pending == pre.pending)
    &&& (same_except_registers_memory(pre, post))
}

/// What `load_global` does.
pub open spec fn load_global_post(pre: &VirtualMachine, post: &VirtualMachine, instruction: u32, r: Effect) -> bool {
    &&& (address_of(instruction) < pre.globals@.len() ==> r is Continue
                && post.registers@ == pre.registers@.update(
                destination_of(instruction) as int,
                pre.globals@[address_of(instruction) as int],
            ))
    &&& (address_of(instruction) >= pre.globals@.len() ==> r is Failed)
    &&& (post.pending == pre.pending)
    &&& (same_except_registers_memory(pre, post))
}

/// What `load_value` does.
pub open spec fn load_value_post(pre: &VirtualMachine, post: &VirtualMachine, instruction: u32, op: OpCode, r: Effect) -> bool {
    &&& (({
                let d = destination_of(instruction) as int;
                let pc = pre.registers@[RPC as int].value;
                let code = pre.instructions@;
                &&& op is LoadNil ==> r is Continue && post.registers@
                    == pre.registers@.update(d, empty_register())
                &&& op is LoadBool ==> r is Continue && post.registers@
                    == pre.registers@.update(d, bool_register(address_of(instruction) != 0))
                &&& (op is LoadInt32 && pc < code.len()) ==> r is Continue
                    && post.registers@[d] == (Register {
                    kind: RegisterValueKind::Int64,
                    value: (code[pc as int] as i32) as i64 as u64,
                })
                &&& (op is LoadInt64 && pc + 1 < code.len()) ==> r is Continue
                    && post.registers@[d] == (Register {
                    kind: RegisterValueKind::Int64,
                    value: (code[pc as int] * 0x1_0000_0000 + code[pc + 1]) as u64,
                })
                &&& (op is LoadFloat64 && pc + 1 < code.len()) ==> r is Continue
                    && post.registers@[d] == (Register {
                    kind: RegisterValueKind::Float64,
                    value: (code[pc as int] * 0x1_0000_0000 + code[pc + 1]) as u64,
                })
                &&& (op is LoadFloat32 && pc < code.len()) ==> r == Effect::Float(
                    FloatRequest::Widen { bits: code[pc as int] },
                ) && post.pending == (Pending::Value { destination: d as u32 })
            }))
    &&& (!(r is Float) ==> post.pending == pre.pending)
    &&& (same_except_registers_memory(pre, post))
}

/// What `local_space` does.
pub open spec fn local_space_post(pre: &VirtualMachine, post: &VirtualMachine, instruction: u32, allocate: bool, r: Effect) -> bool {
    &&& (({
                let n = address_of(instruction);
                &&& allocate ==> r is Continue && post.locals@ == pre.locals@
                    + Seq::new(n as nat, |i: int| empty_register())
                &&& (!allocate && n <= pre.locals@.len()) ==> r is Continue
                    && post.locals@ == pre.locals@.subrange(
                    0,
                    pre.locals@.len() - n,
                )
                &&& (!allocate && n > pre.locals@.len()) ==> r is Failed
            }))
    &&& (r is Continue ==> post.registers == pre.registers)
    &&& (post.pending == pre.pending)
    &&& (post.frames == pre.frames)
    &&& (post.globals == pre.globals)
    &&& (post.instructions == pre.instructions)
    &&& (post.immutables == pre.immutables)
}

/// What `ReturnNone` (`with_value` false) and `ReturnVal` do.
pub open spec fn return_post(pre: &VirtualMachine, post: &VirtualMachine, instruction: u32, with_value: bool, r: Effect) -> bool {
    &&& (({
                let value = if with_value {
                    pre.registers@[source1_of(instruction) as int]
                } else {
                    empty_register()
                };
                let lo = pre.registers@[RMAX as int].value;
                &&& pre.frames@.len() > 0 && !pre.frames@.last().is_main ==> r is Continue
                    && post.running == pre.running
                    && post.frames@ == pre.frames@.drop_last()
                    && post.registers@ == pre.frames@.last().registers@.update(
                    RRTN as int,
                    value,
                )
                &&& (pre.frames@.len() == 0 || pre.frames@.last().is_main) ==> r is Halted
                    && !post.running
                &&& lo <= pre.locals@.len() ==> post.locals@ == pre.locals@.subrange(
                    0,
                    pre.locals@.len() - lo,
                )
            }))
    &&& (crate::machine::call_returned(pre, post))
    &&& (post.memory == pre.memory)
    &&& (post.pending == pre.pending)
    &&& (post.globals == pre.globals)
    &&& (post.instructions == pre.instructions)
    &&& (post.immutables == pre.immutables)
}

/// What `Print` asks of the host: the object that register `src1` stands
/// for, and a line end when the destination bit is set.
pub open spec fn print_post(pre: &VirtualMachine, instruction: u32, r: Effect) -> bool {
    let register = pre.registers@[source1_of(instruction) as int];
    &&& r is Print
    &&& r->newline == (destination_of(instruction) == 1)
    &&& register.kind == RegisterValueKind::Int64 ==> r->value@ == ObjectModel::Int64(
        register.value as i64,
    )
    &&& register.kind == RegisterValueKind::Float64 ==> r->value@ == ObjectModel::Float64(
        register.value,
    )
    &&& register.kind == RegisterValueKind::Bool ==> r->value@ == ObjectModel::Bool(register.value != 0)
    &&& register.kind == RegisterValueKind::Nil ==> r->value@ == ObjectModel::Nil
    &&& text_of(pre, register) is Some ==> r->value@ == ObjectModel::Text(
        text_of(pre, register).unwrap(),
    )
}

/// The object that a register stands for when it is handed to the host:
/// numbers, booleans, `None` and strings; `None` for the other kinds.
pub open spec fn packaged(vm: &VirtualMachine, register: Register) -> Option<ObjectModel> {
    if register.kind == RegisterValueKind::Int64 {
        Some(ObjectModel::Int64(register.value as i64))
    } else if register.kind == RegisterValueKind::Float64 {
        Some(ObjectModel::Float64(register.value))
    } else if register.kind == RegisterValueKind::Bool {
        Some(ObjectModel::Bool(register.value != 0))
    } else if register.kind == RegisterValueKind::Nil {
        Some(ObjectModel::Nil)
    } else if text_of(vm, register) is Some {
        Some(ObjectModel::Text(text_of(vm, register).unwrap()))
    } else {
        None
    }
}

/// The boolean register for `b`.
pub open spec fn bool_register(b: bool) -> Register {
    Register { kind: RegisterValueKind::Bool, value: if b { 1 } else { 0 } }
}

/// The register that holds a newly stored string at `address`.
pub open spec fn string_register(address: nat) -> Register {
    Register { kind: RegisterValueKind::StrMem, value: address as u64 }
}

/// The slot of the last binding of `name`, if any.
pub open spec fn binding_of(identifiers: Seq<(Vec<u8>, usize)>, name: Seq<u8>) -> Option<usize>
    decreases identifiers.len(),
{
    if identifiers.len() == 0 {
        None
    } else if identifiers.last().0@ == name {
        Some(identifiers.last().1)
    } else {
        binding_of(identifiers.drop_last(), name)
    }
}

/// The name of a register kind, for messages.
pub fn kind_name(kind: RegisterValueKind) -> (r: &'static str) {
    match kind {
        RegisterValueKind::Nil => "None",
        RegisterValueKind::Int64 => "Int64",
        RegisterValueKind::Float64 => "Float64",
        RegisterValueKind::Bool => "Bool",
        RegisterValueKind::MemAddress => "MemAddress",
        RegisterValueKind::ImmAddress => "ImmAddress",
        RegisterValueKind::StrImm => "StrImm",
        RegisterValueKind::StrMem => "StrMem",
        RegisterValueKind::NovaFunctionID(_) => "NovaFunctionID",
    }
}

/// `verb` followed by the kinds of two operands.
fn operand_message(verb: &str, first: RegisterValueKind, second: RegisterValueKind) -> (r: Vec<u8>) {
    let mut message = bytes_of(verb);
    append_str(&mut message, " ");
    append_str(&mut message, kind_name(first));
    append_str(&mut message, " and ");
    append_str(&mut message, kind_name(second));
    message
}

/// A runtime error was raised between `pre` and `post`: a new string entry
/// at the end of memory, its address in the error register, and nothing
/// else changed in registers and memory.
pub open spec fn failed_with_error(pre: &VirtualMachine, post: &VirtualMachine, r: Effect) -> bool {
    &&& r is Failed
    &&& post.memory@.len() == pre.memory@.len() + 1
    &&& post.memory@.drop_last() == pre.memory@
    &&& post.memory@.last() is String
    &&& post.registers@ == pre.registers@.update(
        RERR as int,
        Register { kind: RegisterValueKind::MemAddress, value: pre.memory@.len() as u64 },
    )
}

/// A runtime error was raised as by `failed_with_error`, and register `s`
/// was cleared as well; globals are unchanged.
pub open spec fn failed_and_cleared(pre: &VirtualMachine, post: &VirtualMachine, s: int, r: Effect) -> bool {
    &&& r is Failed
    &&& post.memory@.len() == pre.memory@.len() + 1
    &&& post.memory@.drop_last() == pre.memory@
    &&& post.memory@.last() is String
    &&& post.registers@ == pre.registers@.update(
        RERR as int,
        Register { kind: RegisterValueKind::MemAddress, value: pre.memory@.len() as u64 },
    ).update(s, empty_register())
    &&& post.globals == pre.globals
}

/// Register `d` took `value`, and nothing else changed in registers and memory.
pub open spec fn wrote_register(pre: &VirtualMachine, post: &VirtualMachine, d: int, value: Register, r: Effect) -> bool {
    &&& r is Continue
    &&& post.registers@ == pre.registers@.update(d, value)
    &&& post.memory == pre.memory
}

/// A new string with `text` was stored and register `d` refers to it.
pub open spec fn stored_text(pre: &VirtualMachine, post: &VirtualMachine, d: int, text: Seq<u8>, r: Effect) -> bool {
    &&& r is Continue
    &&& post.memory@.len() == pre.memory@.len() + 1
    &&& post.memory@.drop_last() == pre.memory@
    &&& post.memory@.last()@ == ObjectModel::Text(text)
    &&& post.registers@ == pre.registers@.update(d, string_register(pre.memory@.len()))
}

/// Work handed to the host; registers and memory wait for its answer.
pub open spec fn deferred(pre: &VirtualMachine, post: &VirtualMachine) -> bool {
    &&& post.registers == pre.registers
    &&& post.memory == pre.memory
}

/// `Add` can join these operands: a string with a string or a number.
pub open spec fn joinable(pre: &VirtualMachine, a: Register, b: Register) -> bool {
    let ta = text_of(pre, a);
    let tb = text_of(pre, b);
    (ta is Some && (tb is Some || is_number(b.kind))) || (tb is Some && is_number(a.kind))
}

/// What an arithmetic instruction does.
pub open spec fn arithmetic_post(
    pre: &VirtualMachine,
    post: &VirtualMachine,
    instruction: u32,
    op: ArithmeticOp,
    r: Effect,
) -> bool {
    let a = pre.registers@[source1_of(instruction) as int];
    let b = pre.registers@[source2_of(instruction) as int];
    let d = destination_of(instruction) as int;
    let ta = text_of(pre, a);
    let tb = text_of(pre, b);
    let ints = a.kind == RegisterValueKind::Int64 && b.kind == RegisterValueKind::Int64;
    &&& (ints && (op is Add || op is Sub || op is Mul)) ==> wrote_register(
        pre,
        post,
        d,
        Register {
            kind: RegisterValueKind::Int64,
            value: if op is Add {
                a.value.wrapping_add(b.value)
            } else if op is Sub {
                a.value.wrapping_sub(b.value)
            } else {
                a.value.wrapping_mul(b.value)
            },
        },
        r,
    )
    &&& (ints && op is Mod && b.value != 0) ==> wrote_register(
        pre,
        post,
        d,
        Register {
            kind: RegisterValueKind::Int64,
            value: (truncated_remainder(a.value as i64 as int, b.value as i64 as int) as i64) as u64,
        },
        r,
    )
    &&& (ints && op is Mod && b.value == 0) ==> failed_with_error(pre, post, r)
    &&& (is_number(a.kind) && is_number(b.kind) && (!ints || op is Div || op is Pow)) ==> r
        == Effect::Float(FloatRequest::Arithmetic { op, left: number_of(a), right: number_of(b) })
        && post.pending == (Pending::Value { destination: d as u32 }) && deferred(pre, post)
    &&& (op is Add && ta is Some && tb is Some) ==> stored_text(
        pre,
        post,
        d,
        ta.unwrap() + tb.unwrap(),
        r,
    )
    &&& (op is Add && ta is Some && b.kind == RegisterValueKind::Int64) ==> stored_text(
        pre,
        post,
        d,
        ta.unwrap() + decimal_of(b.value as i64 as int),
        r,
    )
    &&& (op is Add && a.kind == RegisterValueKind::Int64 && tb is Some) ==> stored_text(
        pre,
        post,
        d,
        decimal_of(a.value as i64 as int) + tb.unwrap(),
        r,
    )
    &&& (op is Add && ta is Some && b.kind == RegisterValueKind::Float64) ==> r == Effect::Float(
        FloatRequest::Format { bits: b.value },
    ) && post.pending is Concat && post.pending->target == d && post.pending->text@ == ta.unwrap()
        && !post.pending->number_first && deferred(pre, post)
    &&& (op is Add && a.kind == RegisterValueKind::Float64 && tb is Some) ==> r == Effect::Float(
        FloatRequest::Format { bits: a.value },
    ) && post.pending is Concat && post.pending->target == d && post.pending->text@ == tb.unwrap()
        && post.pending->number_first && deferred(pre, post)
    &&& (!(is_number(a.kind) && is_number(b.kind)) && !(op is Add && joinable(pre, a, b)))
        ==> failed_with_error(pre, post, r)
    &&& !(r is Float) ==> post.pending == pre.pending
}

/// What a comparison instruction does.
pub open spec fn compare_post(
    pre: &VirtualMachine,
    post: &VirtualMachine,
    instruction: u32,
    op: Comparison,
    r: Effect,
) -> bool {
    let a = pre.registers@[source1_of(instruction) as int];
    let b = pre.registers@[source2_of(instruction) as int];
    let d = destination_of(instruction) as int;
    let ta = text_of(pre, a);
    let tb = text_of(pre, b);
    let numbers = is_number(a.kind) && is_number(b.kind);
    let texts = ta is Some && tb is Some;
    &&& (a.kind == RegisterValueKind::Int64 && b.kind == RegisterValueKind::Int64) ==> wrote_register(
        pre,
        post,
        d,
        bool_register(
            match op {
                Comparison::Less => (a.value as i64) < (b.value as i64),
                Comparison::LessEqual => (a.value as i64) <= (b.value as i64),
                Comparison::Equal => a.value == b.value,
            },
        ),
        r,
    )
    &&& (numbers && (a.kind == RegisterValueKind::Float64 || b.kind == RegisterValueKind::Float64))
        ==> r == Effect::Float(FloatRequest::Compare { op, left: number_of(a), right: number_of(b) })
        && post.pending == (Pending::Value { destination: d as u32 }) && deferred(pre, post)
    &&& (op is Equal && a.kind != b.kind && !numbers) ==> wrote_register(
        pre,
        post,
        d,
        bool_register(false),
        r,
    )
    &&& (texts && !(op is Equal && a.kind != b.kind)) ==> wrote_register(
        pre,
        post,
        d,
        bool_register(
            match op {
                Comparison::Less => bytes_less(ta.unwrap(), tb.unwrap()),
                Comparison::LessEqual => bytes_less(ta.unwrap(), tb.unwrap()) || ta.unwrap()
                    == tb.unwrap(),
                Comparison::Equal => ta.unwrap() == tb.unwrap(),
            },
        ),
        r,
    )
    &&& (op is Equal && a.kind == b.kind && !numbers && !texts) ==> wrote_register(
        pre,
        post,
        d,
        bool_register(a.kind == RegisterValueKind::Nil || a.value == b.value),
        r,
    )
    &&& (!(op is Equal) && !numbers && !texts) ==> failed_with_error(pre, post, r)
    &&& !(r is Float) ==> post.pending == pre.pending
}

/// What a call of a user function with `arity`, `number_of_locals` and
/// `entry` does with `argc` arguments from register `start` on.
pub open spec fn user_call_post(
    pre: &VirtualMachine,
    post: &VirtualMachine,
    arity: u32,
    number_of_locals: u32,
    entry: u64,
    start: u32,
    argc: u32,
    r: Effect,
) -> bool {
    &&& argc != arity ==> failed_with_error(pre, post, r) && post.memory@.last()@
        == ObjectModel::Text(arity_message(arity, argc)) && post.frames == pre.frames && post.locals
        == pre.locals
    &&& (argc == arity && start + argc > 16) ==> failed_with_error(pre, post, r) && post.frames
        == pre.frames && post.locals == pre.locals
    &&& (argc == arity && start + argc <= 16) ==> {
        &&& r is Continue
        &&& crate::machine::call_entered(pre, post)
        &&& post.frames@.last().registers@ == pre.registers@
        &&& post.locals@ == pre.locals@ + Seq::new(number_of_locals as nat, |i: int| empty_register())
        &&& post.registers@[RMAX as int] == (Register {
            kind: RegisterValueKind::MemAddress,
            value: number_of_locals as u64,
        })
        &&& post.registers@[RPC as int].value == entry
        &&& post.registers@[RERR as int] == pre.registers@[RERR as int]
        &&& post.registers@[RRTN as int] == pre.registers@[RRTN as int]
        &&& forall|k: int| 0 <= k < argc ==> #[trigger] post.registers@[k] == pre.registers@[start + k]
        &&& forall|k: int| argc <= k < 16 ==> #[trigger] post.registers@[k] == empty_register()
        &&& post.memory == pre.memory
    }
    &&& post.pending == pre.pending
}

/// What an `Invoke` instruction does.
pub open spec fn invoke_post(pre: &VirtualMachine, post: &VirtualMachine, instruction: u32, r: Effect) -> bool {
    let callee = pre.registers@[source2_of(instruction) as int];
    let start = destination_of(instruction);
    let argc = source1_of(instruction);
    let object = pre.memory@[callee.value as int];
    let in_memory = callee.kind == RegisterValueKind::MemAddress && callee.value < pre.memory@.len();
    &&& callee.kind is NovaFunctionID ==> user_call_post(
        pre,
        post,
        (callee.kind->NovaFunctionID_0.value / crate::object::ARITY_FACTOR) % 8,
        callee.kind->NovaFunctionID_0.value / crate::object::LOCALS_FACTOR,
        callee.value,
        start,
        argc,
        r,
    )
    &&& (in_memory && object is NovaFunction) ==> user_call_post(
        pre,
        post,
        object->NovaFunction_0.arity,
        object->NovaFunction_0.number_of_locals,
        object->NovaFunction_0.address as u64,
        start,
        argc,
        r,
    )
    &&& (in_memory && object is NativeFunction) ==> (r matches Effect::CallNative { index, arguments }
        && index == object->NativeFunction_0.index && (start + argc <= 16 ==> arguments@.len() == argc)
        && forall|k: int|
            0 <= k < arguments@.len() ==> (packaged(pre, pre.registers@[start + k]) matches Some(m)
                ==> #[trigger] arguments@[k]@ == m))
        && post.pending is Native && post.registers == pre.registers && post.memory == pre.memory
        && post.frames == pre.frames && post.locals == pre.locals
    &&& (!(callee.kind is NovaFunctionID) && !(in_memory && (object is NovaFunction || object is NativeFunction)))
        ==> failed_with_error(pre, post, r) && post.frames == pre.frames && post.locals == pre.locals
        && post.pending == pre.pending
}

impl VirtualMachine {
    /// The text a register refers to.
    pub fn string_of(&self, register: Register) -> (r: Option<Vec<u8>>)
        ensures
            r is Some <==> text_of(self, register) is Some,
            r is Some ==> r.unwrap()@ == text_of(self, register).unwrap(),
    {
        if register.kind == RegisterValueKind::StrImm && register.value < self.immutables.len() as u64 {
            if let NovaObject::String(text) = &self.immutables[register.value as usize] {
                return Some(copy_bytes(text));
            }
        }
        if register.kind == RegisterValueKind::StrMem && register.value < self.memory.len() as u64 {
            if let NovaObject::String(text) = &self.memory[register.value as usize] {
                return Some(copy_bytes(text));
            }
        }
        None
    }

    /// Stores `text` as a new string and puts its address into `destination`.
    fn store_string(&mut self, destination: u32, text: Vec<u8>)
        requires
            old(self).wf(),
            destination < 16,
        ensures
            final(self).wf(),
            final(self).memory@ == old(self).memory@.push(NovaObject::String(text)),
            final(self).memory@.drop_last() == old(self).memory@,
            final(self).memory@.last()@ == ObjectModel::Text(text@),
            final(self).registers@ == old(self).registers@.update(
                destination as int,
                string_register(old(self).memory@.len()),
            ),
            same_except_registers_memory(old(self), final(self)),
            final(self).pending == old(self).pending,
    {
        let address = store_object_in_memory(&mut self.memory, NovaObject::String(text));
        assert(self.memory@.drop_last() =~= old(self).memory@);
        set_value_in_register(
            &mut self.registers,
            destination,
            Register::new(RegisterValueKind::StrMem, address),
        );
    }

    /// `Add`, `Sub`, `Mul`, `Div`, `Pow`, `Mod` on the registers of `instruction`.
    /// Integers wrap; division and powers of integers, and any operation with a
    /// float, go to the host; `Add` with a string joins texts.
    pub fn binary_arithmetic(&mut self, instruction: Instruction, op: ArithmeticOp) -> (r: Effect)
        requires
            old(self).wf(),
        ensures
            final(self).wf(),
            arithmetic_post(old(self), final(self), instruction, op, r),
            same_except_registers_memory(old(self), final(self)),
    {
        let destination = decode_destination_register(instruction);
        let source1 = decode_source_register_1(instruction);
        let source2 = decode_source_register_2(instruction);
        let a = get_register(&self.registers, source1);
        let b = get_register(&self.registers, source2);
        let a_number = a.kind.is_int64() || a.kind.is_float64();
        let b_number = b.kind.is_int64() || b.kind.is_float64();
        if a.kind.is_int64() && b.kind.is_int64() {
            if let Some(result) = op_int_int(op, a, b) {
                set_value_in_register(&mut self.registers, destination, result);
                return Effect::Continue;
            }
            if let ArithmeticOp::Mod = op {
                self.emit_error_with_message(bytes_of("division by zero"));
                return Effect::Failed;
            }
        }
        if a_number && b_number {
            let request = if a.kind.is_int64() && b.kind.is_int64() {
                FloatRequest::Arithmetic {
                    op,
                    left: Number::Int(a.value as i64),
                    right: Number::Int(b.value as i64),
                }
            } else if a.kind.is_int64() {
                op_int_float(op, a, b)
            } else if b.kind.is_int64() {
                op_float_int(op, a, b)
            } else {
                op_float_float(op, a, b)
            };
            self.pending = Pending::Value { destination };
            return Effect::Float(request);
        }
        if let ArithmeticOp::Add = op {
            let a_text = self.string_of(a);
            let b_text = self.string_of(b);
            match (a_text, b_text) {
                (Some(mut first), Some(second)) => {
                    append_bytes(&mut first, second.as_slice());
                    self.store_string(destination, first);
                    return Effect::Continue;
                },
                (Some(first), None) => {
                    if let Some(joined) = add_str_num(&first, b) {
                        self.store_string(destination, joined);
                        return Effect::Continue;
                    }
                    if b.kind.is_float64() {
                        self.pending = Pending::Concat {
                            target: destination,
                            text: first,
                            number_first: false,
                        };
                        return Effect::Float(FloatRequest::Format { bits: b.value });
                    }
                },
                (None, Some(second)) => {
                    if let Some(joined) = add_num_str(a, &second) {
                        self.store_string(destination, joined);
                        return Effect::Continue;
                    }
                    if a.kind.is_float64() {
                        self.pending = Pending::Concat {
                            target: destination,
                            text: second,
                            number_first: true,
                        };
                        return Effect::Float(FloatRequest::Format { bits: a.value });
                    }
                },
                (None, None) => {},
            }
        }
        let verb = match op {
            ArithmeticOp::Add => "cannot add",
            ArithmeticOp::Sub => "cannot subtract",
            ArithmeticOp::Mul => "cannot multiply",
            ArithmeticOp::Div => "cannot divide",
            ArithmeticOp::Pow => "cannot find power of",
            ArithmeticOp::Mod => "cannot find modulus of",
        };
        self.emit_error_with_message(operand_message(verb, a.kind, b.kind));
        Effect::Failed
    }

    /// `Less`, `LessEqual` and `Equal` on the registers of `instruction`; the
    /// result is a `Bool` in the destination. Integers compare by value,
    /// strings byte by byte; comparisons with a float go to the host.
    pub fn compare_registers(&mut self, instruction: Instruction, op: Comparison) -> (r: Effect)
        requires
            old(self).wf(),
        ensures
            final(self).wf(),
            compare_post(old(self), final(self), instruction, op, r),
            same_except_registers_memory(old(self), final(self)),
    {
        let destination = decode_destination_register(instruction);
        let a = get_register(&self.registers, decode_source_register_1(instruction));
        let b = get_register(&self.registers, decode_source_register_2(instruction));
        let a_number = a.kind.is_int64() || a.kind.is_float64();
        let b_number = b.kind.is_int64() || b.kind.is_float64();
        if a.kind.is_int64() && b.kind.is_int64() {
            let x = a.value as i64;
            let y = b.value as i64;
            let result = match op {
                Comparison::Less => x < y,
                Comparison::LessEqual => x <= y,
                Comparison::Equal => a.value == b.value,
            };
            self.set_bool(destination, result);
            return Effect::Continue;
        }
        if a_number && b_number {
            let left = if a.kind.is_int64() {
                Number::Int(a.value as i64)
            } else {
                Number::Float(a.value)
            };
            let right = if b.kind.is_int64() {
                Number::Int(b.value as i64)
            } else {
                Number::Float(b.value)
            };
            self.pending = Pending::Value { destination };
            return Effect::Float(FloatRequest::Compare { op, left, right });
        }
        if let Comparison::Equal = op {
            if a.kind != b.kind {
                self.set_bool(destination, false);
                return Effect::Continue;
            }
        }
        let a_text = self.string_of(a);
        let b_text = self.string_of(b);
        if let (Some(first), Some(second)) = (a_text, b_text) {
            let result = match op {
                Comparison::Less => bytes_less_than(&first, &second),
                Comparison::LessEqual => bytes_less_than(&first, &second) || bytes_equal(
                    &first,
                    &second,
                ),
                Comparison::Equal => bytes_equal(&first, &second),
            };
            self.set_bool(destination, result);
            return Effect::Continue;
        }
        if let Comparison::Equal = op {
            let result = match a.kind {
                RegisterValueKind::Nil => true,
                _ => a.value == b.value,
            };
            self.set_bool(destination, result);
            return Effect::Continue;
        }
        self.emit_error_with_message(operand_message("cannot compare", a.kind, b.kind));
        Effect::Failed
    }

    /// Puts a `Bool` into register `destination`.
    fn set_bool(&mut self, destination: u32, value: bool)
        requires
            old(self).wf(),
            destination < 16,
        ensures
            final(self).wf(),
            final(self).registers@ == old(self).registers@.update(
                destination as int,
                bool_register(value),
            ),
            final(self).memory == old(self).memory,
            same_except_registers_memory(old(self), final(self)),
            final(self).pending == old(self).pending,
    {
        let bits: u64 = if value {
            1
        } else {
            0
        };
        set_value_in_register(
            &mut self.registers,
            destination,
            Register::new(RegisterValueKind::Bool, bits),
        );
    }

    /// `Not`: replaces a register with the `Bool` of its falsiness.
    pub fn not(&mut self, instruction: Instruction)
        requires
            old(self).wf(),
        ensures
            final(self).wf(),
            final(self).registers@ == old(self).registers@.update(
                source1_of(instruction) as int,
                bool_register(!truthy(old(self).registers@[source1_of(instruction) as int])),
            ),
            final(self).memory == old(self).memory,
            same_except_registers_memory(old(self), final(self)),
            final(self).pending == old(self).pending,
    {
        let source = decode_source_register_1(instruction);
        let register = get_register(&self.registers, source);
        let is_true = is_truthy(register);
        self.set_bool(source, !is_true);
    }

    /// `Neg`: flips the sign of a `Float64` in place; any other kind is an error.
    pub fn negate(&mut self, instruction: Instruction) -> (r: Effect)
        requires
            old(self).wf(),
        ensures
            final(self).wf(),
            negate_post(old(self), final(self), instruction, r),
    {
        let source = decode_source_register_1(instruction);
        let register = get_register(&self.registers, source);
        if register.kind.is_float64() {
            set_value_in_register(
                &mut self.registers,
                source,
                Register::new(RegisterValueKind::Float64, register.value ^ SIGN_BIT),
            );
            return Effect::Continue;
        }
        self.emit_error_with_message(bytes_of("Cannot negate non float value"));
        Effect::Failed
    }

    /// `LoadK`: a reference to immutable `imm16` — `StrImm` for a string,
    /// `ImmAddress` otherwise.
    pub fn load_constant_to_register(&mut self, instruction: Instruction) -> (r: Effect)
        requires
            old(self).wf(),
        ensures
            final(self).wf(),
            load_constant_to_register_post(old(self), final(self), instruction, r),
    {
        let destination = decode_destination_register(instruction);
        let address = decode_immutable_address_small(instruction);
        if address as usize >= self.immutables.len() {
            self.emit_error_with_message(bytes_of("Immutable address out of range"));
            return Effect::Failed;
        }
        let kind = match &self.immutables[address as usize] {
            NovaObject::String(_) => RegisterValueKind::StrImm,
            _ => RegisterValueKind::ImmAddress,
        };
        set_value_in_register(&mut self.registers, destination, Register::new(kind, address as u64));
        Effect::Continue
    }

    /// `LoadNil`, `LoadBool`, and the integer and float loads that read their
    /// payload words after the header.
    pub fn load_value(&mut self, instruction: Instruction, op: OpCode) -> (r: Effect)
        requires
            old(self).wf(),
        ensures
            final(self).wf(),
            load_value_post(old(self), final(self), instruction, op, r),
    {
        let destination = decode_destination_register(instruction);
        match op {
            OpCode::LoadNil => {
                set_value_in_register(&mut self.registers, destination, Register::empty());
                return Effect::Continue;
            },
            OpCode::LoadBool => {
                let flag = decode_immutable_address_small(instruction) != 0;
                self.set_bool(destination, flag);
                return Effect::Continue;
            },
            _ => {},
        }
        let ghost pc = self.registers@[RPC as int].value;
        let code_length = self.instructions.len();
        assert(pc < code_length ==> pc + 1 <= u64::MAX);
        let first = match self.get_next_instruction() {
            Some(word) => word,
            None => {
                self.emit_error_with_message(bytes_of("Missing instruction payload"));
                return Effect::Failed;
            },
        };
        match op {
            OpCode::LoadInt32 => {
                let value: i64 = (#[verifier::truncate] (first as i32)) as i64;
                let bits: u64 = #[verifier::truncate] (value as u64);
                set_value_in_register(
                    &mut self.registers,
                    destination,
                    Register::new(RegisterValueKind::Int64, bits),
                );
                return Effect::Continue;
            },
            OpCode::LoadFloat32 => {
                self.pending = Pending::Value { destination };
                return Effect::Float(FloatRequest::Widen { bits: first });
            },
            _ => {},
        }
        let second = match self.get_next_instruction() {
            Some(word) => word,
            None => {
                self.emit_error_with_message(bytes_of("Missing instruction payload"));
                return Effect::Failed;
            },
        };
        assert(first == self.instructions@[pc as int]);
        assert(second == self.instructions@[pc + 1]);
        let bits = merge_u32s(first, second);
        let kind = match op {
            OpCode::LoadFloat64 => RegisterValueKind::Float64,
            _ => RegisterValueKind::Int64,
        };
        set_value_in_register(&mut self.registers, destination, Register::new(kind, bits));
        Effect::Continue
    }

    /// The slot of the last binding of `name`.
    pub fn find_global(&self, name: &Vec<u8>) -> (r: Option<usize>)
        ensures
            r == binding_of(self.identifiers@, name@),
    {
        let mut i: usize = self.identifiers.len();
        assert(self.identifiers@.subrange(0, i as int) =~= self.identifiers@);
        while i > 0
            invariant
                i <= self.identifiers@.len(),
                binding_of(self.identifiers@, name@) == binding_of(
                    self.identifiers@.subrange(0, i as int),
                    name@,
                ),
            decreases i,
        {
            let ghost prefix = self.identifiers@.subrange(0, i as int);
            assert(prefix.drop_last() =~= self.identifiers@.subrange(0, i - 1));
            i = i - 1;
            if bytes_equal(&self.identifiers[i].0, name) {
                return Some(self.identifiers[i].1);
            }
        }
        None
    }

    /// The global slot named by immutable `index`; raises an error when the
    /// immutable is no string or no global has that name.
    fn resolve_global(&mut self, index: u32) -> (r: Option<usize>)
        requires
            old(self).wf(),
        ensures
            final(self).wf(),
            ({
                let name_ok = index < old(self).immutables@.len()
                    && old(self).immutables@[index as int] is String;
                let name = old(self).immutables@[index as int]->String_0@;
                let slot = binding_of(old(self).identifiers@, name);
                &&& name_ok && slot is Some && slot.unwrap() < old(self).globals@.len() ==> r == slot
                    && final(self).registers == old(self).registers && final(self).memory == old(self).memory
                &&& name_ok && slot is None ==> r is None && error_raised(
                    old(self),
                    final(self),
                    "Cannot find global named: ".spec_bytes() + name,
                )
                &&& r is None ==> failed_with_error(old(self), final(self), Effect::Failed)
                &&& r matches Some(s) ==> s < old(self).globals@.len()
            }),
            final(self).pending == old(self).pending,
            same_except_registers_memory(old(self), final(self)),
    {
        if let Some(slot) = self.mem_cache.get_cache(&(index as usize)) {
            proof {
                crate::cache::lemma_lookup_found(self.mem_cache.entries@, index as usize);
            }
            if slot < self.globals.len() {
                return Some(slot);
            }
        }
        if index as usize >= self.immutables.len() {
            self.emit_error_with_message(bytes_of("Invalid global identifier"));
            return None;
        }
        let name = match &self.immutables[index as usize] {
            NovaObject::String(name) => copy_bytes(name),
            _ => {
                self.emit_error_with_message(bytes_of("Invalid global identifier"));
                return None;
            },
        };
        match self.find_global(&name) {
            Some(slot) => {
                if slot < self.globals.len() {
                    let ghost before = *self;
                    proof {
                        crate::cache::lemma_inserted_keeps(
                            self.mem_cache.entries@,
                            self.mem_cache.capacity,
                            index as usize,
                            slot,
                            |e: (usize, usize)| crate::machine::program_management::cache_entry_sound(&before, e),
                        );
                    }
                    self.mem_cache.add_cache(index as usize, slot);
                    Some(slot)
                } else {
                    self.emit_error_with_message(bytes_of("Invalid global slot"));
                    None
                }
            },
            None => {
                let mut message = bytes_of("Cannot find global named: ");
                append_bytes(&mut message, name.as_slice());
                self.emit_error_with_message(message);
                None
            },
        }
    }

    /// `DefineGlobalIndirect`: a new `None` global bound to the name in
    /// immutable `imm16`; nothing when that immutable is no string.
    pub fn define_global_indirect(&mut self, instruction: Instruction)
        requires
            old(self).wf(),
        ensures
            final(self).wf(),
            ({
                let k = address_of(instruction);
                &&& (k < old(self).immutables@.len() && old(self).immutables@[k as int] is String)
                    ==> final(self).globals@ == old(self).globals@.push(empty_register())
                    && final(self).identifiers@.len() == old(self).identifiers@.len() + 1
                    && final(self).identifiers@.last().0@ == old(self).immutables@[k as int]->String_0@
                    && final(self).identifiers@.last().1 == old(self).globals@.len()
                    && final(self).identifiers@.drop_last() == old(self).identifiers@
            }),
            final(self).registers == old(self).registers,
            final(self).memory == old(self).memory,
            final(self).frames == old(self).frames,
            final(self).locals == old(self).locals,
            final(self).instructions == old(self).instructions,
            final(self).immutables == old(self).immutables,
            final(self).running == old(self).running,
            final(self).line_definitions == old(self).line_definitions,
            final(self).pending == old(self).pending,
    {
        let index = decode_immutable_address_small(instruction) as usize;
        if index >= self.immutables.len() {
            return;
        }
        let name = match &self.immutables[index] {
            NovaObject::String(name) => copy_bytes(name),
            _ => {
                return;
            },
        };
        let slot = allocate_global(&mut self.globals);
        create_global(&mut self.identifiers, name, slot);
        self.mem_cache.clear();
        assert(self.identifiers@.drop_last() =~= old(self).identifiers@);
    }

    /// `StoreGlobalIndirect`: the global named by immutable `imm16` takes
    /// register `src1`, which is cleared.
    pub fn store_global_indirect(&mut self, instruction: Instruction) -> (r: Effect)
        requires
            old(self).wf(),
        ensures
            final(self).wf(),
            store_global_indirect_post(old(self), final(self), instruction, r),
    {
        let source = decode_source_register_1(instruction);
        let index = decode_immutable_address_small(instruction);
        let register = get_register(&self.registers, source);
        let slot = self.resolve_global(index);
        match slot {
            Some(slot) => {
                set_global_value(&mut self.globals, slot, register);
                clear_register(&mut self.registers, source);
                Effect::Continue
            },
            None => {
                clear_register(&mut self.registers, source);
                Effect::Failed
            },
        }
    }

    /// `LoadGlobalIndirect`: register `dst` takes the global named by
    /// immutable `imm16`.
    pub fn load_global_indirect(&mut self, instruction: Instruction) -> (r: Effect)
        requires
            old(self).wf(),
        ensures
            final(self).wf(),
            load_global_indirect_post(old(self), final(self), instruction, r),
    {
        let destination = decode_destination_register(instruction);
        let index = decode_immutable_address_small(instruction);
        match self.resolve_global(index) {
            Some(slot) => {
                load_global_value(&mut self.registers, &self.globals, destination, slot);
                Effect::Continue
            },
            None => Effect::Failed,
        }
    }

    /// `LoadGlobal`: register `dst` takes global slot `imm16`.
    pub fn load_global(&mut self, instruction: Instruction) -> (r: Effect)
        requires
            old(self).wf(),
        ensures
            final(self).wf(),
            load_global_post(old(self), final(self), instruction, r),
    {
        let destination = decode_destination_register(instruction);
        let address = decode_immutable_address_small(instruction) as usize;
        if address >= self.globals.len() {
            self.emit_error_with_message(bytes_of("Global address out of range"));
            return Effect::Failed;
        }
        load_global_value(&mut self.registers, &self.globals, destination, address);
        Effect::Continue
    }

    /// `AllocateLocal` and `DeallocateLocal`: push or pop `imm16` locals.
    pub fn local_space(&mut self, instruction: Instruction, allocate: bool) -> (r: Effect)
        requires
            old(self).wf(),
        ensures
            final(self).wf(),
            local_space_post(old(self), final(self), instruction, allocate, r),
    {
        let number = decode_immutable_address_small(instruction);
        if allocate {
            allocate_local_variables(&mut self.locals, number);
            return Effect::Continue;
        }
        if number as usize > self.locals.len() {
            self.emit_error_with_message(bytes_of("Cannot release more locals than exist"));
            return Effect::Failed;
        }
        deallocate_local_variables(&mut self.locals, number);
        Effect::Continue
    }

    /// `StoreLocal`: local `RLO + imm16` takes register `src1`, which is cleared.
    pub fn store_local(&mut self, instruction: Instruction) -> (r: Effect)
        requires
            old(self).wf(),
        ensures
            final(self).wf(),
            store_local_post(old(self), final(self), instruction, r),
    {
        let source = decode_source_register_1(instruction);
        let address = decode_immutable_address_small(instruction) as u64;
        let offset = self.registers[RLO].value;
        if offset >= self.locals.len() as u64 || address >= self.locals.len() as u64 - offset {
            self.emit_error_with_message(bytes_of("Local address out of range"));
            return Effect::Failed;
        }
        let register = get_register(&self.registers, source);
        self.locals[(offset + address) as usize] = register;
        clear_register(&mut self.registers, source);
        Effect::Continue
    }

    /// `LoadLocal`: register `dst` takes local `RLO + imm16`.
    pub fn load_local(&mut self, instruction: Instruction) -> (r: Effect)
        requires
            old(self).wf(),
        ensures
            final(self).wf(),
            load_local_post(old(self), final(self), instruction, r),
    {
        let destination = decode_destination_register(instruction);
        let address = decode_immutable_address_small(instruction) as u64;
        let offset = self.registers[RLO].value;
        if offset >= self.locals.len() as u64 || address >= self.locals.len() as u64 - offset {
            self.emit_error_with_message(bytes_of("Local address out of range"));
            return Effect::Failed;
        }
        let register = self.locals[(offset + address) as usize];
        set_value_in_register(&mut self.registers, destination, register);
        Effect::Continue
    }

    /// `Jump`: backward by `imm16 + 1` when the direction bit is clear, else
    /// forward by `imm16 - 1`, counted from the word after the jump.
    pub fn jump(&mut self, instruction: Instruction) -> (r: Effect)
        requires
            old(self).wf(),
        ensures
            final(self).wf(),
            jump_post(old(self), final(self), instruction, r),
            final(self).pending == old(self).pending,
            same_except_registers_memory(old(self), final(self)),
    {
        let offset = decode_immutable_address_small(instruction) as u64;
        let direction = decode_destination_register(instruction);
        let pc = self.registers[RPC];
        if direction == 0 {
            if pc.value < offset + 1 {
                self.emit_error_with_message(bytes_of("Jump before the first instruction"));
                return Effect::Failed;
            }
            self.registers[RPC] = Register::new(pc.kind, pc.value - (offset + 1));
        } else {
            let target = if pc.value == 0 {
                if offset == 0 {
                    self.emit_error_with_message(bytes_of("Jump before the first instruction"));
                    return Effect::Failed;
                }
                offset - 1
            } else {
                if pc.value - 1 > u64::MAX - offset {
                    self.emit_error_with_message(bytes_of("Jump past the last instruction"));
                    return Effect::Failed;
                }
                pc.value - 1 + offset
            };
            self.registers[RPC] = Register::new(pc.kind, target);
        }
        Effect::Continue
    }

    /// `JumpFalse`: reads the `Jump` word that follows and takes it when
    /// register `src1` is falsy.
    pub fn jump_if_false(&mut self, instruction: Instruction) -> (r: Effect)
        requires
            old(self).wf(),
        ensures
            final(self).wf(),
            jump_if_false_post(old(self), final(self), instruction, r),
            final(self).pending == old(self).pending,
            same_except_registers_memory(old(self), final(self)),
    {
        let source = decode_source_register_1(instruction);
        let register = get_register(&self.registers, source);
        let truthy = is_truthy(register);
        let jump_instruction = match self.get_next_instruction() {
            Some(word) => word,
            None => {
                self.emit_error_with_message(bytes_of("Missing jump after JumpFalse"));
                return Effect::Failed;
            },
        };
        if !truthy {
            let r = self.jump(jump_instruction);
            assert(r is Continue ==> self.registers@ =~= old(self).registers@.update(
                RPC as int,
                self.registers@[RPC as int],
            ));
            return r;
        }
        Effect::Continue
    }

    /// `LoadReturn`: register `dst` takes the return register.
    pub fn load_return(&mut self, instruction: Instruction)
        requires
            old(self).wf(),
        ensures
            final(self).wf(),
            final(self).registers@ == old(self).registers@.update(
                destination_of(instruction) as int,
                old(self).registers@[RRTN as int],
            ),
            final(self).memory == old(self).memory,
            final(self).pending == old(self).pending,
            same_except_registers_memory(old(self), final(self)),
    {
        let destination = decode_destination_register(instruction);
        let value = self.registers[RRTN];
        set_value_in_register(&mut self.registers, destination, value);
    }

    /// The object that a register's value stands for, as handed to natives
    /// and to output.
    pub fn package_register_into_nova_object(&self, register: Register) -> (r: NovaObject)
        ensures
            register.kind == RegisterValueKind::Int64 ==> r@ == ObjectModel::Int64(
                register.value as i64,
            ),
            register.kind == RegisterValueKind::Float64 ==> r@ == ObjectModel::Float64(
                register.value,
            ),
            register.kind == RegisterValueKind::Bool ==> r@ == ObjectModel::Bool(register.value != 0),
            register.kind == RegisterValueKind::Nil ==> r@ == ObjectModel::Nil,
            text_of(self, register) is Some ==> r@ == ObjectModel::Text(
                text_of(self, register).unwrap(),
            ),
            packaged(self, register) matches Some(m) ==> r@ == m,
    {
        match register.kind {
            RegisterValueKind::Int64 => NovaObject::Int64(register.value as i64),
            RegisterValueKind::Float64 => NovaObject::Float64(register.value),
            RegisterValueKind::Bool => NovaObject::Bool(register.value != 0),
            RegisterValueKind::Nil => NovaObject::Nil,
            RegisterValueKind::StrImm | RegisterValueKind::ImmAddress => {
                if register.value < self.immutables.len() as u64 {
                    self.immutables[register.value as usize].copy()
                } else {
                    NovaObject::Nil
                }
            },
            RegisterValueKind::StrMem | RegisterValueKind::MemAddress => {
                if register.value < self.memory.len() as u64 {
                    self.memory[register.value as usize].copy()
                } else {
                    NovaObject::Nil
                }
            },
            RegisterValueKind::NovaFunctionID(id) => {
                let labelled = id.to_labelled();
                if (labelled.name_address as usize) < self.immutables.len() {
                    self.immutables[labelled.name_address as usize].copy()
                } else {
                    NovaObject::Nil
                }
            },
        }
    }

    /// `Print`: hands the value of register `src1` to the host; the
    /// destination bit asks for a line end.
    pub fn print(&self, instruction: Instruction) -> (r: Effect)
        requires
            self.wf(),
        ensures
            print_post(self, instruction, r),
    {
        let source = decode_source_register_1(instruction);
        let newline = decode_destination_register(instruction) == 1;
        if (source as usize) < self.registers.len() {
            let value = self.package_register_into_nova_object(self.registers[source as usize]);
            Effect::Print { value, newline }
        } else {
            Effect::Print { value: NovaObject::Nil, newline }
        }
    }

    /// `ReturnNone` and `ReturnVal`: sets the return register, ends the
    /// call, and halts when the main frame returns.
    pub fn return_from_call(&mut self, instruction: Instruction, with_value: bool) -> (r: Effect)
        requires
            old(self).wf(),
        ensures
            final(self).wf(),
            return_post(old(self), final(self), instruction, with_value, r),
    {
        let value = if with_value {
            get_register(&self.registers, decode_source_register_1(instruction))
        } else {
            Register::empty()
        };
        self.registers[RRTN] = value;
        let was_running = self.running;
        let main_frame = self.frames.len() == 0 || self.frames[self.frames.len() - 1].is_main;
        self.drop_frame();
        if main_frame {
            Effect::Halted
        } else {
            Effect::Continue
        }
    }

    /// Enters a user function: a new frame with `number_of_locals` locals,
    /// the arguments copied into `R0 ..`, and the program counter at `entry`.
    pub fn invoke_nova_function_id_labelled(
        &mut self,
        arity: u32,
        number_of_locals: u32,
        entry: u64,
        argument_start: u32,
        argument_number: u32,
    ) -> (r: Effect)
        requires
            old(self).wf(),
            argument_start < 16,
            argument_number < 16,
        ensures
            final(self).wf(),
            r is Continue || r is Failed,
            user_call_post(
                old(self),
                final(self),
                arity,
                number_of_locals,
                entry,
                argument_start,
                argument_number,
                r,
            ),
            final(self).globals == old(self).globals,
            final(self).instructions == old(self).instructions,
            final(self).immutables == old(self).immutables,
    {
        let locals_before = self.locals.len();
        if argument_number != arity {
            self.emit_error_with_message(arity_text(arity, argument_number));
            return Effect::Failed;
        }
        if argument_start + argument_number > 16 {
            self.emit_error_with_message(bytes_of("Arguments past the general registers"));
            return Effect::Failed;
        }
        let ghost caller = self.registers@;
        self.new_frame(number_of_locals);
        let last = self.frames.len() - 1;
        let mut k: u32 = 0;
        while k < argument_number
            invariant
                self.wf(),
                self.frames@.len() > 0,
                last == self.frames@.len() - 1,
                self.frames@[last as int].registers@ == caller,
                !self.frames@[last as int].is_main,
                locals_before == old(self).locals@.len(),
                caller.len() == REGISTER_COUNT,
                argument_start + argument_number <= 16,
                k <= argument_number,
                forall|j: int| 0 <= j < k ==> #[trigger] self.registers@[j] == caller[argument_start + j],
                forall|j: int| k <= j < 16 ==> #[trigger] self.registers@[j] == empty_register(),
                self.registers@[RMAX as int] == (Register {
                    kind: RegisterValueKind::MemAddress,
                    value: number_of_locals as u64,
                }),
                self.registers@[RERR as int] == caller[RERR as int],
                self.registers@[RRTN as int] == caller[RRTN as int],
                self.registers@[RLO as int].value == old(self).locals@.len() as u64,
                self.registers@[RPC as int] == old(self).registers@[RPC as int],
                self.frames@.len() == old(self).frames@.len() + 1,
                self.frames@.drop_last() == old(self).frames@,
                self.locals@ == old(self).locals@ + Seq::new(
                    number_of_locals as nat,
                    |i: int| empty_register(),
                ),
                self.memory == old(self).memory,
                self.pending == old(self).pending,
                self.globals == old(self).globals,
                self.instructions == old(self).instructions,
                self.immutables == old(self).immutables,
            decreases argument_number - k,
        {
            let value = self.frames[last].registers[(argument_start + k) as usize];
            self.registers[k as usize] = value;
            k = k + 1;
        }
        let pc = self.registers[RPC];
        self.registers[RPC] = Register::new(RegisterValueKind::MemAddress, entry);
        Effect::Continue
    }

    /// `Invoke`: calls the callable in register `src2` with the `src1`
    /// arguments that start at register `dst`. A user function gets a new
    /// frame; a native function is handed to the host.
    pub fn invoke(&mut self, instruction: Instruction) -> (r: Effect)
        requires
            old(self).wf(),
        ensures
            final(self).wf(),
            invoke_post(old(self), final(self), instruction, r),
            r is CallNative ==> final(self).pending is Native,
            !(r is CallNative) ==> final(self).pending == old(self).pending,
            final(self).globals == old(self).globals,
            final(self).instructions == old(self).instructions,
            final(self).immutables == old(self).immutables,
    {
        let argument_start = decode_destination_register(instruction);
        let argument_number = decode_source_register_1(instruction);
        let register = get_register(&self.registers, decode_source_register_2(instruction));
        match register.kind {
            RegisterValueKind::NovaFunctionID(id) => {
                let labelled = id.to_labelled();
                return self.invoke_nova_function_id_labelled(
                    labelled.arity,
                    labelled.number_of_locals,
                    register.value,
                    argument_start,
                    argument_number,
                );
            },
            RegisterValueKind::MemAddress => {},
            _ => {
                self.emit_error_with_message(bytes_of("Function not found"));
                return Effect::Failed;
            },
        }
        if register.value >= self.memory.len() as u64 {
            self.emit_error_with_message(bytes_of("Function not found"));
            return Effect::Failed;
        }
        let ghost object = self.memory@[register.value as int];
        let (arity, locals, entry, native) = match &self.memory[register.value as usize] {
            NovaObject::NovaFunction(function) => (
                function.arity,
                function.number_of_locals,
                function.address as u64,
                None,
            ),
            NovaObject::NativeFunction(function) => (0, 0, 0, Some(function.index)),
            _ => {
                self.emit_error_with_message(bytes_of("Called a None Value"));
                return Effect::Failed;
            },
        };
        match native {
            None => {
                assert(object is NovaFunction);
                assert(arity == object->NovaFunction_0.arity);
                assert(locals == object->NovaFunction_0.number_of_locals);
                assert(entry == object->NovaFunction_0.address as u64);
                let r = self.invoke_nova_function_id_labelled(
                    arity,
                    locals,
                    entry,
                    argument_start,
                    argument_number,
                );
                r
            },
            Some(index) => {
                let mut arguments: Vec<NovaObject> = Vec::new();
                let mut k: u32 = 0;
                while k < argument_number && argument_start + k < 16
                    invariant
                        self.wf(),
                        argument_start < 16,
                        argument_number < 16,
                        k <= argument_number,
                        arguments@.len() == k,
                        argument_start + k <= 16,
                        *self == *old(self),
                        forall|j: int|
                            0 <= j < k ==> (packaged(self, self.registers@[argument_start + j]) matches Some(m)
                                ==> #[trigger] arguments@[j]@ == m),
                    decreases argument_number - k,
                {
                    let value = self.package_register_into_nova_object(
                        self.registers[(argument_start + k) as usize],
                    );
                    arguments.push(value);
                    k = k + 1;
                }
                self.pending = Pending::Native;
                Effect::CallNative { index, arguments }
            },
        }
    }
}

/// The message of a call with the wrong number of arguments.
pub open spec fn arity_message(arity: u32, provided: u32) -> Seq<u8> {
    "Not enough function arguments.\n".spec_bytes() + decimal_of(arity as int)
        + " are required\n".spec_bytes() + decimal_of(provided as int) + " were provided".spec_bytes()
}

/// The message of a call with the wrong number of arguments.
pub fn arity_text(arity: u32, provided: u32) -> (r: Vec<u8>)
    ensures
        r@ == arity_message(arity, provided),
{
    let mut message = bytes_of("Not enough function arguments.\n");
    append_decimal(&mut message, arity as i64);
    append_str(&mut message, " are required\n");
    append_decimal(&mut message, provided as i64);
    append_str(&mut message, " were provided");
    message
}

} // verus!
