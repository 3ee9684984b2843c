pub mod arithmetic_operations;
pub mod bytecode_execution;
pub mod memory_management;
pub mod program_management;
pub mod register_management;
pub mod string_operations;

use vstd::prelude::*;
use vstd::string::StringSliceAdditionalSpecFns;

use crate::bytecode::OpCode;
use crate::cache::MemoryCache;
use crate::frame::Frame;
use crate::instruction::instruction_decoder::{
    decode_immutable_address_small, decode_opcode,
};
use crate::instruction::{address_of, opcode_of, Instruction};
use crate::object::{
    copy_bytes, NativeFunction, NovaCallable, NovaFunctionID, NovaObject, ObjectModel,
    RegisterValueKind,
};
use crate::program::{
    instruction_length, is_header, is_header_from, lemma_walk_step, payload_words,
    refers_to_immutable, walk_reaches_end, LineDefinition, Program,
};
use crate::register::{Register, REGISTER_COUNT, RLO, RMAX, RPC, RRTN};
use crate::text::append_bytes;
use arithmetic_operations::ArithmeticOp;
use bytecode_execution::{
    arithmetic_post, compare_post, failed_with_error, invoke_post, jump_if_false_post, jump_post,
    load_constant_to_register_post, load_global_indirect_post, load_global_post, load_local_post,
    load_value_post, local_space_post, negate_post, print_post, return_post, store_global_indirect_post,
    store_local_post,
};
use memory_management::{allocate_global, create_global, set_global_value, store_object_in_memory};

verus! {

/// A number handed to the host for floating-point work.
#[derive(Debug, Clone, Copy, PartialEq, Eq, Structural)]
pub enum Number {
    Int(i64),
    /// IEEE-754 bits
    Float(u64),
}

/// The comparisons of the machine.
#[derive(Debug, Clone, Copy, PartialEq, Eq, Structural)]
pub enum Comparison {
    Less,
    LessEqual,
    Equal,
}

/// Floating-point work that the machine leaves to its host.
#[derive(Debug, Clone, Copy, PartialEq, Eq, Structural)]
pub enum FloatRequest {
    /// `left op right` as floats, answered with `HostValue::Float`; for `Pow`
    /// on two integers, the power truncated to an integer, as `HostValue::Int`.
    Arithmetic { op: ArithmeticOp, left: Number, right: Number },
    /// The comparison of two numbers by value, answered with `HostValue::Truth`.
    Compare { op: Comparison, left: Number, right: Number },
    /// A 32-bit float widened to 64 bits, answered with `HostValue::Float`.
    Widen { bits: u32 },
    /// The canonical decimal text of a float, answered with `HostValue::Text`.
    Format { bits: u64 },
}

/// What the host hands back for a `FloatRequest`.
#[derive(Debug, Clone)]
pub enum HostValue {
    Float(u64),
    Int(i64),
    Truth(bool),
    Text(Vec<u8>),
}

/// What one step of the machine asks of its host.
#[derive(Debug)]
pub enum Effect {
    /// Nothing; step again.
    Continue,
    /// The program ended.
    Halted,
    /// A runtime error is in the error register.
    Failed,
    /// Write `value` to standard output, then a line end if `newline`.
    Print { value: NovaObject, newline: bool },
    /// Call native function `index` and hand its result to `complete_native`.
    CallNative { index: usize, arguments: Vec<NovaObject> },
    /// Do floating-point work and hand its result to `complete_float`.
    Float(FloatRequest),
}

/// Work that waits for the host's answer.
#[derive(Debug)]
pub enum Pending {
    Idle,
    /// The answer goes into register `destination`.
    Value { destination: u32 },
    /// The answer is text that joins `text` into a new string in register
    /// `target`, in front of it when `number_first`.
    Concat { target: u32, text: Vec<u8>, number_first: bool },
    /// A native call's result goes into the return register.
    Native,
}

/// Why a program could not be loaded.
#[derive(Debug, Clone, Copy, PartialEq, Eq, Structural)]
pub enum LoadError {
    /// The immutables would no longer fit sixteen-bit addresses.
    TooManyImmutables,
    /// An instruction refers to an immutable that the program does not hold.
    ImmutableOutOfRange,
    /// The code would no longer fit 32-bit addresses.
    TooManyInstructions,
    /// A function descriptor starts outside the program's code.
    FunctionOutOfRange,
}

/// A register machine that runs loaded programs.
pub struct VirtualMachine {
    pub instructions: Vec<Instruction>,
    pub immutables: Vec<NovaObject>,
    pub registers: Vec<Register>,
    pub running: bool,
    pub memory: Vec<NovaObject>,
    pub frames: Vec<Frame>,
    pub locals: Vec<Register>,
    pub globals: Vec<Register>,
    /// Global names and their slots; the last binding of a name counts.
    pub identifiers: Vec<(Vec<u8>, usize)>,
    pub line_definitions: Vec<LineDefinition>,
    /// Global slots found by name, keyed by the index of the name among the immutables.
    pub mem_cache: MemoryCache,
    pub pending: Pending,
}

/// The model of a sequence of objects.
pub open spec fn objects_view(objects: Seq<NovaObject>) -> Seq<ObjectModel> {
    objects.map_values(|o: NovaObject| o@)
}

/// The relocated form of a program's words: each header word relocated by
/// `offset`, each payload word unchanged.
pub open spec fn relocated_words(words: Seq<u32>, out: Seq<u32>, offset: u32) -> bool {
    &&& out.len() == words.len()
    &&& forall|j: int|
        0 <= j < words.len() ==> #[trigger] out[j] == if is_header(words, j) && refers_to_immutable(
            opcode_of(words[j]),
        ) {
            (words[j] + offset) as u32
        } else {
            words[j]
        }
}

/// Every header word that refers to an immutable refers to one of the first `count`.
pub open spec fn addresses_below(words: Seq<u32>, count: nat) -> bool {
    forall|j: int|
        0 <= j < words.len() && #[trigger] is_header(words, j) && refers_to_immutable(
            opcode_of(words[j]),
        ) ==> address_of(words[j]) < count
}

/// Adding less than the room left in the low sixteen bits keeps the opcode
/// and register fields and adds to the small address.
pub proof fn lemma_relocate_fields(word: u32, offset: u32)
    requires
        address_of(word) + offset < 0x1_0000,
    ensures
        word + offset <= u32::MAX,
        opcode_of((word + offset) as u32) == opcode_of(word),
        address_of((word + offset) as u32) == address_of(word) + offset,
        crate::instruction::destination_of((word + offset) as u32)
            == crate::instruction::destination_of(word),
        crate::instruction::source1_of((word + offset) as u32) == crate::instruction::source1_of(
            word,
        ),
{
    let a = address_of(word);
    assert(word % 0x1_0000 == a && a + offset < 0x1_0000 ==> word + offset <= 0xffff_ffff && (
    (word + offset) as u32) / 0x400_0000 == word / 0x400_0000 && ((word + offset) as u32) % 0x1_0000
        == a + offset && (((word + offset) as u32) / 0x40_0000) % 16 == (word / 0x40_0000) % 16 && ((
    (word + offset) as u32) / 0x4_0000) % 16 == (word / 0x4_0000) % 16) by (bit_vector);
}

/// Rewrites the small address of a word that refers to an immutable, moving
/// it `offset` entries on; other words pass unchanged.
pub fn offset_immutable_address(instruction: Instruction, offset: Instruction) -> (r: Instruction)
    requires
        refers_to_immutable(opcode_of(instruction)) ==> address_of(instruction) + offset
            < 0x1_0000,
    ensures
        r == if refers_to_immutable(opcode_of(instruction)) {
            (instruction + offset) as u32
        } else {
            instruction
        },
        refers_to_immutable(opcode_of(instruction)) ==> address_of(r) == address_of(instruction)
            + offset && opcode_of(r) == opcode_of(instruction),
{
    let opcode = decode_opcode(instruction);
    if opcode == OpCode::LoadK.to_u32() || opcode == OpCode::DefineGlobalIndirect.to_u32() || opcode
        == OpCode::LoadGlobalIndirect.to_u32() || opcode == OpCode::StoreGlobalIndirect.to_u32() {
        let old_address = decode_immutable_address_small(instruction);
        proof {
            lemma_relocate_fields(instruction, offset);
        }
        let new_address = old_address + offset;
        return instruction - old_address + new_address;
    }
    instruction
}

/// Walks a program instruction by instruction and relocates each header word
/// by `offset`; payload words pass unchanged. `None` when a header refers to
/// an immutable at or past `count`.
pub fn relocate_instructions(words: &Vec<u32>, offset: u32, count: u32) -> (r: Option<Vec<u32>>)
    requires
        offset + count <= 0x1_0000,
    ensures
        r is Some <==> addresses_below(words@, count as nat),
        r matches Some(out) ==> relocated_words(words@, out@, offset),
{
    let mut out: Vec<u32> = Vec::new();
    let mut i: usize = 0;
    let ghost ws = words@;
    while i < words.len()
        invariant
            ws == words@,
            offset + count <= 0x1_0000,
            i <= ws.len(),
            out@.len() == i,
            forall|j: int|
                i <= j < ws.len() ==> #[trigger] is_header(ws, j) == is_header_from(ws, i as int, j),
            forall|j: int|
                0 <= j < i ==> #[trigger] out@[j] == if is_header(ws, j) && refers_to_immutable(
                    opcode_of(ws[j]),
                ) {
                    (ws[j] + offset) as u32
                } else {
                    ws[j]
                },
            forall|j: int|
                0 <= j < i && #[trigger] is_header(ws, j) && refers_to_immutable(opcode_of(ws[j]))
                    ==> address_of(ws[j]) < count,
        decreases ws.len() - i,
    {
        let word = words[i];
        let opcode = decode_opcode(word);
        let refers = opcode == OpCode::LoadK.to_u32() || opcode
            == OpCode::DefineGlobalIndirect.to_u32() || opcode == OpCode::LoadGlobalIndirect.to_u32()
            || opcode == OpCode::StoreGlobalIndirect.to_u32();
        assert(is_header(ws, i as int));
        if refers && decode_immutable_address_small(word) >= count {
            return None;
        }
        let relocated = offset_immutable_address(word, offset);
        out.push(relocated);
        let payload: usize = if opcode == OpCode::LoadInt32.to_u32() || opcode
            == OpCode::LoadFloat32.to_u32() {
            1
        } else if opcode == OpCode::LoadInt64.to_u32() || opcode == OpCode::LoadFloat64.to_u32() {
            2
        } else {
            0
        };
        assert(payload == payload_words(opcode_of(word)));
        proof {
            lemma_walk_step(ws, i as int);
        }
        let start = i;
        i = i + 1;
        let mut k: usize = 0;
        while k < payload && i < words.len()
            invariant
                ws == words@,
                i == start + 1 + k,
                k <= payload,
                i <= ws.len(),
                start < ws.len(),
                payload == payload_words(opcode_of(ws[start as int])),
                out@.len() == i,
                forall|j: int| start < j ==> #[trigger] is_header_from(ws, start as int, j) == is_header_from(ws, start + instruction_length(ws[start as int]), j),
                forall|j: int|
                    start <= j < ws.len() ==> #[trigger] is_header(ws, j) == is_header_from(ws, start as int, j),
                forall|j: int|
                    0 <= j < i ==> #[trigger] out@[j] == if is_header(ws, j) && refers_to_immutable(
                        opcode_of(ws[j]),
                    ) {
                        (ws[j] + offset) as u32
                    } else {
                        ws[j]
                    },
                forall|j: int|
                    0 <= j <= start && #[trigger] is_header(ws, j) && refers_to_immutable(opcode_of(ws[j]))
                        ==> address_of(ws[j]) < count,
            decreases payload - k,
        {
            assert(!is_header(ws, i as int)) by {
                assert(is_header_from(ws, start as int, i as int) == is_header_from(ws, start + instruction_length(ws[start as int]), i as int));
            }
            out.push(words[i]);
            i = i + 1;
            k = k + 1;
        }
        assert forall|j: int| i <= j < ws.len() implies #[trigger] is_header(ws, j) == is_header_from(ws, i as int, j) by {
            if i == start + instruction_length(ws[start as int]) {
            } else {
                assert(i == ws.len());
            }
        }
    }
    Some(out)
}

/// Relocation keeps the name that each instruction refers to: after the
/// immutables of a program are appended behind `before` earlier ones, every
/// relocated reference reads the entry that it read in the program itself.
pub proof fn lemma_fixup_keeps_names(
    words: Seq<u32>,
    out: Seq<u32>,
    earlier: Seq<ObjectModel>,
    loaded: Seq<ObjectModel>,
)
    requires
        relocated_words(words, out, earlier.len() as u32),
        addresses_below(words, loaded.len()),
        earlier.len() + loaded.len() <= 0x1_0000,
    ensures
        forall|j: int|
            0 <= j < words.len() && #[trigger] is_header(words, j) && refers_to_immutable(
                opcode_of(words[j]),
            ) ==> {
                &&& opcode_of(out[j]) == opcode_of(words[j])
                &&& address_of(out[j]) == address_of(words[j]) + earlier.len()
                &&& address_of(out[j]) < earlier.len() + loaded.len()
                &&& (earlier + loaded)[address_of(out[j]) as int] == loaded[address_of(words[j]) as int]
            },
{
    assert forall|j: int|
        0 <= j < words.len() && #[trigger] is_header(words, j) && refers_to_immutable(
            opcode_of(words[j]),
        ) implies {
        &&& opcode_of(out[j]) == opcode_of(words[j])
        &&& address_of(out[j]) == address_of(words[j]) + earlier.len()
        &&& address_of(out[j]) < earlier.len() + loaded.len()
        &&& (earlier + loaded)[address_of(out[j]) as int] == loaded[address_of(words[j]) as int]
    } by {
        lemma_relocate_fields(words[j], earlier.len() as u32);
    }
}

proof fn lemma_objects_view_push(s: Seq<NovaObject>, x: NovaObject)
    ensures
        objects_view(s.push(x)) == objects_view(s).push(x@),
{
    assert(objects_view(s.push(x)) =~= objects_view(s).push(x@));
}

/// Relocation keeps every instruction's length, so the walk over the
/// relocated words visits the same headers and ends where the walk over the
/// words as compiled did.
pub proof fn lemma_relocation_keeps_walk(words: Seq<u32>, out: Seq<u32>, offset: u32, count: nat)
    requires
        relocated_words(words, out, offset),
        addresses_below(words, count),
        offset + count <= 0x1_0000,
    ensures
        forall|j: int| 0 <= j <= words.len() ==> #[trigger] is_header(out, j) == is_header(words, j),
        walk_reaches_end(out) == walk_reaches_end(words),
{
    assert forall|k: int| 0 <= k < words.len() implies instruction_length(#[trigger] words[k])
        == instruction_length(out[k]) by {
        if is_header(words, k) && refers_to_immutable(opcode_of(words[k])) {
            lemma_relocate_fields(words[k], offset);
        }
    }
    assert forall|j: int| 0 <= j <= words.len() implies #[trigger] is_header(out, j) == is_header(
        words,
        j,
    ) by {
        crate::program::lemma_walk_reads_lengths(words, out, 0, j);
    }
}

/// A call was entered between `pre` and `post`: one frame more, and the new
/// frame's locals start where the caller's ended.
pub open spec fn call_entered(pre: &VirtualMachine, post: &VirtualMachine) -> bool {
    &&& post.frames@.len() == pre.frames@.len() + 1
    &&& post.frames@.drop_last() == pre.frames@
    &&& !post.frames@.last().is_main
    &&& post.registers@[RLO as int].value == pre.locals@.len()
    &&& post.locals@.len() >= pre.locals@.len()
    &&& post.registers@[RMAX as int].value == post.locals@.len() - pre.locals@.len()
}

/// A call returned between `pre` and `post`: its frame is gone and the
/// `RMax` locals it allocated are drained.
pub open spec fn call_returned(pre: &VirtualMachine, post: &VirtualMachine) -> bool {
    &&& pre.frames@.len() > 0 && !pre.frames@.last().is_main ==> post.frames@ == pre.frames@.drop_last()
    &&& pre.registers@[RMAX as int].value <= pre.locals@.len() ==> post.locals@
        == pre.locals@.subrange(0, pre.locals@.len() - pre.registers@[RMAX as int].value)
}

/// Frames balance: a call entered at `before_call`, whose body leaves the
/// frame stack, its local count in `RMax` and the number of locals as it
/// found them (its blocks release what they allocate), returns to a machine
/// with as many locals and frames as before the call.
pub proof fn lemma_frame_balance(
    before_call: &VirtualMachine,
    after_call: &VirtualMachine,
    before_return: &VirtualMachine,
    after_return: &VirtualMachine,
)
    requires
        call_entered(before_call, after_call),
        before_return.frames@ == after_call.frames@,
        before_return.registers@[RMAX as int] == after_call.registers@[RMAX as int],
        before_return.locals@.len() == after_call.locals@.len(),
        call_returned(before_return, after_return),
    ensures
        after_return.locals@.len() == before_call.locals@.len(),
        after_return.frames@.len() == before_call.frames@.len(),
        after_return.frames@ == before_call.frames@,
{
    assert(before_return.frames@.last() == after_call.frames@.last());
}

/// Opcodes that the instruction set names but the machine does not execute.
pub open spec fn reserved(code: u32) -> bool {
    code == OpCode::ClearReturn.spec_code() || code == OpCode::This.spec_code() || code
        == OpCode::And.spec_code() || code == OpCode::Or.spec_code() || code
        == OpCode::While.spec_code() || code == OpCode::Loop.spec_code() || code
        == OpCode::Break.spec_code() || code == OpCode::NewFrame.spec_code()
}

/// The name under which an immutable becomes a global, if it is a callable.
pub open spec fn callable_name(object: ObjectModel) -> Option<Seq<u8>> {
    match object {
        ObjectModel::Function { name, .. } => Some(name),
        ObjectModel::Native { native_name, .. } => Some(native_name),
        _ => None,
    }
}

/// The names of the callables among `objects`, in order.
pub open spec fn callable_names(objects: Seq<ObjectModel>) -> Seq<Seq<u8>>
    decreases objects.len(),
{
    if objects.len() == 0 {
        Seq::empty()
    } else {
        match callable_name(objects.last()) {
            Some(name) => callable_names(objects.drop_last()).push(name),
            None => callable_names(objects.drop_last()),
        }
    }
}

/// Every function descriptor among `immutables` starts within `length` words.
pub open spec fn functions_within(immutables: Seq<NovaObject>, length: nat) -> bool {
    forall|k: int|
        0 <= k < immutables.len() && #[trigger] immutables[k] is NovaFunction ==> immutables[k]->NovaFunction_0.address
            < length
}

impl VirtualMachine {
    /// An idle machine with only its main frame.
    pub fn new() -> (r: Self)
        ensures
            r.wf(),
            r.instructions@.len() == 0,
            r.immutables@.len() == 0,
            r.memory@.len() == 0,
            r.locals@.len() == 0,
            r.globals@.len() == 0,
            r.identifiers@.len() == 0,
            r.frames@.len() == 1,
            r.frames@[0].is_main,
            !r.running,
            r.pending is Idle,
            forall|i: int| 0 <= i < REGISTER_COUNT ==> #[trigger] r.registers@[i] == crate::register::empty_register(),
    {
        let mut frames: Vec<Frame> = Vec::new();
        frames.push(Frame::main());
        VirtualMachine {
            instructions: Vec::new(),
            immutables: Vec::new(),
            registers: crate::frame::empty_registers(),
            running: false,
            memory: Vec::new(),
            frames,
            locals: Vec::new(),
            globals: Vec::new(),
            identifiers: Vec::new(),
            line_definitions: Vec::new(),
            mem_cache: MemoryCache::default(),
            pending: Pending::Idle,
        }
    }

    /// Makes each native function a global under its name.
    pub fn load_natives(&mut self, native_functions: Vec<NativeFunction>)
        requires
            old(self).wf(),
        ensures
            final(self).wf(),
            final(self).globals@.len() == old(self).globals@.len() + native_functions@.len(),
            final(self).identifiers@.len() == old(self).identifiers@.len() + native_functions@.len(),
            ({
                let start = old(self).identifiers@.len();
                forall|k: int|
                    0 <= k < native_functions@.len() ==> (#[trigger] final(self).identifiers@[start + k]).0@
                        == native_functions@[k].name@
            }),
    {
        let mut i: usize = 0;
        while i < native_functions.len()
            invariant
                self.wf(),
                i <= native_functions@.len(),
                self.globals@.len() == old(self).globals@.len() + i,
                self.identifiers@.len() == old(self).identifiers@.len() + i,
                forall|k: int|
                    0 <= k < i ==> (#[trigger] self.identifiers@[old(self).identifiers@.len() + k]).0@
                        == native_functions@[k].name@,
            decreases native_functions@.len() - i,
        {
            let native = &native_functions[i];
            let callable = NovaCallable::NativeFunction(
                NativeFunction { name: copy_bytes(&native.name), index: native.index },
            );
            self.load_callable(&callable, 0, 0);
            i = i + 1;
        }
    }

    /// Binds a callable's name to a new global. A user function whose
    /// descriptor fits the packed form is held inline; others live in memory.
    /// User-function entries move `code_offset` words on.
    fn load_callable(&mut self, callable: &NovaCallable, name_address: u32, code_offset: u32)
        requires
            old(self).wf(),
            callable matches NovaCallable::NovaFunction(f) ==> f.address + code_offset <= u32::MAX,
        ensures
            final(self).wf(),
            final(self).globals@.len() == old(self).globals@.len() + 1,
            final(self).identifiers@ == old(self).identifiers@.push(
                final(self).identifiers@.last(),
            ),
            final(self).identifiers@.last().0@ == callable.spec_name(),
            final(self).identifiers@.last().1 == old(self).globals@.len(),
            final(self).instructions == old(self).instructions,
            final(self).immutables == old(self).immutables,
            final(self).registers == old(self).registers,
            final(self).frames == old(self).frames,
            final(self).locals == old(self).locals,
            final(self).running == old(self).running,
            final(self).line_definitions == old(self).line_definitions,
            final(self).pending == old(self).pending,
    {
        let slot = allocate_global(&mut self.globals);
        let name = callable.get_name();
        create_global(&mut self.identifiers, name, slot);
        self.mem_cache.clear();
        let object = match callable {
            NovaCallable::NovaFunction(function) => NovaObject::NovaFunction(
                crate::object::NovaFunction {
                    name: copy_bytes(&function.name),
                    address: function.address + code_offset,
                    arity: function.arity,
                    is_method: function.is_method,
                    number_of_locals: function.number_of_locals,
                },
            ),
            _ => callable.as_object(),
        };
        let packed = match &object {
            NovaObject::NovaFunction(function) => match NovaFunctionID::from_nova_function(
                function,
                name_address,
            ) {
                Some(id) => Some((id, function.address)),
                None => None,
            },
            _ => None,
        };
        let memory_location = store_object_in_memory(&mut self.memory, object);
        let value = match packed {
            Some((id, address)) => Register::new(
                RegisterValueKind::NovaFunctionID(id),
                address as u64,
            ),
            None => Register::new(RegisterValueKind::MemAddress, memory_location),
        };
        set_global_value(&mut self.globals, slot, value);
    }

    /// Appends a program: its instructions with their immutable references
    /// moved past the immutables already loaded, its immutables, its
    /// callables as globals, and its line definitions moved past the code
    /// already loaded.
    pub fn load_program(&mut self, program: Program) -> (r: Result<(), LoadError>)
        requires
            old(self).wf(),
        ensures
            final(self).wf(),
            r is Ok <==> (old(self).immutables@.len() + program.immutables@.len() <= 0x1_0000
                && old(self).instructions@.len() + program.instructions@.len() <= u32::MAX
                && addresses_below(program.instructions@, program.immutables@.len())
                && functions_within(program.immutables@, program.instructions@.len())),
            r is Err ==> final(self).instructions == old(self).instructions,
            r is Err ==> final(self).immutables == old(self).immutables,
            r is Err ==> final(self).globals == old(self).globals,
            r is Ok ==> {
                let base = old(self).instructions@.len();
                let offset = old(self).immutables@.len();
                &&& final(self).instructions@.len() == base + program.instructions@.len()
                &&& final(self).instructions@.subrange(0, base as int) == old(self).instructions@
                &&& relocated_words(
                    program.instructions@,
                    final(self).instructions@.subrange(
                        base as int,
                        final(self).instructions@.len() as int,
                    ),
                    offset as u32,
                )
                &&& objects_view(final(self).immutables@) == objects_view(old(self).immutables@)
                    + objects_view(program.immutables@)
            },
            r is Ok ==> ({
                let base = old(self).instructions@.len() as int;
                let words = program.instructions@;
                let loaded = final(self).instructions@.subrange(
                    base,
                    final(self).instructions@.len() as int,
                );
                &&& forall|j: int|
                    0 <= j <= words.len() ==> #[trigger] is_header(loaded, j) == is_header(words, j)
                &&& walk_reaches_end(loaded) == walk_reaches_end(words)
                &&& forall|j: int|
                    0 <= j < words.len() && !is_header(words, j) ==> #[trigger] loaded[j] == words[j]
                &&& forall|j: int|
                    0 <= j < words.len() && #[trigger] is_header(words, j) && refers_to_immutable(
                        opcode_of(words[j]),
                    ) ==> opcode_of(loaded[j]) == opcode_of(words[j]) && address_of(loaded[j])
                        < final(self).immutables@.len() && final(self).immutables@[address_of(
                        loaded[j],
                    ) as int]@ == program.immutables@[address_of(words[j]) as int]@
            }),
            r is Ok ==> ({
                let names = callable_names(objects_view(program.immutables@));
                &&& final(self).identifiers@.len() == old(self).identifiers@.len() + names.len()
                &&& final(self).globals@.len() == old(self).globals@.len() + names.len()
                &&& forall|j: int|
                    0 <= j < names.len() ==> #[trigger] final(self).identifiers@[old(
                        self,
                    ).identifiers@.len() + j].0@ == names[j]
            }),
            final(self).registers == old(self).registers,
            final(self).frames == old(self).frames,
            final(self).locals == old(self).locals,
            final(self).running == old(self).running,
            final(self).pending == old(self).pending,
    {
        let immutable_offset = self.immutables.len();
        let instruction_offset = self.instructions.len();
        if immutable_offset > 0x1_0000 || program.immutables.len() > 0x1_0000 - immutable_offset {
            return Err(LoadError::TooManyImmutables);
        }
        if instruction_offset > u32::MAX as usize || program.instructions.len() > u32::MAX as usize
            - instruction_offset {
            return Err(LoadError::TooManyInstructions);
        }
        let mut k: usize = 0;
        while k < program.immutables.len()
            invariant
                self.wf(),
                self.instructions == old(self).instructions,
                self.immutables == old(self).immutables,
                self.registers == old(self).registers,
                self.frames == old(self).frames,
                self.locals == old(self).locals,
                self.running == old(self).running,
                self.pending == old(self).pending,
                self.globals == old(self).globals,
                self.identifiers == old(self).identifiers,
                k <= program.immutables@.len(),
                forall|j: int|
                    0 <= j < k && #[trigger] program.immutables@[j] is NovaFunction
                        ==> program.immutables@[j]->NovaFunction_0.address < program.instructions@.len(),
            decreases program.immutables@.len() - k,
        {
            if let NovaObject::NovaFunction(function) = &program.immutables[k] {
                if function.address as usize >= program.instructions.len() {
                    return Err(LoadError::FunctionOutOfRange);
                }
            }
            k = k + 1;
        }
        let relocated = match relocate_instructions(
            &program.instructions,
            immutable_offset as u32,
            program.immutables.len() as u32,
        ) {
            Some(words) => words,
            None => {
                return Err(LoadError::ImmutableOutOfRange);
            },
        };
        let ghost before = self.instructions@;
        let mut i: usize = 0;
        while i < relocated.len()
            invariant
                i <= relocated@.len(),
                self.wf(),
                self.instructions@ == before + relocated@.subrange(0, i as int),
                self.immutables == old(self).immutables,
                self.registers == old(self).registers,
                self.frames == old(self).frames,
                self.locals == old(self).locals,
                self.running == old(self).running,
                self.pending == old(self).pending,
                self.globals == old(self).globals,
                self.identifiers == old(self).identifiers,
            decreases relocated@.len() - i,
        {
            self.instructions.push(relocated[i]);
            i = i + 1;
            assert(self.instructions@ =~= before + relocated@.subrange(0, i as int));
        }
        assert(relocated@.subrange(0, i as int) =~= relocated@);
        assert(self.instructions@.subrange(0, before.len() as int) =~= before);
        assert(self.instructions@.subrange(before.len() as int, self.instructions@.len() as int)
            =~= relocated@);
        let ghost imms = self.immutables@;
        let mut k: usize = 0;
        while k < program.immutables.len()
            invariant
                k <= program.immutables@.len(),
                self.wf(),
                self.immutables@.len() == imms.len() + k,
                objects_view(self.immutables@) == objects_view(imms) + objects_view(
                    program.immutables@.subrange(0, k as int),
                ),
                imms == old(self).immutables@,
                immutable_offset == imms.len(),
                immutable_offset + program.immutables@.len() <= 0x1_0000,
                instruction_offset == before.len(),
                before.len() + program.instructions@.len() <= u32::MAX,
                forall|j: int|
                    0 <= j < program.immutables@.len() && #[trigger] program.immutables@[j] is NovaFunction
                        ==> program.immutables@[j]->NovaFunction_0.address < program.instructions@.len(),
                self.instructions@.len() == before.len() + relocated@.len(),
                self.instructions@.subrange(0, before.len() as int) == before,
                self.instructions@.subrange(before.len() as int, self.instructions@.len() as int)
                    == relocated@,
                self.registers == old(self).registers,
                self.frames == old(self).frames,
                self.locals == old(self).locals,
                self.running == old(self).running,
                self.pending == old(self).pending,
                self.identifiers@.len() == old(self).identifiers@.len() + callable_names(
                    objects_view(program.immutables@).subrange(0, k as int),
                ).len(),
                self.globals@.len() == old(self).globals@.len() + callable_names(
                    objects_view(program.immutables@).subrange(0, k as int),
                ).len(),
                forall|j: int|
                    0 <= j < callable_names(objects_view(program.immutables@).subrange(0, k as int)).len()
                        ==> #[trigger] self.identifiers@[old(self).identifiers@.len() + j].0@
                        == callable_names(objects_view(program.immutables@).subrange(0, k as int))[j],
            decreases program.immutables@.len() - k,
        {
            let immutable = &program.immutables[k];
            let ghost names_before = callable_names(
                objects_view(program.immutables@).subrange(0, k as int),
            );
            let ghost identifiers_before = self.identifiers@;
            proof {
                assert(objects_view(program.immutables@).subrange(0, k + 1).drop_last()
                    =~= objects_view(program.immutables@).subrange(0, k as int));
            }
            if immutable.is_callable() {
                let callable = immutable.as_callable();
                self.load_callable(
                    &callable,
                    (immutable_offset + k) as u32,
                    instruction_offset as u32,
                );
            }
            let copy = immutable.copy();
            let ghost previous = self.immutables@;
            self.immutables.push(copy);
            assert(self.immutables@ == previous.push(copy));
            assert(program.immutables@.subrange(0, k + 1) =~= program.immutables@.subrange(
                0,
                k as int,
            ).push(program.immutables@[k as int]));
            proof {
                lemma_objects_view_push(previous, copy);
                lemma_objects_view_push(
                    program.immutables@.subrange(0, k as int),
                    program.immutables@[k as int],
                );
            }
            k = k + 1;
            assert(objects_view(self.immutables@) =~= objects_view(imms) + objects_view(
                program.immutables@.subrange(0, k as int),
            ));
        }
        assert(program.immutables@.subrange(0, k as int) =~= program.immutables@);
        assert(objects_view(program.immutables@).subrange(0, k as int) =~= objects_view(
            program.immutables@,
        ));
        let ghost identifiers_loaded = self.identifiers;
        let ghost globals_loaded = self.globals@.len();
        let mut l: usize = 0;
        while l < program.line_definitions.len()
            invariant
                l <= program.line_definitions@.len(),
                self.wf(),
                self.instructions@.len() == before.len() + relocated@.len(),
                self.instructions@.subrange(0, before.len() as int) == before,
                self.instructions@.subrange(before.len() as int, self.instructions@.len() as int)
                    == relocated@,
                objects_view(self.immutables@) == objects_view(old(self).immutables@)
                    + objects_view(program.immutables@),
                self.registers == old(self).registers,
                self.frames == old(self).frames,
                self.locals == old(self).locals,
                self.running == old(self).running,
                self.pending == old(self).pending,
                self.identifiers == identifiers_loaded,
                self.globals@.len() == globals_loaded,
            decreases program.line_definitions@.len() - l,
        {
            let definition = &program.line_definitions[l];
            if definition.last_instruction <= usize::MAX - instruction_offset {
                self.line_definitions.push(
                    LineDefinition {
                        last_instruction: definition.last_instruction + instruction_offset,
                        source_line: definition.source_line,
                        source_file: copy_bytes(&definition.source_file),
                    },
                );
            }
            l = l + 1;
        }
        proof {
            let loaded = self.instructions@.subrange(
                before.len() as int,
                self.instructions@.len() as int,
            );
            lemma_relocation_keeps_walk(
                program.instructions@,
                loaded,
                immutable_offset as u32,
                program.immutables@.len(),
            );
            lemma_fixup_keeps_names(
                program.instructions@,
                loaded,
                objects_view(old(self).immutables@),
                objects_view(program.immutables@),
            );
            assert forall|j: int|
                0 <= j < program.instructions@.len() && #[trigger] is_header(program.instructions@, j)
                    && refers_to_immutable(opcode_of(program.instructions@[j])) implies address_of(
                loaded[j],
            ) < self.immutables@.len() && self.immutables@[address_of(loaded[j]) as int]@
                == program.immutables@[address_of(program.instructions@[j]) as int]@ by {
                let a = address_of(loaded[j]) as int;
                assert(objects_view(self.immutables@)[a] == self.immutables@[a]@);
                assert(objects_view(program.immutables@)[address_of(program.instructions@[j]) as int]
                    == program.immutables@[address_of(program.instructions@[j]) as int]@);
            }
        }
        Ok(())
    }
}

impl VirtualMachine {
    pub fn get_instruction_count(&self) -> (r: usize)
        ensures
            r == self.instructions@.len(),
    {
        self.instructions.len()
    }

    /// Prepares a run from instruction `offset`.
    pub fn start_vm(&mut self, offset: Instruction)
        requires
            old(self).wf(),
        ensures
            final(self).wf(),
            final(self).running,
            final(self).pending is Idle,
            final(self).registers@ == old(self).registers@.update(
                RPC as int,
                Register { kind: RegisterValueKind::MemAddress, value: offset as u64 },
            ),
            final(self).instructions == old(self).instructions,
            final(self).immutables == old(self).immutables,
            final(self).frames == old(self).frames,
            final(self).locals == old(self).locals,
            final(self).globals == old(self).globals,
            final(self).memory == old(self).memory,
    {
        self.running = true;
        self.pending = Pending::Idle;
        self.registers[RPC] = Register::new(RegisterValueKind::MemAddress, offset as u64);
    }

    /// Executes one decoded instruction.
    pub fn execute_instruction(&mut self, instruction: Instruction) -> (r: Effect)
        requires
            old(self).wf(),
        ensures
            final(self).wf(),
            OpCode::spec_from_code(opcode_of(instruction)) is None ==> r is Failed
                && final(self).in_error(),
            OpCode::spec_from_code(opcode_of(instruction)) == Some(OpCode::Halt) ==> r is Halted
                && !final(self).running && final(self).registers == old(self).registers,
            OpCode::spec_from_code(opcode_of(instruction)) == Some(OpCode::NoInstruction) ==> r is Continue
                && final(self).registers == old(self).registers,
            OpCode::spec_from_code(opcode_of(instruction)) == Some(OpCode::Move) ==> r is Continue
                && final(self).registers@ == old(self).registers@.update(
                crate::instruction::destination_of(instruction) as int,
                old(self).registers@[crate::instruction::source1_of(instruction) as int],
            ),
            OpCode::spec_from_code(opcode_of(instruction)) == Some(OpCode::LoadReturn) ==> r is Continue
                && final(self).registers@ == old(self).registers@.update(
                crate::instruction::destination_of(instruction) as int,
                old(self).registers@[RRTN as int],
            ),
            OpCode::spec_from_code(opcode_of(instruction)) == Some(OpCode::Not) ==> r is Continue
                && final(self).registers@ == old(self).registers@.update(
                crate::instruction::source1_of(instruction) as int,
                crate::machine::bytecode_execution::bool_register(
                    !register_management::truthy(
                        old(self).registers@[crate::instruction::source1_of(instruction) as int],
                    ),
                ),
            ),
            OpCode::spec_from_code(opcode_of(instruction)) == Some(OpCode::Add) ==> arithmetic_post(
                old(self),
                final(self),
                instruction,
                ArithmeticOp::Add,
                r,
            ),
            OpCode::spec_from_code(opcode_of(instruction)) == Some(OpCode::Sub) ==> arithmetic_post(
                old(self),
                final(self),
                instruction,
                ArithmeticOp::Sub,
                r,
            ),
            OpCode::spec_from_code(opcode_of(instruction)) == Some(OpCode::Mul) ==> arithmetic_post(
                old(self),
                final(self),
                instruction,
                ArithmeticOp::Mul,
                r,
            ),
            OpCode::spec_from_code(opcode_of(instruction)) == Some(OpCode::Div) ==> arithmetic_post(
                old(self),
                final(self),
                instruction,
                ArithmeticOp::Div,
                r,
            ),
            OpCode::spec_from_code(opcode_of(instruction)) == Some(OpCode::Pow) ==> arithmetic_post(
                old(self),
                final(self),
                instruction,
                ArithmeticOp::Pow,
                r,
            ),
            OpCode::spec_from_code(opcode_of(instruction)) == Some(OpCode::Mod) ==> arithmetic_post(
                old(self),
                final(self),
                instruction,
                ArithmeticOp::Mod,
                r,
            ),
            OpCode::spec_from_code(opcode_of(instruction)) == Some(OpCode::Less) ==> compare_post(
                old(self),
                final(self),
                instruction,
                Comparison::Less,
                r,
            ),
            OpCode::spec_from_code(opcode_of(instruction)) == Some(OpCode::LessEqual) ==> compare_post(
                old(self),
                final(self),
                instruction,
                Comparison::LessEqual,
                r,
            ),
            OpCode::spec_from_code(opcode_of(instruction)) == Some(OpCode::Equal) ==> compare_post(
                old(self),
                final(self),
                instruction,
                Comparison::Equal,
                r,
            ),
            OpCode::spec_from_code(opcode_of(instruction)) == Some(OpCode::Invoke) ==> invoke_post(
                old(self),
                final(self),
                instruction,
                r,
            ),
            OpCode::spec_from_code(opcode_of(instruction)) == Some(OpCode::Jump) ==> jump_post(
                old(self),
                final(self),
                instruction,
                r,
            ),
            OpCode::spec_from_code(opcode_of(instruction)) == Some(OpCode::JumpFalse)
                ==> jump_if_false_post(old(self), final(self), instruction, r),
            (OpCode::spec_from_code(opcode_of(instruction)) == Some(OpCode::ReturnNone)
                || OpCode::spec_from_code(opcode_of(instruction)) == Some(OpCode::ReturnVal))
                ==> call_returned(old(self), final(self)),
            OpCode::spec_from_code(opcode_of(instruction)) == Some(OpCode::ReturnNone) ==> return_post(old(self), final(self), instruction, false, r),
            OpCode::spec_from_code(opcode_of(instruction)) == Some(OpCode::ReturnVal) ==> return_post(old(self), final(self), instruction, true, r),
            OpCode::spec_from_code(opcode_of(instruction)) == Some(OpCode::Print) ==> print_post(old(self), instruction, r) && final(self).registers == old(self).registers && final(self).memory == old(self).memory,
            OpCode::spec_from_code(opcode_of(instruction)) == Some(OpCode::LoadK) ==> load_constant_to_register_post(old(self), final(self), instruction, r),
            OpCode::spec_from_code(opcode_of(instruction)) == Some(OpCode::Neg) ==> negate_post(old(self), final(self), instruction, r),
            OpCode::spec_from_code(opcode_of(instruction)) == Some(OpCode::LoadGlobalIndirect) ==> load_global_indirect_post(old(self), final(self), instruction, r),
            OpCode::spec_from_code(opcode_of(instruction)) == Some(OpCode::StoreGlobalIndirect) ==> store_global_indirect_post(old(self), final(self), instruction, r),
            OpCode::spec_from_code(opcode_of(instruction)) == Some(OpCode::LoadGlobal) ==> load_global_post(old(self), final(self), instruction, r),
            OpCode::spec_from_code(opcode_of(instruction)) == Some(OpCode::StoreLocal) ==> store_local_post(old(self), final(self), instruction, r),
            OpCode::spec_from_code(opcode_of(instruction)) == Some(OpCode::LoadLocal) ==> load_local_post(old(self), final(self), instruction, r),
            OpCode::spec_from_code(opcode_of(instruction)) == Some(OpCode::AllocateLocal) ==> local_space_post(old(self), final(self), instruction, true, r),
            OpCode::spec_from_code(opcode_of(instruction)) == Some(OpCode::DeallocateLocal) ==> local_space_post(old(self), final(self), instruction, false, r),
            OpCode::spec_from_code(opcode_of(instruction)) == Some(OpCode::LoadBool) ==> load_value_post(old(self), final(self), instruction, OpCode::LoadBool, r),
            OpCode::spec_from_code(opcode_of(instruction)) == Some(OpCode::LoadInt32) ==> load_value_post(old(self), final(self), instruction, OpCode::LoadInt32, r),
            OpCode::spec_from_code(opcode_of(instruction)) == Some(OpCode::LoadInt64) ==> load_value_post(old(self), final(self), instruction, OpCode::LoadInt64, r),
            OpCode::spec_from_code(opcode_of(instruction)) == Some(OpCode::LoadFloat32) ==> load_value_post(old(self), final(self), instruction, OpCode::LoadFloat32, r),
            OpCode::spec_from_code(opcode_of(instruction)) == Some(OpCode::LoadFloat64) ==> load_value_post(old(self), final(self), instruction, OpCode::LoadFloat64, r),
            (reserved(opcode_of(instruction)) || OpCode::spec_from_code(opcode_of(instruction)) is None)
                ==> failed_with_error(old(self), final(self), r) && final(self).memory@.last()@
                == ObjectModel::Text("Unsupported opcode instruction".spec_bytes())
                && final(self).instructions == old(self).instructions && final(self).immutables
                == old(self).immutables && final(self).globals == old(self).globals
                && final(self).locals == old(self).locals && final(self).frames == old(self).frames
                && final(self).identifiers == old(self).identifiers && final(self).running == old(
                self,
            ).running && final(self).pending == old(self).pending,
            OpCode::spec_from_code(opcode_of(instruction)) == Some(OpCode::LoadNil) ==> r is Continue
                && final(self).registers@ == old(self).registers@.update(
                crate::instruction::destination_of(instruction) as int,
                crate::register::empty_register(),
            ),
    {
        let opcode = match OpCode::from_u32(decode_opcode(instruction)) {
            Some(opcode) => opcode,
            None => {
                self.emit_error_with_message(crate::text::bytes_of("Unsupported opcode instruction"));
                return Effect::Failed;
            },
        };
        match opcode {
            OpCode::NoInstruction => Effect::Continue,
            OpCode::Halt => {
                self.running = false;
                Effect::Halted
            },
            OpCode::Neg => self.negate(instruction),
            OpCode::Add => self.binary_arithmetic(instruction, ArithmeticOp::Add),
            OpCode::Sub => self.binary_arithmetic(instruction, ArithmeticOp::Sub),
            OpCode::Mul => self.binary_arithmetic(instruction, ArithmeticOp::Mul),
            OpCode::Div => self.binary_arithmetic(instruction, ArithmeticOp::Div),
            OpCode::Pow => self.binary_arithmetic(instruction, ArithmeticOp::Pow),
            OpCode::Mod => self.binary_arithmetic(instruction, ArithmeticOp::Mod),
            OpCode::LoadK => self.load_constant_to_register(instruction),
            OpCode::LoadNil | OpCode::LoadBool | OpCode::LoadInt32 | OpCode::LoadInt64
            | OpCode::LoadFloat32 | OpCode::LoadFloat64 => self.load_value(instruction, opcode),
            OpCode::Move => {
                register_management::move_register(&mut self.registers, instruction);
                Effect::Continue
            },
            OpCode::DefineGlobalIndirect => {
                self.define_global_indirect(instruction);
                Effect::Continue
            },
            OpCode::StoreGlobalIndirect => self.store_global_indirect(instruction),
            OpCode::LoadGlobalIndirect => self.load_global_indirect(instruction),
            OpCode::LoadGlobal => self.load_global(instruction),
            OpCode::AllocateLocal => self.local_space(instruction, true),
            OpCode::DeallocateLocal => self.local_space(instruction, false),
            OpCode::StoreLocal => self.store_local(instruction),
            OpCode::LoadLocal => self.load_local(instruction),
            OpCode::Less => self.compare_registers(instruction, Comparison::Less),
            OpCode::LessEqual => self.compare_registers(instruction, Comparison::LessEqual),
            OpCode::Equal => self.compare_registers(instruction, Comparison::Equal),
            OpCode::Not => {
                self.not(instruction);
                Effect::Continue
            },
            OpCode::JumpFalse => self.jump_if_false(instruction),
            OpCode::Jump => self.jump(instruction),
            OpCode::Invoke => self.invoke(instruction),
            OpCode::ReturnNone => self.return_from_call(instruction, false),
            OpCode::ReturnVal => self.return_from_call(instruction, true),
            OpCode::LoadReturn => {
                self.load_return(instruction);
                Effect::Continue
            },
            OpCode::Print => self.print(instruction),
            _ => {
                self.emit_error_with_message(crate::text::bytes_of("Unsupported opcode instruction"));
                Effect::Failed
            },
        }
    }

    /// Fetches, decodes and executes one instruction. A run ends with
    /// `Halted`, or with `Failed` and the error in the error register.
    pub fn step(&mut self) -> (r: Effect)
        requires
            old(self).wf(),
            old(self).pending is Idle,
        ensures
            final(self).wf(),
            !old(self).running ==> r is Halted,
            r is Failed ==> final(self).in_error() && !final(self).running,
            r is Halted ==> !final(self).running,
            r is CallNative ==> final(self).pending is Native,
            r is Float ==> !(final(self).pending is Idle) && !(final(self).pending is Native),
            !(r is Float || r is CallNative) ==> final(self).pending is Idle,
            (old(self).running && old(self).registers@[RPC as int].value >= old(self).instructions@.len())
                ==> r is Failed,
            ({
                let pc = old(self).registers@[RPC as int];
                let word = old(self).instructions@[pc.value as int];
                let fetched = old(self).running && pc.value < old(self).instructions@.len()
                    && !old(self).in_error();
                &&& (fetched && OpCode::spec_from_code(opcode_of(word)) == Some(OpCode::Halt)) ==> r is Halted
                &&& (fetched && OpCode::spec_from_code(opcode_of(word)) is None) ==> r is Failed
                &&& (fetched && OpCode::spec_from_code(opcode_of(word)) == Some(OpCode::NoInstruction))
                    ==> r is Continue && final(self).registers@ == old(self).registers@.update(
                    RPC as int,
                    Register { kind: pc.kind, value: (pc.value + 1) as u64 },
                )
            }),
    {
        if !self.running {
            return Effect::Halted;
        }
        let instruction = match self.get_next_instruction() {
            Some(instruction) => instruction,
            None => {
                self.emit_error_with_message(crate::text::bytes_of("Program counter out of range"));
                self.running = false;
                return Effect::Failed;
            },
        };
        let effect = self.execute_instruction(instruction);
        if self.check_error() {
            self.running = false;
            self.pending = Pending::Idle;
            return Effect::Failed;
        }
        match effect {
            Effect::Halted => {
                self.running = false;
                self.pending = Pending::Idle;
                Effect::Halted
            },
            Effect::Failed => {
                self.emit_error_with_message(crate::text::bytes_of("Instruction failed"));
                self.running = false;
                self.pending = Pending::Idle;
                Effect::Failed
            },
            Effect::Float(request) => match self.pending {
                Pending::Value { .. } | Pending::Concat { .. } => Effect::Float(request),
                _ => {
                    self.emit_error_with_message(crate::text::bytes_of("Lost floating-point work"));
                    self.running = false;
                    self.pending = Pending::Idle;
                    Effect::Failed
                },
            },
            Effect::CallNative { index, arguments } => match self.pending {
                Pending::Native => Effect::CallNative { index, arguments },
                _ => {
                    self.emit_error_with_message(crate::text::bytes_of("Lost native call"));
                    self.running = false;
                    self.pending = Pending::Idle;
                    Effect::Failed
                },
            },
            other => {
                self.pending = Pending::Idle;
                other
            },
        }
    }

    /// Takes the host's answer to a `FloatRequest`.
    pub fn complete_float(&mut self, value: HostValue) -> (r: Effect)
        requires
            old(self).wf(),
        ensures
            final(self).wf(),
            final(self).pending is Idle,
            r is Continue || r is Failed,
            (old(self).pending is Value && old(self).pending->destination < 16) ==> (
            match value {
                HostValue::Float(bits) => r is Continue && final(self).registers@
                    == old(self).registers@.update(
                    old(self).pending->destination as int,
                    Register { kind: RegisterValueKind::Float64, value: bits },
                ),
                HostValue::Int(i) => r is Continue && final(self).registers@
                    == old(self).registers@.update(
                    old(self).pending->destination as int,
                    Register { kind: RegisterValueKind::Int64, value: i as u64 },
                ),
                HostValue::Truth(t) => r is Continue && final(self).registers@
                    == old(self).registers@.update(
                    old(self).pending->destination as int,
                    crate::machine::bytecode_execution::bool_register(t),
                ),
                HostValue::Text(_) => r is Failed,
            }),
            (old(self).pending is Concat && old(self).pending->target < 16 && value is Text)
                ==> r is Continue
                && final(self).memory@.len() == old(self).memory@.len() + 1
                && final(self).memory@.last()@ == ObjectModel::Text(
                if old(self).pending->number_first {
                    value->Text_0@ + old(self).pending->text@
                } else {
                    old(self).pending->text@ + value->Text_0@
                },
            ) && final(self).registers@[old(self).pending->target as int]
                == crate::machine::bytecode_execution::string_register(old(self).memory@.len()),
            (old(self).pending is Idle || old(self).pending is Native) ==> r is Failed,
            final(self).frames == old(self).frames,
            final(self).locals == old(self).locals,
            final(self).globals == old(self).globals,
    {
        let mut pending = Pending::Idle;
        std::mem::swap(&mut self.pending, &mut pending);
        match pending {
            Pending::Value { destination } => {
                if destination >= 16 {
                    self.emit_error_with_message(crate::text::bytes_of("Invalid register"));
                    return Effect::Failed;
                }
                let register = match value {
                    HostValue::Float(bits) => Register::new(RegisterValueKind::Float64, bits),
                    HostValue::Int(i) => Register::new(RegisterValueKind::Int64, i as u64),
                    HostValue::Truth(t) => Register::new(
                        RegisterValueKind::Bool,
                        if t {
                            1
                        } else {
                            0
                        },
                    ),
                    HostValue::Text(_) => {
                        self.emit_error_with_message(
                            crate::text::bytes_of("Host answer does not match the request"),
                        );
                        return Effect::Failed;
                    },
                };
                self.registers[destination as usize] = register;
                Effect::Continue
            },
            Pending::Concat { target: destination, text, number_first } => {
                if destination >= 16 {
                    self.emit_error_with_message(crate::text::bytes_of("Invalid register"));
                    return Effect::Failed;
                }
                match value {
                    HostValue::Text(number) => {
                        let joined = if number_first {
                            let mut joined = copy_bytes(&number);
                            append_bytes(&mut joined, text.as_slice());
                            joined
                        } else {
                            let mut joined = copy_bytes(&text);
                            append_bytes(&mut joined, number.as_slice());
                            joined
                        };
                        let address = store_object_in_memory(&mut self.memory, NovaObject::String(joined));
                        self.registers[destination as usize] = Register::new(
                            RegisterValueKind::StrMem,
                            address,
                        );
                        Effect::Continue
                    },
                    _ => {
                        self.emit_error_with_message(
                            crate::text::bytes_of("Host answer does not match the request"),
                        );
                        Effect::Failed
                    },
                }
            },
            _ => {
                self.emit_error_with_message(crate::text::bytes_of("No floating-point work is waiting"));
                Effect::Failed
            },
        }
    }

    /// Takes the result of a native call into the return register; an error
    /// of the native becomes a runtime error.
    pub fn complete_native(&mut self, result: Result<NovaObject, Vec<u8>>) -> (r: Effect)
        requires
            old(self).wf(),
        ensures
            final(self).wf(),
            final(self).pending is Idle,
            r is Continue || r is Failed,
            !(old(self).pending is Native) ==> r is Failed,
            old(self).pending is Native ==> match result {
                Err(message) => r is Failed && final(self).memory@.last()@ == ObjectModel::Text(
                    message@,
                ),
                Ok(object) => r is Continue && match object {
                    NovaObject::Nil => final(self).registers@[RRTN as int] == crate::register::empty_register(),
                    NovaObject::Int64(i) => final(self).registers@[RRTN as int] == (Register {
                        kind: RegisterValueKind::Int64,
                        value: i as u64,
                    }),
                    NovaObject::Bool(b) => final(self).registers@[RRTN as int]
                        == crate::machine::bytecode_execution::bool_register(b),
                    NovaObject::Float64(bits) => final(self).registers@[RRTN as int] == (Register {
                        kind: RegisterValueKind::Float64,
                        value: bits,
                    }),
                    NovaObject::String(s) => final(self).registers@[RRTN as int]
                        == crate::machine::bytecode_execution::string_register(old(self).memory@.len())
                        && final(self).memory@.last()@ == ObjectModel::Text(s@),
                    _ => final(self).registers@[RRTN as int].kind == RegisterValueKind::MemAddress,
                },
            },
            final(self).frames == old(self).frames,
            final(self).locals == old(self).locals,
            final(self).globals == old(self).globals,
    {
        let native = match self.pending {
            Pending::Native => true,
            _ => false,
        };
        self.pending = Pending::Idle;
        if !native {
            self.emit_error_with_message(crate::text::bytes_of("No native call is waiting"));
            return Effect::Failed;
        }
        match result {
            Err(message) => {
                self.emit_error_with_message(message);
                Effect::Failed
            },
            Ok(object) => {
                let register = match object {
                    NovaObject::Nil => Register::empty(),
                    NovaObject::Int64(i) => Register::new(RegisterValueKind::Int64, i as u64),
                    NovaObject::Bool(b) => Register::new(
                        RegisterValueKind::Bool,
                        if b {
                            1
                        } else {
                            0
                        },
                    ),
                    NovaObject::Float64(bits) => Register::new(RegisterValueKind::Float64, bits),
                    NovaObject::String(s) => {
                        let address = store_object_in_memory(&mut self.memory, NovaObject::String(s));
                        Register::new(RegisterValueKind::StrMem, address)
                    },
                    other => {
                        let address = store_object_in_memory(&mut self.memory, other);
                        Register::new(RegisterValueKind::MemAddress, address)
                    },
                };
                self.registers[RRTN] = register;
                Effect::Continue
            },
        }
    }
}

} // verus!
