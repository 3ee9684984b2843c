use vstd::prelude::*;

use crate::bytecode::OpCode;
use crate::instruction::{address_of, opcode_of, Instruction};
use crate::object::NovaObject;

verus! {

/// Compiled code: instruction words, the constants they refer to, and where
/// each source line ends in the words.
pub struct Program {
    pub instructions: Vec<Instruction>,
    pub immutables: Vec<NovaObject>,
    /// Sorted by `last_instruction`.
    pub line_definitions: Vec<LineDefinition>,
}

impl Program {
    pub fn new() -> (r: Self)
        ensures
            r.instructions@.len() == 0,
            r.immutables@.len() == 0,
            r.line_definitions@.len() == 0,
    {
        Program { instructions: Vec::new(), immutables: Vec::new(), line_definitions: Vec::new() }
    }
}

impl Default for Program {
    fn default() -> (r: Self)
        ensures
            r.instructions@.len() == 0,
            r.immutables@.len() == 0,
            r.line_definitions@.len() == 0,
    {
        Program::new()
    }
}

/// The last instruction of a source line.
#[derive(Debug, Clone)]
pub struct LineDefinition {
    pub last_instruction: usize,
    pub source_line: usize,
    pub source_file: Vec<u8>,
}

/// Number of raw payload words that follow a header word with this opcode.
pub open spec fn payload_words(opcode: u32) -> nat {
    if opcode == OpCode::LoadInt32.spec_code() || opcode == OpCode::LoadFloat32.spec_code() {
        1
    } else if opcode == OpCode::LoadInt64.spec_code() || opcode == OpCode::LoadFloat64.spec_code() {
        2
    } else {
        0
    }
}

/// Number of words that an instruction whose header word is `header` takes.
pub open spec fn instruction_length(header: u32) -> nat {
    1 + payload_words(opcode_of(header))
}

/// A walk that starts at header position `i` and steps from header to header
/// lands on position `j`.
pub open spec fn is_header_from(words: Seq<u32>, i: int, j: int) -> bool
    decreases j - i,
{
    if j < i {
        false
    } else if j == i {
        true
    } else if i < 0 || i >= words.len() {
        false
    } else if i + instruction_length(words[i]) > j {
        false
    } else {
        is_header_from(words, i + instruction_length(words[i]), j)
    }
}

/// Position `j` holds the header word of an instruction.
pub open spec fn is_header(words: Seq<u32>, j: int) -> bool {
    is_header_from(words, 0, j)
}

/// The walk from the first word over whole instructions ends exactly at the
/// end of the words: no instruction's payload runs past it.
pub open spec fn walk_reaches_end(words: Seq<u32>) -> bool {
    is_header(words, words.len() as int)
}

/// Opcodes whose small address indexes the table of immutables.
pub open spec fn refers_to_immutable(opcode: u32) -> bool {
    opcode == OpCode::LoadK.spec_code() || opcode == OpCode::DefineGlobalIndirect.spec_code()
        || opcode == OpCode::LoadGlobalIndirect.spec_code() || opcode
        == OpCode::StoreGlobalIndirect.spec_code()
}

/// A header word after relocation by `offset` immutables.
pub open spec fn relocated(word: u32, offset: u32) -> u32 {
    if refers_to_immutable(opcode_of(word)) {
        (word - address_of(word) + address_of(word) + offset) as u32
    } else {
        word
    }
}

/// The walk from `i` on reads nothing but the lengths of header words, and
/// no word at or past `j`.
pub proof fn lemma_walk_reads_lengths(a: Seq<u32>, b: Seq<u32>, i: int, j: int)
    requires
        0 <= i,
        j <= a.len(),
        j <= b.len(),
        forall|k: int|
            0 <= k < j ==> instruction_length(#[trigger] a[k]) == instruction_length(b[k]),
    ensures
        is_header_from(a, i, j) == is_header_from(b, i, j),
    decreases j - i,
{
    if i < j && i < a.len() && i + instruction_length(a[i]) <= j {
        lemma_walk_reads_lengths(a, b, i + instruction_length(a[i]), j);
    }
}

/// Appending one whole instruction to words whose walk reaches their end gives
/// words whose walk reaches the new end.
pub proof fn lemma_walk_append(words: Seq<u32>, unit: Seq<u32>)
    requires
        walk_reaches_end(words),
        unit.len() >= 1,
        instruction_length(unit[0]) == unit.len(),
    ensures
        walk_reaches_end(words + unit),
{
    let all = words + unit;
    let n = words.len() as int;
    lemma_walk_reads_lengths(words, all, 0, n);
    lemma_walk_concat(all, 0, n);
    assert(is_header_from(all, n, all.len() as int)) by {
        assert(all[n] == unit[0]);
        assert(is_header_from(all, n + instruction_length(all[n]), all.len() as int));
    }
    lemma_walk_trans(all, 0, n, all.len() as int);
}

/// A walk that reaches `j` from `i` keeps its steps below `j`.
proof fn lemma_walk_concat(words: Seq<u32>, i: int, j: int)
    requires
        is_header_from(words, i, j),
    ensures
        i <= j,
    decreases j - i,
{
    if i < j && 0 <= i < words.len() && i + instruction_length(words[i]) <= j {
        lemma_walk_concat(words, i + instruction_length(words[i]), j);
    }
}

/// Walks compose: from `i` to `j`, then from `j` to `k`.
pub proof fn lemma_walk_trans(words: Seq<u32>, i: int, j: int, k: int)
    requires
        is_header_from(words, i, j),
        is_header_from(words, j, k),
    ensures
        is_header_from(words, i, k),
    decreases j - i,
{
    lemma_walk_concat(words, j, k);
    if i < j && 0 <= i < words.len() && i + instruction_length(words[i]) <= j {
        lemma_walk_trans(words, i + instruction_length(words[i]), j, k);
    }
}

/// From a header position, the next instruction starts right after its payload.
pub proof fn lemma_walk_step(words: Seq<u32>, i: int)
    requires
        0 <= i < words.len(),
    ensures
        forall|j: int|
            i < j ==> #[trigger] is_header_from(words, i, j) == is_header_from(
                words,
                i + instruction_length(words[i]),
                j,
            ),
{
    assert forall|j: int| i < j implies #[trigger] is_header_from(words, i, j)
        == is_header_from(words, i + instruction_length(words[i]), j) by {
        reveal_with_fuel(is_header_from, 2);
    }
}

} // verus!
