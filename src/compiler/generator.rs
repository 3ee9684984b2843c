use vstd::prelude::*;

use crate::bytecode::OpCode;
use crate::instruction::instruction_decoder::split_u64;
use crate::instruction::{high_half, low_half};
use crate::instruction::{
    address_of, destination_of, encode, opcode_of, source1_of, source2_of, Instruction,
    InstructionBuilder,
};
use crate::machine::objects_view;
use crate::object::{copy_bytes, NovaFunction, NovaObject, ObjectModel};
use crate::program::{
    instruction_length, is_header, is_header_from, lemma_walk_append, lemma_walk_reads_lengths,
    walk_reaches_end, Program,
};
use crate::compiler::ast::{BinaryOperator, Expression, Literal, Statement, UnaryOperator};
use crate::instruction::lemma_codec_round_trip;
use crate::text::{bytes_equal, bytes_of};

verus! {

/// Registers `R0 .. R9` hold intermediate values; no temporary goes above.
pub const MAX_TEMPORARIES: u32 = 10;

/// Most words a generated program may hold, so that every jump offset fits
/// in sixteen bits.
pub const MAX_CODE_WORDS: usize = 0xfff0;

/// Most immutables a generated program may hold: their indices fit in sixteen bits.
pub const MAX_IMMUTABLES: usize = 0x1_0000;

/// Most local slots open at once.
pub const MAX_LOCALS: u32 = 0xffff;

/// Every register field that a word uses for an intermediate value is below
/// `bound`, and so is the end of an `Invoke`'s argument range.
pub open spec fn temporaries_below(w: u32, bound: u32) -> bool {
    let op = opcode_of(w);
    if op == OpCode::Add.spec_code() || op == OpCode::Sub.spec_code() || op
        == OpCode::Mul.spec_code() || op == OpCode::Div.spec_code() || op
        == OpCode::Mod.spec_code() || op == OpCode::Pow.spec_code() || op
        == OpCode::Less.spec_code() || op == OpCode::LessEqual.spec_code() || op
        == OpCode::Equal.spec_code() || op == OpCode::Move.spec_code() {
        destination_of(w) < bound && source1_of(w) < bound && source2_of(w) < bound
    } else if op == OpCode::Not.spec_code() || op == OpCode::Neg.spec_code() {
        destination_of(w) < bound && source1_of(w) < bound
    } else if op == OpCode::LoadK.spec_code() || op == OpCode::LoadBool.spec_code() || op
        == OpCode::LoadNil.spec_code() || op == OpCode::LoadInt32.spec_code() || op
        == OpCode::LoadInt64.spec_code() || op == OpCode::LoadFloat32.spec_code() || op
        == OpCode::LoadFloat64.spec_code() || op == OpCode::LoadLocal.spec_code() || op
        == OpCode::LoadGlobalIndirect.spec_code() || op == OpCode::LoadReturn.spec_code() {
        destination_of(w) < bound
    } else if op == OpCode::StoreLocal.spec_code() || op == OpCode::StoreGlobalIndirect.spec_code()
        || op == OpCode::JumpFalse.spec_code() || op == OpCode::ReturnVal.spec_code() || op
        == OpCode::Print.spec_code() {
        source1_of(w) < bound
    } else if op == OpCode::Invoke.spec_code() {
        destination_of(w) + source1_of(w) < bound && source2_of(w) < bound
    } else {
        true
    }
}

/// A statement of straight-line code: an expression statement or a variable
/// declaration whose expressions are lowerable within the temporaries.
pub open spec fn straight(statement: Statement) -> bool {
    match statement {
        Statement::Expression(e) => lowerable(e) && need(e) <= MAX_TEMPORARIES,
        Statement::VarDeclaration(_, initializer) => match initializer {
            Some(e) => lowerable(e) && need(e) <= MAX_TEMPORARIES,
            None => true,
        },
        _ => false,
    }
}

/// A statement of a straight function body: a straight statement or a
/// return of a lowerable value.
pub open spec fn body_statement(statement: Statement) -> bool {
    match statement {
        Statement::Return(value) => match value {
            Some(e) => lowerable(e) && need(e) <= MAX_TEMPORARIES,
            None => true,
        },
        _ => straight(statement),
    }
}

/// Most words that lowering a straight statement appends.
pub open spec fn statement_size(statement: Statement) -> nat {
    match statement {
        Statement::Expression(e) => size(e),
        Statement::VarDeclaration(_, initializer) => match initializer {
            Some(e) => size(e) + 2,
            None => 1,
        },
        Statement::Return(value) => match value {
            Some(e) => size(e) + 1,
            None => 1,
        },
        _ => 0,
    }
}

/// Most immutables that lowering a straight statement adds.
pub open spec fn statement_names(statement: Statement) -> nat {
    match statement {
        Statement::Expression(e) => names(e),
        Statement::VarDeclaration(_, initializer) => match initializer {
            Some(e) => names(e) + 1,
            None => 1,
        },
        Statement::Return(value) => match value {
            Some(e) => names(e),
            None => 0,
        },
        _ => 0,
    }
}

/// A statement of a top-level program whose success is owed: a straight
/// statement, or a function definition whose parameters fit the argument
/// registers and whose body is straight.
pub open spec fn top_statement(statement: Statement) -> bool {
    match statement {
        Statement::Function(_, parameters, body) => parameters@.len() <= MAX_TEMPORARIES && (forall|
            k: int,
        |
            0 <= k < body@.len() ==> body_statement(#[trigger] body@[k])) && parameters@.len()
            + body@.len() <= MAX_LOCALS,
        _ => straight(statement),
    }
}

/// Most words that lowering a top-level statement appends.
pub open spec fn top_statement_size(statement: Statement) -> nat {
    match statement {
        Statement::Function(_, parameters, body) => 2 + parameters@.len() + program_size(body@),
        _ => statement_size(statement),
    }
}

/// Most immutables that lowering a top-level statement adds.
pub open spec fn top_statement_names(statement: Statement) -> nat {
    match statement {
        Statement::Function(_, _, body) => 2 + program_names(body@),
        _ => statement_names(statement),
    }
}

/// Most words that lowering top-level statements appends.
pub open spec fn top_program_size(statements: Seq<Statement>) -> nat
    decreases statements.len(),
{
    if statements.len() == 0 {
        0
    } else {
        top_program_size(statements.drop_last()) + top_statement_size(statements.last())
    }
}

/// Most immutables that lowering top-level statements adds.
pub open spec fn top_program_names(statements: Seq<Statement>) -> nat
    decreases statements.len(),
{
    if statements.len() == 0 {
        0
    } else {
        top_program_names(statements.drop_last()) + top_statement_names(statements.last())
    }
}

proof fn lemma_top_program_prefix(statements: Seq<Statement>, i: int)
    requires
        0 <= i <= statements.len(),
    ensures
        top_program_size(statements.subrange(0, i)) <= top_program_size(statements),
        top_program_names(statements.subrange(0, i)) <= top_program_names(statements),
    decreases statements.len(),
{
    if i < statements.len() {
        assert(statements.drop_last().subrange(0, i) =~= statements.subrange(0, i));
        lemma_top_program_prefix(statements.drop_last(), i);
    } else {
        assert(statements.subrange(0, i) =~= statements);
    }
}

/// Most words that lowering straight statements appends.
pub open spec fn program_size(statements: Seq<Statement>) -> nat
    decreases statements.len(),
{
    if statements.len() == 0 {
        0
    } else {
        program_size(statements.drop_last()) + statement_size(statements.last())
    }
}

/// Most immutables that lowering straight statements adds.
pub open spec fn program_names(statements: Seq<Statement>) -> nat
    decreases statements.len(),
{
    if statements.len() == 0 {
        0
    } else {
        program_names(statements.drop_last()) + statement_names(statements.last())
    }
}

proof fn lemma_program_prefix(statements: Seq<Statement>, i: int)
    requires
        0 <= i <= statements.len(),
    ensures
        program_size(statements.subrange(0, i)) <= program_size(statements),
        program_names(statements.subrange(0, i)) <= program_names(statements),
    decreases statements.len(),
{
    if i < statements.len() {
        assert(statements.drop_last().subrange(0, i) =~= statements.subrange(0, i));
        lemma_program_prefix(statements.drop_last(), i);
    } else {
        assert(statements.subrange(0, i) =~= statements);
    }
}

/// The first position from `i` on that holds the string `text`; the length
/// when none does.
pub open spec fn first_text(objects: Seq<ObjectModel>, text: Seq<u8>, i: int) -> int
    decreases objects.len() - i,
{
    if i < 0 || i >= objects.len() {
        objects.len() as int
    } else if objects[i] == ObjectModel::Text(text) {
        i
    } else {
        first_text(objects, text, i + 1)
    }
}

/// Interning `text`: the index of its first occurrence, or of a new entry
/// appended for it, with the immutables after.
pub open spec fn interned(objects: Seq<ObjectModel>, text: Seq<u8>) -> (int, Seq<ObjectModel>) {
    let k = first_text(objects, text, 0);
    if k < objects.len() {
        (k, objects)
    } else {
        (objects.len() as int, objects.push(ObjectModel::Text(text)))
    }
}

/// The words that load the integer `n` into register `b`.
pub open spec fn integer_words(n: i64, b: u32) -> Seq<u32> {
    if -0x8000_0000 <= n <= 0x7fff_ffff {
        seq![encode(OpCode::LoadInt32.spec_code(), b, 0, 0) as u32, (n as i32) as u32]
    } else {
        seq![
            encode(OpCode::LoadInt64.spec_code(), b, 0, 0) as u32,
            high_half(n as u64),
            low_half(n as u64),
        ]
    }
}

/// The words that load a literal into register `b`, with the immutables after.
pub open spec fn lower_literal(literal: Literal, b: u32, objects: Seq<ObjectModel>) -> (
    Seq<u32>,
    Seq<ObjectModel>,
) {
    match literal {
        Literal::Integer(n) => (integer_words(n, b), objects),
        Literal::Float32(bits) => (
            seq![encode(OpCode::LoadFloat32.spec_code(), b, 0, 0) as u32, bits],
            objects,
        ),
        Literal::Float64(bits) => (
            seq![
                encode(OpCode::LoadFloat64.spec_code(), b, 0, 0) as u32,
                high_half(bits),
                low_half(bits),
            ],
            objects,
        ),
        Literal::Bool(v) => (
            seq![encode(OpCode::LoadBool.spec_code(), b, 0, if v { 1 } else { 0 }) as u32],
            objects,
        ),
        Literal::Nil => (seq![encode(OpCode::LoadNil.spec_code(), b, 0, 0) as u32], objects),
        Literal::String(text) => (
            seq![encode(OpCode::LoadK.spec_code(), b, 0, interned(objects, text@).0 as u32) as u32],
            interned(objects, text@).1,
        ),
    }
}

/// The lowering of an expression at the top level, where every variable is a
/// global: its words, with the result in register `b`, and the immutables after.
pub open spec fn lower_expr(e: Expression, b: u32, objects: Seq<ObjectModel>) -> (
    Seq<u32>,
    Seq<ObjectModel>,
)
    decreases e,
{
    match e {
        Expression::Literal(literal) => lower_literal(literal, b, objects),
        Expression::Variable(name) => (
            seq![
                encode(
                    OpCode::LoadGlobalIndirect.spec_code(),
                    b,
                    0,
                    interned(objects, name@).0 as u32,
                ) as u32,
            ],
            interned(objects, name@).1,
        ),
        Expression::Binary(l, op, r) => {
            let left = lower_expr(*l, b, objects);
            let right = lower_expr(*r, (b + 1) as u32, left.1);
            let code = binary_code(op).unwrap();
            let w = encode(code.0.spec_code(), b, b, (b + 1) as u32) as u32;
            (
                left.0 + right.0 + if code.1 {
                    seq![w, encode(OpCode::Not.spec_code(), b, b, 0) as u32]
                } else {
                    seq![w]
                },
                right.1,
            )
        },
        Expression::Unary(_, r) => {
            let inner = lower_expr(*r, b, objects);
            (inner.0.push(encode(OpCode::Neg.spec_code(), 0, b, 0) as u32), inner.1)
        },
        Expression::Grouping(inner) => lower_expr(*inner, b, objects),
        _ => (Seq::empty(), objects),
    }
}

/// The lowering of a straight statement at the top level, with the
/// immutables after.
pub open spec fn lower_statement(statement: Statement, objects: Seq<ObjectModel>) -> (
    Seq<u32>,
    Seq<ObjectModel>,
) {
    match statement {
        Statement::Expression(e) => lower_expr(e, 0, objects),
        Statement::VarDeclaration(name, initializer) => match initializer {
            Some(e) => {
                let value = lower_expr(e, 0, objects);
                let k = interned(value.1, name@);
                (
                    value.0 + seq![
                        encode(OpCode::DefineGlobalIndirect.spec_code(), 0, 0, k.0 as u32) as u32,
                        encode(OpCode::StoreGlobalIndirect.spec_code(), 0, 0, k.0 as u32) as u32,
                    ],
                    k.1,
                )
            },
            None => {
                let k = interned(objects, name@);
                (
                    seq![encode(OpCode::DefineGlobalIndirect.spec_code(), 0, 0, k.0 as u32) as u32],
                    k.1,
                )
            },
        },
        _ => (Seq::empty(), objects),
    }
}

/// The lowering of straight statements, one after the other.
pub open spec fn lower_program(statements: Seq<Statement>, objects: Seq<ObjectModel>) -> (
    Seq<u32>,
    Seq<ObjectModel>,
)
    decreases statements.len(),
{
    if statements.len() == 0 {
        (Seq::empty(), objects)
    } else {
        let front = lower_program(statements.drop_last(), objects);
        let last = lower_statement(statements.last(), front.1);
        (front.0 + last.0, last.1)
    }
}

/// An expression built from literals, variables, supported binary operators,
/// negation and grouping: the part of the language that lowers without calls.
pub open spec fn lowerable(e: Expression) -> bool
    decreases e,
{
    match e {
        Expression::Literal(_) => true,
        Expression::Variable(_) => true,
        Expression::Binary(l, op, r) => binary_code(op) is Some && lowerable(*l) && lowerable(*r),
        Expression::Unary(op, r) => op is Minus && lowerable(*r),
        Expression::Grouping(inner) => lowerable(*inner),
        _ => false,
    }
}

/// Temporary registers that lowering `e` uses above the current one.
pub open spec fn need(e: Expression) -> nat
    decreases e,
{
    match e {
        Expression::Binary(l, _, r) => if need(*l) >= need(*r) + 1 {
            need(*l)
        } else {
            need(*r) + 1
        },
        Expression::Unary(_, r) => need(*r),
        Expression::Grouping(inner) => need(*inner),
        _ => 1,
    }
}

/// Most words that lowering `e` appends.
pub open spec fn size(e: Expression) -> nat
    decreases e,
{
    match e {
        Expression::Literal(_) => 3,
        Expression::Binary(l, _, r) => size(*l) + size(*r) + 2,
        Expression::Unary(_, r) => size(*r) + 1,
        Expression::Grouping(inner) => size(*inner),
        _ => 1,
    }
}

/// Most immutables that lowering `e` adds.
pub open spec fn names(e: Expression) -> nat
    decreases e,
{
    match e {
        Expression::Binary(l, _, r) => names(*l) + names(*r),
        Expression::Unary(_, r) => names(*r),
        Expression::Grouping(inner) => names(*inner),
        _ => 1,
    }
}

/// The opcode that a binary operator lowers to, and whether a `Not` follows
/// it; `None` for an operator that has no lowering.
pub open spec fn binary_code(operator: BinaryOperator) -> Option<(OpCode, bool)> {
    match operator {
        BinaryOperator::Plus => Some((OpCode::Add, false)),
        BinaryOperator::Minus => Some((OpCode::Sub, false)),
        BinaryOperator::Slash => Some((OpCode::Div, false)),
        BinaryOperator::Star => Some((OpCode::Mul, false)),
        BinaryOperator::Caret => Some((OpCode::Pow, false)),
        BinaryOperator::Percent => Some((OpCode::Mod, false)),
        BinaryOperator::Less => Some((OpCode::Less, false)),
        BinaryOperator::LessEqual => Some((OpCode::LessEqual, false)),
        BinaryOperator::Greater => Some((OpCode::LessEqual, true)),
        BinaryOperator::GreaterEqual => Some((OpCode::Less, true)),
        BinaryOperator::EqualEqual => Some((OpCode::Equal, false)),
        BinaryOperator::NotEqual => Some((OpCode::Equal, true)),
        _ => None,
    }
}

/// `b` starts with the words of `a`.
pub open spec fn extends(a: Seq<u32>, b: Seq<u32>) -> bool {
    a.len() <= b.len() && forall|k: int| 0 <= k < a.len() ==> #[trigger] b[k] == a[k]
}

/// Generated code: its walk reaches its end and every instruction keeps its
/// intermediate values in `R0 .. R9`.
pub open spec fn code_ok(words: Seq<u32>) -> bool {
    &&& walk_reaches_end(words)
    &&& forall|j: int|
        0 <= j < words.len() && #[trigger] is_header(words, j) ==> temporaries_below(
            words[j],
            MAX_TEMPORARIES,
        )
}

/// Two walks from one start that reach `n` and `j`, with `n <= j`, pass
/// through `n` on the way to `j`.
proof fn lemma_walk_split(words: Seq<u32>, i: int, n: int, j: int)
    requires
        is_header_from(words, i, n),
        is_header_from(words, i, j),
        n <= j,
    ensures
        is_header_from(words, n, j),
    decreases n - i,
{
    if i < n {
        lemma_walk_split(words, i + instruction_length(words[i]), n, j);
    }
}

proof fn lemma_code_append(words: Seq<u32>, unit: Seq<u32>)
    requires
        code_ok(words),
        unit.len() >= 1,
        instruction_length(unit[0]) == unit.len(),
        temporaries_below(unit[0], MAX_TEMPORARIES),
    ensures
        code_ok(words + unit),
{
    let all = words + unit;
    let n = words.len() as int;
    lemma_walk_append(words, unit);
    assert forall|j: int|
        0 <= j < all.len() && #[trigger] is_header(all, j) implies temporaries_below(
        all[j],
        MAX_TEMPORARIES,
    ) by {
        if j < n {
            lemma_walk_reads_lengths(words, all, 0, j);
            assert(is_header(words, j));
        } else if j > n {
            lemma_walk_reads_lengths(words, all, 0, n);
            lemma_walk_split(all, 0, n, j);
            assert(all[n] == unit[0]);
            assert(false);
        }
    }
}

proof fn lemma_code_patch(words: Seq<u32>, p: int, w: u32)
    requires
        code_ok(words),
        0 <= p < words.len(),
        instruction_length(w) == instruction_length(words[p]),
        temporaries_below(w, MAX_TEMPORARIES),
    ensures
        code_ok(words.update(p, w)),
{
    let all = words.update(p, w);
    assert forall|k: int| 0 <= k < words.len() implies instruction_length(#[trigger] words[k])
        == instruction_length(all[k]) by {
        if k == p {
        }
    }
    lemma_walk_reads_lengths(words, all, 0, words.len() as int);
    assert forall|j: int|
        0 <= j < all.len() && #[trigger] is_header(all, j) implies temporaries_below(
        all[j],
        MAX_TEMPORARIES,
    ) by {
        lemma_walk_reads_lengths(words, all, 0, j);
        if j != p {
            assert(is_header(words, j));
            assert(all[j] == words[j]);
        }
    }
}

proof fn lemma_argument_decreases(expression: &Expression, i: int)
    requires
        expression is Call,
        0 <= i < expression->Call_1@.len(),
    ensures
        decreases_to!(*expression => expression->Call_1@[i]),
{
    let arguments = expression->Call_1;
    assert(decreases_to!(*expression => arguments));
    vstd::std_specs::vec::axiom_vec_decreases_to_view(arguments);
    assert(decreases_to!(arguments => arguments@));
    assert(decreases_to!(arguments@ => arguments@[i]));
}

/// Lowers a syntax tree to a `Program`.
pub struct BytecodeGenerator {
    program: Program,
    error: Option<Vec<u8>>,
    temp_stack: u32,
    last_was_call: bool,
    local_variable_count: u32,
    local_variable_indices: Vec<Vec<(Vec<u8>, u32)>>,
}

impl BytecodeGenerator {
    /// The generator's state is consistent.
    pub closed spec fn wf(&self) -> bool {
        &&& code_ok(self.program.instructions@)
        &&& self.program.instructions@.len() <= MAX_CODE_WORDS
        &&& self.program.immutables@.len() <= MAX_IMMUTABLES
        &&& self.temp_stack <= MAX_TEMPORARIES
        &&& self.local_variable_count <= MAX_LOCALS
        &&& forall|s: int, k: int|
            0 <= s < self.local_variable_indices@.len() && 0 <= k
                < self.local_variable_indices@[s]@.len() ==> (
            #[trigger] self.local_variable_indices@[s]@[k]).1 < 0x1_0000
    }

    spec fn ok(&self) -> bool {
        self.error is None
    }

    /// Lowering `e` from this state must succeed: it is lowerable and its
    /// registers, words and immutables fit.
    spec fn owed(&self, e: Expression) -> bool {
        &&& self.ok()
        &&& lowerable(e)
        &&& self.temp_stack + need(e) <= MAX_TEMPORARIES
        &&& self.program.instructions@.len() + size(e) <= MAX_CODE_WORDS
        &&& self.program.immutables@.len() + names(e) <= MAX_IMMUTABLES
    }

    /// Lowering the straight statement `statement` at the top level from this
    /// state must succeed.
    spec fn top_owed(&self, statement: Statement) -> bool {
        &&& self.ok()
        &&& self.local_variable_indices@.len() == 0
        &&& self.temp_stack == 0
        &&& straight(statement)
        &&& self.program.instructions@.len() + statement_size(statement) <= MAX_CODE_WORDS
        &&& self.program.immutables@.len() + statement_names(statement) <= MAX_IMMUTABLES
    }

    /// Lowering the top-level statement `statement` from this state must succeed.
    spec fn top_level_owed(&self, statement: Statement) -> bool {
        &&& self.ok()
        &&& self.local_variable_indices@.len() == 0
        &&& self.temp_stack == 0
        &&& top_statement(statement)
        &&& self.program.instructions@.len() + top_statement_size(statement) <= MAX_CODE_WORDS
        &&& self.program.immutables@.len() + top_statement_names(statement) <= MAX_IMMUTABLES
    }

    /// Lowering `statement` inside a function or block from this state must
    /// succeed.
    spec fn scope_owed(&self, statement: Statement) -> bool {
        &&& self.ok()
        &&& self.local_variable_indices@.len() > 0
        &&& self.temp_stack == 0
        &&& body_statement(statement)
        &&& self.program.instructions@.len() + statement_size(statement) <= MAX_CODE_WORDS
        &&& self.program.immutables@.len() + statement_names(statement) <= MAX_IMMUTABLES
        &&& self.local_variable_count < MAX_LOCALS
    }

    /// Lowering the statements of a function body from this state must succeed.
    spec fn body_owed(&self, statements: Seq<Statement>) -> bool {
        &&& self.ok()
        &&& self.local_variable_indices@.len() > 0
        &&& self.temp_stack == 0
        &&& forall|k: int| 0 <= k < statements.len() ==> body_statement(#[trigger] statements[k])
        &&& self.program.instructions@.len() + program_size(statements) <= MAX_CODE_WORDS
        &&& self.program.immutables@.len() + program_names(statements) <= MAX_IMMUTABLES
        &&& self.local_variable_count + statements.len() <= MAX_LOCALS
    }

    /// Lowering the function definition `statement` from this state must
    /// succeed: its parameters fit the argument registers and its body is
    /// straight and fits the code, immutables and locals.
    spec fn function_owed(&self, statement: Statement) -> bool {
        let parameters = statement->Function_1@;
        let body = statement->Function_2@;
        &&& statement is Function
        &&& self.ok()
        &&& parameters.len() <= MAX_TEMPORARIES
        &&& forall|k: int| 0 <= k < body.len() ==> body_statement(#[trigger] body[k])
        &&& self.program.instructions@.len() + 2 + parameters.len() + program_size(body)
            <= MAX_CODE_WORDS
        &&& self.program.immutables@.len() + 2 + program_names(body) <= MAX_IMMUTABLES
        &&& parameters.len() + body.len() <= MAX_LOCALS
    }

    /// This state followed the lowering of `statement` from `before`, within
    /// its size bounds.
    spec fn grew_by(&self, before: &Self, statement: Statement) -> bool {
        &&& self.ok()
        &&& self.program.instructions@.len() <= before.program.instructions@.len() + statement_size(
            statement,
        )
        &&& self.program.immutables@.len() <= before.program.immutables@.len() + statement_names(
            statement,
        )
        &&& self.local_variable_count <= before.local_variable_count + 1
    }

    /// This state holds exactly the top-level lowering of `e` from `before`.
    spec fn lowered_exactly(&self, before: &Self, e: Expression) -> bool {
        let l = lower_expr(e, before.temp_stack, objects_view(before.program.immutables@));
        &&& self.program.instructions@ == before.program.instructions@ + l.0
        &&& objects_view(self.program.immutables@) == l.1
    }

    /// This state followed a successful lowering of `e` from `before`.
    spec fn lowered_from(&self, before: &Self, e: Expression) -> bool {
        &&& self.ok()
        &&& !self.last_was_call
        &&& self.temp_stack == before.temp_stack + 1
        &&& self.program.instructions@.len() <= before.program.instructions@.len() + size(e)
        &&& self.program.immutables@.len() <= before.program.immutables@.len() + names(e)
    }

    /// Nothing has been generated yet.
    pub closed spec fn is_fresh(&self) -> bool {
        &&& self.error is None
        &&& self.program.instructions@.len() == 0
        &&& self.program.immutables@.len() == 0
        &&& self.temp_stack == 0
        &&& self.local_variable_indices@.len() == 0
    }

    pub fn new() -> (r: Self)
        ensures
            r.wf(),
            r.is_fresh(),
    {
        let r = Self {
            program: Program::new(),
            error: None,
            temp_stack: 0,
            last_was_call: false,
            local_variable_count: 0,
            local_variable_indices: Vec::new(),
        };
        assert(r.program.instructions@.len() == 0);
        assert(is_header_from(r.program.instructions@, 0, 0));
        r
    }

    /// Keeps the first error only.
    fn generate_error(&mut self, error: &str)
        requires
            old(self).wf(),
        ensures
            final(self).wf(),
            extends(old(self).program.instructions@, final(self).program.instructions@),
            old(self).program.immutables@.len() <= final(self).program.immutables@.len(),
            final(self).error is Some,
            final(self).program == old(self).program,
            final(self).last_was_call == old(self).last_was_call,
            final(self).temp_stack == old(self).temp_stack,
            final(self).local_variable_count == old(self).local_variable_count,
            final(self).local_variable_indices == old(self).local_variable_indices,
    {
        if self.error.is_some() {
            return;
        }
        let mut message = bytes_of("[Bytecode Gen Error]: ");
        crate::text::append_str(&mut message, error);
        self.error = Some(message);
    }

    /// Appends one single-word instruction, or records an error when the
    /// program is full.
    fn add_instruction(&mut self, instruction: Instruction)
        requires
            old(self).wf(),
            instruction_length(instruction) == 1,
            temporaries_below(instruction, MAX_TEMPORARIES),
        ensures
            final(self).wf(),
            extends(old(self).program.instructions@, final(self).program.instructions@),
            old(self).program.immutables@.len() <= final(self).program.immutables@.len(),
            final(self).ok() ==> old(self).ok() && final(self).program.instructions@ == old(
                self,
            ).program.instructions@.push(instruction),
            !final(self).ok() ==> final(self).program.instructions@ == old(
                self,
            ).program.instructions@,
            (old(self).ok() && old(self).program.instructions@.len() < MAX_CODE_WORDS)
                ==> final(self).ok(),
            final(self).program.immutables == old(self).program.immutables,
            final(self).temp_stack == old(self).temp_stack,
            !final(self).last_was_call,
            final(self).local_variable_count == old(self).local_variable_count,
            final(self).local_variable_indices == old(self).local_variable_indices,
    {
        self.last_was_call = false;
        if self.error.is_some() {
            return;
        }
        if self.program.instructions.len() >= MAX_CODE_WORDS {
            self.generate_error("program too long");
            return;
        }
        proof {
            lemma_code_append(self.program.instructions@, seq![instruction]);
            assert(self.program.instructions@ + seq![instruction]
                =~= self.program.instructions@.push(instruction));
        }
        self.program.instructions.push(instruction);
    }

    /// Appends an instruction with its payload words.
    fn add_instruction_with_payload(&mut self, instruction: Instruction, payload: &Vec<u32>)
        requires
            old(self).wf(),
            instruction_length(instruction) == 1 + payload@.len(),
            payload@.len() <= 2,
            temporaries_below(instruction, MAX_TEMPORARIES),
        ensures
            final(self).wf(),
            extends(old(self).program.instructions@, final(self).program.instructions@),
            old(self).program.immutables@.len() <= final(self).program.immutables@.len(),
            final(self).ok() ==> old(self).ok() && final(self).program.instructions@ == old(
                self,
            ).program.instructions@ + seq![instruction] + payload@,
            final(self).program.immutables == old(self).program.immutables,
            final(self).temp_stack == old(self).temp_stack,
            !final(self).last_was_call,
            final(self).local_variable_count == old(self).local_variable_count,
            final(self).local_variable_indices == old(self).local_variable_indices,
            (old(self).ok() && old(self).program.instructions@.len() + 3 <= MAX_CODE_WORDS)
                ==> final(self).ok(),
    {
        self.last_was_call = false;
        if self.error.is_some() {
            return;
        }
        if self.program.instructions.len() >= MAX_CODE_WORDS - 2 {
            self.generate_error("program too long");
            return;
        }
        let ghost before = self.program.instructions@;
        let ghost unit = seq![instruction] + payload@;
        proof {
            lemma_code_append(before, unit);
        }
        self.program.instructions.push(instruction);
        let mut i: usize = 0;
        while i < payload.len()
            invariant
                i <= payload@.len(),
                payload@.len() <= 2,
                before.len() + 3 <= MAX_CODE_WORDS,
                self.program.instructions@ == before + unit.subrange(0, 1 + i as int),
                before == old(self).program.instructions@,
                unit == seq![instruction] + payload@,
                code_ok(before + unit),
                self.program.immutables == old(self).program.immutables,
                self.error == old(self).error,
                self.temp_stack == old(self).temp_stack,
                !self.last_was_call,
                self.local_variable_count == old(self).local_variable_count,
                self.local_variable_indices == old(self).local_variable_indices,
            decreases payload@.len() - i,
        {
            self.program.instructions.push(payload[i]);
            i = i + 1;
            assert(self.program.instructions@ =~= before + unit.subrange(0, 1 + i as int));
        }
        assert(unit.subrange(0, 1 + i as int) =~= unit);
        assert(before + unit =~= before + seq![instruction] + payload@);
    }

    /// Replaces a single-word placeholder with another single-word instruction.
    fn patch_instruction(&mut self, index: usize, instruction: Instruction)
        requires
            old(self).wf(),
            index < old(self).program.instructions@.len(),
            instruction_length(old(self).program.instructions@[index as int]) == 1,
            instruction_length(instruction) == 1,
            temporaries_below(instruction, MAX_TEMPORARIES),
        ensures
            final(self).wf(),
            final(self).program.instructions@ == old(self).program.instructions@.update(
                index as int,
                instruction,
            ),
            final(self).program.immutables == old(self).program.immutables,
            final(self).error == old(self).error,
            final(self).temp_stack == old(self).temp_stack,
            final(self).last_was_call == old(self).last_was_call,
            final(self).local_variable_count == old(self).local_variable_count,
            final(self).local_variable_indices == old(self).local_variable_indices,
    {
        proof {
            lemma_code_patch(self.program.instructions@, index as int, instruction);
        }
        self.program.instructions[index] = instruction;
    }

    /// The index of a string in the immutables, interning it when new.
    fn get_immutable_index(&mut self, text: &Vec<u8>) -> (r: Instruction)
        requires
            old(self).wf(),
        ensures
            final(self).wf(),
            extends(old(self).program.instructions@, final(self).program.instructions@),
            old(self).program.immutables@.len() <= final(self).program.immutables@.len(),
            r < 0x1_0000,
            final(self).ok() ==> old(self).ok() && r < final(self).program.immutables@.len()
                && final(self).program.immutables@[r as int]@ == crate::object::ObjectModel::Text(
                text@,
            ),
            final(self).ok() ==> old(self).program.immutables@.is_prefix_of(
                final(self).program.immutables@,
            ),
            final(self).ok() ==> r == interned(objects_view(old(self).program.immutables@), text@).0
                && objects_view(final(self).program.immutables@) == interned(
                objects_view(old(self).program.immutables@),
                text@,
            ).1,
            final(self).program.instructions == old(self).program.instructions,
            final(self).temp_stack == old(self).temp_stack,
            final(self).last_was_call == old(self).last_was_call,
            final(self).local_variable_count == old(self).local_variable_count,
            final(self).local_variable_indices == old(self).local_variable_indices,
            (old(self).ok() && old(self).program.immutables@.len() < MAX_IMMUTABLES)
                ==> final(self).ok(),
            final(self).program.immutables@.len() <= old(self).program.immutables@.len() + 1,
    {
        let mut i: usize = 0;
        while i < self.program.immutables.len()
            invariant
                self.wf(),
                self == old(self),
                i <= self.program.immutables@.len(),
                first_text(objects_view(self.program.immutables@), text@, 0) == first_text(
                    objects_view(self.program.immutables@),
                    text@,
                    i as int,
                ),
            decreases self.program.immutables@.len() - i,
        {
            match &self.program.immutables[i] {
                NovaObject::String(s) => {
                    if bytes_equal(s, text) {
                        return i as Instruction;
                    }
                },
                _ => {},
            }
            i = i + 1;
        }
        if self.program.immutables.len() >= MAX_IMMUTABLES {
            self.generate_error("too many constants");
            return 0;
        }
        let ghost before = self.program.immutables@;
        self.program.immutables.push(NovaObject::String(copy_bytes(text)));
        assert(objects_view(self.program.immutables@) =~= objects_view(before).push(
            ObjectModel::Text(text@),
        ));
        (self.program.immutables.len() - 1) as Instruction
    }

    /// Appends a function descriptor to the immutables.
    fn add_function_immutable(&mut self, function: NovaFunction) -> (r: Instruction)
        requires
            old(self).wf(),
        ensures
            final(self).wf(),
            extends(old(self).program.instructions@, final(self).program.instructions@),
            old(self).program.immutables@.len() <= final(self).program.immutables@.len(),
            r < 0x1_0000,
            final(self).ok() ==> old(self).ok() && r < final(self).program.immutables@.len()
                && final(self).program.immutables@[r as int] is NovaFunction,
            final(self).program.instructions == old(self).program.instructions,
            final(self).temp_stack == old(self).temp_stack,
            final(self).last_was_call == old(self).last_was_call,
            final(self).local_variable_count == old(self).local_variable_count,
            final(self).local_variable_indices == old(self).local_variable_indices,
            (old(self).ok() && old(self).program.immutables@.len() < MAX_IMMUTABLES)
                ==> final(self).ok() && final(self).program.immutables@.len() == old(
                self,
            ).program.immutables@.len() + 1,
    {
        if self.error.is_some() {
            return 0;
        }
        if self.program.immutables.len() >= MAX_IMMUTABLES {
            self.generate_error("too many constants");
            return 0;
        }
        self.program.immutables.push(NovaObject::NovaFunction(function));
        (self.program.immutables.len() - 1) as Instruction
    }

    /// Gives `name` the next local slot in the innermost scope.
    fn allocate_local(&mut self, name: &Vec<u8>) -> (r: Instruction)
        requires
            old(self).wf(),
        ensures
            final(self).wf(),
            extends(old(self).program.instructions@, final(self).program.instructions@),
            old(self).program.immutables@.len() <= final(self).program.immutables@.len(),
            r < 0x1_0000,
            final(self).ok() ==> old(self).ok() && r == old(self).local_variable_count
                && final(self).local_variable_count == old(self).local_variable_count + 1,
            final(self).local_variable_indices@.len() == old(self).local_variable_indices@.len(),
            final(self).program == old(self).program,
            final(self).temp_stack == old(self).temp_stack,
            final(self).last_was_call == old(self).last_was_call,
            (old(self).ok() && old(self).local_variable_indices@.len() > 0
                && old(self).local_variable_count < MAX_LOCALS) ==> final(self).ok(),
    {
        if self.error.is_some() {
            return 0;
        }
        let count = self.local_variable_indices.len();
        if count == 0 {
            self.generate_error("Error allocating local variable");
            return 0;
        }
        if self.local_variable_count >= MAX_LOCALS {
            self.generate_error("too many local variables");
            return 0;
        }
        let index = self.local_variable_count;
        let mut scope = self.local_variable_indices.pop().unwrap();
        scope.push((copy_bytes(name), index));
        self.local_variable_indices.push(scope);
        self.local_variable_count = index + 1;
        proof {
            let s = self.local_variable_indices@;
            assert forall|a: int, k: int|
                0 <= a < s.len() && 0 <= k < s[a]@.len() implies (#[trigger] s[a]@[k]).1
                < 0x1_0000 by {
                if a < s.len() - 1 {
                    assert(s[a] == old(self).local_variable_indices@[a]);
                } else if k < s[a]@.len() - 1 {
                    assert(s[a]@[k] == old(self).local_variable_indices@[a]@[k]);
                }
            }
        }
        index
    }

    /// The slot of the innermost local named `name`, if any.
    fn get_local_index(&self, name: &Vec<u8>) -> (r: Option<Instruction>)
        requires
            self.wf(),
        ensures
            r matches Some(i) ==> i < 0x1_0000,
            self.local_variable_indices@.len() == 0 ==> r is None,
    {
        let mut scope = self.local_variable_indices.len();
        while scope > 0
            invariant
                self.wf(),
                scope <= self.local_variable_indices@.len(),
            decreases scope,
        {
            scope = scope - 1;
            let map = &self.local_variable_indices[scope];
            let mut k: usize = map.len();
            while k > 0
                invariant
                    self.wf(),
                    scope < self.local_variable_indices@.len(),
                    *map == self.local_variable_indices@[scope as int],
                    k <= map@.len(),
                decreases k,
            {
                k = k - 1;
                if bytes_equal(&map[k].0, name) {
                    assert((self.local_variable_indices@[scope as int]@[k as int]).1 < 0x1_0000);
                    return Some(map[k].1);
                }
            }
        }
        None
    }

    /// Materializes the return value of a call that was just emitted into a
    /// fresh temporary.
    fn check_call_and_load_return(&mut self)
        requires
            old(self).wf(),
        ensures
            final(self).wf(),
            extends(old(self).program.instructions@, final(self).program.instructions@),
            old(self).program.immutables@.len() <= final(self).program.immutables@.len(),
            final(self).ok() ==> old(self).ok() && final(self).temp_stack == old(self).temp_stack
                + (if old(self).last_was_call {
                1u32
            } else {
                0u32
            }),
            final(self).local_variable_count == old(self).local_variable_count,
            final(self).local_variable_indices == old(self).local_variable_indices,
            !old(self).last_was_call ==> final(self).program == old(self).program
                && final(self).error == old(self).error && final(self).temp_stack == old(
                self,
            ).temp_stack && final(self).last_was_call == old(self).last_was_call,
    {
        if !self.last_was_call || self.error.is_some() {
            return;
        }
        if self.temp_stack >= MAX_TEMPORARIES {
            self.generate_error("expression too complex");
            return;
        }
        let destination = self.temp_stack;
        let w = InstructionBuilder::new().add_opcode(OpCode::LoadReturn).add_destination_register(
            destination,
        ).build();
        proof {
            lemma_codec_round_trip(OpCode::LoadReturn.spec_code(), destination, 0, 0);
        }
        self.add_instruction(w);
        if self.error.is_none() {
            self.temp_stack = destination + 1;
        }
    }

    /// Claims the next temporary register.
    fn push_temporary(&mut self) -> (r: u32)
        requires
            old(self).wf(),
        ensures
            final(self).wf(),
            extends(old(self).program.instructions@, final(self).program.instructions@),
            old(self).program.immutables@.len() <= final(self).program.immutables@.len(),
            r < MAX_TEMPORARIES,
            final(self).ok() ==> old(self).ok() && r == old(self).temp_stack
                && final(self).temp_stack == old(self).temp_stack + 1,
            final(self).program == old(self).program,
            final(self).last_was_call == old(self).last_was_call,
            final(self).local_variable_count == old(self).local_variable_count,
            final(self).local_variable_indices == old(self).local_variable_indices,
            (old(self).ok() && old(self).temp_stack < MAX_TEMPORARIES) ==> final(self).ok(),
    {
        if self.error.is_some() {
            return 0;
        }
        if self.temp_stack >= MAX_TEMPORARIES {
            self.generate_error("expression too complex");
            return 0;
        }
        let r = self.temp_stack;
        self.temp_stack = r + 1;
        r
    }

    /// Lowers an expression whose value is needed; its register is returned.
    fn evaluate_value(&mut self, expression: &Expression) -> (r: u32)
        requires
            old(self).wf(),
        ensures
            final(self).wf(),
            extends(old(self).program.instructions@, final(self).program.instructions@),
            old(self).program.immutables@.len() <= final(self).program.immutables@.len(),
            r < MAX_TEMPORARIES,
            final(self).ok() ==> old(self).ok() && r == old(self).temp_stack
                && final(self).temp_stack == old(self).temp_stack + 1,
            final(self).local_variable_count == old(self).local_variable_count,
            final(self).local_variable_indices == old(self).local_variable_indices,
            old(self).owed(*expression) ==> final(self).lowered_from(old(self), *expression),
            (old(self).owed(*expression) && old(self).local_variable_indices@.len() == 0)
                ==> final(self).lowered_exactly(old(self), *expression),
        decreases expression, 3int,
    {
        let base = self.temp_stack;
        self.evaluate(expression);
        self.check_call_and_load_return();
        if self.error.is_some() {
            return 0;
        }
        if base >= MAX_TEMPORARIES || self.temp_stack != base + 1 {
            self.generate_error("expression has no value");
            return 0;
        }
        base
    }

    fn evaluate(&mut self, expression: &Expression)
        requires
            old(self).wf(),
        ensures
            final(self).wf(),
            extends(old(self).program.instructions@, final(self).program.instructions@),
            old(self).program.immutables@.len() <= final(self).program.immutables@.len(),
            final(self).ok() ==> old(self).ok() && old(self).temp_stack <= final(self).temp_stack
                <= old(self).temp_stack + 1,
            final(self).local_variable_count == old(self).local_variable_count,
            final(self).local_variable_indices == old(self).local_variable_indices,
            old(self).owed(*expression) ==> final(self).lowered_from(old(self), *expression),
            (old(self).owed(*expression) && old(self).local_variable_indices@.len() == 0)
                ==> final(self).lowered_exactly(old(self), *expression),
        decreases expression, 2int,
    {
        if self.error.is_some() {
            return;
        }
        match expression {
            Expression::Literal(literal) => self.visit_literal(literal),
            Expression::Variable(name) => self.visit_variable(name),
            Expression::Assign(..) => self.visit_assign(expression),
            Expression::Binary(..) => self.visit_binary(expression),
            Expression::Unary(..) => self.visit_unary(expression),
            Expression::Grouping(inner) => self.evaluate(inner),
            Expression::Call(..) => self.visit_call(expression),
        }
    }

    fn add_integer(&mut self, number: i64, register_index: Instruction)
        requires
            old(self).wf(),
            register_index < MAX_TEMPORARIES,
        ensures
            final(self).wf(),
            extends(old(self).program.instructions@, final(self).program.instructions@),
            old(self).program.immutables@.len() <= final(self).program.immutables@.len(),
            final(self).ok() ==> old(self).ok(),
            final(self).temp_stack == old(self).temp_stack,
            final(self).local_variable_count == old(self).local_variable_count,
            final(self).local_variable_indices == old(self).local_variable_indices,
            (old(self).ok() && old(self).program.instructions@.len() + 3 <= MAX_CODE_WORDS)
                ==> final(self).ok() && !final(self).last_was_call
                && final(self).program.instructions@.len() <= old(self).program.instructions@.len() + 3,
            final(self).program.immutables == old(self).program.immutables,
            (old(self).ok() && old(self).program.instructions@.len() + 3 <= MAX_CODE_WORDS)
                ==> final(self).program.instructions@ == old(self).program.instructions@
                + integer_words(number, register_index),
    {
        if number < -0x8000_0000 || number > 0x7fff_ffff {
            let w = InstructionBuilder::new().add_opcode(OpCode::LoadInt64).add_destination_register(
                register_index,
            ).build();
            proof {
                lemma_codec_round_trip(OpCode::LoadInt64.spec_code(), register_index, 0, 0);
            }
            let (first, second) = split_u64(number as u64);
            let mut payload: Vec<u32> = Vec::new();
            payload.push(first);
            payload.push(second);
            assert(payload@ =~= seq![first, second]);
            self.add_instruction_with_payload(w, &payload);
            return;
        }
        let w = InstructionBuilder::new().add_opcode(OpCode::LoadInt32).add_destination_register(
            register_index,
        ).build();
        proof {
            lemma_codec_round_trip(OpCode::LoadInt32.spec_code(), register_index, 0, 0);
        }
        let mut payload: Vec<u32> = Vec::new();
        payload.push((number as i32) as u32);
        assert(payload@ =~= seq![(number as i32) as u32]);
        self.add_instruction_with_payload(w, &payload);
    }

    fn visit_literal(&mut self, literal: &Literal)
        requires
            old(self).wf(),
        ensures
            final(self).wf(),
            extends(old(self).program.instructions@, final(self).program.instructions@),
            old(self).program.immutables@.len() <= final(self).program.immutables@.len(),
            final(self).ok() ==> old(self).ok() && final(self).temp_stack == old(self).temp_stack
                + 1,
            final(self).local_variable_count == old(self).local_variable_count,
            final(self).local_variable_indices == old(self).local_variable_indices,
            old(self).owed(Expression::Literal(*literal)) ==> final(self).lowered_from(
                old(self),
                Expression::Literal(*literal),
            ),
            (old(self).owed(Expression::Literal(*literal))
                && old(self).local_variable_indices@.len() == 0) ==> final(self).lowered_exactly(
                old(self),
                Expression::Literal(*literal),
            ),
    {
        let register_index = self.push_temporary();
        if self.error.is_some() {
            return;
        }
        match literal {
            Literal::Integer(number) => {
                self.add_integer(*number, register_index);
            },
            Literal::Float32(bits) => {
                let w = InstructionBuilder::new_load_float32_instruction(register_index);
                proof {
                    lemma_codec_round_trip(OpCode::LoadFloat32.spec_code(), register_index, 0, 0);
                }
                let mut payload: Vec<u32> = Vec::new();
                payload.push(*bits);
                assert(payload@ =~= seq![*bits]);
                assert(seq![w] + payload@ =~= seq![w, *bits]);
                self.add_instruction_with_payload(w, &payload);
                assert(old(self).program.instructions@ + seq![w] + payload@ =~= old(
                    self,
                ).program.instructions@ + (seq![w] + payload@));
            },
            Literal::Float64(bits) => {
                let w = InstructionBuilder::new().add_opcode(
                    OpCode::LoadFloat64,
                ).add_destination_register(register_index).build();
                proof {
                    lemma_codec_round_trip(OpCode::LoadFloat64.spec_code(), register_index, 0, 0);
                }
                let (first, second) = split_u64(*bits);
                let mut payload: Vec<u32> = Vec::new();
            payload.push(first);
            payload.push(second);
            assert(payload@ =~= seq![first, second]);
                assert(seq![w] + payload@ =~= seq![w, first, second]);
                self.add_instruction_with_payload(w, &payload);
                assert(old(self).program.instructions@ + seq![w] + payload@ =~= old(
                    self,
                ).program.instructions@ + (seq![w] + payload@));
            },
            Literal::Bool(value) => {
                let flag: u32 = if *value {
                    1
                } else {
                    0
                };
                let w = InstructionBuilder::new_load_bool(register_index, flag);
                proof {
                    lemma_codec_round_trip(OpCode::LoadBool.spec_code(), register_index, 0, flag);
                }
                let ghost mid = self.program.instructions@;
                self.add_instruction(w);
                assert(mid.push(w) =~= mid + seq![w]);
            },
            Literal::Nil => {
                let w = InstructionBuilder::new().add_opcode(OpCode::LoadNil).add_destination_register(
                    register_index,
                ).build();
                proof {
                    lemma_codec_round_trip(OpCode::LoadNil.spec_code(), register_index, 0, 0);
                }
                let ghost mid = self.program.instructions@;
                self.add_instruction(w);
                assert(mid.push(w) =~= mid + seq![w]);
            },
            Literal::String(text) => {
                let index = self.get_immutable_index(text);
                let w = InstructionBuilder::new_load_constant_instruction(register_index, index);
                proof {
                    lemma_codec_round_trip(OpCode::LoadK.spec_code(), register_index, 0, index);
                }
                let ghost mid = self.program.instructions@;
                self.add_instruction(w);
                assert(mid.push(w) =~= mid + seq![w]);
            },
        }
    }

    /// Loads a variable: a local when one of that name is visible, else a
    /// global looked up by name.
    fn visit_variable(&mut self, name: &Vec<u8>)
        requires
            old(self).wf(),
        ensures
            final(self).wf(),
            extends(old(self).program.instructions@, final(self).program.instructions@),
            old(self).program.immutables@.len() <= final(self).program.immutables@.len(),
            final(self).ok() ==> old(self).ok() && final(self).temp_stack == old(self).temp_stack
                + 1,
            final(self).local_variable_count == old(self).local_variable_count,
            final(self).local_variable_indices == old(self).local_variable_indices,
            old(self).owed(Expression::Variable(*name)) ==> final(self).lowered_from(
                old(self),
                Expression::Variable(*name),
            ),
            (old(self).owed(Expression::Variable(*name))
                && old(self).local_variable_indices@.len() == 0) ==> final(self).lowered_exactly(
                old(self),
                Expression::Variable(*name),
            ),
    {
        let destination = self.push_temporary();
        if self.error.is_some() {
            return;
        }
        let ghost mid = self.program.instructions@;
        self.load_name(name, destination);
        assert(forall|x: u32| mid.push(x) =~= mid + seq![x]);
    }

    /// Emits the load of variable `name` into `destination`.
    fn load_name(&mut self, name: &Vec<u8>, destination: u32)
        requires
            old(self).wf(),
            destination < MAX_TEMPORARIES,
        ensures
            final(self).wf(),
            extends(old(self).program.instructions@, final(self).program.instructions@),
            old(self).program.immutables@.len() <= final(self).program.immutables@.len(),
            final(self).ok() ==> old(self).ok(),
            final(self).temp_stack == old(self).temp_stack,
            final(self).local_variable_count == old(self).local_variable_count,
            final(self).local_variable_indices == old(self).local_variable_indices,
            (old(self).ok() && old(self).program.instructions@.len() < MAX_CODE_WORDS
                && old(self).program.immutables@.len() < MAX_IMMUTABLES) ==> final(self).ok()
                && !final(self).last_was_call && final(self).program.instructions@.len()
                == old(self).program.instructions@.len() + 1
                && final(self).program.immutables@.len() <= old(self).program.immutables@.len() + 1,
            (old(self).ok() && old(self).program.instructions@.len() < MAX_CODE_WORDS
                && old(self).program.immutables@.len() < MAX_IMMUTABLES
                && old(self).local_variable_indices@.len() == 0) ==> final(self).program.instructions@
                == old(self).program.instructions@.push(
                encode(
                    OpCode::LoadGlobalIndirect.spec_code(),
                    destination,
                    0,
                    interned(objects_view(old(self).program.immutables@), name@).0 as u32,
                ) as u32,
            ) && objects_view(final(self).program.immutables@) == interned(
                objects_view(old(self).program.immutables@),
                name@,
            ).1,
    {
        if let Some(index) = self.get_local_index(name) {
            let w = InstructionBuilder::new_load_local(destination, index);
            proof {
                lemma_codec_round_trip(OpCode::LoadLocal.spec_code(), destination, 0, index);
            }
            self.add_instruction(w);
            return;
        }
        let name_index = self.get_immutable_index(name);
        let w = InstructionBuilder::new_load_global_indirect(destination, name_index);
        proof {
            lemma_codec_round_trip(OpCode::LoadGlobalIndirect.spec_code(), destination, 0, name_index);
        }
        self.add_instruction(w);
    }

    /// Emits the store of register `source` into variable `name`.
    fn store_name(&mut self, name: &Vec<u8>, source: u32)
        requires
            old(self).wf(),
            source < MAX_TEMPORARIES,
        ensures
            final(self).wf(),
            extends(old(self).program.instructions@, final(self).program.instructions@),
            old(self).program.immutables@.len() <= final(self).program.immutables@.len(),
            final(self).ok() ==> old(self).ok(),
            final(self).temp_stack == old(self).temp_stack,
            final(self).local_variable_count == old(self).local_variable_count,
            final(self).local_variable_indices == old(self).local_variable_indices,
    {
        if let Some(index) = self.get_local_index(name) {
            let w = InstructionBuilder::new_store_local(source, index);
            proof {
                lemma_codec_round_trip(OpCode::StoreLocal.spec_code(), 0, source, index);
            }
            self.add_instruction(w);
            return;
        }
        let name_index = self.get_immutable_index(name);
        let w = InstructionBuilder::new_store_global_indirect(source, name_index);
        proof {
            lemma_codec_round_trip(OpCode::StoreGlobalIndirect.spec_code(), 0, source, name_index);
        }
        self.add_instruction(w);
    }

    fn visit_assign(&mut self, expression: &Expression)
        requires
            old(self).wf(),
            expression is Assign,
        ensures
            final(self).wf(),
            extends(old(self).program.instructions@, final(self).program.instructions@),
            old(self).program.immutables@.len() <= final(self).program.immutables@.len(),
            final(self).ok() ==> old(self).ok() && final(self).temp_stack == old(self).temp_stack,
            final(self).local_variable_count == old(self).local_variable_count,
            final(self).local_variable_indices == old(self).local_variable_indices,
        decreases expression, 1int,
    {
        let (name, value) = match expression {
            Expression::Assign(name, value) => (name, value),
            _ => {
                return;
            },
        };
        let source = self.evaluate_value(value);
        if self.error.is_some() {
            return;
        }
        self.temp_stack = source;
        self.store_name(name, source);
    }

    fn visit_binary(&mut self, expression: &Expression)
        requires
            old(self).wf(),
            expression is Binary,
        ensures
            final(self).wf(),
            extends(old(self).program.instructions@, final(self).program.instructions@),
            old(self).program.immutables@.len() <= final(self).program.immutables@.len(),
            final(self).ok() ==> old(self).ok() && final(self).temp_stack == old(self).temp_stack
                + 1,
            final(self).local_variable_count == old(self).local_variable_count,
            final(self).local_variable_indices == old(self).local_variable_indices,
            final(self).ok() ==> ({
                let l = old(self).temp_stack;
                let words = final(self).program.instructions@;
                let n = words.len();
                let code = binary_code(expression->Binary_1);
                let w = encode(code.unwrap().0.spec_code(), l, l, (l + 1) as u32) as u32;
                &&& code is Some
                &&& !code.unwrap().1 ==> n >= old(self).program.instructions@.len() + 1 && words[n
                    - 1] == w
                &&& code.unwrap().1 ==> n >= old(self).program.instructions@.len() + 2 && words[n
                    - 2] == w && words[n - 1] == encode(OpCode::Not.spec_code(), l, l, 0) as u32
            }),
            (old(self).ok() && binary_code(expression->Binary_1) is None) ==> !final(self).ok(),
            old(self).owed(*expression) ==> final(self).lowered_from(old(self), *expression),
            (old(self).owed(*expression) && old(self).local_variable_indices@.len() == 0)
                ==> final(self).lowered_exactly(old(self), *expression),
        decreases expression, 1int,
    {
        let (left, operator, right) = match expression {
            Expression::Binary(left, operator, right) => (left, *operator, right),
            _ => {
                return;
            },
        };
        let left_index = self.evaluate_value(left);
        let ghost after_left = self.program.instructions@;
        let right_index = self.evaluate_value(right);
        let ghost after_right = self.program.instructions@;
        if self.error.is_some() {
            return;
        }
        let (opcode, invert) = match operator {
            BinaryOperator::Plus => (OpCode::Add, false),
            BinaryOperator::Minus => (OpCode::Sub, false),
            BinaryOperator::Slash => (OpCode::Div, false),
            BinaryOperator::Star => (OpCode::Mul, false),
            BinaryOperator::Caret => (OpCode::Pow, false),
            BinaryOperator::Percent => (OpCode::Mod, false),
            BinaryOperator::Less => (OpCode::Less, false),
            BinaryOperator::LessEqual => (OpCode::LessEqual, false),
            BinaryOperator::Greater => (OpCode::LessEqual, true),
            BinaryOperator::GreaterEqual => (OpCode::Less, true),
            BinaryOperator::EqualEqual => (OpCode::Equal, false),
            BinaryOperator::NotEqual => (OpCode::Equal, true),
            _ => {
                self.generate_error("Unhandled binary operator");
                return;
            },
        };
        self.temp_stack = left_index + 1;
        let w = InstructionBuilder::new_binary_op_instruction(
            opcode,
            left_index,
            left_index,
            right_index,
        );
        proof {
            lemma_codec_round_trip(opcode.spec_code(), left_index, left_index, right_index);
        }
        self.add_instruction(w);
        let n = InstructionBuilder::new_not_instruction(left_index);
        if invert {
            proof {
                lemma_codec_round_trip(OpCode::Not.spec_code(), left_index, left_index, 0);
            }
            self.add_instruction(n);
            assert(after_right.push(w).push(n) =~= after_right + seq![w, n]);
        } else {
            assert(after_right.push(w) =~= after_right + seq![w]);
        }
        proof {
            if old(self).owed(*expression) && old(self).local_variable_indices@.len() == 0 {
                let l = lower_expr(**left, old(self).temp_stack, objects_view(old(self).program.immutables@));
                let r = lower_expr(**right, (old(self).temp_stack + 1) as u32, l.1);
                assert(after_left == old(self).program.instructions@ + l.0);
                assert(after_right == after_left + r.0);
                assert(old(self).program.instructions@ + l.0 + r.0 =~= old(self).program.instructions@ + (l.0 + r.0));
                if invert {
                    assert(after_right + seq![w, n] =~= old(self).program.instructions@ + (l.0 + r.0
                        + seq![w, n]));
                } else {
                    assert(after_right + seq![w] =~= old(self).program.instructions@ + (l.0 + r.0
                        + seq![w]));
                }
            }
        }
    }

    fn visit_unary(&mut self, expression: &Expression)
        requires
            old(self).wf(),
            expression is Unary,
        ensures
            final(self).wf(),
            extends(old(self).program.instructions@, final(self).program.instructions@),
            old(self).program.immutables@.len() <= final(self).program.immutables@.len(),
            final(self).ok() ==> old(self).ok() && final(self).temp_stack == old(self).temp_stack
                + 1,
            final(self).local_variable_count == old(self).local_variable_count,
            final(self).local_variable_indices == old(self).local_variable_indices,
            final(self).ok() ==> expression->Unary_0 is Minus && final(self).program.instructions@.len()
                > old(self).program.instructions@.len() && final(self).program.instructions@.last()
                == encode(OpCode::Neg.spec_code(), 0, old(self).temp_stack, 0) as u32,
            (old(self).ok() && expression->Unary_0 is Bang) ==> !final(self).ok(),
            old(self).owed(*expression) ==> final(self).lowered_from(old(self), *expression),
            (old(self).owed(*expression) && old(self).local_variable_indices@.len() == 0)
                ==> final(self).lowered_exactly(old(self), *expression),
        decreases expression, 1int,
    {
        let (operator, right) = match expression {
            Expression::Unary(operator, right) => (*operator, right),
            _ => {
                return;
            },
        };
        let index = self.evaluate_value(right);
        if self.error.is_some() {
            return;
        }
        match operator {
            UnaryOperator::Minus => {
                let w = InstructionBuilder::new().add_opcode(OpCode::Neg).add_source_register_1(
                    index,
                ).build();
                proof {
                    lemma_codec_round_trip(OpCode::Neg.spec_code(), 0, index, 0);
                }
                self.add_instruction(w);
            },
            _ => {
                self.generate_error("Unhandled unary operator");
            },
        }
    }

    /// A call of a variable. `print` and `println`, unless a local shadows
    /// them, become `Print` instructions.
    fn visit_call(&mut self, expression: &Expression)
        requires
            old(self).wf(),
            expression is Call,
        ensures
            final(self).wf(),
            extends(old(self).program.instructions@, final(self).program.instructions@),
            old(self).program.immutables@.len() <= final(self).program.immutables@.len(),
            final(self).ok() ==> old(self).ok() && final(self).temp_stack == old(self).temp_stack,
            final(self).local_variable_count == old(self).local_variable_count,
            final(self).local_variable_indices == old(self).local_variable_indices,
            final(self).ok() ==> ({
                let words = final(self).program.instructions@;
                let n = words.len();
                let argc = expression->Call_1@.len();
                let base = old(self).temp_stack;
                &&& n > old(self).program.instructions@.len()
                &&& words[n - 1] == encode(
                    OpCode::Invoke.spec_code(),
                    base,
                    argc as u32,
                    (base + argc) as u32,
                ) as u32 || opcode_of(words[n - 1]) == OpCode::Print.spec_code()
            }),
        decreases expression, 1int,
    {
        let (callee, arguments) = match expression {
            Expression::Call(callee, arguments) => (callee, arguments),
            _ => {
                return;
            },
        };
        let name = match &**callee {
            Expression::Variable(name) => name,
            _ => {
                self.generate_error("Error compiling function call");
                return;
            },
        };
        let print_name = bytes_of("print");
        let println_name = bytes_of("println");
        let is_print = bytes_equal(name, &print_name);
        let is_println = bytes_equal(name, &println_name);
        if (is_print || is_println) && arguments.len() > 0 && self.get_local_index(name).is_none() {
            let base = self.temp_stack;
            let mut i: usize = 0;
            while i < arguments.len()
                invariant
                    self.wf(),
                    self.ok() ==> old(self).ok() && self.temp_stack == base,
                    base == old(self).temp_stack,
                    (self.ok() && i > 0) ==> self.program.instructions@.len() > old(
                        self,
                    ).program.instructions@.len() && opcode_of(self.program.instructions@.last())
                        == OpCode::Print.spec_code(),
                    i <= arguments@.len(),
                    extends(old(self).program.instructions@, self.program.instructions@),
                    old(self).program.immutables@.len() <= self.program.immutables@.len(),
                    expression is Call,
                    *arguments == expression->Call_1,
                    self.local_variable_count == old(self).local_variable_count,
                    self.local_variable_indices == old(self).local_variable_indices,
                decreases arguments@.len() - i,
            {
                proof {
                    lemma_argument_decreases(expression, i as int);
                }
                let source = self.evaluate_value(&arguments[i]);
                if self.error.is_some() {
                    return;
                }
                self.temp_stack = source;
                let newline = is_println && i + 1 == arguments.len();
                let w = InstructionBuilder::new_print_instruction(source, newline);
                proof {
                    lemma_codec_round_trip(
                        OpCode::Print.spec_code(),
                        if newline {
                            1
                        } else {
                            0
                        },
                        source,
                        0,
                    );
                }
                self.add_instruction(w);
                self.last_was_call = true;
                i = i + 1;
            }
            return;
        }
        let parameter_start = self.temp_stack;
        let mut i: usize = 0;
        while i < arguments.len()
            invariant
                self.wf(),
                self.ok() ==> old(self).ok() && self.temp_stack == parameter_start + i,
                parameter_start == old(self).temp_stack,
                i <= arguments@.len(),
                extends(old(self).program.instructions@, self.program.instructions@),
                old(self).program.immutables@.len() <= self.program.immutables@.len(),
                expression is Call,
                *arguments == expression->Call_1,
                self.local_variable_count == old(self).local_variable_count,
                self.local_variable_indices == old(self).local_variable_indices,
            decreases arguments@.len() - i,
        {
            proof {
                lemma_argument_decreases(expression, i as int);
            }
            self.evaluate_value(&arguments[i]);
            if self.error.is_some() {
                return;
            }
            i = i + 1;
        }
        let invoke_register = self.push_temporary();
        if self.error.is_some() {
            return;
        }
        self.load_name(name, invoke_register);
        if self.error.is_some() {
            return;
        }
        let parameters = arguments.len() as u32;
        let w = InstructionBuilder::new_invoke_instruction(
            parameter_start,
            parameters,
            invoke_register,
        );
        proof {
            lemma_codec_round_trip(
                OpCode::Invoke.spec_code(),
                parameter_start,
                parameters,
                invoke_register,
            );
        }
        self.add_instruction(w);
        self.last_was_call = true;
        self.temp_stack = parameter_start;
    }

    /// Lowers a whole program; `Halt` ends it.
    pub fn generate_bytecode(self, statements: &Vec<Statement>) -> (r: Result<Program, Vec<u8>>)
        requires
            self.wf(),
        ensures
            r matches Ok(program) ==> code_ok(program.instructions@)
                && program.instructions@.len() >= 1 && program.instructions@.last() == encode(
                OpCode::Halt.spec_code(),
                0,
                0,
                0,
            ) && program.instructions@.len() <= MAX_CODE_WORDS
                && program.immutables@.len() <= MAX_IMMUTABLES,
            (self.is_fresh() && (forall|k: int|
                0 <= k < statements@.len() ==> straight(#[trigger] statements@[k])) && program_size(
                statements@,
            ) < MAX_CODE_WORDS && program_names(statements@) <= MAX_IMMUTABLES) ==> (r matches Ok(
                program,
            ) && program.instructions@ == lower_program(statements@, Seq::empty()).0.push(
                encode(OpCode::Halt.spec_code(), 0, 0, 0) as u32,
            ) && objects_view(program.immutables@) == lower_program(statements@, Seq::empty()).1),
            (self.is_fresh() && (forall|k: int|
                0 <= k < statements@.len() ==> top_statement(#[trigger] statements@[k]))
                && top_program_size(statements@) < MAX_CODE_WORDS && top_program_names(statements@)
                <= MAX_IMMUTABLES) ==> r is Ok,
            self.is_fresh() && statements@.len() == 0 ==> (r matches Ok(program)
                && program.instructions@ == seq![encode(OpCode::Halt.spec_code(), 0, 0, 0) as u32]
                && program.immutables@.len() == 0),
    {
        let mut generator = self;
        let ghost start = generator;
        proof {
            if start.is_fresh() {
                assert(generator.program.instructions@ =~= lower_program(
                    statements@.subrange(0, 0),
                    Seq::empty(),
                ).0);
                assert(objects_view(generator.program.immutables@) =~= lower_program(
                    statements@.subrange(0, 0),
                    Seq::empty(),
                ).1);
            }
        }
        let mut i: usize = 0;
        while i < statements.len()
            invariant
                generator.wf(),
                i <= statements@.len(),
                statements@.len() == 0 ==> generator == start,
                (start.is_fresh() && (forall|k: int|
                    0 <= k < statements@.len() ==> top_statement(#[trigger] statements@[k]))
                    && top_program_size(statements@) < MAX_CODE_WORDS && top_program_names(
                    statements@,
                ) <= MAX_IMMUTABLES) ==> generator.ok() && generator.temp_stack == 0
                    && generator.local_variable_indices@.len() == 0
                    && generator.program.instructions@.len() <= top_program_size(
                    statements@.subrange(0, i as int),
                ) && generator.program.immutables@.len() <= top_program_names(
                    statements@.subrange(0, i as int),
                ),
                (start.is_fresh() && (forall|k: int|
                    0 <= k < statements@.len() ==> straight(#[trigger] statements@[k]))
                    && program_size(statements@) < MAX_CODE_WORDS && program_names(statements@)
                    <= MAX_IMMUTABLES) ==> generator.ok() && generator.temp_stack == 0
                    && generator.local_variable_indices@.len() == 0
                    && generator.program.instructions@.len() <= program_size(
                    statements@.subrange(0, i as int),
                ) && generator.program.immutables@.len() <= program_names(
                    statements@.subrange(0, i as int),
                ) && generator.program.instructions@ == lower_program(
                    statements@.subrange(0, i as int),
                    Seq::empty(),
                ).0 && objects_view(generator.program.immutables@) == lower_program(
                    statements@.subrange(0, i as int),
                    Seq::empty(),
                ).1,
            decreases statements@.len() - i,
        {
            proof {
                lemma_top_program_prefix(statements@, i + 1);
                lemma_program_prefix(statements@, i + 1);
                assert(statements@.subrange(0, i + 1).drop_last() =~= statements@.subrange(
                    0,
                    i as int,
                ));
            }
            let ghost before = generator.program.instructions@;
            generator.execute(&statements[i]);
            proof {
                if start.is_fresh() && (forall|k: int|
                    0 <= k < statements@.len() ==> straight(#[trigger] statements@[k]))
                    && program_size(statements@) < MAX_CODE_WORDS && program_names(statements@)
                    <= MAX_IMMUTABLES {
                    let front = lower_program(statements@.subrange(0, i as int), Seq::empty());
                    let last = lower_statement(statements@[i as int], front.1);
                    assert(generator.program.instructions@ =~= lower_program(
                        statements@.subrange(0, i + 1),
                        Seq::empty(),
                    ).0);
                }
            }
            i = i + 1;
        }
        let halt = InstructionBuilder::new_halt_instruction();
        proof {
            lemma_codec_round_trip(OpCode::Halt.spec_code(), 0, 0, 0);
            lemma_program_prefix(statements@, i as int);
            lemma_top_program_prefix(statements@, i as int);
            if i == statements@.len() {
                assert(statements@.subrange(0, i as int) =~= statements@);
            }
        }
        generator.add_instruction(halt);
        match generator.error {
            Some(error) => Err(error),
            None => Ok(generator.program),
        }
    }

    fn execute(&mut self, statement: &Statement)
        requires
            old(self).wf(),
        ensures
            final(self).wf(),
            extends(old(self).program.instructions@, final(self).program.instructions@),
            old(self).program.immutables@.len() <= final(self).program.immutables@.len(),
            final(self).ok() ==> old(self).ok() && final(self).temp_stack == old(self).temp_stack
                && final(self).local_variable_count >= old(self).local_variable_count,
            final(self).local_variable_indices@.len() == old(self).local_variable_indices@.len(),
            old(self).top_owed(*statement) ==> final(self).ok()
                && final(self).program.instructions@.len() <= old(self).program.instructions@.len()
                + statement_size(*statement) && final(self).program.immutables@.len() <= old(self).program.immutables@.len() + statement_names(*statement),
            old(self).top_owed(*statement) ==> final(self).program.instructions@ == old(
                self,
            ).program.instructions@ + lower_statement(
                *statement,
                objects_view(old(self).program.immutables@),
            ).0 && objects_view(final(self).program.immutables@) == lower_statement(
                *statement,
                objects_view(old(self).program.immutables@),
            ).1,
            old(self).scope_owed(*statement) ==> final(self).grew_by(old(self), *statement),
            old(self).top_level_owed(*statement) ==> final(self).ok()
                && final(self).program.instructions@.len() <= old(self).program.instructions@.len()
                + top_statement_size(*statement) && final(self).program.immutables@.len() <= old(
                self,
            ).program.immutables@.len() + top_statement_names(*statement),
        decreases statement, 2int,
    {
        if self.error.is_some() {
            return;
        }
        match statement {
            Statement::VarDeclaration(..) => self.visit_var_declaration(statement),
            Statement::Expression(expression) => {
                let base = self.temp_stack;
                self.evaluate(expression);
                if self.error.is_none() {
                    self.temp_stack = base;
                }
            },
            Statement::If(..) => self.visit_if(statement),
            Statement::While(..) => self.visit_while(statement),
            Statement::Block(..) => self.visit_block(statement),
            Statement::Function(..) => self.visit_function_statement(statement),
            Statement::Return(..) => self.visit_return(statement),
        }
    }

    /// Emits a single-word placeholder to be patched later; returns its index.
    fn add_placeholder(&mut self) -> (r: usize)
        requires
            old(self).wf(),
        ensures
            final(self).wf(),
            extends(old(self).program.instructions@, final(self).program.instructions@),
            old(self).program.immutables@.len() <= final(self).program.immutables@.len(),
            final(self).ok() ==> old(self).ok() && r == old(self).program.instructions@.len()
                && final(self).program.instructions@.len() == r + 1 && instruction_length(
                final(self).program.instructions@[r as int],
            ) == 1,
            final(self).temp_stack == old(self).temp_stack,
            final(self).local_variable_count == old(self).local_variable_count,
            final(self).local_variable_indices == old(self).local_variable_indices,
            (old(self).ok() && old(self).program.instructions@.len() < MAX_CODE_WORDS)
                ==> final(self).ok(),
            final(self).program.immutables == old(self).program.immutables,
    {
        let index = self.program.instructions.len();
        let w = InstructionBuilder::new().add_opcode(OpCode::NoInstruction).build();
        proof {
            lemma_codec_round_trip(OpCode::NoInstruction.spec_code(), 0, 0, 0);
        }
        self.add_instruction(w);
        index
    }

    /// Patches the placeholder at `at` with a forward jump to `target`.
    fn patch_forward_jump(&mut self, at: usize, target: usize)
        requires
            old(self).wf(),
            at < target <= old(self).program.instructions@.len(),
            instruction_length(old(self).program.instructions@[at as int]) == 1,
        ensures
            final(self).wf(),
            final(self).program.instructions@ == old(self).program.instructions@.update(
                at as int,
                encode(OpCode::Jump.spec_code(), 1, 0, (target - at) as u32) as u32,
            ),
            final(self).program.immutables == old(self).program.immutables,
            final(self).error == old(self).error,
            final(self).temp_stack == old(self).temp_stack,
            final(self).local_variable_count == old(self).local_variable_count,
            final(self).local_variable_indices == old(self).local_variable_indices,
    {
        let offset = (target - at) as u32;
        let w = InstructionBuilder::new_jump_instruction(offset, true);
        proof {
            lemma_codec_round_trip(OpCode::Jump.spec_code(), 1, 0, offset);
        }
        self.patch_instruction(at, w);
    }

    fn visit_var_declaration(&mut self, statement: &Statement)
        requires
            old(self).wf(),
            statement is VarDeclaration,
        ensures
            final(self).wf(),
            extends(old(self).program.instructions@, final(self).program.instructions@),
            old(self).program.immutables@.len() <= final(self).program.immutables@.len(),
            final(self).ok() ==> old(self).ok() && final(self).temp_stack == old(self).temp_stack
                && final(self).local_variable_count >= old(self).local_variable_count,
            final(self).local_variable_indices@.len() == old(self).local_variable_indices@.len(),
            old(self).top_owed(*statement) ==> final(self).ok()
                && final(self).program.instructions@.len() <= old(self).program.instructions@.len()
                + statement_size(*statement) && final(self).program.immutables@.len() <= old(self).program.immutables@.len() + statement_names(*statement),
            final(self).ok() ==> ({
                let words = final(self).program.instructions@;
                let n = words.len();
                let initialized = statement->VarDeclaration_1 is Some;
                let base = old(self).temp_stack;
                &&& (initialized || old(self).local_variable_indices@.len() == 0) ==> n > old(
                    self,
                ).program.instructions@.len()
                &&& old(self).local_variable_indices@.len() == 0 ==> (exists|k: int|
                    0 <= k < final(self).program.immutables@.len()
                        && #[trigger] final(self).program.immutables@[k]@ == ObjectModel::Text(
                        statement->VarDeclaration_0@,
                    ) && (initialized ==> n >= 2 && words[n - 2] == encode(
                        OpCode::DefineGlobalIndirect.spec_code(),
                        0,
                        0,
                        k as u32,
                    ) as u32 && words[n - 1] == encode(
                        OpCode::StoreGlobalIndirect.spec_code(),
                        0,
                        base,
                        k as u32,
                    ) as u32) && (!initialized ==> words[n - 1] == encode(
                        OpCode::DefineGlobalIndirect.spec_code(),
                        0,
                        0,
                        k as u32,
                    ) as u32))
                &&& old(self).local_variable_indices@.len() > 0 ==> final(self).local_variable_count
                    == old(self).local_variable_count + 1 && (initialized ==> words[n - 1] == encode(
                    OpCode::StoreLocal.spec_code(),
                    0,
                    base,
                    old(self).local_variable_count,
                ) as u32)
            }),
            old(self).top_owed(*statement) ==> final(self).program.instructions@ == old(
                self,
            ).program.instructions@ + lower_statement(
                *statement,
                objects_view(old(self).program.immutables@),
            ).0 && objects_view(final(self).program.immutables@) == lower_statement(
                *statement,
                objects_view(old(self).program.immutables@),
            ).1,
            old(self).scope_owed(*statement) ==> final(self).grew_by(old(self), *statement),
        decreases statement, 1int,
    {
        let (name, initializer) = match statement {
            Statement::VarDeclaration(name, initializer) => (name, initializer),
            _ => {
                return;
            },
        };
        let mut source: u32 = 0;
        let initialized = initializer.is_some();
        if let Some(value) = initializer {
            source = self.evaluate_value(value);
            if self.error.is_some() {
                return;
            }
            self.temp_stack = source;
        }
        if self.local_variable_indices.len() == 0 {
            let ghost after_value = self.program.instructions@;
            let name_index = self.get_immutable_index(name);
            let w = InstructionBuilder::new_define_global_indirect(name_index);
            proof {
                lemma_codec_round_trip(OpCode::DefineGlobalIndirect.spec_code(), 0, 0, name_index);
            }
            self.add_instruction(w);
            if initialized {
                let store = InstructionBuilder::new_store_global_indirect(source, name_index);
                proof {
                    lemma_codec_round_trip(
                        OpCode::StoreGlobalIndirect.spec_code(),
                        0,
                        source,
                        name_index,
                    );
                }
                self.add_instruction(store);
                assert(after_value.push(w).push(store) =~= after_value + seq![w, store]);
                proof {
                    if old(self).top_owed(*statement) {
                        let v = lower_expr(
                            initializer.unwrap(),
                            0,
                            objects_view(old(self).program.immutables@),
                        );
                        assert(after_value == old(self).program.instructions@ + v.0);
                        assert(after_value + seq![w, store] =~= old(self).program.instructions@ + (
                        v.0 + seq![w, store]));
                    }
                }
            } else {
                assert(after_value.push(w) =~= after_value + seq![w]);
            }
            return;
        }
        let index = self.allocate_local(name);
        if initialized {
            let store = InstructionBuilder::new_store_local(source, index);
            proof {
                lemma_codec_round_trip(OpCode::StoreLocal.spec_code(), 0, source, index);
            }
            self.add_instruction(store);
        }
    }

    fn visit_return(&mut self, statement: &Statement)
        requires
            old(self).wf(),
            statement is Return,
        ensures
            final(self).wf(),
            extends(old(self).program.instructions@, final(self).program.instructions@),
            old(self).program.immutables@.len() <= final(self).program.immutables@.len(),
            final(self).ok() ==> old(self).ok() && final(self).temp_stack == old(self).temp_stack
                && final(self).local_variable_count >= old(self).local_variable_count,
            final(self).local_variable_indices@.len() == old(self).local_variable_indices@.len(),
            old(self).scope_owed(*statement) ==> final(self).grew_by(old(self), *statement),
        decreases statement, 1int,
    {
        let value = match statement {
            Statement::Return(value) => value,
            _ => {
                return;
            },
        };
        if let Some(expression) = value {
            let source = self.evaluate_value(expression);
            if self.error.is_some() {
                return;
            }
            let w = InstructionBuilder::new_return_value(source);
            proof {
                lemma_codec_round_trip(OpCode::ReturnVal.spec_code(), 0, source, 0);
            }
            self.add_instruction(w);
            self.temp_stack = source;
            return;
        }
        let w = InstructionBuilder::new_return_none_instruction();
        proof {
            lemma_codec_round_trip(OpCode::ReturnNone.spec_code(), 0, 0, 0);
        }
        self.add_instruction(w);
    }

    /// Lowers a condition and emits the `JumpFalse` and the placeholder of its
    /// `Jump`; returns the placeholder's index.
    fn condition_jump(&mut self, condition: &Expression) -> (r: usize)
        requires
            old(self).wf(),
        ensures
            final(self).wf(),
            extends(old(self).program.instructions@, final(self).program.instructions@),
            old(self).program.immutables@.len() <= final(self).program.immutables@.len(),
            final(self).ok() ==> old(self).ok() && final(self).temp_stack == old(self).temp_stack
                && r >= old(self).program.instructions@.len()
                && r + 1 == final(self).program.instructions@.len() && instruction_length(
                final(self).program.instructions@[r as int],
            ) == 1,
            final(self).local_variable_count == old(self).local_variable_count,
            final(self).local_variable_indices == old(self).local_variable_indices,
    {
        let source = self.evaluate_value(condition);
        if self.error.is_some() {
            return 0;
        }
        self.temp_stack = source;
        let w = InstructionBuilder::new_jump_false_instruction(source);
        proof {
            lemma_codec_round_trip(OpCode::JumpFalse.spec_code(), 0, source, 0);
        }
        self.add_instruction(w);
        self.add_placeholder()
    }

    /// `if`: the condition's `JumpFalse` skips the then-branch; with an else
    /// branch, the then-branch ends in a jump over it.
    fn visit_if(&mut self, statement: &Statement)
        requires
            old(self).wf(),
            statement is If,
        ensures
            final(self).wf(),
            extends(old(self).program.instructions@, final(self).program.instructions@),
            old(self).program.immutables@.len() <= final(self).program.immutables@.len(),
            final(self).ok() ==> old(self).ok() && final(self).temp_stack == old(self).temp_stack
                && final(self).local_variable_count >= old(self).local_variable_count,
            final(self).local_variable_indices@.len() == old(self).local_variable_indices@.len(),
            final(self).ok() ==> ({
                let j = old(self).program.instructions@.len();
                let words = final(self).program.instructions@;
                let n = words.len();
                &&& statement->If_2 is None ==> exists|p: int|
                    j <= p < n && #[trigger] words[p] == encode(
                        OpCode::Jump.spec_code(),
                        1,
                        0,
                        (n - p) as u32,
                    ) as u32
                &&& statement->If_2 is Some ==> exists|p: int, q: int|
                    j <= p < q < n && #[trigger] words[p] == encode(
                        OpCode::Jump.spec_code(),
                        1,
                        0,
                        (q + 1 - p) as u32,
                    ) as u32 && #[trigger] words[q] == encode(
                        OpCode::Jump.spec_code(),
                        1,
                        0,
                        (n - q) as u32,
                    ) as u32
            }),
        decreases statement, 1int,
    {
        let (condition, then_branch, else_branch) = match statement {
            Statement::If(condition, then_branch, else_branch) => (
                condition,
                then_branch,
                else_branch,
            ),
            _ => {
                return;
            },
        };
        let jump_then_branch = self.condition_jump(condition);
        if self.error.is_some() {
            return;
        }
        self.execute(then_branch);
        if self.error.is_some() {
            return;
        }
        match else_branch {
            Some(else_statement) => {
                let jump_else_branch = self.add_placeholder();
                if self.error.is_some() {
                    return;
                }
                self.execute(else_statement);
                if self.error.is_some() {
                    return;
                }
                let end = self.program.instructions.len();
                self.patch_forward_jump(jump_else_branch, end);
                self.patch_forward_jump(jump_then_branch, jump_else_branch + 1);
                assert(self.program.instructions@[jump_then_branch as int] == encode(
                    OpCode::Jump.spec_code(),
                    1,
                    0,
                    (jump_else_branch + 1 - jump_then_branch) as u32,
                ) as u32);
                assert(self.program.instructions@[jump_else_branch as int] == encode(
                    OpCode::Jump.spec_code(),
                    1,
                    0,
                    (end - jump_else_branch) as u32,
                ) as u32);
            },
            None => {
                let end = self.program.instructions.len();
                self.patch_forward_jump(jump_then_branch, end);
                assert(self.program.instructions@[jump_then_branch as int] == encode(
                    OpCode::Jump.spec_code(),
                    1,
                    0,
                    (end - jump_then_branch) as u32,
                ) as u32);
            },
        }
    }

    /// `while`: the condition's jump leaves the loop; the body ends in a jump
    /// back to the condition.
    fn visit_while(&mut self, statement: &Statement)
        requires
            old(self).wf(),
            statement is While,
        ensures
            final(self).wf(),
            extends(old(self).program.instructions@, final(self).program.instructions@),
            old(self).program.immutables@.len() <= final(self).program.immutables@.len(),
            final(self).ok() ==> old(self).ok() && final(self).temp_stack == old(self).temp_stack
                && final(self).local_variable_count >= old(self).local_variable_count,
            final(self).local_variable_indices@.len() == old(self).local_variable_indices@.len(),
            final(self).ok() ==> ({
                let j = old(self).program.instructions@.len();
                let words = final(self).program.instructions@;
                let n = words.len();
                &&& n >= j + 2
                &&& words[n - 1] == encode(OpCode::Jump.spec_code(), 0, 0, (n - 1 - j) as u32) as u32
                &&& exists|p: int|
                    j <= p < n - 1 && #[trigger] words[p] == encode(
                        OpCode::Jump.spec_code(),
                        1,
                        0,
                        (n - p) as u32,
                    ) as u32
            }),
        decreases statement, 1int,
    {
        let (condition, body) = match statement {
            Statement::While(condition, body) => (condition, body),
            _ => {
                return;
            },
        };
        let loop_start = self.program.instructions.len();
        let jump_loop_index = self.condition_jump(condition);
        if self.error.is_some() {
            return;
        }
        self.execute(body);
        if self.error.is_some() {
            return;
        }
        let back = self.program.instructions.len();
        let back_offset = (back - loop_start) as u32;
        let w = InstructionBuilder::new_jump_instruction(back_offset, false);
        proof {
            lemma_codec_round_trip(OpCode::Jump.spec_code(), 0, 0, back_offset);
        }
        self.add_instruction(w);
        if self.error.is_some() {
            return;
        }
        let ghost pushed = self.program.instructions@;
        self.patch_forward_jump(jump_loop_index, back + 1);
        assert(self.program.instructions@[back as int] == pushed[back as int]);
        assert(self.program.instructions@[jump_loop_index as int] == encode(
            OpCode::Jump.spec_code(),
            1,
            0,
            (back + 1 - jump_loop_index) as u32,
        ) as u32);
    }

    /// The instruction that opens or closes a block of `slots` locals; none
    /// for no locals.
    fn generate_local_memory_instruction(allocate: bool, slots: Instruction) -> (r: Instruction)
        requires
            slots < 0x1_0000,
        ensures
            instruction_length(r) == 1,
            temporaries_below(r, MAX_TEMPORARIES),
            slots == 0 ==> r == encode(OpCode::NoInstruction.spec_code(), 0, 0, 0),
            slots != 0 && allocate ==> r == encode(OpCode::AllocateLocal.spec_code(), 0, 0, slots),
            slots != 0 && !allocate ==> r == encode(
                OpCode::DeallocateLocal.spec_code(),
                0,
                0,
                slots,
            ),
    {
        if slots == 0 {
            proof {
                lemma_codec_round_trip(OpCode::NoInstruction.spec_code(), 0, 0, 0);
            }
            return InstructionBuilder::new().add_opcode(OpCode::NoInstruction).build();
        }
        if allocate {
            proof {
                lemma_codec_round_trip(OpCode::AllocateLocal.spec_code(), 0, 0, slots);
            }
            return InstructionBuilder::new_allocate_local(slots);
        }
        proof {
            lemma_codec_round_trip(OpCode::DeallocateLocal.spec_code(), 0, 0, slots);
        }
        InstructionBuilder::new_deallocate_local(slots)
    }

    /// Lowers statements in order, stopping at the first error.
    fn execute_all(&mut self, statement: &Statement, statements: &Vec<Statement>)
        requires
            old(self).wf(),
            forall|i: int|
                0 <= i < statements@.len() ==> decreases_to!(*statement => #[trigger] statements@[i]),
        ensures
            final(self).wf(),
            extends(old(self).program.instructions@, final(self).program.instructions@),
            old(self).program.immutables@.len() <= final(self).program.immutables@.len(),
            final(self).ok() ==> old(self).ok() && final(self).temp_stack == old(self).temp_stack
                && final(self).local_variable_count >= old(self).local_variable_count,
            final(self).local_variable_indices@.len() == old(self).local_variable_indices@.len(),
            old(self).body_owed(statements@) ==> final(self).ok()
                && final(self).program.instructions@.len() <= old(self).program.instructions@.len()
                + program_size(statements@) && final(self).program.immutables@.len() <= old(
                self,
            ).program.immutables@.len() + program_names(statements@)
                && final(self).local_variable_count <= old(self).local_variable_count
                + statements@.len(),
        decreases statement, 0int,
    {
        let mut i: usize = 0;
        while i < statements.len()
            invariant
                self.wf(),
                extends(old(self).program.instructions@, self.program.instructions@),
                old(self).program.immutables@.len() <= self.program.immutables@.len(),
                self.ok() ==> old(self).ok() && self.temp_stack == old(self).temp_stack
                    && self.local_variable_count >= old(self).local_variable_count,
                self.local_variable_indices@.len() == old(self).local_variable_indices@.len(),
                i <= statements@.len(),
                forall|i: int|
                    0 <= i < statements@.len() ==> decreases_to!(*statement => #[trigger] statements@[i]),
                old(self).body_owed(statements@) ==> self.ok() && self.temp_stack == 0
                    && self.program.instructions@.len() <= old(self).program.instructions@.len()
                    + program_size(statements@.subrange(0, i as int))
                    && self.program.immutables@.len() <= old(self).program.immutables@.len()
                    + program_names(statements@.subrange(0, i as int)) && self.local_variable_count
                    <= old(self).local_variable_count + i,
            decreases statements@.len() - i,
        {
            proof {
                lemma_program_prefix(statements@, i + 1);
                assert(statements@.subrange(0, i + 1).drop_last() =~= statements@.subrange(
                    0,
                    i as int,
                ));
            }
            self.execute(&statements[i]);
            i = i + 1;
        }
        proof {
            assert(statements@.subrange(0, i as int) =~= statements@);
        }
    }

    /// A block: its own scope of locals, allocated on entry and released on exit.
    fn visit_block(&mut self, statement: &Statement)
        requires
            old(self).wf(),
            statement is Block,
        ensures
            final(self).wf(),
            extends(old(self).program.instructions@, final(self).program.instructions@),
            old(self).program.immutables@.len() <= final(self).program.immutables@.len(),
            final(self).ok() ==> old(self).ok() && final(self).temp_stack == old(self).temp_stack
                && final(self).local_variable_count >= old(self).local_variable_count,
            final(self).local_variable_indices@.len() == old(self).local_variable_indices@.len(),
            final(self).ok() ==> ({
                let j = old(self).program.instructions@.len();
                let words = final(self).program.instructions@;
                let n = words.len();
                let none = encode(OpCode::NoInstruction.spec_code(), 0, 0, 0) as u32;
                &&& n >= j + 2
                &&& (words[j as int] == none && words[n - 1] == none) || (opcode_of(words[j as int])
                    == OpCode::AllocateLocal.spec_code() && address_of(words[j as int]) > 0
                    && words[n - 1] == encode(
                    OpCode::DeallocateLocal.spec_code(),
                    0,
                    0,
                    address_of(words[j as int]),
                ) as u32)
            }),
        decreases statement, 1int,
    {
        let statements = match statement {
            Statement::Block(statements) => statements,
            _ => {
                return;
            },
        };
        proof {
            lemma_block_decreases(statement);
        }
        let placeholder_index = self.add_placeholder();
        if self.error.is_some() {
            return;
        }
        let count_before = self.local_variable_count;
        self.local_variable_indices.push(Vec::new());
        self.execute_all(statement, statements);
        let _ = self.local_variable_indices.pop();
        if self.error.is_some() {
            return;
        }
        let num_locals = self.local_variable_count - count_before;
        self.local_variable_count = count_before;
        let open = Self::generate_local_memory_instruction(true, num_locals);
        self.patch_instruction(placeholder_index, open);
        let close = Self::generate_local_memory_instruction(false, num_locals);
        proof {
            lemma_codec_round_trip(OpCode::AllocateLocal.spec_code(), 0, 0, num_locals);
        }
        let ghost patched = self.program.instructions@;
        self.add_instruction(close);
        assert(self.error.is_none() ==> self.program.instructions@[placeholder_index as int] == open);
    }

    /// A function definition: code that straight-line execution jumps over,
    /// a descriptor among the immutables, and the parameters stored from the
    /// argument registers into the function's first locals.
    fn visit_function_statement(&mut self, statement: &Statement)
        requires
            old(self).wf(),
            statement is Function,
        ensures
            final(self).wf(),
            extends(old(self).program.instructions@, final(self).program.instructions@),
            old(self).program.immutables@.len() <= final(self).program.immutables@.len(),
            final(self).ok() ==> old(self).ok() && final(self).temp_stack == old(self).temp_stack
                && final(self).local_variable_count >= old(self).local_variable_count,
            final(self).local_variable_indices@.len() == old(self).local_variable_indices@.len(),
            final(self).ok() ==> ({
                let j = old(self).program.instructions@.len();
                let words = final(self).program.instructions@;
                let n = words.len();
                let arity = statement->Function_1@.len();
                &&& n >= j + 2 + arity
                &&& words[j as int] == encode(OpCode::Jump.spec_code(), 1, 0, (n - j) as u32) as u32
                &&& forall|k: int|
                    0 <= k < arity ==> #[trigger] words[j + 1 + k] == encode(
                        OpCode::StoreLocal.spec_code(),
                        0,
                        k as u32,
                        k as u32,
                    ) as u32
                &&& words[n - 1] == encode(OpCode::ReturnNone.spec_code(), 0, 0, 0) as u32
                &&& exists|f: int|
                    0 <= f < final(self).program.immutables@.len()
                        && #[trigger] final(self).program.immutables@[f] is NovaFunction && final(self).program.immutables@[f]->NovaFunction_0.name@
                        == statement->Function_0@ && final(self).program.immutables@[f]->NovaFunction_0.address
                        == j + 1 && final(self).program.immutables@[f]->NovaFunction_0.arity == arity
                        && !final(self).program.immutables@[f]->NovaFunction_0.is_method
                        && final(self).program.immutables@[f]->NovaFunction_0.number_of_locals >= arity
            }),
            old(self).function_owed(*statement) ==> final(self).ok()
                && final(self).program.instructions@.len() <= old(self).program.instructions@.len()
                + top_statement_size(*statement) && final(self).program.immutables@.len() <= old(
                self,
            ).program.immutables@.len() + top_statement_names(*statement),
        decreases statement, 1int,
    {
        let (name, parameters, body) = match statement {
            Statement::Function(name, parameters, body) => (name, parameters, body),
            _ => {
                return;
            },
        };
        proof {
            lemma_function_decreases(statement);
        }
        if parameters.len() > MAX_TEMPORARIES as usize {
            self.generate_error("too many parameters");
            return;
        }
        let jump_index = self.add_placeholder();
        if self.error.is_some() {
            return;
        }
        let entry = self.program.instructions.len() as u32;
        let arity = parameters.len() as u32;
        let _ = self.get_immutable_index(name);
        let function_index = self.add_function_immutable(
            NovaFunction {
                name: copy_bytes(name),
                address: entry,
                arity,
                is_method: false,
                number_of_locals: 0,
            },
        );
        if self.error.is_some() {
            return;
        }
        let ghost descriptor_count = self.program.immutables@.len();
        let saved_temp_stack = self.temp_stack;
        let saved_count = self.local_variable_count;
        let mut saved_indices: Vec<Vec<(Vec<u8>, u32)>> = Vec::new();
        saved_indices.push(Vec::new());
        std::mem::swap(&mut self.local_variable_indices, &mut saved_indices);
        self.local_variable_count = 0;
        self.temp_stack = 0;
        let mut i: usize = 0;
        while i < parameters.len()
            invariant
                self.wf(),
                extends(old(self).program.instructions@, self.program.instructions@),
                old(self).program.immutables@.len() <= self.program.immutables@.len(),
                jump_index < old(self).program.instructions@.len() + 1,
                self.ok() ==> self.local_variable_count == i && self.temp_stack == 0
                    && self.program.instructions@.len() > jump_index && instruction_length(
                    self.program.instructions@[jump_index as int],
                ) == 1 && self.program.instructions@.len() == jump_index + 1 + i,
                jump_index == old(self).program.instructions@.len(),
                self.ok() ==> forall|k: int|
                    0 <= k < i ==> #[trigger] self.program.instructions@[jump_index + 1 + k]
                        == encode(OpCode::StoreLocal.spec_code(), 0, k as u32, k as u32) as u32,
                self.local_variable_indices@.len() == 1,
                old(self).function_owed(*statement) ==> self.ok()
                    && self.program.immutables@.len() <= old(self).program.immutables@.len() + 2,
                *parameters == statement->Function_1,
                *body == statement->Function_2,
                function_index < descriptor_count <= self.program.immutables@.len(),
                i <= parameters@.len(),
                parameters@.len() <= MAX_TEMPORARIES,
            decreases parameters@.len() - i,
        {
            let slot = self.allocate_local(&parameters[i]);
            let w = InstructionBuilder::new_store_local(i as u32, slot);
            proof {
                lemma_codec_round_trip(OpCode::StoreLocal.spec_code(), 0, i as u32, slot);
            }
            self.add_instruction(w);
            i = i + 1;
        }
        let ghost params = self.program.instructions@;
        let ghost params_ok = self.ok();
        if self.error.is_none() {
            self.execute_all(statement, body);
        }
        let number_of_locals = self.local_variable_count;
        std::mem::swap(&mut self.local_variable_indices, &mut saved_indices);
        self.local_variable_count = saved_count;
        self.temp_stack = saved_temp_stack;
        if self.error.is_some() {
            return;
        }
        if function_index as usize >= self.program.immutables.len() {
            self.generate_error("function descriptor lost");
            return;
        }
        self.program.immutables[function_index as usize] = NovaObject::NovaFunction(
            NovaFunction {
                name: copy_bytes(name),
                address: entry,
                arity,
                is_method: false,
                number_of_locals,
            },
        );
        assert(self.program.immutables@[function_index as int] is NovaFunction);
        let ghost descriptors = self.program.immutables;
        let w = InstructionBuilder::new_return_none_instruction();
        proof {
            lemma_codec_round_trip(OpCode::ReturnNone.spec_code(), 0, 0, 0);
        }
        self.add_instruction(w);
        if self.error.is_some() {
            return;
        }
        assert(self.program.immutables == descriptors);
        let end = self.program.instructions.len();
        let ghost before_patch = self.program.instructions@;
        self.patch_forward_jump(jump_index, end);
        proof {
            let words = self.program.instructions@;
            assert(params_ok);
            assert forall|k: int| 0 <= k < arity implies #[trigger] words[jump_index + 1 + k]
                == encode(OpCode::StoreLocal.spec_code(), 0, k as u32, k as u32) as u32 by {
                assert(words[jump_index + 1 + k] == before_patch[jump_index + 1 + k]);
                assert(before_patch[jump_index + 1 + k] == params[jump_index + 1 + k]);
            }
            assert(words[end - 1] == before_patch[end - 1]);
            let f = function_index as int;
            assert(self.program.immutables@[f] is NovaFunction);
        }
    }
}

proof fn lemma_block_decreases(statement: &Statement)
    requires
        statement is Block,
    ensures
        forall|i: int|
            0 <= i < statement->Block_0@.len() ==> decreases_to!(*statement => #[trigger] statement->Block_0@[i]),
{
    let statements = statement->Block_0;
    assert forall|i: int| 0 <= i < statements@.len() implies decreases_to!(*statement => #[trigger] statements@[i]) by {
        assert(decreases_to!(*statement => statements));
        vstd::std_specs::vec::axiom_vec_decreases_to_view(statements);
        assert(decreases_to!(statements@ => statements@[i]));
    }
}

proof fn lemma_function_decreases(statement: &Statement)
    requires
        statement is Function,
    ensures
        forall|i: int|
            0 <= i < statement->Function_2@.len() ==> decreases_to!(*statement => #[trigger] statement->Function_2@[i]),
{
    let statements = statement->Function_2;
    assert forall|i: int| 0 <= i < statements@.len() implies decreases_to!(*statement => #[trigger] statements@[i]) by {
        assert(decreases_to!(*statement => statements));
        vstd::std_specs::vec::axiom_vec_decreases_to_view(statements);
        assert(decreases_to!(statements@ => statements@[i]));
    }
}

} // verus!
