use vstd::prelude::*;
use vstd::utf8::valid_utf8;

use crate::instruction::Instruction;
use crate::machine::objects_view;
use crate::object::{NovaFunction, NovaObject, ObjectModel};
use crate::program::Program;
use crate::version::{VERSION_MAJOR, VERSION_MINOR};

verus! {

/// Tag of a string immutable in a bytecode file.
pub const STRING_KIND: u8 = 0;

/// Tag of a function immutable in a bytecode file.
pub const FUNCTION_KIND: u8 = 1;

/// Why bytes are not a bytecode file this library can read.
#[derive(Debug, Clone, Copy, PartialEq, Eq, Structural)]
pub enum FileError {
    /// The bytes end inside a field.
    UnexpectedEnd,
    /// The file was written by a newer version.
    VersionTooNew,
    /// An immutable has a tag other than string or function.
    UnknownImmutableKind,
    /// A string or a name is not UTF-8.
    InvalidUtf8,
    /// Bytes follow the last immutable.
    TrailingBytes,
}

/// The header of a bytecode file.
#[derive(Debug, Clone, Copy, PartialEq, Eq, Structural)]
pub struct Metadata {
    pub version_major: u32,
    pub version_minor: u32,
    pub instruction_count: u32,
    pub immutables_count: u32,
}

/// The bytes of a file header.
pub open spec fn metadata_bytes(metadata: Metadata) -> Seq<u8> {
    le32(metadata.version_major) + le32(metadata.version_minor) + le32(metadata.instruction_count)
        + le32(metadata.immutables_count)
}

/// Appends the bytes of a file header.
pub fn write_metadata(metadata: Metadata, buffer: &mut Vec<u8>)
    ensures
        final(buffer)@ == old(buffer)@ + metadata_bytes(metadata),
{
    write_u32(buffer, metadata.version_major);
    write_u32(buffer, metadata.version_minor);
    write_u32(buffer, metadata.instruction_count);
    write_u32(buffer, metadata.immutables_count);
    assert(final(buffer)@ =~= old(buffer)@ + metadata_bytes(metadata));
}

/// Reads a file header from the first sixteen bytes.
pub fn read_metadata(bytes: &[u8]) -> (r: Option<Metadata>)
    ensures
        bytes@.len() >= 16 <==> r is Some,
        r matches Some(metadata) ==> bytes@.subrange(0, 16) == metadata_bytes(metadata)
            && metadata.version_major == u32_at(bytes@, 0) && metadata.version_minor == u32_at(
            bytes@,
            4,
        ),
{
    let version_major = read_u32(bytes, 0)?;
    let version_minor = read_u32(bytes, 4)?;
    let instruction_count = read_u32(bytes, 8)?;
    let immutables_count = read_u32(bytes, 12)?;
    let metadata = Metadata { version_major, version_minor, instruction_count, immutables_count };
    assert(bytes@.subrange(0, 16) =~= metadata_bytes(metadata));
    Some(metadata)
}

/// The four little-endian bytes of `x`.
pub open spec fn le32(x: u32) -> Seq<u8> {
    seq![(x & 0xff) as u8, ((x >> 8u32) & 0xff) as u8, ((x >> 16u32) & 0xff) as u8, ((x >> 24u32) & 0xff) as u8]
}

/// The little-endian `u32` at position `i` of `s`.
pub open spec fn u32_at(s: Seq<u8>, i: int) -> u32 {
    (s[i] as u32) | ((s[i + 1] as u32) << 8u32) | ((s[i + 2] as u32) << 16u32) | ((s[i + 3] as u32)
        << 24u32)
}

/// The eight little-endian bytes of `x`.
pub open spec fn le64(x: u64) -> Seq<u8> {
    le32((x & 0xffff_ffff) as u32) + le32((x >> 32u64) as u32)
}

/// The bytes of a sequence of words.
pub open spec fn words_bytes(words: Seq<u32>) -> Seq<u8>
    decreases words.len(),
{
    if words.len() == 0 {
        Seq::empty()
    } else {
        words_bytes(words.drop_last()) + le32(words.last())
    }
}

/// An immutable that the file format holds: a string or a function.
pub open spec fn storable(object: ObjectModel) -> bool {
    object is Text || object is Function
}

/// The bytes of one immutable.
pub open spec fn immutable_bytes(object: ObjectModel) -> Seq<u8> {
    match object {
        ObjectModel::Text(text) => seq![STRING_KIND] + le64(text.len() as u64) + text,
        ObjectModel::Function { name, address, arity, is_method, .. } => seq![FUNCTION_KIND] + le32(
            address,
        ) + seq![arity as u8] + seq![if is_method { 1u8 } else { 0u8 }] + le64(name.len() as u64)
            + name,
        _ => Seq::empty(),
    }
}

/// The bytes of a sequence of immutables.
pub open spec fn immutables_bytes(objects: Seq<ObjectModel>) -> Seq<u8>
    decreases objects.len(),
{
    if objects.len() == 0 {
        Seq::empty()
    } else {
        immutables_bytes(objects.drop_last()) + immutable_bytes(objects.last())
    }
}

/// A whole bytecode file.
pub open spec fn program_bytes(
    major: u32,
    minor: u32,
    words: Seq<u32>,
    objects: Seq<ObjectModel>,
) -> Seq<u8> {
    le32(major) + le32(minor) + le32(words.len() as u32) + le32(objects.len() as u32) + words_bytes(
        words,
    ) + immutables_bytes(objects)
}

/// An immutable that reading gives back exactly as it was written: UTF-8
/// text, and a function whose arity fits a byte and that records no locals.
pub open spec fn readable(object: ObjectModel) -> bool {
    match object {
        ObjectModel::Text(text) => valid_utf8(text),
        ObjectModel::Function { name, arity, number_of_locals, .. } => valid_utf8(name) && arity
            < 256 && number_of_locals == 0,
        _ => false,
    }
}

/// From position `at` on, `bytes` are exactly the immutables `objects`, each
/// of them readable.
pub open spec fn encodes_immutables(bytes: Seq<u8>, at: int, objects: Seq<ObjectModel>) -> bool {
    &&& 0 <= at <= bytes.len()
    &&& forall|k: int| 0 <= k < objects.len() ==> readable(#[trigger] objects[k])
    &&& bytes.subrange(at, bytes.len() as int) == immutables_bytes(objects)
}

proof fn lemma_le32_injective(x: u32, y: u32)
    requires
        le32(x) == le32(y),
    ensures
        x == y,
{
    assert(le32(x)[0] == le32(y)[0] && le32(x)[1] == le32(y)[1] && le32(x)[2] == le32(y)[2]
        && le32(x)[3] == le32(y)[3]);
    assert(((x & 0xff) as u8 == (y & 0xff) as u8 && ((x >> 8u32) & 0xff) as u8 == ((y >> 8u32)
        & 0xff) as u8 && ((x >> 16u32) & 0xff) as u8 == ((y >> 16u32) & 0xff) as u8 && ((x
        >> 24u32) & 0xff) as u8 == ((y >> 24u32) & 0xff) as u8) ==> x == y) by (bit_vector);
}

proof fn lemma_le64_injective(x: u64, y: u64)
    requires
        le64(x) == le64(y),
    ensures
        x == y,
{
    assert(le64(x).subrange(0, 4) =~= le32((x & 0xffff_ffff) as u32));
    assert(le64(y).subrange(0, 4) =~= le32((y & 0xffff_ffff) as u32));
    assert(le64(x).subrange(4, 8) =~= le32((x >> 32u64) as u32));
    assert(le64(y).subrange(4, 8) =~= le32((y >> 32u64) as u32));
    lemma_le32_injective((x & 0xffff_ffff) as u32, (y & 0xffff_ffff) as u32);
    lemma_le32_injective((x >> 32u64) as u32, (y >> 32u64) as u32);
    assert(((x & 0xffff_ffff) as u32 == (y & 0xffff_ffff) as u32 && (x >> 32u64) as u32 == (y
        >> 32u64) as u32) ==> x == y) by (bit_vector);
}

proof fn lemma_words_bytes_len(words: Seq<u32>)
    ensures
        words_bytes(words).len() == 4 * words.len(),
    decreases words.len(),
{
    if words.len() > 0 {
        lemma_words_bytes_len(words.drop_last());
    }
}

/// The bytes of immutables are those of the first, then those of the rest.
proof fn lemma_immutables_front(objects: Seq<ObjectModel>)
    requires
        objects.len() > 0,
    ensures
        immutables_bytes(objects) == immutable_bytes(objects[0]) + immutables_bytes(
            objects.drop_first(),
        ),
    decreases objects.len(),
{
    if objects.len() == 1 {
        assert(objects.drop_last() =~= Seq::<ObjectModel>::empty());
        assert(objects.drop_first() =~= Seq::<ObjectModel>::empty());
        assert(objects.last() == objects[0]);
        assert(immutables_bytes(objects.drop_last()) =~= Seq::<u8>::empty());
        assert(immutables_bytes(objects) =~= immutable_bytes(objects[0]));
        assert(immutables_bytes(objects.drop_first()) =~= Seq::<u8>::empty());
    } else {
        let front = objects.drop_last();
        lemma_immutables_front(front);
        assert(front.drop_first() =~= objects.drop_first().drop_last());
        assert(objects.drop_first().last() == objects.last());
        assert(immutables_bytes(objects) =~= immutable_bytes(objects[0]) + immutables_bytes(
            objects.drop_first(),
        ));
    }
}

/// The layout of a string immutable at `p`.
proof fn lemma_text_layout(bytes: Seq<u8>, p: int, text: Seq<u8>, rest: Seq<u8>)
    requires
        0 <= p <= bytes.len(),
        bytes.subrange(p, bytes.len() as int) == immutable_bytes(ObjectModel::Text(text)) + rest,
    ensures
        p + 9 + text.len() + rest.len() == bytes.len(),
        bytes[p] == STRING_KIND,
        bytes.subrange(p + 1, p + 9) == le64(text.len() as u64),
        bytes.subrange(p + 9, p + 9 + text.len()) == text,
        bytes.subrange(p + 9 + text.len(), bytes.len() as int) == rest,
{
    let tail = bytes.subrange(p, bytes.len() as int);
    let n = text.len() as u64;
    assert(tail.len() == 9 + text.len() + rest.len());
    assert(bytes[p] == tail[0]);
    assert(bytes.subrange(p + 1, p + 9) =~= tail.subrange(1, 9));
    assert(tail.subrange(1, 9) =~= le64(n));
    assert(bytes.subrange(p + 9, p + 9 + text.len()) =~= tail.subrange(9, 9 + text.len() as int));
    assert(tail.subrange(9, 9 + text.len() as int) =~= text);
    assert(tail.subrange(9 + text.len() as int, tail.len() as int) =~= rest);
    assert(bytes.subrange(p + 9 + text.len(), bytes.len() as int) =~= tail.subrange(
        9 + text.len() as int,
        tail.len() as int,
    ));
}

/// The layout of a function immutable at `p`.
proof fn lemma_function_layout(
    bytes: Seq<u8>,
    p: int,
    name: Seq<u8>,
    address: u32,
    arity: u32,
    is_method: bool,
    number_of_locals: u32,
    rest: Seq<u8>,
)
    requires
        0 <= p <= bytes.len(),
        bytes.subrange(p, bytes.len() as int) == immutable_bytes(
            ObjectModel::Function { name, address, arity, is_method, number_of_locals },
        ) + rest,
    ensures
        p + 15 + name.len() + rest.len() == bytes.len(),
        bytes[p] == FUNCTION_KIND,
        bytes.subrange(p + 1, p + 5) == le32(address),
        bytes[p + 5] == arity as u8,
        bytes[p + 6] == (if is_method { 1u8 } else { 0u8 }),
        bytes.subrange(p + 7, p + 15) == le64(name.len() as u64),
        bytes.subrange(p + 15, p + 15 + name.len()) == name,
        bytes.subrange(p + 15 + name.len(), bytes.len() as int) == rest,
{
    let tail = bytes.subrange(p, bytes.len() as int);
    assert(tail.len() == 15 + name.len() + rest.len());
    assert(bytes[p] == tail[0]);
    assert(bytes[p + 5] == tail[5]);
    assert(bytes[p + 6] == tail[6]);
    assert(bytes.subrange(p + 1, p + 5) =~= tail.subrange(1, 5));
    assert(tail.subrange(1, 5) =~= le32(address));
    assert(bytes.subrange(p + 7, p + 15) =~= tail.subrange(7, 15));
    assert(tail.subrange(7, 15) =~= le64(name.len() as u64));
    assert(bytes.subrange(p + 15, p + 15 + name.len()) =~= tail.subrange(15, 15 + name.len() as int));
    assert(tail.subrange(15, 15 + name.len() as int) =~= name);
    assert(tail.subrange(15 + name.len() as int, tail.len() as int) =~= rest);
    assert(bytes.subrange(p + 15 + name.len(), bytes.len() as int) =~= tail.subrange(
        15 + name.len() as int,
        tail.len() as int,
    ));
}

/// The next immutable of readable bytes: its fields where the reader looks
/// for them, and readable bytes after it.
proof fn lemma_next_immutable(bytes: Seq<u8>, p: int, objects: Seq<ObjectModel>)
    requires
        objects.len() > 0,
        encodes_immutables(bytes, p, objects),
    ensures
        readable(objects[0]),
        objects[0] is Text ==> ({
            let text = objects[0]->Text_0;
            &&& p + 9 + text.len() <= bytes.len()
            &&& bytes[p] == STRING_KIND
            &&& bytes.subrange(p + 1, p + 9) == le64(text.len() as u64)
            &&& bytes.subrange(p + 9, p + 9 + text.len()) == text
            &&& encodes_immutables(bytes, p + 9 + text.len(), objects.drop_first())
        }),
        objects[0] is Function ==> ({
            let name = objects[0]->name;
            &&& p + 15 + name.len() <= bytes.len()
            &&& bytes[p] == FUNCTION_KIND
            &&& bytes.subrange(p + 1, p + 5) == le32(objects[0]->address)
            &&& bytes[p + 5] == objects[0]->arity as u8
            &&& bytes[p + 6] == (if objects[0]->is_method { 1u8 } else { 0u8 })
            &&& bytes.subrange(p + 7, p + 15) == le64(name.len() as u64)
            &&& bytes.subrange(p + 15, p + 15 + name.len()) == name
            &&& encodes_immutables(bytes, p + 15 + name.len(), objects.drop_first())
        }),
{
    lemma_immutables_front(objects);
    let rest = immutables_bytes(objects.drop_first());
    assert(readable(objects[0]));
    assert forall|k: int| 0 <= k < objects.drop_first().len() implies readable(
        #[trigger] objects.drop_first()[k],
    ) by {
        assert(objects.drop_first()[k] == objects[k + 1]);
    }
    match objects[0] {
        ObjectModel::Text(text) => {
            lemma_text_layout(bytes, p, text, rest);
        },
        ObjectModel::Function { name, address, arity, is_method, number_of_locals } => {
            lemma_function_layout(bytes, p, name, address, arity, is_method, number_of_locals, rest);
        },
        _ => {},
    }
}

/// The version `major.minor` is newer than this library's.
pub open spec fn newer(major: u32, minor: u32) -> bool {
    major > VERSION_MAJOR || (major == VERSION_MAJOR && minor > VERSION_MINOR)
}

/// Every immutable is readable.
pub open spec fn all_readable(objects: Seq<ObjectModel>) -> bool {
    forall|k: int| 0 <= k < objects.len() ==> readable(#[trigger] objects[k])
}

proof fn lemma_words_bytes_injective(a: Seq<u32>, b: Seq<u32>)
    requires
        a.len() == b.len(),
        words_bytes(a) == words_bytes(b),
    ensures
        a == b,
    decreases a.len(),
{
    if a.len() > 0 {
        lemma_words_bytes_len(a.drop_last());
        lemma_words_bytes_len(b.drop_last());
        let n = 4 * (a.len() - 1);
        assert(words_bytes(a).subrange(0, n) =~= words_bytes(a.drop_last()));
        assert(words_bytes(b).subrange(0, n) =~= words_bytes(b.drop_last()));
        assert(words_bytes(a).subrange(n, n + 4) =~= le32(a.last()));
        assert(words_bytes(b).subrange(n, n + 4) =~= le32(b.last()));
        lemma_words_bytes_injective(a.drop_last(), b.drop_last());
        lemma_le32_injective(a.last(), b.last());
        assert(a =~= a.drop_last().push(a.last()));
        assert(b =~= b.drop_last().push(b.last()));
    }
}

/// The fields of a whole file where the reader looks for them.
proof fn lemma_program_layout(
    bytes: Seq<u8>,
    major: u32,
    minor: u32,
    words: Seq<u32>,
    objects: Seq<ObjectModel>,
)
    requires
        bytes == program_bytes(major, minor, words, objects),
        all_readable(objects),
    ensures
        bytes.len() >= 16 + 4 * words.len() as int,
        bytes.subrange(0, 16) == le32(major) + le32(minor) + le32(words.len() as u32) + le32(
            objects.len() as u32,
        ),
        bytes.subrange(8, 12) == le32(words.len() as u32),
        bytes.subrange(12, 16) == le32(objects.len() as u32),
        bytes.subrange(16, 16 + 4 * words.len() as int) == words_bytes(words),
        encodes_immutables(bytes, 16 + 4 * words.len() as int, objects),
{
    lemma_words_bytes_len(words);
    let header = le32(major) + le32(minor) + le32(words.len() as u32) + le32(objects.len() as u32);
    assert(header.len() == 16);
    assert(bytes.subrange(0, 16) =~= header);
    assert(bytes.subrange(8, 12) =~= le32(words.len() as u32));
    assert(bytes.subrange(12, 16) =~= le32(objects.len() as u32));
    assert(bytes.subrange(16, 16 + 4 * words.len() as int) =~= words_bytes(words));
    assert(bytes.subrange(16 + 4 * words.len() as int, bytes.len() as int) =~= immutables_bytes(objects));
}

/// Relies on `std::str::from_utf8`: it succeeds exactly on well-formed UTF-8.
#[verifier::external_body]
fn is_valid_utf8(bytes: &[u8]) -> (r: bool)
    ensures
        r == valid_utf8(bytes@),
{
    std::str::from_utf8(bytes).is_ok()
}

pub fn write_u32(buffer: &mut Vec<u8>, x: u32)
    ensures
        final(buffer)@ == old(buffer)@ + le32(x),
{
    buffer.push((x & 0xff) as u8);
    buffer.push(((x >> 8u32) & 0xff) as u8);
    buffer.push(((x >> 16u32) & 0xff) as u8);
    buffer.push(((x >> 24u32) & 0xff) as u8);
    assert(final(buffer)@ =~= old(buffer)@ + le32(x));
}

pub fn write_u64(buffer: &mut Vec<u8>, x: u64)
    ensures
        final(buffer)@ == old(buffer)@ + le64(x),
{
    write_u32(buffer, (x & 0xffff_ffff) as u32);
    write_u32(buffer, (x >> 32u64) as u32);
    assert(final(buffer)@ =~= old(buffer)@ + le64(x));
}

/// Reads a little-endian `u32` at `at`.
pub fn read_u32(bytes: &[u8], at: usize) -> (r: Option<u32>)
    ensures
        at + 4 <= bytes@.len() <==> r is Some,
        r matches Some(x) ==> bytes@.subrange(at as int, at + 4) == le32(x) && x == u32_at(
            bytes@,
            at as int,
        ),
{
    if at > bytes.len() || bytes.len() - at < 4 {
        return None;
    }
    let b0 = bytes[at] as u32;
    let b1 = bytes[at + 1] as u32;
    let b2 = bytes[at + 2] as u32;
    let b3 = bytes[at + 3] as u32;
    let x = b0 | (b1 << 8u32) | (b2 << 16u32) | (b3 << 24u32);
    assert((x & 0xff) as u8 == b0 as u8 && ((x >> 8u32) & 0xff) as u8 == b1 as u8 && ((x >> 16u32)
        & 0xff) as u8 == b2 as u8 && ((x >> 24u32) & 0xff) as u8 == b3 as u8) by (bit_vector)
        requires
            x == b0 | (b1 << 8u32) | (b2 << 16u32) | (b3 << 24u32),
            b0 < 256,
            b1 < 256,
            b2 < 256,
            b3 < 256,
    ;
    assert(bytes@.subrange(at as int, at + 4) =~= le32(x));
    Some(x)
}

/// Reads a little-endian `u64` at `at`.
pub fn read_u64(bytes: &[u8], at: usize) -> (r: Option<u64>)
    ensures
        at + 8 <= bytes@.len() <==> r is Some,
        r matches Some(x) ==> bytes@.subrange(at as int, at + 8) == le64(x),
{
    if at > bytes.len() || bytes.len() - at < 8 {
        return None;
    }
    let low = read_u32(bytes, at).unwrap();
    let high = read_u32(bytes, at + 4).unwrap();
    let x = (low as u64) | ((high as u64) << 32u64);
    assert((x & 0xffff_ffff) as u32 == low && (x >> 32u64) as u32 == high) by (bit_vector)
        requires
            x == (low as u64) | ((high as u64) << 32u64),
    ;
    assert(bytes@.subrange(at as int, at + 8) =~= bytes@.subrange(at as int, at + 4)
        + bytes@.subrange(at + 4, at + 8));
    Some(x)
}

/// The bytecode file of a program: header, instruction words, then each
/// string and function immutable. Other immutables are not stored.
pub fn write_program(program: &Program) -> (r: Vec<u8>)
    requires
        program.instructions@.len() <= u32::MAX,
        program.immutables@.len() <= u32::MAX,
        forall|k: int|
            0 <= k < program.immutables@.len() ==> storable(#[trigger] program.immutables@[k]@),
    ensures
        r@ == program_bytes(
            VERSION_MAJOR,
            VERSION_MINOR,
            program.instructions@,
            objects_view(program.immutables@),
        ),
{
    let mut buffer: Vec<u8> = Vec::new();
    let metadata = Metadata {
        version_major: crate::version::major(),
        version_minor: crate::version::minor(),
        instruction_count: program.instructions.len() as u32,
        immutables_count: program.immutables.len() as u32,
    };
    write_metadata(metadata, &mut buffer);
    let ghost header = buffer@;
    let mut i: usize = 0;
    while i < program.instructions.len()
        invariant
            i <= program.instructions@.len(),
            buffer@ == header + words_bytes(program.instructions@.subrange(0, i as int)),
        decreases program.instructions@.len() - i,
    {
        write_u32(&mut buffer, program.instructions[i]);
        assert(program.instructions@.subrange(0, i + 1).drop_last() =~= program.instructions@.subrange(0, i as int));
        i = i + 1;
    }
    assert(program.instructions@.subrange(0, i as int) =~= program.instructions@);
    let ghost code = buffer@;
    let ghost objects = objects_view(program.immutables@);
    let mut k: usize = 0;
    while k < program.immutables.len()
        invariant
            k <= program.immutables@.len(),
            objects == objects_view(program.immutables@),
            buffer@ == code + immutables_bytes(objects.subrange(0, k as int)),
        decreases program.immutables@.len() - k,
    {
        let ghost before = buffer@;
        match &program.immutables[k] {
            NovaObject::String(text) => {
                buffer.push(STRING_KIND);
                write_u64(&mut buffer, text.len() as u64);
                crate::text::append_bytes(&mut buffer, text.as_slice());
            },
            NovaObject::NovaFunction(function) => {
                buffer.push(FUNCTION_KIND);
                write_u32(&mut buffer, function.address);
                buffer.push(function.arity as u8);
                buffer.push(if function.is_method { 1u8 } else { 0u8 });
                write_u64(&mut buffer, function.name.len() as u64);
                crate::text::append_bytes(&mut buffer, function.name.as_slice());
            },
            _ => {},
        }
        assert(buffer@ =~= before + immutable_bytes(objects[k as int]));
        assert(objects.subrange(0, k + 1).drop_last() =~= objects.subrange(0, k as int));
        k = k + 1;
    }
    assert(objects.subrange(0, k as int) =~= objects);
    buffer
}

/// Copies `length` bytes at `at`.
fn read_bytes(bytes: &[u8], at: usize, length: u64) -> (r: Option<Vec<u8>>)
    ensures
        at + length <= bytes@.len() <==> r is Some,
        r matches Some(v) ==> v@ == bytes@.subrange(at as int, at + length),
{
    if at > bytes.len() || length > (bytes.len() - at) as u64 {
        return None;
    }
    let mut out: Vec<u8> = Vec::new();
    let end = at + length as usize;
    let mut i: usize = at;
    while i < end
        invariant
            at <= i <= end,
            end <= bytes@.len(),
            end == at + length,
            out@ == bytes@.subrange(at as int, i as int),
        decreases end - i,
    {
        out.push(bytes[i]);
        i = i + 1;
        assert(out@ =~= bytes@.subrange(at as int, i as int));
    }
    Some(out)
}

/// Reads a bytecode file. Every string and name read is UTF-8; a function
/// read has no locals recorded.
pub fn read_program(bytes: &[u8]) -> (r: Result<Program, FileError>)
    ensures
        r matches Ok(program) ==> {
            let major = u32_at(bytes@, 0);
            let minor = u32_at(bytes@, 4);
            &&& major < VERSION_MAJOR || (major == VERSION_MAJOR && minor <= VERSION_MINOR)
            &&& bytes@ == program_bytes(
                major,
                minor,
                program.instructions@,
                objects_view(program.immutables@),
            )
        },
        bytes@.len() < 16 ==> r == Err::<Program, FileError>(FileError::UnexpectedEnd),
        bytes@.len() >= 16 ==> (r == Err::<Program, FileError>(FileError::VersionTooNew) <==> newer(
            u32_at(bytes@, 0),
            u32_at(bytes@, 4),
        )),
        forall|words: Seq<u32>, objects: Seq<ObjectModel>|
            words.len() <= u32::MAX && objects.len() <= u32::MAX && !newer(
                u32_at(bytes@, 0),
                u32_at(bytes@, 4),
            ) && all_readable(objects) && bytes@ == #[trigger] program_bytes(
                u32_at(bytes@, 0),
                u32_at(bytes@, 4),
                words,
                objects,
            ) ==> (r matches Ok(program) && program.instructions@ == words && objects_view(
                program.immutables@,
            ) == objects),
{
    let metadata = match read_metadata(bytes) {
        Some(metadata) => metadata,
        None => {
            proof {
                assert forall|words: Seq<u32>, objects: Seq<ObjectModel>|
                    all_readable(objects) && bytes@ == #[trigger] program_bytes(
                        u32_at(bytes@, 0),
                        u32_at(bytes@, 4),
                        words,
                        objects,
                    ) implies false by {
                    lemma_program_layout(bytes@, u32_at(bytes@, 0), u32_at(bytes@, 4), words, objects);
                }
            }
            return Err(FileError::UnexpectedEnd);
        },
    };
    let major = metadata.version_major;
    let minor = metadata.version_minor;
    let instruction_count = metadata.instruction_count;
    let immutables_count = metadata.immutables_count;
    if major > crate::version::major() || (major == crate::version::major() && minor
        > crate::version::minor()) {
        return Err(FileError::VersionTooNew);
    }
    let ghost header = le32(major) + le32(minor) + le32(instruction_count) + le32(immutables_count);
    assert(bytes@.subrange(0, 16) =~= header);
    proof {
        assert(bytes@.subrange(8, 12) =~= bytes@.subrange(0, 16).subrange(8, 12));
        assert(metadata_bytes(metadata).subrange(8, 12) =~= le32(instruction_count));
        assert(bytes@.subrange(12, 16) =~= bytes@.subrange(0, 16).subrange(12, 16));
        assert(metadata_bytes(metadata).subrange(12, 16) =~= le32(immutables_count));
    }
    let (instructions, at) = match read_instructions(bytes, 16, instruction_count) {
        Some(read) => read,
        None => {
            proof {
                assert forall|words: Seq<u32>, objects: Seq<ObjectModel>|
                    words.len() <= u32::MAX && all_readable(objects) && bytes@ == #[trigger] program_bytes(
                        major,
                        minor,
                        words,
                        objects,
                    ) implies false by {
                    lemma_program_layout(bytes@, major, minor, words, objects);
                    lemma_le32_injective(instruction_count, words.len() as u32);
                }
            }
            return Err(FileError::UnexpectedEnd);
        },
    };
    assert(bytes@.subrange(0, at as int) =~= header + words_bytes(instructions@));
    proof {
        assert forall|words: Seq<u32>, objects: Seq<ObjectModel>|
            words.len() <= u32::MAX && objects.len() <= u32::MAX && all_readable(objects) && bytes@
                == #[trigger] program_bytes(major, minor, words, objects) implies instructions@
            == words && objects.len() == immutables_count && encodes_immutables(
            bytes@,
            at as int,
            objects,
        ) by {
            lemma_program_layout(bytes@, major, minor, words, objects);
            lemma_le32_injective(instruction_count, words.len() as u32);
            lemma_le32_injective(immutables_count, objects.len() as u32);
            lemma_words_bytes_injective(instructions@, words);
        }
    }
    let immutables = match read_immutables(bytes, at, immutables_count) {
        Ok(read) => read,
        Err(error) => {
            return Err(error);
        },
    };
    let end = immutables.1;
    if end != bytes.len() {
        return Err(FileError::TrailingBytes);
    }
    let immutables = immutables.0;
    let ghost objects = objects_view(immutables@);
    assert(bytes@ =~= bytes@.subrange(0, at as int) + bytes@.subrange(at as int, end as int));
    assert(bytes@ =~= program_bytes(major, minor, instructions@, objects));
    let program = Program { instructions, immutables, line_definitions: Vec::new() };
    assert(bytes@ == program_bytes(
        major,
        minor,
        program.instructions@,
        objects_view(program.immutables@),
    ));
    assert(major < VERSION_MAJOR || (major == VERSION_MAJOR && minor <= VERSION_MINOR));
    Ok(program)
}

/// Reads `instruction_count` words at `at`.
pub fn read_instructions(bytes: &[u8], at: usize, instruction_count: u32) -> (r: Option<(Vec<u32>, usize)>)
    ensures
        r is Some <==> at + 4 * instruction_count <= bytes@.len(),
        r matches Some((words, end)) ==> words@.len() == instruction_count && end == at + 4
            * instruction_count && end <= bytes@.len() && bytes@.subrange(at as int, end as int)
            == words_bytes(words@),
{
    let length = bytes.len();
    if at > length {
        return None;
    }
    let mut instructions: Vec<Instruction> = Vec::new();
    assert(bytes@.subrange(at as int, at as int) =~= words_bytes(instructions@));
    let mut position = at;
    let mut i: u32 = 0;
    while i < instruction_count
        invariant
            i <= instruction_count,
            instructions@.len() == i,
            position == at + 4 * i,
            position <= bytes@.len(),
            length == bytes@.len(),
            bytes@.subrange(at as int, position as int) == words_bytes(instructions@),
        decreases instruction_count - i,
    {
        let word = match read_u32(bytes, position) {
            Some(word) => word,
            None => {
                return None;
            },
        };
        let ghost before = instructions@;
        instructions.push(word);
        assert(instructions@.drop_last() =~= before);
        assert(bytes@.subrange(at as int, position + 4) =~= bytes@.subrange(
            at as int,
            position as int,
        ) + bytes@.subrange(position as int, position + 4));
        position = position + 4;
        i = i + 1;
    }
    Some((instructions, position))
}

/// Reads `immutables_count` immutables at `at`; returns them with the
/// position after the last. Bytes that encode that many readable immutables
/// up to their end are always read back.
#[verifier::rlimit(80)]
pub fn read_immutables(bytes: &[u8], at: usize, immutables_count: u32) -> (r: Result<
    (Vec<NovaObject>, usize),
    FileError,
>)
    ensures
        r matches Ok((objects, end)) ==> objects@.len() == immutables_count && at <= end
            <= bytes@.len() && bytes@.subrange(at as int, end as int) == immutables_bytes(
            objects_view(objects@),
        ),
        forall|objects: Seq<ObjectModel>|
            objects.len() == immutables_count && #[trigger] encodes_immutables(
                bytes@,
                at as int,
                objects,
            ) ==> (r matches Ok((read, end)) && objects_view(read@) == objects && end
                == bytes@.len()),
        r is Err ==> (r->Err_0 is UnexpectedEnd || r->Err_0 is UnknownImmutableKind
            || r->Err_0 is InvalidUtf8),
{
    let mut immutables: Vec<NovaObject> = Vec::new();
    let mut position = at;
    let mut i: u32 = 0;
    let count = immutables_count;
    if at > bytes.len() {
        return Err(FileError::UnexpectedEnd);
    }
    proof {
        assert forall|objs: Seq<ObjectModel>|
            objs.len() == count && #[trigger] encodes_immutables(bytes@, at as int, objs) implies objects_view(
            immutables@,
        ) == objs.subrange(0, 0) && encodes_immutables(
            bytes@,
            at as int,
            objs.subrange(0, count as int),
        ) by {
            assert(objs.subrange(0, count as int) =~= objs);
            assert(objects_view(immutables@) =~= objs.subrange(0, 0));
        }
        assert(bytes@.subrange(at as int, at as int) =~= immutables_bytes(objects_view(immutables@)));
    }
    while i < immutables_count
        invariant
            count == immutables_count,
            i <= immutables_count,
            immutables@.len() == i,
            at <= position <= bytes@.len(),
            bytes@.subrange(at as int, position as int) == immutables_bytes(
                objects_view(immutables@),
            ),
            forall|objs: Seq<ObjectModel>|
                objs.len() == count && #[trigger] encodes_immutables(bytes@, at as int, objs)
                    ==> objects_view(immutables@) == objs.subrange(0, i as int)
                    && encodes_immutables(bytes@, position as int, objs.subrange(i as int, count as int)),
        decreases immutables_count - i,
    {
        let ghost p = position as int;
        let ghost ii = i as int;
        if position >= bytes.len() {
            proof {
                assert forall|objs: Seq<ObjectModel>|
                    objs.len() == count && #[trigger] encodes_immutables(bytes@, at as int, objs) implies false by {
                    lemma_next_immutable(bytes@, p, objs.subrange(ii, count as int));
                }
            }
            return Err(FileError::UnexpectedEnd);
        }
        let kind = bytes[position];
        let start = position;
        let object = if kind == STRING_KIND {
            let length = match read_u64(bytes, position + 1) {
                Some(x) => x,
                None => {
                    proof {
                        assert forall|objs: Seq<ObjectModel>|
                            objs.len() == count && #[trigger] encodes_immutables(bytes@, at as int, objs) implies false by {
                            lemma_next_immutable(bytes@, p, objs.subrange(ii, count as int));
                        }
                    }
                    return Err(FileError::UnexpectedEnd);
                },
            };
            let text = match read_bytes(bytes, position + 9, length) {
                Some(v) => v,
                None => {
                    proof {
                        assert forall|objs: Seq<ObjectModel>|
                            objs.len() == count && #[trigger] encodes_immutables(bytes@, at as int, objs) implies false by {
                            let tail = objs.subrange(ii, count as int);
                            lemma_next_immutable(bytes@, p, tail);
                            lemma_le64_injective(length, tail[0]->Text_0.len() as u64);
                        }
                    }
                    return Err(FileError::UnexpectedEnd);
                },
            };
            if !is_valid_utf8(text.as_slice()) {
                proof {
                    assert forall|objs: Seq<ObjectModel>|
                        objs.len() == count && #[trigger] encodes_immutables(bytes@, at as int, objs) implies false by {
                        let tail = objs.subrange(ii, count as int);
                        lemma_next_immutable(bytes@, p, tail);
                        lemma_le64_injective(length, tail[0]->Text_0.len() as u64);
                    }
                }
                return Err(FileError::InvalidUtf8);
            }
            position = position + 9 + length as usize;
            proof {
                assert forall|objs: Seq<ObjectModel>|
                    objs.len() == count && #[trigger] encodes_immutables(bytes@, at as int, objs) implies objs[ii]
                    == ObjectModel::Text(text@) && encodes_immutables(
                    bytes@,
                    position as int,
                    objs.subrange(ii + 1, count as int),
                ) by {
                    let tail = objs.subrange(ii, count as int);
                    lemma_next_immutable(bytes@, p, tail);
                    lemma_le64_injective(length, tail[0]->Text_0.len() as u64);
                    assert(tail.drop_first() =~= objs.subrange(ii + 1, count as int));
                    assert(tail[0] == objs[ii]);
                }
            }
            assert(bytes@.subrange(start as int, position as int) =~= seq![kind] + bytes@.subrange(
                start + 1,
                start + 9,
            ) + bytes@.subrange(start + 9, position as int));
            NovaObject::String(text)
        } else if kind == FUNCTION_KIND {
            let address = match read_u32(bytes, position + 1) {
                Some(x) => x,
                None => {
                    proof {
                        assert forall|objs: Seq<ObjectModel>|
                            objs.len() == count && #[trigger] encodes_immutables(bytes@, at as int, objs) implies false by {
                            lemma_next_immutable(bytes@, p, objs.subrange(ii, count as int));
                        }
                    }
                    return Err(FileError::UnexpectedEnd);
                },
            };
            if bytes.len() - position < 7 {
                proof {
                    assert forall|objs: Seq<ObjectModel>|
                        objs.len() == count && #[trigger] encodes_immutables(bytes@, at as int, objs) implies false by {
                        lemma_next_immutable(bytes@, p, objs.subrange(ii, count as int));
                    }
                }
                return Err(FileError::UnexpectedEnd);
            }
            let arity = bytes[position + 5];
            let method_flag = bytes[position + 6];
            if method_flag > 1 {
                proof {
                    assert forall|objs: Seq<ObjectModel>|
                        objs.len() == count && #[trigger] encodes_immutables(bytes@, at as int, objs) implies false by {
                        lemma_next_immutable(bytes@, p, objs.subrange(ii, count as int));
                    }
                }
                return Err(FileError::UnknownImmutableKind);
            }
            let length = match read_u64(bytes, position + 7) {
                Some(x) => x,
                None => {
                    proof {
                        assert forall|objs: Seq<ObjectModel>|
                            objs.len() == count && #[trigger] encodes_immutables(bytes@, at as int, objs) implies false by {
                            lemma_next_immutable(bytes@, p, objs.subrange(ii, count as int));
                        }
                    }
                    return Err(FileError::UnexpectedEnd);
                },
            };
            let name = match read_bytes(bytes, position + 15, length) {
                Some(v) => v,
                None => {
                    proof {
                        assert forall|objs: Seq<ObjectModel>|
                            objs.len() == count && #[trigger] encodes_immutables(bytes@, at as int, objs) implies false by {
                            let tail = objs.subrange(ii, count as int);
                            lemma_next_immutable(bytes@, p, tail);
                            lemma_le64_injective(length, tail[0]->name.len() as u64);
                        }
                    }
                    return Err(FileError::UnexpectedEnd);
                },
            };
            if !is_valid_utf8(name.as_slice()) {
                proof {
                    assert forall|objs: Seq<ObjectModel>|
                        objs.len() == count && #[trigger] encodes_immutables(bytes@, at as int, objs) implies false by {
                        let tail = objs.subrange(ii, count as int);
                        lemma_next_immutable(bytes@, p, tail);
                        lemma_le64_injective(length, tail[0]->name.len() as u64);
                    }
                }
                return Err(FileError::InvalidUtf8);
            }
            position = position + 15 + length as usize;
            proof {
                assert forall|objs: Seq<ObjectModel>|
                    objs.len() == count && #[trigger] encodes_immutables(bytes@, at as int, objs) implies objs[ii]
                    == (ObjectModel::Function {
                    name: name@,
                    address,
                    arity: arity as u32,
                    is_method: method_flag == 1,
                    number_of_locals: 0,
                }) && encodes_immutables(
                    bytes@,
                    position as int,
                    objs.subrange(ii + 1, count as int),
                ) by {
                    let tail = objs.subrange(ii, count as int);
                    lemma_next_immutable(bytes@, p, tail);
                    lemma_le64_injective(length, tail[0]->name.len() as u64);
                    lemma_le32_injective(address, tail[0]->address);
                    assert(tail.drop_first() =~= objs.subrange(ii + 1, count as int));
                    assert(tail[0] == objs[ii]);
                }
            }
            assert(bytes@.subrange(start as int, position as int) =~= seq![kind] + bytes@.subrange(
                start + 1,
                start + 5,
            ) + seq![arity] + seq![method_flag] + bytes@.subrange(start + 7, start + 15)
                + bytes@.subrange(start + 15, position as int));
            NovaObject::NovaFunction(
                NovaFunction {
                    name,
                    address,
                    arity: arity as u32,
                    is_method: method_flag == 1,
                    number_of_locals: 0,
                },
            )
        } else {
            proof {
                assert forall|objs: Seq<ObjectModel>|
                    objs.len() == count && #[trigger] encodes_immutables(bytes@, at as int, objs) implies false by {
                    lemma_next_immutable(bytes@, p, objs.subrange(ii, count as int));
                }
            }
            return Err(FileError::UnknownImmutableKind);
        };
        let ghost before = immutables@;
        assert(bytes@.subrange(start as int, position as int) == immutable_bytes(object@));
        immutables.push(object);
        assert(immutables@.drop_last() =~= before);
        assert(objects_view(immutables@).drop_last() =~= objects_view(before));
        assert(bytes@.subrange(at as int, position as int) =~= bytes@.subrange(
            at as int,
            start as int,
        ) + bytes@.subrange(start as int, position as int));
        proof {
            assert(objects_view(immutables@) =~= objects_view(before).push(object@));
            assert forall|objs: Seq<ObjectModel>|
                objs.len() == count && #[trigger] encodes_immutables(bytes@, at as int, objs) implies objects_view(
                immutables@,
            ) == objs.subrange(0, ii + 1) && encodes_immutables(
                bytes@,
                position as int,
                objs.subrange(ii + 1, count as int),
            ) by {
                assert(objs[ii] == object@);
                assert(objs.subrange(0, ii + 1) =~= objs.subrange(0, ii).push(objs[ii]));
            }
        }
        i = i + 1;
    }
    proof {
        assert forall|objs: Seq<ObjectModel>|
            objs.len() == count && #[trigger] encodes_immutables(bytes@, at as int, objs) implies objects_view(
            immutables@,
        ) == objs && position == bytes@.len() by {
            assert(objs.subrange(0, count as int) =~= objs);
            assert(objs.subrange(count as int, count as int) =~= Seq::<ObjectModel>::empty());
        }
    }
    Ok((immutables, position))
}

} // verus!
