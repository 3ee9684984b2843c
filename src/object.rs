use vstd::prelude::*;

use crate::instruction::Instruction;

verus! {

/// A user function: entry address, parameter count and local count.
#[derive(Debug, Clone)]
pub struct NovaFunction {
    pub name: Vec<u8>,
    pub address: Instruction,
    pub arity: Instruction,
    pub is_method: bool,
    pub number_of_locals: Instruction,
}

/// A function of the host. `index` names it in the host's table of natives.
#[derive(Debug, Clone)]
pub struct NativeFunction {
    pub name: Vec<u8>,
    pub index: usize,
}

/// A heap or constant-table value. Text is held as UTF-8 bytes; a float as its
/// IEEE-754 bits.
#[derive(Debug, Clone)]
pub enum NovaObject {
    Nil,
    Bool(bool),
    Int64(i64),
    Float64(u64),
    NovaFunction(NovaFunction),
    NativeFunction(NativeFunction),
    String(Vec<u8>),
}

/// What an object holds, with text as a byte sequence.
pub enum ObjectModel {
    Nil,
    Bool(bool),
    Int64(i64),
    Float64(u64),
    Function {
        name: Seq<u8>,
        address: u32,
        arity: u32,
        is_method: bool,
        number_of_locals: u32,
    },
    Native { native_name: Seq<u8>, index: usize },
    Text(Seq<u8>),
}

impl View for NovaObject {
    type V = ObjectModel;

    open spec fn view(&self) -> ObjectModel {
        match self {
            NovaObject::Nil => ObjectModel::Nil,
            NovaObject::Bool(v) => ObjectModel::Bool(*v),
            NovaObject::Int64(v) => ObjectModel::Int64(*v),
            NovaObject::Float64(v) => ObjectModel::Float64(*v),
            NovaObject::NovaFunction(f) => ObjectModel::Function {
                name: f.name@,
                address: f.address,
                arity: f.arity,
                is_method: f.is_method,
                number_of_locals: f.number_of_locals,
            },
            NovaObject::NativeFunction(f) => ObjectModel::Native { native_name: f.name@, index: f.index },
            NovaObject::String(s) => ObjectModel::Text(s@),
        }
    }
}

/// A copy of a byte string.
pub fn copy_bytes(v: &Vec<u8>) -> (r: Vec<u8>)
    ensures
        r@ == v@,
{
    let mut out: Vec<u8> = Vec::new();
    crate::text::append_bytes(&mut out, v.as_slice());
    assert(out@ =~= v@);
    out
}

/// A copy of a function descriptor.
pub fn copy_function(f: &NovaFunction) -> (r: NovaFunction)
    ensures
        r.name@ == f.name@,
        r.address == f.address,
        r.arity == f.arity,
        r.is_method == f.is_method,
        r.number_of_locals == f.number_of_locals,
{
    NovaFunction {
        name: copy_bytes(&f.name),
        address: f.address,
        arity: f.arity,
        is_method: f.is_method,
        number_of_locals: f.number_of_locals,
    }
}

/// The callable that an object holds, if any.
#[derive(Debug, Clone)]
pub enum NovaCallable {
    Nil,
    NovaFunction(NovaFunction),
    NativeFunction(NativeFunction),
}

impl NovaCallable {
    pub open spec fn spec_name(&self) -> Seq<u8> {
        match self {
            NovaCallable::NovaFunction(function) => function.name@,
            NovaCallable::NativeFunction(function) => function.name@,
            NovaCallable::Nil => seq![78u8, 111u8, 110u8, 101u8],
        }
    }

    /// The callable's name; `None` for no callable.
    pub fn get_name(&self) -> (r: Vec<u8>)
        ensures
            r@ == self.spec_name(),
    {
        match self {
            NovaCallable::NovaFunction(function) => copy_bytes(&function.name),
            NovaCallable::NativeFunction(function) => copy_bytes(&function.name),
            NovaCallable::Nil => vec![78u8, 111u8, 110u8, 101u8],
        }
    }

    /// The object that holds this callable.
    pub fn as_object(&self) -> (r: NovaObject)
        ensures
            match self {
                NovaCallable::Nil => r is Nil,
                NovaCallable::NovaFunction(f) => r is NovaFunction && r->NovaFunction_0.name@
                    == f.name@ && r->NovaFunction_0.address == f.address
                    && r->NovaFunction_0.arity == f.arity && r->NovaFunction_0.is_method
                    == f.is_method && r->NovaFunction_0.number_of_locals == f.number_of_locals,
                NovaCallable::NativeFunction(f) => r is NativeFunction
                    && r->NativeFunction_0.name@ == f.name@ && r->NativeFunction_0.index
                    == f.index,
            },
    {
        match self {
            NovaCallable::Nil => NovaObject::Nil,
            NovaCallable::NativeFunction(function) => NovaObject::NativeFunction(
                NativeFunction { name: copy_bytes(&function.name), index: function.index },
            ),
            NovaCallable::NovaFunction(function) => NovaObject::NovaFunction(
                NovaFunction {
                    name: copy_bytes(&function.name),
                    address: function.address,
                    arity: function.arity,
                    is_method: function.is_method,
                    number_of_locals: function.number_of_locals,
                },
            ),
        }
    }
}

impl NovaObject {
    /// A copy of this object.
    pub fn copy(&self) -> (r: NovaObject)
        ensures
            r@ == self@,
    {
        match self {
            NovaObject::Nil => NovaObject::Nil,
            NovaObject::Bool(v) => NovaObject::Bool(*v),
            NovaObject::Int64(v) => NovaObject::Int64(*v),
            NovaObject::Float64(v) => NovaObject::Float64(*v),
            NovaObject::NovaFunction(f) => NovaObject::NovaFunction(copy_function(f)),
            NovaObject::NativeFunction(f) => NovaObject::NativeFunction(
                NativeFunction { name: copy_bytes(&f.name), index: f.index },
            ),
            NovaObject::String(s) => NovaObject::String(copy_bytes(s)),
        }
    }

    pub fn is_none(&self) -> (r: bool)
        ensures
            r == self is Nil,
    {
        match self {
            NovaObject::Nil => true,
            _ => false,
        }
    }

    pub fn is_string(&self) -> (r: bool)
        ensures
            r == self is String,
    {
        match self {
            NovaObject::String(_) => true,
            _ => false,
        }
    }

    pub fn is_callable(&self) -> (r: bool)
        ensures
            r == (self is NovaFunction || self is NativeFunction),
    {
        match self {
            NovaObject::NovaFunction(_) => true,
            NovaObject::NativeFunction(_) => true,
            _ => false,
        }
    }

    /// The callable held by this object; `NovaCallable::Nil` for other objects.
    pub fn as_callable(&self) -> (r: NovaCallable)
        ensures
            match self {
                NovaObject::NovaFunction(f) => r is NovaFunction && r->NovaFunction_0.name@
                    == f.name@ && r->NovaFunction_0.address == f.address
                    && r->NovaFunction_0.arity == f.arity && r->NovaFunction_0.is_method
                    == f.is_method && r->NovaFunction_0.number_of_locals == f.number_of_locals,
                NovaObject::NativeFunction(f) => r is NativeFunction
                    && r->NativeFunction_0.name@ == f.name@ && r->NativeFunction_0.index
                    == f.index,
                _ => r is Nil,
            },
    {
        match self {
            NovaObject::NovaFunction(function) => NovaCallable::NovaFunction(
                NovaFunction {
                    name: copy_bytes(&function.name),
                    address: function.address,
                    arity: function.arity,
                    is_method: function.is_method,
                    number_of_locals: function.number_of_locals,
                },
            ),
            NovaObject::NativeFunction(function) => NovaCallable::NativeFunction(
                NativeFunction { name: copy_bytes(&function.name), index: function.index },
            ),
            _ => NovaCallable::Nil,
        }
    }
}

/// How the value of a register is read.
#[derive(Debug, Clone, Copy, PartialEq, Eq, Structural)]
pub enum RegisterValueKind {
    /// None value
    Nil,
    /// Int64 value, two's complement
    Int64,
    /// Float64 value, IEEE-754 bits
    Float64,
    /// Bool: 0 or 1
    Bool,
    /// Index of object in memory array
    MemAddress,
    /// Index of object in immutables array
    ImmAddress,
    /// Index of a string in immutables array
    StrImm,
    /// Index of a string in memory array
    StrMem,
    /// A user function described inline; the value is its entry address
    NovaFunctionID(NovaFunctionID),
}

impl RegisterValueKind {
    pub fn is_none(&self) -> (r: bool)
        ensures
            r == (*self is Nil),
    {
        match self {
            Self::Nil => true,
            _ => false,
        }
    }

    pub fn is_float64(&self) -> (r: bool)
        ensures
            r == (*self is Float64),
    {
        match self {
            Self::Float64 => true,
            _ => false,
        }
    }

    pub fn is_int64(&self) -> (r: bool)
        ensures
            r == (*self is Int64),
    {
        match self {
            Self::Int64 => true,
            _ => false,
        }
    }

    pub fn is_mem_address(&self) -> (r: bool)
        ensures
            r == (*self is MemAddress),
    {
        match self {
            Self::MemAddress => true,
            _ => false,
        }
    }

    pub fn is_imm_address(&self) -> (r: bool)
        ensures
            r == (*self is ImmAddress),
    {
        match self {
            Self::ImmAddress => true,
            _ => false,
        }
    }
}

pub const LOCALS_FACTOR: u32 = 0x800_0000;

pub const ARITY_FACTOR: u32 = 0x100_0000;

pub const METHOD_FACTOR: u32 = 0x80_0000;

pub const NAME_ADDRESS_LIMIT: u32 = 0x10_0000;

/// A function descriptor packed in 32 bits: local count in bits 31-27, arity
/// in 26-24, method flag in 23, name address in 19-0.
#[derive(Debug, Clone, Copy, PartialEq, Eq, Structural)]
pub struct NovaFunctionID {
    pub value: u32,
}

/// The fields of a packed function descriptor.
pub struct NovaFunctionIDLabelled {
    pub name_address: u32,
    pub arity: u32,
    pub number_of_locals: u32,
    pub is_method: bool,
}

/// A descriptor fits the packed form when each field fits its bits.
pub open spec fn fits_packed(number_of_locals: u32, arity: u32, name_address: u32) -> bool {
    number_of_locals < 32 && arity < 8 && name_address < NAME_ADDRESS_LIMIT
}

/// The packed form of a descriptor.
pub open spec fn packed(number_of_locals: u32, arity: u32, is_method: bool, name_address: u32) -> int {
    number_of_locals * LOCALS_FACTOR + arity * ARITY_FACTOR + (if is_method {
        METHOD_FACTOR as int
    } else {
        0
    }) + name_address
}

impl NovaFunctionID {
    /// Packs a function descriptor; `None` where a field does not fit its bits.
    pub fn from_nova_function(nova_function: &NovaFunction, name_address: Instruction) -> (r:
        Option<Self>)
        ensures
            r.is_some() <==> fits_packed(
                nova_function.number_of_locals,
                nova_function.arity,
                name_address,
            ),
            r.is_some() ==> r.unwrap().value == packed(
                nova_function.number_of_locals,
                nova_function.arity,
                nova_function.is_method,
                name_address,
            ),
    {
        if nova_function.number_of_locals >= 32 || nova_function.arity >= 8 || name_address
            >= NAME_ADDRESS_LIMIT {
            return None;
        }
        let locals = nova_function.number_of_locals;
        let arity = nova_function.arity;
        let method: u32 = if nova_function.is_method {
            METHOD_FACTOR
        } else {
            0
        };
        assert(locals * LOCALS_FACTOR + arity * ARITY_FACTOR + method + name_address
            <= u32::MAX) by (nonlinear_arith)
            requires
                locals < 32,
                arity < 8,
                method <= METHOD_FACTOR,
                name_address < NAME_ADDRESS_LIMIT,
        ;
        let value = locals * LOCALS_FACTOR + arity * ARITY_FACTOR + method + name_address;
        Some(Self { value })
    }

    /// The fields of the packed descriptor.
    pub fn to_labelled(&self) -> (r: NovaFunctionIDLabelled)
        ensures
            r.name_address == self.value % NAME_ADDRESS_LIMIT,
            r.is_method == ((self.value / METHOD_FACTOR) % 2 == 1),
            r.arity == (self.value / ARITY_FACTOR) % 8,
            r.number_of_locals == self.value / LOCALS_FACTOR,
    {
        let value = self.value;
        let name_address = value % NAME_ADDRESS_LIMIT;
        let is_method = (value / METHOD_FACTOR) % 2 == 1;
        let arity = (value / ARITY_FACTOR) % 8;
        let number_of_locals = value / LOCALS_FACTOR;
        NovaFunctionIDLabelled { name_address, arity, number_of_locals, is_method }
    }
}

/// Unpacking a packed descriptor gives back each of its fields.
pub proof fn lemma_function_id_round_trip(
    number_of_locals: u32,
    arity: u32,
    is_method: bool,
    name_address: u32,
)
    requires
        fits_packed(number_of_locals, arity, name_address),
    ensures
        0 <= packed(number_of_locals, arity, is_method, name_address) <= u32::MAX,
        ({
            let v = packed(number_of_locals, arity, is_method, name_address) as u32;
            &&& v % NAME_ADDRESS_LIMIT == name_address
            &&& ((v / METHOD_FACTOR) % 2 == 1) == is_method
            &&& (v / ARITY_FACTOR) % 8 == arity
            &&& v / LOCALS_FACTOR == number_of_locals
        }),
{
    let m: u32 = if is_method {
        1
    } else {
        0
    };
    let p = packed(number_of_locals, arity, is_method, name_address);
    assert(p == number_of_locals * 0x800_0000 + arity * 0x100_0000 + m * 0x80_0000
        + name_address);
    assert(0 <= p <= u32::MAX) by (nonlinear_arith)
        requires
            p == number_of_locals * 0x800_0000 + arity * 0x100_0000 + m * 0x80_0000
                + name_address,
            number_of_locals < 32,
            arity < 8,
            m < 2,
            name_address < 0x10_0000,
    ;
    let v = p as u32;
    assert(v == number_of_locals * 0x800_0000u32 + arity * 0x100_0000u32 + m * 0x80_0000u32
        + name_address);
    assert(v % 0x10_0000 == name_address && (v / 0x80_0000) % 2 == m && (v / 0x100_0000) % 8
        == arity && v / 0x800_0000 == number_of_locals) by (bit_vector)
        requires
            v == number_of_locals * 0x800_0000u32 + arity * 0x100_0000u32 + m * 0x80_0000u32
                + name_address,
            number_of_locals < 32,
            arity < 8,
            m < 2,
            name_address < 0x10_0000,
    ;
}

} // verus!
