use vstd::prelude::*;

verus! {

/// Number of opcodes that the instruction set defines; every opcode number lies below it.
pub const BYTECODE_COUNT: u32 = 44;

/// The operation held in bits 31-26 of an instruction word.
#[derive(Debug, Clone, Copy, PartialEq, Eq, Structural)]
pub enum OpCode {
    NoInstruction,
    /// Copy a value between registers(MOVE A <- B)
    Move,
    /// Load a constant into a register (LOAD A <- K)
    LoadK,
    /// Load nil values into a range of registers
    LoadNil,
    /// Load Boolean values into a register
    LoadBool,
    /// Load int32 values into a register
    LoadInt32,
    /// Load int64 values into a register
    LoadInt64,
    /// Load float32 values into a register
    LoadFloat32,
    /// Load float64 values into the register
    LoadFloat64,
    /// Load a return value (LOADRETURN DR SR1)
    LoadReturn,
    /// Clear return value in register
    ClearReturn,
    /// Prepare an object method for calling
    This,
    /// Addition operator
    Add,
    /// Subtraction operator
    Sub,
    /// Multiplication operator
    Mul,
    /// Division operator
    Div,
    /// Modulus (remainder) operator
    Mod,
    /// Exponentation operator
    Pow,
    /// Unary Minus
    Neg,
    /// Logical Not
    Not,
    /// Logical And
    And,
    /// Logical Or
    Or,
    /// Less than Test (Jump if false) (A < B) ? Skip Jump : Jump
    Less,
    /// Less than or equal Test (Jump if false) (A < B) ? Skip Jump : Jump
    LessEqual,
    /// Equality test
    Equal,
    /// Jump if a condition returned false
    JumpFalse,
    /// Unconditional Jump with Offset
    Jump,
    /// Define Global Variable by looking up variable name
    DefineGlobalIndirect,
    /// Store value in global variable by looking up variable name
    StoreGlobalIndirect,
    /// Load value from Global Variable looking up variable name
    LoadGlobalIndirect,
    /// Load Global Variable
    LoadGlobal,
    /// Allocate space for local variables
    AllocateLocal,
    /// Deallocate space for local variables
    DeallocateLocal,
    /// Store local variable
    StoreLocal,
    /// Load local variable
    LoadLocal,
    /// Print value in register
    Print,
    /// Invoke call
    Invoke,
    /// While loop
    While,
    /// Unconditional Loop
    Loop,
    /// Exit loop
    Break,
    /// Push new stack frame
    NewFrame,
    /// Return null
    ReturnNone,
    /// Return value
    ReturnVal,
    /// Stop the interpreter
    Halt,
}

impl OpCode {
    /// The number that encodes this opcode in an instruction word.
    pub open spec fn spec_code(self) -> u32 {
        match self {
            OpCode::NoInstruction => 0,
            OpCode::Move => 1,
            OpCode::LoadK => 2,
            OpCode::LoadNil => 3,
            OpCode::LoadBool => 4,
            OpCode::LoadInt32 => 5,
            OpCode::LoadInt64 => 6,
            OpCode::LoadFloat32 => 7,
            OpCode::LoadFloat64 => 8,
            OpCode::LoadReturn => 9,
            OpCode::ClearReturn => 10,
            OpCode::This => 11,
            OpCode::Add => 12,
            OpCode::Sub => 13,
            OpCode::Mul => 14,
            OpCode::Div => 15,
            OpCode::Mod => 16,
            OpCode::Pow => 17,
            OpCode::Neg => 18,
            OpCode::Not => 19,
            OpCode::And => 20,
            OpCode::Or => 21,
            OpCode::Less => 22,
            OpCode::LessEqual => 23,
            OpCode::Equal => 24,
            OpCode::JumpFalse => 25,
            OpCode::Jump => 26,
            OpCode::DefineGlobalIndirect => 27,
            OpCode::StoreGlobalIndirect => 28,
            OpCode::LoadGlobalIndirect => 29,
            OpCode::LoadGlobal => 30,
            OpCode::AllocateLocal => 31,
            OpCode::DeallocateLocal => 32,
            OpCode::StoreLocal => 33,
            OpCode::LoadLocal => 34,
            OpCode::Print => 35,
            OpCode::Invoke => 36,
            OpCode::While => 37,
            OpCode::Loop => 38,
            OpCode::Break => 39,
            OpCode::NewFrame => 40,
            OpCode::ReturnNone => 41,
            OpCode::ReturnVal => 42,
            OpCode::Halt => 43,
        }
    }

    /// The opcode that a number encodes, if any.
    pub open spec fn spec_from_code(code: u32) -> Option<OpCode> {
        if code == 0 { Some(OpCode::NoInstruction) }
        else if code == 1 { Some(OpCode::Move) }
        else if code == 2 { Some(OpCode::LoadK) }
        else if code == 3 { Some(OpCode::LoadNil) }
        else if code == 4 { Some(OpCode::LoadBool) }
        else if code == 5 { Some(OpCode::LoadInt32) }
        else if code == 6 { Some(OpCode::LoadInt64) }
        else if code == 7 { Some(OpCode::LoadFloat32) }
        else if code == 8 { Some(OpCode::LoadFloat64) }
        else if code == 9 { Some(OpCode::LoadReturn) }
        else if code == 10 { Some(OpCode::ClearReturn) }
        else if code == 11 { Some(OpCode::This) }
        else if code == 12 { Some(OpCode::Add) }
        else if code == 13 { Some(OpCode::Sub) }
        else if code == 14 { Some(OpCode::Mul) }
        else if code == 15 { Some(OpCode::Div) }
        else if code == 16 { Some(OpCode::Mod) }
        else if code == 17 { Some(OpCode::Pow) }
        else if code == 18 { Some(OpCode::Neg) }
        else if code == 19 { Some(OpCode::Not) }
        else if code == 20 { Some(OpCode::And) }
        else if code == 21 { Some(OpCode::Or) }
        else if code == 22 { Some(OpCode::Less) }
        else if code == 23 { Some(OpCode::LessEqual) }
        else if code == 24 { Some(OpCode::Equal) }
        else if code == 25 { Some(OpCode::JumpFalse) }
        else if code == 26 { Some(OpCode::Jump) }
        else if code == 27 { Some(OpCode::DefineGlobalIndirect) }
        else if code == 28 { Some(OpCode::StoreGlobalIndirect) }
        else if code == 29 { Some(OpCode::LoadGlobalIndirect) }
        else if code == 30 { Some(OpCode::LoadGlobal) }
        else if code == 31 { Some(OpCode::AllocateLocal) }
        else if code == 32 { Some(OpCode::DeallocateLocal) }
        else if code == 33 { Some(OpCode::StoreLocal) }
        else if code == 34 { Some(OpCode::LoadLocal) }
        else if code == 35 { Some(OpCode::Print) }
        else if code == 36 { Some(OpCode::Invoke) }
        else if code == 37 { Some(OpCode::While) }
        else if code == 38 { Some(OpCode::Loop) }
        else if code == 39 { Some(OpCode::Break) }
        else if code == 40 { Some(OpCode::NewFrame) }
        else if code == 41 { Some(OpCode::ReturnNone) }
        else if code == 42 { Some(OpCode::ReturnVal) }
        else if code == 43 { Some(OpCode::Halt) }
        else { None }
    }

    /// The number that encodes this opcode in an instruction word.
    pub fn to_u32(&self) -> (r: u32)
        ensures
            r == self.spec_code(),
            r < BYTECODE_COUNT,
    {
        match self {
            OpCode::NoInstruction => 0,
            OpCode::Move => 1,
            OpCode::LoadK => 2,
            OpCode::LoadNil => 3,
            OpCode::LoadBool => 4,
            OpCode::LoadInt32 => 5,
            OpCode::LoadInt64 => 6,
            OpCode::LoadFloat32 => 7,
            OpCode::LoadFloat64 => 8,
            OpCode::LoadReturn => 9,
            OpCode::ClearReturn => 10,
            OpCode::This => 11,
            OpCode::Add => 12,
            OpCode::Sub => 13,
            OpCode::Mul => 14,
            OpCode::Div => 15,
            OpCode::Mod => 16,
            OpCode::Pow => 17,
            OpCode::Neg => 18,
            OpCode::Not => 19,
            OpCode::And => 20,
            OpCode::Or => 21,
            OpCode::Less => 22,
            OpCode::LessEqual => 23,
            OpCode::Equal => 24,
            OpCode::JumpFalse => 25,
            OpCode::Jump => 26,
            OpCode::DefineGlobalIndirect => 27,
            OpCode::StoreGlobalIndirect => 28,
            OpCode::LoadGlobalIndirect => 29,
            OpCode::LoadGlobal => 30,
            OpCode::AllocateLocal => 31,
            OpCode::DeallocateLocal => 32,
            OpCode::StoreLocal => 33,
            OpCode::LoadLocal => 34,
            OpCode::Print => 35,
            OpCode::Invoke => 36,
            OpCode::While => 37,
            OpCode::Loop => 38,
            OpCode::Break => 39,
            OpCode::NewFrame => 40,
            OpCode::ReturnNone => 41,
            OpCode::ReturnVal => 42,
            OpCode::Halt => 43,
        }
    }

    /// The opcode that a number encodes: `None` for a number at or past `BYTECODE_COUNT`.
    pub fn from_u32(code: u32) -> (r: Option<OpCode>)
        ensures
            r == OpCode::spec_from_code(code),
            r.is_some() <==> code < BYTECODE_COUNT,
            r.is_some() ==> r.unwrap().spec_code() == code,
    {
        match code {
            0 => Some(OpCode::NoInstruction),
            1 => Some(OpCode::Move),
            2 => Some(OpCode::LoadK),
            3 => Some(OpCode::LoadNil),
            4 => Some(OpCode::LoadBool),
            5 => Some(OpCode::LoadInt32),
            6 => Some(OpCode::LoadInt64),
            7 => Some(OpCode::LoadFloat32),
            8 => Some(OpCode::LoadFloat64),
            9 => Some(OpCode::LoadReturn),
            10 => Some(OpCode::ClearReturn),
            11 => Some(OpCode::This),
            12 => Some(OpCode::Add),
            13 => Some(OpCode::Sub),
            14 => Some(OpCode::Mul),
            15 => Some(OpCode::Div),
            16 => Some(OpCode::Mod),
            17 => Some(OpCode::Pow),
            18 => Some(OpCode::Neg),
            19 => Some(OpCode::Not),
            20 => Some(OpCode::And),
            21 => Some(OpCode::Or),
            22 => Some(OpCode::Less),
            23 => Some(OpCode::LessEqual),
            24 => Some(OpCode::Equal),
            25 => Some(OpCode::JumpFalse),
            26 => Some(OpCode::Jump),
            27 => Some(OpCode::DefineGlobalIndirect),
            28 => Some(OpCode::StoreGlobalIndirect),
            29 => Some(OpCode::LoadGlobalIndirect),
            30 => Some(OpCode::LoadGlobal),
            31 => Some(OpCode::AllocateLocal),
            32 => Some(OpCode::DeallocateLocal),
            33 => Some(OpCode::StoreLocal),
            34 => Some(OpCode::LoadLocal),
            35 => Some(OpCode::Print),
            36 => Some(OpCode::Invoke),
            37 => Some(OpCode::While),
            38 => Some(OpCode::Loop),
            39 => Some(OpCode::Break),
            40 => Some(OpCode::NewFrame),
            41 => Some(OpCode::ReturnNone),
            42 => Some(OpCode::ReturnVal),
            43 => Some(OpCode::Halt),
            _ => None,
        }
    }
}

/// Decoding the code of an opcode gives the opcode back.
pub proof fn lemma_code_round_trip(op: OpCode)
    ensures
        OpCode::spec_from_code(op.spec_code()) == Some(op),
        op.spec_code() < BYTECODE_COUNT,
{
}

} // verus!
