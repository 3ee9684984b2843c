use vstd::prelude::*;

use crate::machine::{FloatRequest, Number};
use crate::object::RegisterValueKind;
use crate::register::Register;

verus! {

/// The arithmetic operators of the machine.
#[derive(Debug, Clone, Copy, PartialEq, Eq, Structural)]
pub enum ArithmeticOp {
    Add,
    Sub,
    Mul,
    Div,
    Pow,
    Mod,
}

/// The remainder of `a / b` truncated toward zero, as Rust's `%` gives it.
pub open spec fn truncated_remainder(a: int, b: int) -> int {
    let r = if a >= 0 {
        a % (if b < 0 { -b } else { b })
    } else {
        -((-a) % (if b < 0 { -b } else { b }))
    };
    r
}

/// An operation on two `Int64` registers that integers can carry out: `Add`,
/// `Sub`, `Mul` wrap; `Mod` is the remainder truncated toward zero. `None`
/// for `Div` and `Pow`, which go through floating point, and for a zero divisor.
pub fn op_int_int(op: ArithmeticOp, register_1: Register, register_2: Register) -> (r: Option<
    Register,
>)
    ensures
        (op is Add || op is Sub || op is Mul || (op is Mod && register_2.value != 0)) <==> r is Some,
        r is Some ==> r.unwrap().kind == RegisterValueKind::Int64,
        op is Add ==> r.unwrap().value == register_1.value.wrapping_add(register_2.value),
        op is Sub ==> r.unwrap().value == register_1.value.wrapping_sub(register_2.value),
        op is Mul ==> r.unwrap().value == register_1.value.wrapping_mul(register_2.value),
        op is Mod && register_2.value != 0 ==> r.unwrap().value == (truncated_remainder(
            register_1.value as i64 as int,
            register_2.value as i64 as int,
        ) as i64) as u64,
{
    let a = register_1.value;
    let b = register_2.value;
    match op {
        ArithmeticOp::Add => Some(Register::new(RegisterValueKind::Int64, a.wrapping_add(b))),
        ArithmeticOp::Sub => Some(Register::new(RegisterValueKind::Int64, a.wrapping_sub(b))),
        ArithmeticOp::Mul => Some(Register::new(RegisterValueKind::Int64, a.wrapping_mul(b))),
        ArithmeticOp::Mod => {
            if b == 0 {
                return None;
            }
            let x: i64 = #[verifier::truncate] (a as i64);
            let y: i64 = #[verifier::truncate] (b as i64);
            assert((b as i64) == 0 ==> b == 0) by (bit_vector);
            if y == 0 {
                return None;
            }
            let ux: u64 = if x < 0 { (-(x as i128)) as u64 } else { x as u64 };
            let uy: u64 = if y < 0 { (-(y as i128)) as u64 } else { y as u64 };
            let m = ux % uy;
            let v: i64 = if x < 0 { -(m as i128) as i64 } else { m as i64 };
            assert(v == truncated_remainder(x as int, y as int));
            let bits: u64 = #[verifier::truncate] (v as u64);
            Some(Register::new(RegisterValueKind::Int64, bits))
        },
        _ => None,
    }
}

/// `op` on two `Float64` registers, as a request to the host.
pub fn op_float_float(op: ArithmeticOp, register_1: Register, register_2: Register) -> (r: FloatRequest)
    ensures
        r == (FloatRequest::Arithmetic {
            op,
            left: Number::Float(register_1.value),
            right: Number::Float(register_2.value),
        }),
{
    FloatRequest::Arithmetic {
        op,
        left: Number::Float(register_1.value),
        right: Number::Float(register_2.value),
    }
}

/// `op` on an `Int64` and a `Float64` register, as a request to the host.
pub fn op_int_float(op: ArithmeticOp, register_1: Register, register_2: Register) -> (r: FloatRequest)
    ensures
        r == (FloatRequest::Arithmetic {
            op,
            left: Number::Int(register_1.value as i64),
            right: Number::Float(register_2.value),
        }),
{
    FloatRequest::Arithmetic {
        op,
        left: Number::Int(register_1.value as i64),
        right: Number::Float(register_2.value),
    }
}

/// `op` on a `Float64` and an `Int64` register, as a request to the host.
pub fn op_float_int(op: ArithmeticOp, register_1: Register, register_2: Register) -> (r: FloatRequest)
    ensures
        r == (FloatRequest::Arithmetic {
            op,
            left: Number::Float(register_1.value),
            right: Number::Int(register_2.value as i64),
        }),
{
    FloatRequest::Arithmetic {
        op,
        left: Number::Float(register_1.value),
        right: Number::Int(register_2.value as i64),
    }
}

} // verus!
