use vstd::prelude::*;

use crate::object::RegisterValueKind;
use crate::register::Register;
use crate::text::{append_bytes, append_decimal, decimal_of};
use crate::object::copy_bytes;

verus! {

/// A string followed by the decimal text of an `Int64` register; `None` for
/// any other kind, whose text the host has to write.
pub fn add_str_num(text: &Vec<u8>, number: Register) -> (r: Option<Vec<u8>>)
    ensures
        number.kind == RegisterValueKind::Int64 <==> r is Some,
        r matches Some(joined) ==> joined@ == text@ + decimal_of(number.value as i64 as int),
{
    if !number.kind.is_int64() {
        return None;
    }
    let mut joined = copy_bytes(text);
    append_decimal(&mut joined, number.value as i64);
    Some(joined)
}

/// The decimal text of an `Int64` register followed by a string; `None` for
/// any other kind.
pub fn add_num_str(number: Register, text: &Vec<u8>) -> (r: Option<Vec<u8>>)
    ensures
        number.kind == RegisterValueKind::Int64 <==> r is Some,
        r matches Some(joined) ==> joined@ == decimal_of(number.value as i64 as int) + text@,
{
    if !number.kind.is_int64() {
        return None;
    }
    let mut joined: Vec<u8> = Vec::new();
    append_decimal(&mut joined, number.value as i64);
    append_bytes(&mut joined, text.as_slice());
    assert(joined@ =~= decimal_of(number.value as i64 as int) + text@);
    Some(joined)
}

} // verus!
