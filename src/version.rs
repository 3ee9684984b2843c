use vstd::prelude::*;

verus! {

pub const VERSION_MAJOR: u32 = 0;

pub const VERSION_MINOR: u32 = 1;

/// Major version of the bytecode that this library writes and reads.
pub fn major() -> (r: u32)
    ensures
        r == VERSION_MAJOR,
{
    VERSION_MAJOR
}

/// Minor version of the bytecode that this library writes and reads.
pub fn minor() -> (r: u32)
    ensures
        r == VERSION_MINOR,
{
    VERSION_MINOR
}

} // verus!
