use vstd::prelude::*;
use vstd::string::StringSliceAdditionalSpecFns;

use crate::object::NovaObject;
use crate::text::{append_bytes, append_natural, append_str, bytes_equal, bytes_of, decimal_of};

verus! {

/// The units that the `time` native reports the current time in.
#[derive(Debug, Clone, Copy, PartialEq, Eq, Structural)]
pub enum TimeUnit {
    Milli,
    Micro,
    Sec,
    Nano,
}

/// The unit that the argument text names, if any.
pub open spec fn unit_named(text: Seq<u8>) -> Option<TimeUnit> {
    if text == "milli".spec_bytes() {
        Some(TimeUnit::Milli)
    } else if text == "micro".spec_bytes() {
        Some(TimeUnit::Micro)
    } else if text == "sec".spec_bytes() {
        Some(TimeUnit::Sec)
    } else if text == "nano".spec_bytes() {
        Some(TimeUnit::Nano)
    } else {
        None
    }
}

/// Checks the arguments of the `time` native: exactly one string that names
/// a unit. The host then reads the clock in that unit.
pub fn time_unit(arguments: &Vec<NovaObject>) -> (r: Result<TimeUnit, Vec<u8>>)
    ensures
        arguments@.len() != 1 ==> (r matches Err(message) && message@
            == " Incorrect number of arguments for 'time()', 1 needed while ".spec_bytes()
            + decimal_of(arguments@.len() as int) + " provided".spec_bytes()),
        arguments@.len() == 1 && !(arguments@[0] is String) ==> (r matches Err(message)
            && message@ == "Function 'time()' requires a string argument".spec_bytes()),
        arguments@.len() == 1 && arguments@[0] is String ==> match unit_named(
            arguments@[0]->String_0@,
        ) {
            Some(unit) => r == Ok::<TimeUnit, Vec<u8>>(unit),
            None => (r matches Err(message) && message@ == "Unknown option: ".spec_bytes()
                + arguments@[0]->String_0@),
        },
{
    if arguments.len() != 1 {
        let mut message = bytes_of(" Incorrect number of arguments for 'time()', 1 needed while ");
        append_natural(&mut message, arguments.len() as u64);
        append_str(&mut message, " provided");
        return Err(message);
    }
    let text = match &arguments[0] {
        NovaObject::String(text) => text,
        _ => {
            return Err(bytes_of("Function 'time()' requires a string argument"));
        },
    };
    if bytes_equal(text, &bytes_of("milli")) {
        return Ok(TimeUnit::Milli);
    }
    if bytes_equal(text, &bytes_of("micro")) {
        return Ok(TimeUnit::Micro);
    }
    if bytes_equal(text, &bytes_of("sec")) {
        return Ok(TimeUnit::Sec);
    }
    if bytes_equal(text, &bytes_of("nano")) {
        return Ok(TimeUnit::Nano);
    }
    let mut message = bytes_of("Unknown option: ");
    append_bytes(&mut message, text.as_slice());
    Err(message)
}

} // verus!
