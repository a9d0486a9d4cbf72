//! Contracts for the few standard-library functions this crate uses that
//! vstd does not specify.

use vstd::prelude::*;

verus! {

/// Relies on `String::push`: appends exactly one character.
pub assume_specification[ String::push ](s: &mut String, ch: char)
    ensures
        final(s)@ == old(s)@.push(ch),
;

/// Relies on `char::from_u32`: `Some` exactly for Unicode scalar values
/// (everything up to 0x10FFFF except the surrogate range), and the
/// returned character has the given code point.
pub assume_specification[ char::from_u32 ](i: u32) -> (r: Option<char>)
    ensures
        r is Some <==> (i < 0xD800 || (0xE000 <= i && i <= 0x10FFFF)),
        r matches Some(c) ==> c as u32 == i,
;

} // verus!
