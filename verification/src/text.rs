//! Building the character-per-byte text view of binary payloads.

use vstd::prelude::*;

verus! {

/// Each byte reinterpreted as the character with that code point. This is not
/// a UTF-8 decode: every byte value maps to exactly one character, so binary
/// payloads round-trip through the text view losslessly.
pub open spec fn chars_of(s: Seq<u8>) -> Seq<char> {
    s.map_values(|b: u8| b as char)
}

/// Relies on `String::push`: appends exactly the given character.
#[verifier::external_body]
pub(crate) fn push_char(s: &mut String, c: char)
    ensures
        final(s)@ == old(s)@.push(c),
{
    s.push(c);
}

} // verus!
