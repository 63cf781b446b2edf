//! The two places the codec leans on the standard library's text handling:
//! appending one character to a `String`, and turning received bytes into
//! text. Everything else the codec does to text is verified code.

use vstd::prelude::*;

verus! {

/// Relies on `String::push`: appends the given character to the end of the
/// string.
pub assume_specification[ String::push ](s: &mut String, ch: char)
    ensures
        final(s)@ == old(s)@.push(ch),
;

/// Relies on `String::from_utf8`: returns the text whose UTF-8 encoding is
/// exactly the given bytes, and an error exactly when the bytes are not
/// valid UTF-8; the error carries how many leading bytes were still valid.
#[verifier::external_body]
pub(crate) fn string_from_utf8(bytes: Vec<u8>) -> (r: Result<String, usize>)
    ensures
        match r {
            Ok(t) => vstd::utf8::valid_utf8(bytes@) && t@ == vstd::utf8::decode_utf8(bytes@),
            Err(valid_up_to) => !vstd::utf8::valid_utf8(bytes@) && valid_up_to <= bytes@.len(),
        },
{
    match String::from_utf8(bytes) {
        Ok(t) => Ok(t),
        Err(e) => Err(e.utf8_error().valid_up_to()),
    }
}

} // verus!
