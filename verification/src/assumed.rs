//! What this crate believes of the standard library without proof.
//!
//! Verus knows nothing of these two functions. All else that the crate
//! takes from the standard library comes with a specification of `vstd`.

use vstd::prelude::*;

verus! {

/// `String::push` of the standard library appends one character to the end of
/// the string and leaves the characters before it as they were. This is
/// believed, not proved.
pub assume_specification[ String::push ](s: &mut String, c: char)
    ensures
        final(s)@ == old(s)@.push(c),
;

/// The text that `String::from_utf8_lossy` of the standard library makes of
/// the given bytes.
pub uninterp spec fn utf8_lossy(bytes: Seq<u8>) -> Seq<char>;

/// Decodes bytes as UTF-8 with `String::from_utf8_lossy` of the standard
/// library. The result depends on the bytes alone. Where the bytes are valid
/// UTF-8 it is the text that they encode; otherwise the standard library puts
/// U+FFFD in place of each invalid sequence, which is not spelled out here.
/// This is believed, not proved.
#[verifier::external_body]
pub(crate) fn decode_lossy(bytes: &[u8]) -> (text: String)
    ensures
        text@ == utf8_lossy(bytes@),
        vstd::utf8::valid_utf8(bytes@) ==> text@ == vstd::utf8::decode_utf8(bytes@),
{
    String::from_utf8_lossy(bytes).into_owned()
}

} // verus!
