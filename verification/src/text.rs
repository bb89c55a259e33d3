//! Text stored as bytes: the UTF-8 decoding the credential cache reader
//! applies to names.

use vstd::prelude::*;
use vstd::utf8::{decode_utf8, encode_utf8, valid_utf8};

verus! {

/// What `String::from_utf8_lossy` gives for bytes that are not valid UTF-8
/// (each invalid sequence replaced by U+FFFD).
pub uninterp spec fn lossy_utf8(bytes: Seq<u8>) -> Seq<char>;

/// The text that bytes read from a credential cache stand for: their UTF-8
/// decoding where they are valid UTF-8, the lossy decoding otherwise.
pub open spec fn text_of(bytes: Seq<u8>) -> Seq<char> {
    if valid_utf8(bytes) {
        decode_utf8(bytes)
    } else {
        lossy_utf8(bytes)
    }
}

/// Calls `String::from_utf8_lossy`. Its documentation states that valid
/// UTF-8 is returned unchanged; for other input the result is named
/// `lossy_utf8`, a function of the bytes alone.
#[verifier::external_body]
pub(crate) fn text_from_bytes(bytes: &[u8]) -> (s: String)
    ensures
        s@ == (if valid_utf8(bytes@) {
            decode_utf8(bytes@)
        } else {
            lossy_utf8(bytes@)
        }),
{
    String::from_utf8_lossy(bytes).into_owned()
}

/// Reading back the UTF-8 encoding of a text gives the text.
pub proof fn lemma_text_of_encode(s: Seq<char>)
    ensures
        text_of(encode_utf8(s)) == s,
{
    vstd::utf8::encode_utf8_valid_utf8(s);
    vstd::utf8::encode_utf8_decode_utf8(s);
}

/// The UTF-8 bytes of a string.
pub fn string_bytes(s: &String) -> (b: &[u8])
    ensures
        b@ == encode_utf8(s@),
{
    s.as_str().as_bytes()
}

} // verus!
