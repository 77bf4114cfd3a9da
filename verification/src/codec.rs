//! The outside codecs the library leans on: base64 (the `base64` crate) and
//! UTF-8 validation (`String::from_utf8`). Each call stands behind a trusted
//! wrapper; what base64 text a byte sequence encodes to, and what bytes a text
//! decodes to, are named by uninterpreted spec functions tied together by the
//! documented round trip.

use vstd::prelude::*;
use vstd::utf8::{decode_utf8, valid_utf8};

verus! {

/// The base64 text (standard alphabet, padded) that `base64::encode` returns
/// for a byte sequence.
pub uninterp spec fn b64_encoding(bytes: Seq<u8>) -> Seq<char>;

/// What `base64::decode` (standard alphabet) returns for a text: the decoded
/// bytes, or `None` where it rejects the text.
pub uninterp spec fn b64_decoding(text: Seq<char>) -> Option<Seq<u8>>;

/// The diagnostic text that `base64::decode`'s error renders to for a text it
/// rejects.
pub uninterp spec fn b64_error_text(text: Seq<char>) -> Seq<char>;

/// The diagnostic text that `String::from_utf8`'s error renders to for bytes
/// that are not valid UTF-8.
pub uninterp spec fn utf8_error_text(bytes: Seq<u8>) -> Seq<char>;

/// A character of the standard base64 alphabet, the padding character included.
pub open spec fn is_base64_char(c: char) -> bool {
    ||| 'A' <= c && c <= 'Z'
    ||| 'a' <= c && c <= 'z'
    ||| '0' <= c && c <= '9'
    ||| c == '+'
    ||| c == '/'
    ||| c == '='
}

/// Relies on `base64::encode` (standard alphabet, with padding): the result is
/// a function of the input bytes alone, four characters for every three bytes,
/// rounded up, all drawn from the standard alphabet.
#[verifier::external_body]
pub(crate) fn base64_encode(bytes: &[u8]) -> (r: String)
    ensures
        r@ == b64_encoding(bytes@),
        r@.len() == ((bytes@.len() + 2) / 3) * 4,
        forall|i: int| 0 <= i < r@.len() ==> is_base64_char(#[trigger] r@[i]),
{
    base64::encode(bytes)
}

/// Relies on `base64::decode` (standard alphabet): whether a text is accepted,
/// and what bytes it decodes to, depend on the text alone, and decoding an
/// encoded value gives the original bytes back. The error case carries the
/// diagnostic text of the decoder's error, rendered by its `Display`, which
/// writes the same text for the same input.
#[verifier::external_body]
pub(crate) fn base64_decode(text: &str) -> (r: Result<Vec<u8>, String>)
    ensures
        r is Ok <==> b64_decoding(text@) is Some,
        (r matches Ok(v) ==> b64_decoding(text@) == Some(v@)),
        (r matches Err(m) ==> m@ == b64_error_text(text@)),
        forall|b: Seq<u8>| text@ == #[trigger] b64_encoding(b) ==> r is Ok && r->Ok_0@ == b,
{
    base64::decode(text).map_err(|e| e.to_string())
}

/// Relies on `String::from_utf8`: it succeeds exactly on valid UTF-8 and
/// returns the decoded characters. The error case carries the diagnostic text
/// of the validation error, rendered by its `Display`, which writes the same
/// text for the same input.
#[verifier::external_body]
pub(crate) fn utf8_to_string(bytes: Vec<u8>) -> (r: Result<String, String>)
    ensures
        r is Ok <==> valid_utf8(bytes@),
        (r matches Ok(t) ==> t@ == decode_utf8(bytes@)),
        (r matches Err(m) ==> m@ == utf8_error_text(bytes@)),
{
    String::from_utf8(bytes).map_err(|e| e.to_string())
}

} // verus!
