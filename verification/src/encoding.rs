use vstd::prelude::*;
use vstd::utf8::*;

verus! {

/// What `base64::decode` gives for a text: the bytes it encodes, or `None` where the text
/// is not base64 of the standard alphabet with padding.
pub uninterp spec fn base64_decoding(text: Seq<char>) -> Option<Seq<u8>>;

/// What `base64::encode` gives for some bytes: their base64 text, standard alphabet, padded.
pub uninterp spec fn base64_encoding(data: Seq<u8>) -> Seq<char>;

/// A text short enough that base64 decoding can size its buffers (a machine limit).
pub open spec fn decodable_length(text: Seq<char>) -> bool {
    encode_utf8(text).len() + 7 <= usize::MAX
}

/// A byte string short enough that base64 encoding can size its output (a machine limit).
pub open spec fn encodable_length(len: int) -> bool {
    len / 3 * 4 + 4 <= usize::MAX
}

#[verifier::external_type_specification]
#[verifier::external_body]
pub struct ExDecodeError(base64::DecodeError);

#[verifier::external_type_specification]
#[verifier::external_body]
pub struct ExFromUtf8Error(std::string::FromUtf8Error);

/// Calls `base64::decode` on the UTF-8 bytes of `text`.
///
/// Trusted: the result is `base64_decoding` of the text. The crate panics only where its
/// length arithmetic overflows, which `requires` rules out.
#[verifier::external_body]
pub(crate) fn base64_decode(text: &str) -> (r: Result<Vec<u8>, base64::DecodeError>)
    requires
        decodable_length(text@),
    ensures
        match r {
            Ok(bytes) => base64_decoding(text@) == Some(bytes@),
            Err(_) => base64_decoding(text@) is None,
        },
{
    base64::decode(text)
}

/// Calls `base64::encode`.
///
/// Trusted: the result is `base64_encoding` of the bytes, and decoding it with
/// `base64::decode` gives the bytes back (what an encoding is). The crate panics only
/// where its length arithmetic overflows, which `requires` rules out.
#[verifier::external_body]
pub(crate) fn base64_encode(data: &[u8]) -> (r: String)
    requires
        encodable_length(data@.len() as int),
    ensures
        r@ == base64_encoding(data@),
        base64_decoding(r@) == Some(data@),
{
    base64::encode(data)
}

/// Calls `String::from_utf8`.
///
/// Trusted, as std documents it: the bytes become a `String` exactly when they are valid
/// UTF-8, and the string is then the characters that they encode.
#[verifier::external_body]
pub(crate) fn string_from_utf8(bytes: Vec<u8>) -> (r: Result<String, std::string::FromUtf8Error>)
    ensures
        r is Ok <==> valid_utf8(bytes@),
        r matches Ok(s) ==> s@ == decode_utf8(bytes@),
{
    String::from_utf8(bytes)
}

/// The UTF-8 bytes of a string.
pub(crate) fn utf8_bytes(text: &str) -> (r: Vec<u8>)
    ensures
        r@ == encode_utf8(text@),
{
    vstd::slice::slice_to_vec(text.as_bytes())
}

} // verus!
