//! Header values as they travel: the bytes that an `http::HeaderValue` holds,
//! and the two ways between such a value and text.

use vstd::prelude::*;
use vstd::utf8::{encode_utf8, is_ascii_chars_encode_utf8};
use http::header::{InvalidHeaderValue, ToStrError};
use http::HeaderValue;

verus! {

/// `http::HeaderValue`, carried through as it is.
#[verifier::external_type_specification]
#[verifier::external_body]
pub struct ExHeaderValue(HeaderValue);

/// `http::header::ToStrError`, which says no more than that `to_str` failed.
#[verifier::external_type_specification]
#[verifier::external_body]
pub struct ExToStrError(ToStrError);

/// `http::header::InvalidHeaderValue`, which says no more than that bytes
/// were refused.
#[verifier::external_type_specification]
#[verifier::external_body]
pub struct ExInvalidHeaderValue(InvalidHeaderValue);

/// The bytes that the header value `value` holds.
pub uninterp spec fn header_bytes(value: HeaderValue) -> Seq<u8>;

/// Whether `b` is a visible ASCII character, a space or a tab.
pub open spec fn is_visible_ascii(b: u8) -> bool {
    32 <= b < 127 || b == 9
}

/// Whether every byte of `bytes` is visible ASCII.
pub open spec fn all_visible_ascii(bytes: Seq<u8>) -> bool {
    forall|i: int| 0 <= i < bytes.len() ==> is_visible_ascii(#[trigger] bytes[i])
}

/// Whether a header value may hold `b`: any byte but the control characters,
/// of which only the tab is let in.
pub open spec fn is_value_byte(b: u8) -> bool {
    (b >= 32 && b != 127) || b == 9
}

/// Whether a header value may hold every byte of `bytes`.
pub open spec fn all_value_bytes(bytes: Seq<u8>) -> bool {
    forall|i: int| 0 <= i < bytes.len() ==> is_value_byte(#[trigger] bytes[i])
}

/// ASCII bytes as text, byte by byte.
pub open spec fn ascii_text(bytes: Seq<u8>) -> Seq<char> {
    Seq::new(bytes.len(), |i: int| bytes[i] as char)
}

/// ASCII text as bytes, character by character.
pub open spec fn ascii_bytes(text: Seq<char>) -> Seq<u8> {
    Seq::new(text.len(), |i: int| text[i] as u8)
}

/// Whether `text` holds visible ASCII characters and spaces only.
pub open spec fn plain_text(text: Seq<char>) -> bool {
    forall|i: int| 0 <= i < text.len() ==> ' ' <= #[trigger] text[i] <= '~'
}

/// Plain text is, byte for byte, what a header value holds of it, and it
/// comes back from those bytes unchanged.
pub proof fn lemma_plain_text_bytes(text: Seq<char>)
    requires
        plain_text(text),
    ensures
        encode_utf8(text) == ascii_bytes(text),
        all_value_bytes(ascii_bytes(text)),
        all_visible_ascii(ascii_bytes(text)),
        ascii_text(ascii_bytes(text)) == text,
{
    is_ascii_chars_encode_utf8(text);
}

/// `http::HeaderValue::to_str`: the value as text, which is handed out
/// exactly when every byte is visible ASCII, and then holds the bytes as they
/// are.
pub assume_specification[ HeaderValue::to_str ](value: &HeaderValue) -> (r: Result<
    &str,
    ToStrError,
>)
    ensures
        r is Ok <==> all_visible_ascii(header_bytes(*value)),
        r matches Ok(s) ==> s@ == ascii_text(header_bytes(*value)),
;

/// `http::HeaderValue::from_maybe_shared`, on a `String`: the header value
/// that holds the bytes of `text`, which is made exactly when a header value
/// may hold each of them.
#[verifier::external_body]
pub(crate) fn header_value_of(text: String) -> (r: Result<HeaderValue, InvalidHeaderValue>)
    ensures
        r is Ok <==> all_value_bytes(encode_utf8(text@)),
        r matches Ok(v) ==> header_bytes(v) == encode_utf8(text@),
{
    HeaderValue::from_maybe_shared(text)
}

} // verus!
