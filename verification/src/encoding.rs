//! Bytes as text: what the standard library makes of bytes that may not be UTF-8, and how it quotes
//! text for a reader.

use vstd::prelude::*;
use vstd::utf8::{decode_utf8, encode_utf8, valid_utf8};

verus! {

/// What `String::from_utf8_lossy` reads from bytes that are not UTF-8.
pub uninterp spec fn repaired_text(bytes: Seq<u8>) -> Seq<char>;

/// The text that bytes are shown as: the text they encode, or a repaired one where they are not
/// UTF-8.
pub open spec fn shown_text(bytes: Seq<u8>) -> Seq<char> {
    if valid_utf8(bytes) {
        decode_utf8(bytes)
    } else {
        repaired_text(bytes)
    }
}

/// Calls `String::from_utf8_lossy`. Bytes that are valid UTF-8 are decoded; of other bytes the
/// result, in which replacement characters stand for what could not be decoded, is a function of
/// the bytes alone.
#[verifier::external_body]
fn from_utf8_lossy(bytes: &[u8]) -> (r: String)
    ensures
        r@ == (if valid_utf8(bytes@) {
            decode_utf8(bytes@)
        } else {
            repaired_text(bytes@)
        }),
{
    String::from_utf8_lossy(bytes).into_owned()
}

/// The text that `bytes` are shown as.
pub fn show(bytes: &[u8]) -> (r: String)
    ensures
        r@ == shown_text(bytes@),
{
    from_utf8_lossy(bytes)
}

/// Calls `std::str::from_utf8`, which accepts exactly the bytes that are valid UTF-8.
#[verifier::external_body]
pub(crate) fn is_utf8(bytes: &[u8]) -> (r: bool)
    ensures
        r == valid_utf8(bytes@),
{
    std::str::from_utf8(bytes).is_ok()
}

/// What the `Debug` form of a string slice reads: the text in quotes, with escapes.
pub uninterp spec fn quoted_text(text: Seq<char>) -> Seq<char>;

/// Calls the `Debug` formatting of `str`. Its result is a function of the text alone.
#[verifier::external_body]
pub(crate) fn quote(text: &str) -> (r: String)
    ensures
        r@ == quoted_text(text@),
{
    format!("{text:?}")
}

/// Bytes that are UTF-8 are shown as the text that they encode: encoding it gives the bytes back, and
/// a text that was encoded is shown as itself.
pub proof fn encoded_text_is_shown_as_it_is(bytes: Seq<u8>, text: Seq<char>)
    ensures
        valid_utf8(bytes) ==> encode_utf8(shown_text(bytes)) == bytes,
        shown_text(encode_utf8(text)) == text,
{
    if valid_utf8(bytes) {
        vstd::utf8::decode_utf8_encode_utf8(bytes);
    }
    vstd::utf8::encode_utf8_valid_utf8(text);
    vstd::utf8::encode_utf8_decode_utf8(text);
}

} // verus!
