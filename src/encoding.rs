//! Byte-level encodings the vault relies on: standard padded base64 and UTF-8.
use vstd::prelude::*;
use vstd::utf8::{decode_utf8, valid_utf8};
use base64::Engine;

verus! {

/// The text that standard base64 (RFC 4648 alphabet, with `=` padding) makes
/// of a byte sequence.
pub uninterp spec fn base64_encoded(bytes: Seq<u8>) -> Seq<char>;

/// Relies on base64's `general_purpose::STANDARD` engine, `encode`: the
/// padded RFC 4648 text of the bytes.
#[verifier::external_body]
pub(crate) fn base64_encode(bytes: &[u8]) -> (r: String)
    ensures
        r@ == base64_encoded(bytes@),
{
    base64::engine::general_purpose::STANDARD.encode(bytes)
}

/// Relies on base64's `general_purpose::STANDARD` engine, `decode`: that engine
/// requires canonical padding and rejects trailing bits, so it accepts exactly
/// the texts that `encode` produces and gives back the bytes they encode.
#[verifier::external_body]
pub(crate) fn base64_decode(text: &str) -> (r: Option<Vec<u8>>)
    ensures
        forall|v: Seq<u8>| #[trigger] base64_encoded(v) == text@ ==> r is Some && r->Some_0@ == v,
        r is Some ==> base64_encoded(r->Some_0@) == text@,
{
    base64::engine::general_purpose::STANDARD.decode(text).ok()
}

/// Relies on std's `String::from_utf8`: it accepts exactly the valid UTF-8
/// byte sequences and keeps their characters.
#[verifier::external_body]
pub(crate) fn utf8_string(bytes: Vec<u8>) -> (r: Option<String>)
    ensures
        r is Some <==> valid_utf8(bytes@),
        r is Some ==> r->Some_0@ == decode_utf8(bytes@),
{
    String::from_utf8(bytes).ok()
}

} // verus!
