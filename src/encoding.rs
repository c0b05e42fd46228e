//! URL-safe base64, as the `base64_url` crate writes and reads it, and
//! lowercase hexadecimal, as the `hex` crate writes it.

use vstd::prelude::*;

verus! {

/// The bytes that a URL-safe base64 text (no padding) stands for, if it is
/// one.
pub uninterp spec fn base64url_decoded(text: Seq<char>) -> Option<Seq<u8>>;

/// The URL-safe base64 text (no padding) of `bytes`.
pub uninterp spec fn base64url_text(bytes: Seq<u8>) -> Seq<char>;

/// Relies on base64_url::decode, which uses the URL-safe alphabet without
/// padding: the bytes, or the text of its error; the outcome depends on the
/// text alone.
#[verifier::external_body]
pub(crate) fn decode_base64url(text: &str) -> (r: Result<Vec<u8>, String>)
    ensures
        r matches Ok(b) ==> base64url_decoded(text@) == Some(b@),
        r is Err ==> base64url_decoded(text@) is None,
{
    base64_url::decode(text).map_err(|e| e.to_string())
}

/// Relies on base64_url::encode, which uses the URL-safe alphabet without
/// padding; no bytes give the empty text.
#[verifier::external_body]
pub(crate) fn encode_base64url(bytes: &[u8]) -> (r: String)
    ensures
        r@ == base64url_text(bytes@),
        bytes@.len() == 0 ==> r@.len() == 0,
{
    base64_url::encode(bytes)
}

/// The lowercase hexadecimal digit of `d`.
pub open spec fn hex_digit(d: nat) -> char {
    if d < 10 {
        ((48 + d) as u32) as char
    } else {
        ((87 + d) as u32) as char
    }
}

/// Two lowercase hexadecimal digits per byte, high half first.
pub open spec fn hex_of(bytes: Seq<u8>) -> Seq<char>
    decreases bytes.len(),
{
    if bytes.len() == 0 {
        Seq::empty()
    } else {
        hex_of(bytes.drop_last()) + seq![
            hex_digit((bytes.last() / 16) as nat),
            hex_digit((bytes.last() % 16) as nat),
        ]
    }
}

/// Two digits per byte.
pub proof fn lemma_hex_len(bytes: Seq<u8>)
    ensures
        hex_of(bytes).len() == 2 * bytes.len(),
    decreases bytes.len(),
{
    if bytes.len() > 0 {
        lemma_hex_len(bytes.drop_last());
    }
}

/// Relies on hex::encode: two lowercase hexadecimal digits per byte, in order.
#[verifier::external_body]
pub(crate) fn hex_text(bytes: &[u8]) -> (r: String)
    ensures
        r@ == hex_of(bytes@),
{
    hex::encode(bytes)
}

} // verus!
