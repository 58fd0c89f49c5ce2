use base64::Engine;
use base64::engine::general_purpose::URL_SAFE_NO_PAD;
use vstd::prelude::*;
use vstd::utf8::{decode_utf8, valid_utf8};

verus! {

/// The base64url text, without padding, that stands for `bytes`.
pub uninterp spec fn base64url_text(bytes: Seq<u8>) -> Seq<u8>;

/// The bytes that a base64url text stands for, or `None` where the text is not
/// base64url without padding.
pub uninterp spec fn base64url_bytes(text: Seq<u8>) -> Option<Seq<u8>>;

/// The byte of the full stop that separates the segments of a compact message.
pub open spec fn dot() -> u8 {
    0x2e
}

/// No byte of `text` is a full stop.
pub open spec fn dot_free(text: Seq<u8>) -> bool {
    forall|i: int| 0 <= i < text.len() ==> #[trigger] text[i] != dot()
}

/// The length of the unpadded base64 text for `n` bytes.
pub open spec fn base64url_len(n: nat) -> nat {
    ((4 * n + 2) / 3) as nat
}

/// Calls `Engine::encode` of `URL_SAFE_NO_PAD`. The contract names the text
/// and states of it what the alphabet and the format give: four characters
/// for every three bytes with no padding, all of them ASCII and none a full
/// stop, and that decoding the text gives the bytes back. A slice is never
/// long enough for the length computation inside to overflow.
#[verifier::external_body]
pub(crate) fn encode(bytes: &[u8]) -> (r: Vec<u8>)
    ensures
        r@ == base64url_text(bytes@),
        r@.len() == base64url_len(bytes@.len()),
        dot_free(r@),
        valid_utf8(r@),
        base64url_bytes(r@) == Some(bytes@),
{
    URL_SAFE_NO_PAD.encode(bytes).into_bytes()
}

/// Calls `String::from_utf8`, which takes the bytes as text where they are
/// UTF-8 and refuses them where they are not.
#[verifier::external_body]
pub(crate) fn text_from_utf8(bytes: Vec<u8>) -> (r: Option<String>)
    ensures
        r is Some <==> valid_utf8(bytes@),
        r matches Some(s) ==> s@ == decode_utf8(bytes@),
{
    String::from_utf8(bytes).ok()
}

/// The base64url text of `bytes` as characters.
pub open spec fn base64url_chars(bytes: Seq<u8>) -> Seq<char> {
    decode_utf8(base64url_text(bytes))
}

/// Encodes bytes as a base64url string.
pub fn encode_text(bytes: &[u8]) -> (r: String)
    ensures
        r@ == base64url_chars(bytes@),
        vstd::utf8::encode_utf8(r@) == base64url_text(bytes@),
        base64url_bytes(vstd::utf8::encode_utf8(r@)) == Some(bytes@),
{
    let text = encode(bytes);
    proof {
        vstd::utf8::decode_utf8_encode_utf8(text@);
    }
    match text_from_utf8(text) {
        Some(s) => s,
        None => String::new(),
    }
}

/// Decodes a base64url string.
pub fn decode_text(text: &str) -> (r: Option<Vec<u8>>)
    ensures
        match r {
            Some(b) => base64url_bytes(vstd::utf8::encode_utf8(text@)) == Some(b@),
            None => base64url_bytes(vstd::utf8::encode_utf8(text@)) is None,
        },
{
    decode(text.as_bytes())
}

/// Calls `Engine::decode` of `URL_SAFE_NO_PAD`. The contract names the
/// outcome, and states that the empty text stands for no bytes.
#[verifier::external_body]
pub(crate) fn decode(text: &[u8]) -> (r: Option<Vec<u8>>)
    ensures
        match r {
            Some(b) => base64url_bytes(text@) == Some(b@),
            None => base64url_bytes(text@) is None,
        },
        text@.len() == 0 ==> r is Some && r->0@.len() == 0,
{
    URL_SAFE_NO_PAD.decode(text).ok()
}

} // verus!
