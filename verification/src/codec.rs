//! Base64.

use base64::Engine;
use vstd::prelude::*;

verus! {

/// What a text in standard base64 stands for, or why it is none.
pub uninterp spec fn standard_decoded(text: Seq<char>) -> Result<Seq<u8>, Seq<char>>;

/// `base64::Engine::decode` with the standard engine, and the text of its error: both depend
/// on the encoded text alone.
#[verifier::external_body]
pub(crate) fn decode_standard(text: &str) -> (res: Result<Vec<u8>, String>)
    ensures
        match res {
            Ok(bytes) => standard_decoded(text@) == Ok::<Seq<u8>, Seq<char>>(bytes@),
            Err(reason) => standard_decoded(text@) == Err::<Seq<u8>, Seq<char>>(reason@),
        },
{
    base64::engine::general_purpose::STANDARD.decode(text).map_err(|e| e.to_string())
}

/// Some bytes in URL-safe base64 without padding.
pub uninterp spec fn url_safe(bytes: Seq<u8>) -> Seq<char>;

/// What a text in URL-safe base64 without padding stands for, where it is one.
pub uninterp spec fn url_safe_decoded(text: Seq<char>) -> Option<Seq<u8>>;

/// Whether a character can stand in URL-safe base64 without padding: an ASCII letter or
/// digit, `-` or `_`.
pub open spec fn is_url_safe_char(c: char) -> bool {
    'a' <= c <= 'z' || 'A' <= c <= 'Z' || '0' <= c <= '9' || c == '-' || c == '_'
}

/// `base64::Engine::encode` with the engine `URL_SAFE_NO_PAD`: the text depends on the bytes
/// alone, and is made of the characters of that alphabet.
#[verifier::external_body]
pub(crate) fn encode_url_safe(bytes: &[u8]) -> (res: String)
    ensures
        res@ == url_safe(bytes@),
        forall|i: int| 0 <= i < res@.len() ==> is_url_safe_char(#[trigger] res@[i]),
{
    base64::engine::general_purpose::URL_SAFE_NO_PAD.encode(bytes)
}

/// `base64::Engine::decode` with the engine `URL_SAFE_NO_PAD`: what the text stands for
/// depends on the text alone, and decoding undoes encoding.
#[verifier::external_body]
pub(crate) fn decode_url_safe(text: &str) -> (res: Option<Vec<u8>>)
    ensures
        match res {
            Some(bytes) => url_safe_decoded(text@) == Some(bytes@),
            None => url_safe_decoded(text@) is None,
        },
        forall|encoded: Seq<u8>|
            #[trigger] url_safe(encoded) == text@ ==> res is Some && res->0@ == encoded,
{
    base64::engine::general_purpose::URL_SAFE_NO_PAD.decode(text).ok()
}

} // verus!
