//! Bytes as text: Base64 and UTF-8.

use base64::Engine;
use vstd::prelude::*;
use vstd::string::*;

verus! {

/// The URL-safe Base64 text of some bytes, without padding.
pub uninterp spec fn url_base64(bytes: Seq<u8>) -> Seq<char>;

/// The bytes that a URL-safe Base64 text without padding stands for.
pub uninterp spec fn url_base64_bytes(t: Seq<char>) -> Option<Seq<u8>>;

/// The standard Base64 text of some bytes, with padding.
pub uninterp spec fn base64_text(bytes: Seq<u8>) -> Seq<char>;

/// The bytes that a standard Base64 text stands for, or what is wrong with it.
pub uninterp spec fn base64_bytes(t: Seq<char>) -> Result<Seq<u8>, Seq<char>>;

/// The characters of the URL-safe Base64 alphabet.
pub open spec fn is_url_safe(c: char) -> bool {
    ||| ('A' <= c && c <= 'Z')
    ||| ('a' <= c && c <= 'z')
    ||| ('0' <= c && c <= '9')
    ||| c == '-'
    ||| c == '_'
}

/// Whether `t` is made of the URL-safe alphabet and decodes to `bytes`.
pub open spec fn is_url_text(t: Seq<char>, bytes: Seq<u8>) -> bool {
    &&& url_base64_bytes(t) == Some(bytes)
    &&& forall|i: int| 0 <= i < t.len() ==> is_url_safe(#[trigger] t[i])
}

/// `encode` of `base64`'s `URL_SAFE_NO_PAD` engine: the text is named [`url_base64`], is
/// made of the URL-safe alphabet, and decodes to the bytes again.
#[verifier::external_body]
pub(crate) fn encode_url(bytes: &[u8]) -> (r: String)
    ensures
        r@ == url_base64(bytes@),
        is_url_text(r@, bytes@),
{
    base64::engine::general_purpose::URL_SAFE_NO_PAD.encode(bytes)
}

/// `decode` of `base64`'s `URL_SAFE_NO_PAD` engine: the bytes, where the text is such
/// Base64, are named [`url_base64_bytes`].
#[verifier::external_body]
pub(crate) fn decode_url(t: &str) -> (r: Option<Vec<u8>>)
    ensures
        r is Some <==> url_base64_bytes(t@) is Some,
        r matches Some(b) ==> url_base64_bytes(t@) == Some(b@),
{
    base64::engine::general_purpose::URL_SAFE_NO_PAD.decode(t).ok()
}

/// `encode` of `base64`'s `STANDARD` engine: the text is named [`base64_text`] and decodes
/// to the bytes again.
#[verifier::external_body]
pub(crate) fn encode_standard(bytes: &[u8]) -> (r: String)
    ensures
        r@ == base64_text(bytes@),
        base64_bytes(r@) is Ok,
        base64_bytes(r@)->Ok_0 == bytes@,
{
    base64::engine::general_purpose::STANDARD.encode(bytes)
}

/// `decode` of `base64`'s `STANDARD` engine: the bytes, or the text of its error. Either is
/// named [`base64_bytes`].
#[verifier::external_body]
pub(crate) fn decode_standard(t: &str) -> (r: Result<Vec<u8>, String>)
    ensures
        r matches Ok(b) ==> (base64_bytes(t@) matches Ok(x) && x == b@),
        r matches Err(e) ==> (base64_bytes(t@) matches Err(x) && x == e@),
{
    match base64::engine::general_purpose::STANDARD.decode(t) {
        Ok(bytes) => Ok(bytes),
        Err(error) => Err(error.to_string()),
    }
}

/// `String::from_utf8`: the text that the bytes encode, where they are valid UTF-8.
#[verifier::external_body]
pub(crate) fn utf8_text(bytes: Vec<u8>) -> (r: Option<String>)
    ensures
        r is Some <==> vstd::utf8::valid_utf8(bytes@),
        r matches Some(s) ==> vstd::utf8::encode_utf8(s@) == bytes@,
{
    String::from_utf8(bytes).ok()
}

} // verus!
