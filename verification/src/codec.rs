//! Base64 text of bytes and back, by the `base64` crate's general purpose
//! engines.
//!
//! What each engine writes and accepts is named, not spelled out: the
//! contracts here say which engine's result a function hands on and what it
//! does with it.

use crate::error::ErrorKind;
use crate::text::{chars_of, string_from_chars};
use vstd::prelude::*;

verus! {

/// The text that `Engine::encode` of a general purpose engine gives for
/// `input`: the engine with the URL-safe alphabet or the standard one, with
/// padding or without.
pub uninterp spec fn base64_text(url_safe: bool, padding: bool, input: Seq<u8>) -> Seq<char>;

/// The bytes that `Engine::decode` of a general purpose engine gives for
/// `text`, or `None` where it reports an error: the engine with the URL-safe
/// alphabet or the standard one, with padding or without.
pub uninterp spec fn base64_bytes(url_safe: bool, padding: bool, text: Seq<char>) -> Option<Seq<u8>>;

/// The text that the engine `STANDARD` encodes `input` to.
pub open spec fn standard_encoding(input: Seq<u8>) -> Seq<char> {
    base64_text(false, true, input)
}

/// The text that the engine `URL_SAFE_NO_PAD` encodes `input` to.
pub open spec fn url_safe_no_pad_encoding(input: Seq<u8>) -> Seq<char> {
    base64_text(true, false, input)
}

/// The bytes that the engine `STANDARD` decodes `text` to, or `None` where it
/// reports an error.
pub open spec fn standard_decoding(text: Seq<char>) -> Option<Seq<u8>> {
    base64_bytes(false, true, text)
}

/// The bytes that the engine `URL_SAFE` decodes `text` to, or `None` where it
/// reports an error.
pub open spec fn url_safe_decoding(text: Seq<char>) -> Option<Seq<u8>> {
    base64_bytes(true, true, text)
}

/// The bytes that the engine `URL_SAFE_NO_PAD` decodes `text` to, or `None`
/// where it reports an error.
pub open spec fn url_safe_no_pad_decoding(text: Seq<char>) -> Option<Seq<u8>> {
    base64_bytes(true, false, text)
}

/// The number of characters that `n` bytes encode to: four for every three
/// bytes, and for a remainder of one or two bytes either four with padding,
/// or two or three without.
pub open spec fn encoded_len(n: nat, padding: bool) -> nat {
    let full = (n / 3) * 4;
    if n % 3 == 0 {
        full
    } else if padding {
        full + 4
    } else if n % 3 == 1 {
        full + 2
    } else {
        full + 3
    }
}

/// The view of decoded bytes, if there are any.
pub open spec fn decoded_view(decoded: Option<Vec<u8>>) -> Option<Seq<u8>> {
    match decoded {
        Some(bytes) => Some(bytes@),
        None => None,
    }
}

/// What becomes of one character of standard base64 text in the URL form:
/// padding goes, `+` becomes `-`, `/` becomes `_`, the rest stays.
pub open spec fn url_char(c: char) -> Option<char> {
    if c == '=' {
        None
    } else if c == '+' {
        Some('-')
    } else if c == '/' {
        Some('_')
    } else {
        Some(c)
    }
}

/// Standard base64 text turned into its unpadded URL form, character by
/// character.
pub open spec fn url_form(text: Seq<char>) -> Seq<char> {
    text.filter_map(|c: char| url_char(c))
}

/// `Engine::encode` of `base64::engine::general_purpose::STANDARD`: the
/// standard alphabet, with padding. It panics where the length of the text
/// does not fit `usize`, which the precondition rules out.
#[verifier::external_body]
fn encode_standard(input: &[u8]) -> (text: String)
    requires
        encoded_len(input@.len(), true) <= usize::MAX,
    ensures
        text@ == base64_text(false, true, input@),
{
    base64::Engine::encode(&base64::engine::general_purpose::STANDARD, input)
}

/// `Engine::encode` of `base64::engine::general_purpose::URL_SAFE_NO_PAD`:
/// the URL-safe alphabet, without padding. It panics where the length of the
/// text does not fit `usize`, which the precondition rules out.
#[verifier::external_body]
fn encode_url_safe_no_pad(input: &[u8]) -> (text: String)
    requires
        encoded_len(input@.len(), false) <= usize::MAX,
    ensures
        text@ == base64_text(true, false, input@),
{
    base64::Engine::encode(&base64::engine::general_purpose::URL_SAFE_NO_PAD, input)
}

/// `Engine::decode` of `base64::engine::general_purpose::STANDARD`: the
/// standard alphabet, with padding. Its error is turned into `None`.
#[verifier::external_body]
fn decode_standard(b64: &str) -> (decoded: Option<Vec<u8>>)
    ensures
        decoded_view(decoded) == base64_bytes(false, true, b64@),
{
    base64::Engine::decode(&base64::engine::general_purpose::STANDARD, b64).ok()
}

/// `Engine::decode` of `base64::engine::general_purpose::URL_SAFE`: the
/// URL-safe alphabet, with padding. Its error is turned into `None`.
#[verifier::external_body]
fn decode_url_safe(b64: &str) -> (decoded: Option<Vec<u8>>)
    ensures
        decoded_view(decoded) == base64_bytes(true, true, b64@),
{
    base64::Engine::decode(&base64::engine::general_purpose::URL_SAFE, b64).ok()
}

/// `Engine::decode` of `base64::engine::general_purpose::URL_SAFE_NO_PAD`:
/// the URL-safe alphabet, without padding. Its error is turned into `None`.
#[verifier::external_body]
pub(crate) fn decode_url_safe_no_pad(b64: &str) -> (decoded: Option<Vec<u8>>)
    ensures
        decoded_view(decoded) == base64_bytes(true, false, b64@),
{
    base64::Engine::decode(&base64::engine::general_purpose::URL_SAFE_NO_PAD, b64).ok()
}

/// The bytes that a decoder gave, or the failure to report where it gave none.
pub fn decoded_or_error(decoded: Option<Vec<u8>>) -> (r: Result<Vec<u8>, ErrorKind>)
    ensures
        match decoded {
            Some(bytes) => r == Ok::<Vec<u8>, ErrorKind>(bytes),
            None => r == Err::<Vec<u8>, ErrorKind>(ErrorKind::MalformedBase64),
        },
{
    match decoded {
        Some(bytes) => Ok(bytes),
        None => Err(ErrorKind::MalformedBase64),
    }
}

/// Turns standard base64 text into its unpadded URL form.
pub fn to_url_form(text: &str) -> (url: String)
    ensures
        url@ == url_form(text@),
{
    let chars = chars_of(text);
    let mut out: Vec<char> = Vec::new();
    let mut i: usize = 0;
    while i < chars.len()
        invariant
            i <= chars.len(),
            out@ == url_form(chars@.take(i as int)),
        decreases chars.len() - i,
    {
        let c = chars[i];
        proof {
            assert(chars@.take(i + 1).drop_last() == chars@.take(i as int));
        }
        if c == '=' {
        } else if c == '+' {
            out.push('-');
        } else if c == '/' {
            out.push('_');
        } else {
            out.push(c);
        }
        i += 1;
    }
    proof {
        assert(chars@.take(chars.len() as int) == chars@);
    }
    string_from_chars(out)
}

/// Standard, padded base64 text of `input`.
pub fn base64_encode(input: &[u8]) -> (text: String)
    requires
        encoded_len(input@.len(), true) <= usize::MAX,
    ensures
        text@ == standard_encoding(input@),
{
    encode_standard(input)
}

/// The bytes that standard, padded base64 text stands for.
pub fn base64_decode(b64: &str) -> (r: Result<Vec<u8>, ErrorKind>)
    ensures
        match standard_decoding(b64@) {
            Some(bytes) => r is Ok && r->Ok_0@ == bytes,
            None => r == Err::<Vec<u8>, ErrorKind>(ErrorKind::MalformedBase64),
        },
{
    decoded_or_error(decode_standard(b64))
}

/// The standard base64 text of `input` in URL form: without padding, with
/// `-` for `+` and `_` for `/`.
pub fn base64_url_encode(input: &[u8]) -> (text: String)
    requires
        encoded_len(input@.len(), true) <= usize::MAX,
    ensures
        text@ == url_form(standard_encoding(input@)),
{
    let b64 = encode_standard(input);
    to_url_form(b64.as_str())
}

/// URL-safe, unpadded base64 text of `input`.
pub fn base64_url_no_pad_encode(input: &[u8]) -> (text: String)
    requires
        encoded_len(input@.len(), false) <= usize::MAX,
    ensures
        text@ == url_safe_no_pad_encoding(input@),
{
    encode_url_safe_no_pad(input)
}

/// The bytes that URL-safe, padded base64 text stands for.
pub fn base64_url_decode(b64: &str) -> (r: Result<Vec<u8>, ErrorKind>)
    ensures
        match url_safe_decoding(b64@) {
            Some(bytes) => r is Ok && r->Ok_0@ == bytes,
            None => r == Err::<Vec<u8>, ErrorKind>(ErrorKind::MalformedBase64),
        },
{
    decoded_or_error(decode_url_safe(b64))
}

/// The bytes that URL-safe, unpadded base64 text stands for.
pub fn base64_url_no_pad_decode(b64: &str) -> (r: Result<Vec<u8>, ErrorKind>)
    ensures
        match url_safe_no_pad_decoding(b64@) {
            Some(bytes) => r is Ok && r->Ok_0@ == bytes,
            None => r == Err::<Vec<u8>, ErrorKind>(ErrorKind::MalformedBase64),
        },
{
    decoded_or_error(decode_url_safe_no_pad(b64))
}

} // verus!
