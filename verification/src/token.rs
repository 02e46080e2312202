//! Decode-only reading of the claims in a `header.body.signature` token.
//!
//! Nothing here checks a signature: what comes out is unverified and must not
//! be trusted before the token has been verified elsewhere.

use crate::codec::{decode_url_safe_no_pad, url_safe_no_pad_decoding};
use crate::error::ErrorKind;
use crate::text::{
    chars_of, find_char, first_index, has_char, lemma_first_index, lemma_first_index_is,
    slice_chars, split_once, string_from_chars,
};
use vstd::prelude::*;
use vstd::utf8::{decode_utf8, valid_utf8};

verus! {

/// The text that `String::from_utf8_lossy` reads `bytes` as.
pub uninterp spec fn utf8_lossy_text(bytes: Seq<u8>) -> Seq<char>;

/// The body segment of a token: what stands between its first and its second
/// `.`, if it has two.
pub open spec fn token_body(token: Seq<char>) -> Option<Seq<char>> {
    match split_once(token, '.') {
        None => None,
        Some((_header, rest)) => match split_once(rest, '.') {
            None => None,
            Some((body, _signature)) => Some(body),
        },
    }
}

/// The text of a token's claims: its body segment, decoded as URL-safe
/// unpadded base64 and read as UTF-8 with replacement, or the failure of the
/// step that went wrong.
pub open spec fn claims_text(token: Seq<char>) -> Result<Seq<char>, ErrorKind> {
    match token_body(token) {
        None => Err(ErrorKind::MalformedToken),
        Some(body) => match url_safe_no_pad_decoding(body) {
            None => Err(ErrorKind::MalformedTokenBody),
            Some(bytes) => Ok(utf8_lossy_text(bytes)),
        },
    }
}

/// The claims that a deserializer made of the claims text, or the failure to
/// report where it made none.
pub open spec fn claims_result<T>(parsed: Option<T>) -> Result<T, ErrorKind> {
    match parsed {
        Some(claims) => Ok(claims),
        None => Err(ErrorKind::MalformedTokenClaims),
    }
}

/// A token has a body segment exactly if it holds two separators, and it is
/// reported as a malformed token exactly if it has no body segment: whatever
/// goes wrong later is reported as something else.
pub proof fn lemma_token_body_needs_two_dots(token: Seq<char>)
    ensures
        token_body(token) is Some <==> exists|i: int, j: int|
            0 <= i < j < token.len() && token[i] == '.' && token[j] == '.',
        token_body(token) is None <==> claims_text(token) == Err::<Seq<char>, ErrorKind>(
            ErrorKind::MalformedToken,
        ),
{
    lemma_first_index(token, '.');
    let first = first_index(token, '.');
    if first < token.len() {
        let rest = token.skip(first + 1);
        lemma_first_index(rest, '.');
        let second = first_index(rest, '.');
        if second < rest.len() {
            assert(token[first + 1 + second] == rest[second]);
            assert(0 <= first < first + 1 + second < token.len() && token[first] == '.' && token[first
                + 1 + second] == '.');
        } else {
            assert forall|i: int, j: int|
                0 <= i < j < token.len() && token[i] == '.' implies token[j] != '.' by {
                assert(token[j] == rest[j - first - 1]);
            }
        }
    }
}

/// Joining a header, a body and a signature with `.` gives a token whose
/// body segment is that body, where neither header nor body holds a `.`.
pub proof fn lemma_token_body_of_joined(header: Seq<char>, body: Seq<char>, signature: Seq<char>)
    requires
        !has_char(header, '.'),
        !has_char(body, '.'),
    ensures
        token_body(header + seq!['.'] + body + seq!['.'] + signature) == Some(body),
{
    let token = header + seq!['.'] + body + seq!['.'] + signature;
    lemma_first_index(header, '.');
    lemma_first_index(body, '.');
    lemma_first_index_is(token, '.', header.len() as int);
    let rest = token.skip(header.len() as int + 1);
    assert(rest == body + seq!['.'] + signature);
    lemma_first_index_is(rest, '.', body.len() as int);
    assert(rest.take(body.len() as int) == body);
}

/// `String::from_utf8_lossy` on `bytes`, as an owned string. Bytes that are
/// valid UTF-8 come out as the text they encode; any other bytes come out
/// with replacement characters in place of what is invalid.
#[verifier::external_body]
fn utf8_lossy(bytes: &[u8]) -> (text: String)
    ensures
        text@ == utf8_lossy_text(bytes@),
        valid_utf8(bytes@) ==> text@ == decode_utf8(bytes@),
{
    String::from_utf8_lossy(bytes).into_owned()
}

/// The body segment of `token`.
pub fn token_body_of(token: &str) -> (body: Option<String>)
    ensures
        match token_body(token@) {
            Some(text) => body is Some && body->0@ == text,
            None => body is None,
        },
{
    let chars = chars_of(token);
    proof {
        assert(chars@.skip(0) == chars@);
    }
    let first = find_char(&chars, 0, '.');
    if first == chars.len() {
        return None;
    }
    let second = find_char(&chars, first + 1, '.');
    if second == chars.len() {
        return None;
    }
    proof {
        let rest = chars@.skip(first + 1);
        assert(rest.take(second - first - 1) == chars@.subrange(first + 1, second as int));
    }
    Some(string_from_chars(slice_chars(&chars, first + 1, second)))
}

/// The claims text that decoded body bytes stand for, or the failure to
/// report where the body did not decode.
pub fn claims_text_of_decoded(decoded: Option<Vec<u8>>) -> (r: Result<String, ErrorKind>)
    ensures
        match decoded {
            Some(bytes) => r is Ok && r->Ok_0@ == utf8_lossy_text(bytes@) && (valid_utf8(bytes@)
                ==> r->Ok_0@ == decode_utf8(bytes@)),
            None => r == Err::<String, ErrorKind>(ErrorKind::MalformedTokenBody),
        },
{
    match decoded {
        Some(bytes) => Ok(utf8_lossy(bytes.as_slice())),
        None => Err(ErrorKind::MalformedTokenBody),
    }
}

/// The text of the claims of `token`, undeserialized.
pub fn unverified_claims_text(token: &str) -> (r: Result<String, ErrorKind>)
    ensures
        match claims_text(token@) {
            Ok(text) => r is Ok && r->Ok_0@ == text,
            Err(kind) => r == Err::<String, ErrorKind>(kind),
        },
{
    match token_body_of(token) {
        None => Err(ErrorKind::MalformedToken),
        Some(body) => claims_text_of_decoded(decode_url_safe_no_pad(body.as_str())),
    }
}

/// What to return for the outcome of deserializing the claims text.
pub fn claims_or_error<T>(parsed: Option<T>) -> (r: Result<T, ErrorKind>)
    ensures
        r == claims_result(parsed),
{
    match parsed {
        Some(claims) => Ok(claims),
        None => Err(ErrorKind::MalformedTokenClaims),
    }
}

/// Extracts the claims of `token` without verifying it: cuts out the body
/// segment, decodes it, and hands the text to `deserialize`, which returns
/// the claims or `None` where the text is not claims of the shape asked for.
///
/// The token is not validated. Whatever the input, the result is the claims
/// or a typed failure.
pub fn extract_token_claims_unverified<T, F: Fn(&str) -> Option<T>>(token: &str, deserialize: F) -> (r:
    Result<T, ErrorKind>)
    requires
        forall|text: &str| call_requires(deserialize, (text,)),
    ensures
        match claims_text(token@) {
            Err(kind) => r == Err::<T, ErrorKind>(kind),
            Ok(text) => exists|handed: &str, parsed: Option<T>|
                handed@ == text && call_ensures(deserialize, (handed,), parsed) && r
                    == claims_result(parsed),
        },
{
    match unverified_claims_text(token) {
        Err(kind) => Err(kind),
        Ok(text) => {
            let parsed = deserialize(text.as_str());
            claims_or_error(parsed)
        },
    }
}

} // verus!
