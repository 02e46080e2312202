use rauthy_common::codec::base64_url_no_pad_encode;
use rauthy_common::error::ErrorKind;
use rauthy_common::token::{
    claims_or_error, claims_text_of_decoded, extract_token_claims_unverified, token_body_of,
    unverified_claims_text,
};
use serde_json::Value;

fn as_value(text: &str) -> Option<Value> {
    serde_json::from_str::<Value>(text).ok()
}

fn as_number(text: &str) -> Option<u64> {
    serde_json::from_str::<u64>(text).ok()
}

#[test]
fn extracts_the_subject_of_the_example_token() {
    let claims = extract_token_claims_unverified("x.eyJzdWIiOiJhYmMifQ.y", as_value).unwrap();
    assert_eq!(claims.get("sub"), Some(&Value::String("abc".to_string())));
    assert_eq!(claims.as_object().unwrap().len(), 1);
}

#[test]
fn claims_text_of_the_example_token() {
    assert_eq!(
        unverified_claims_text("x.eyJzdWIiOiJhYmMifQ.y"),
        Ok("{\"sub\":\"abc\"}".to_string())
    );
}

#[test]
fn token_body_is_what_stands_between_the_first_two_dots() {
    assert_eq!(token_body_of("x.eyJzdWIiOiJhYmMifQ.y"), Some("eyJzdWIiOiJhYmMifQ".to_string()));
    assert_eq!(token_body_of("header.body.signature"), Some("body".to_string()));
    assert_eq!(token_body_of("a.b.c.d"), Some("b".to_string()));
    assert_eq!(token_body_of("a..c"), Some("".to_string()));
    assert_eq!(token_body_of(".."), Some("".to_string()));
    assert_eq!(token_body_of(".b."), Some("b".to_string()));
    assert_eq!(token_body_of("ä.ö.ü"), Some("ö".to_string()));
    assert_eq!(token_body_of(""), None);
    assert_eq!(token_body_of("nodots"), None);
    assert_eq!(token_body_of("one.dot"), None);
    assert_eq!(token_body_of("."), None);
}

#[test]
fn a_token_without_two_dots_is_malformed() {
    for token in ["", "nodots", "one.dot", ".", "eyJzdWIiOiJhYmMifQ"] {
        assert_eq!(
            extract_token_claims_unverified(token, as_value),
            Err(ErrorKind::MalformedToken),
            "{:?}",
            token
        );
        assert_eq!(unverified_claims_text(token), Err(ErrorKind::MalformedToken));
    }
}

#[test]
fn a_body_that_is_not_base64_is_malformed() {
    for token in ["a.!!!.c", "a.eyJ.c", "a.eyJzdWIiOiJhYmMifQ==.c", "a.b c.d", "a.+/8.c", "a.ä.c"] {
        assert_eq!(
            extract_token_claims_unverified(token, as_value),
            Err(ErrorKind::MalformedTokenBody),
            "{:?}",
            token
        );
        assert_eq!(unverified_claims_text(token), Err(ErrorKind::MalformedTokenBody));
    }
}

#[test]
fn a_body_that_is_not_claims_is_malformed() {
    let not_json = format!("a.{}.c", base64_url_no_pad_encode(b"not json"));
    assert_eq!(
        extract_token_claims_unverified(&not_json, as_value),
        Err(ErrorKind::MalformedTokenClaims)
    );
    assert_eq!(
        extract_token_claims_unverified("a..c", as_value),
        Err(ErrorKind::MalformedTokenClaims)
    );
    assert_eq!(
        extract_token_claims_unverified("x.eyJzdWIiOiJhYmMifQ.y", as_number),
        Err(ErrorKind::MalformedTokenClaims)
    );
}

#[test]
fn bytes_that_are_not_utf8_are_replaced_not_fatal() {
    let token = format!("a.{}.c", base64_url_no_pad_encode(&[0xff, 0xfe]));
    assert_eq!(unverified_claims_text(&token), Ok("\u{fffd}\u{fffd}".to_string()));
    assert_eq!(
        extract_token_claims_unverified(&token, as_value),
        Err(ErrorKind::MalformedTokenClaims)
    );
    let token = format!("a.{}.c", base64_url_no_pad_encode(b"\"a\xffb\""));
    assert_eq!(unverified_claims_text(&token), Ok("\"a\u{fffd}b\"".to_string()));
    assert_eq!(
        extract_token_claims_unverified(&token, as_value),
        Ok(Value::String("a\u{fffd}b".to_string()))
    );
}

#[test]
fn claims_text_of_decoded_reads_utf8() {
    assert_eq!(claims_text_of_decoded(Some(b"{}".to_vec())), Ok("{}".to_string()));
    assert_eq!(claims_text_of_decoded(Some("äöü €".as_bytes().to_vec())), Ok("äöü €".to_string()));
    assert_eq!(claims_text_of_decoded(Some(vec![])), Ok(String::new()));
    assert_eq!(claims_text_of_decoded(Some(vec![0x61, 0x80])), Ok("a\u{fffd}".to_string()));
    assert_eq!(claims_text_of_decoded(None), Err(ErrorKind::MalformedTokenBody));
}

#[test]
fn claims_or_error_maps_both_outcomes() {
    assert_eq!(claims_or_error(Some(7u8)), Ok(7u8));
    assert_eq!(claims_or_error::<u8>(None), Err(ErrorKind::MalformedTokenClaims));
}

#[test]
fn the_deserializer_gets_the_decoded_text() {
    let seen = std::cell::RefCell::new(Vec::new());
    let r = extract_token_claims_unverified("x.eyJzdWIiOiJhYmMifQ.y", |text: &str| {
        seen.borrow_mut().push(text.to_string());
        Some(text.len())
    });
    assert_eq!(r, Ok(13));
    assert_eq!(seen.into_inner(), vec!["{\"sub\":\"abc\"}".to_string()]);
}

#[test]
fn the_signature_is_never_looked_at() {
    for signature in ["", "y", "not.even.base64!", "\u{0}"] {
        let token = format!("x.eyJzdWIiOiJhYmMifQ.{}", signature);
        let claims = extract_token_claims_unverified(&token, as_value).unwrap();
        assert_eq!(claims.get("sub"), Some(&Value::String("abc".to_string())));
    }
}

#[test]
fn claims_survive_the_round_trip() {
    let mut inner = serde_json::Map::new();
    inner.insert("admin".to_string(), Value::Bool(true));
    inner.insert("level".to_string(), Value::from(3u64));
    let mut claims = serde_json::Map::new();
    claims.insert("sub".to_string(), Value::String("user-ä-1".to_string()));
    claims.insert("iss".to_string(), Value::String("https://issuer.example/".to_string()));
    claims.insert("exp".to_string(), Value::from(1_700_000_000u64));
    claims.insert("roles".to_string(), Value::Array(vec![Value::from("a"), Value::from("b")]));
    claims.insert("nested".to_string(), Value::Object(inner));
    claims.insert("nothing".to_string(), Value::Null);
    let claims = Value::Object(claims);

    let header = base64_url_no_pad_encode(b"{\"alg\":\"none\"}");
    let body = base64_url_no_pad_encode(serde_json::to_string(&claims).unwrap().as_bytes());
    let token = format!("{}.{}.{}", header, body, "signature");

    assert_eq!(token_body_of(&token), Some(body));
    assert_eq!(extract_token_claims_unverified(&token, as_value), Ok(claims));
}
