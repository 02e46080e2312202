use rauthy_common::codec::{
    base64_decode, base64_encode, base64_url_decode, base64_url_encode, base64_url_no_pad_decode,
    base64_url_no_pad_encode, decoded_or_error, to_url_form,
};
use rauthy_common::error::ErrorKind;

#[test]
fn base64_encode_is_standard_and_padded() {
    assert_eq!(base64_encode(b"hello world~"), "aGVsbG8gd29ybGR+");
    assert_eq!(base64_encode(&[0xfb, 0xff]), "+/8=");
    assert_eq!(base64_encode(b""), "");
    assert_eq!(base64_encode(b"a"), "YQ==");
    assert_eq!(base64_encode(b"ab"), "YWI=");
    assert_eq!(base64_encode(b"abc"), "YWJj");
}

#[test]
fn base64_decode_reads_standard_padded_text() {
    assert_eq!(base64_decode("aGVsbG8gd29ybGR+"), Ok(b"hello world~".to_vec()));
    assert_eq!(base64_decode("+/8="), Ok(vec![0xfb, 0xff]));
    assert_eq!(base64_decode(""), Ok(vec![]));
    assert_eq!(base64_decode("YQ=="), Ok(b"a".to_vec()));
}

#[test]
fn base64_decode_rejects_other_text() {
    assert_eq!(base64_decode("-_8="), Err(ErrorKind::MalformedBase64));
    assert_eq!(base64_decode("+/8"), Err(ErrorKind::MalformedBase64));
    assert_eq!(base64_decode("YQ"), Err(ErrorKind::MalformedBase64));
    assert_eq!(base64_decode("Y"), Err(ErrorKind::MalformedBase64));
    assert_eq!(base64_decode("not base64!"), Err(ErrorKind::MalformedBase64));
    assert_eq!(base64_decode("YWJj\n"), Err(ErrorKind::MalformedBase64));
}

#[test]
fn base64_url_encode_drops_padding_and_swaps_two_characters() {
    assert_eq!(base64_url_encode(b"hello world~"), "aGVsbG8gd29ybGR-");
    assert_eq!(base64_url_encode(&[0xfb, 0xff]), "-_8");
    assert_eq!(base64_url_encode(&[0xff, 0xfe]), "__4");
    assert_eq!(base64_url_encode(&[0xfb, 0xef, 0xbe]), "----");
    assert_eq!(base64_url_encode(b"a"), "YQ");
    assert_eq!(base64_url_encode(b""), "");
}

#[test]
fn to_url_form_maps_character_by_character() {
    assert_eq!(to_url_form("+/8="), "-_8");
    assert_eq!(to_url_form("a=b+c/d=="), "ab-c_d");
    assert_eq!(to_url_form("===="), "");
    assert_eq!(to_url_form(""), "");
    assert_eq!(to_url_form("plain-_text"), "plain-_text");
    assert_eq!(to_url_form("ä+ö"), "ä-ö");
}

#[test]
fn base64_url_no_pad_encode_is_url_safe_and_unpadded() {
    assert_eq!(base64_url_no_pad_encode(b"hello world~"), "aGVsbG8gd29ybGR-");
    assert_eq!(base64_url_no_pad_encode(&[0xfb, 0xff]), "-_8");
    assert_eq!(base64_url_no_pad_encode(b"a"), "YQ");
    assert_eq!(base64_url_no_pad_encode(b"{\"sub\":\"abc\"}"), "eyJzdWIiOiJhYmMifQ");
}

#[test]
fn base64_url_encode_agrees_with_the_url_safe_engine() {
    let mut input: Vec<u8> = Vec::new();
    for i in 0..=600u32 {
        assert_eq!(base64_url_encode(&input), base64_url_no_pad_encode(&input));
        input.push(((i * 37 + 11) % 256) as u8);
    }
}

#[test]
fn base64_url_decode_wants_padding() {
    assert_eq!(base64_url_decode("-_8="), Ok(vec![0xfb, 0xff]));
    assert_eq!(base64_url_decode("aGVsbG8gd29ybGR-"), Ok(b"hello world~".to_vec()));
    assert_eq!(base64_url_decode("-_8"), Err(ErrorKind::MalformedBase64));
    assert_eq!(base64_url_decode("+/8="), Err(ErrorKind::MalformedBase64));
}

#[test]
fn base64_url_no_pad_decode_wants_no_padding() {
    assert_eq!(base64_url_no_pad_decode("-_8"), Ok(vec![0xfb, 0xff]));
    assert_eq!(base64_url_no_pad_decode("eyJzdWIiOiJhYmMifQ"), Ok(b"{\"sub\":\"abc\"}".to_vec()));
    assert_eq!(base64_url_no_pad_decode("-_8="), Err(ErrorKind::MalformedBase64));
    assert_eq!(base64_url_no_pad_decode("+/8"), Err(ErrorKind::MalformedBase64));
    assert_eq!(base64_url_no_pad_decode("eyJ"), Err(ErrorKind::MalformedBase64));
}

#[test]
fn decoding_undoes_encoding() {
    let mut input: Vec<u8> = Vec::new();
    for i in 0..=300u32 {
        assert_eq!(base64_decode(&base64_encode(&input)), Ok(input.clone()));
        assert_eq!(base64_url_no_pad_decode(&base64_url_no_pad_encode(&input)), Ok(input.clone()));
        assert_eq!(base64_url_no_pad_decode(&base64_url_encode(&input)), Ok(input.clone()));
        input.push(((i * 101 + 7) % 256) as u8);
    }
}

#[test]
fn decoded_or_error_maps_both_outcomes() {
    assert_eq!(decoded_or_error(Some(vec![1, 2, 3])), Ok(vec![1, 2, 3]));
    assert_eq!(decoded_or_error(Some(vec![])), Ok(vec![]));
    assert_eq!(decoded_or_error(None), Err(ErrorKind::MalformedBase64));
}
