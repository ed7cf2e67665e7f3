use jwt::codec::{decode_base64, decode_text_base64, encode_base64, encode_text_base64};
use jwt::crypto::{sign, verify};
use jwt::{Algorithm, ErrorKind, Header, JwtError};

#[test]
fn header_new_names_each_algorithm() {
    assert_eq!(Header::new(Algorithm::SHA1).alg, "HS1");
    assert_eq!(Header::new(Algorithm::SHA256).alg, "HS256");
    assert_eq!(Header::new(Algorithm::SHA384).alg, "HS384");
    assert_eq!(Header::new(Algorithm::SHA512).alg, "HS512");
    assert_eq!(Header::new(Algorithm::SHA512).typ, "JWT");
}

#[test]
fn header_algorithm_reads_the_name() {
    for alg in [Algorithm::SHA1, Algorithm::SHA256, Algorithm::SHA384, Algorithm::SHA512] {
        assert_eq!(Header::new(alg).algorithm(), alg);
    }
    let odd = Header { alg: "HS999".to_string(), typ: "JWT".to_string() };
    assert_eq!(odd.algorithm(), Algorithm::SHA256);
}

#[test]
fn header_json_text() {
    let h = Header::new(Algorithm::SHA384);
    assert_eq!(h.to_string().unwrap(), "{\"alg\":\"HS384\",\"typ\":\"JWT\"}");
    let back = Header::from_str("{\"typ\":\"JWT\",\"extra\":[1],\"alg\":\"HS1\"}").unwrap();
    assert_eq!(back.alg, "HS1");
    assert_eq!(back.typ, "JWT");
    assert_eq!(Header::from_str("{}").unwrap_err().kind(), ErrorKind::Json);
}

#[test]
fn header_base64_round_trip() {
    let h = Header::new(Algorithm::SHA1);
    let seg = h.encode_base64().unwrap();
    assert_eq!(seg, "eyJhbGciOiJIUzEiLCJ0eXAiOiJKV1QifQ");
    let back = Header::decode_base64(seg.as_bytes()).unwrap();
    assert_eq!(back.alg, "HS1");
    assert_eq!(back.typ, "JWT");
}

#[test]
fn base64_known_values() {
    assert_eq!(encode_base64(b"hello"), "aGVsbG8");
    assert_eq!(encode_base64(&[0xfb, 0xff]), "-_8");
    assert_eq!(encode_base64(b""), "");
    assert_eq!(decode_base64(b"-_8").unwrap(), vec![0xfb, 0xff]);
    assert_eq!(decode_base64(b"aGVsbG8=").unwrap_err().kind(), ErrorKind::Base64);
    assert_eq!(decode_base64(b"+/8").unwrap_err().kind(), ErrorKind::Base64);
}

#[test]
fn text_base64_known_values() {
    assert_eq!(encode_text_base64("{}"), "e30");
    assert_eq!(decode_text_base64(b"e30").unwrap(), "{}");
    let bad = encode_base64(&[0xc3]);
    assert_eq!(decode_text_base64(bad.as_bytes()).unwrap_err().kind(), ErrorKind::FromUtf8);
}

#[test]
fn hmac_known_value() {
    let tag = sign(Algorithm::SHA256, b"key", b"The quick brown fox jumps over the lazy dog");
    let hex: String = tag.iter().map(|b| format!("{:02x}", b)).collect();
    assert_eq!(hex, "f7bc83f430538424b13298e6aa6fb143ef4d59a14946175997479dbc2d1a3cd8");
    assert!(verify(Algorithm::SHA256, b"key", b"The quick brown fox jumps over the lazy dog", &tag).is_ok());
}

#[test]
fn hmac_mismatch_is_verify_error() {
    let mut tag = sign(Algorithm::SHA1, b"key", b"message");
    assert_eq!(tag.len(), 20);
    tag[0] ^= 1;
    let e = verify(Algorithm::SHA1, b"key", b"message", &tag).unwrap_err();
    assert_eq!(e.kind(), ErrorKind::Verify);
    assert!(matches!(e, jwt::TokenError::JwtError(JwtError::Verify)));
    assert_eq!(JwtError::Verify.description(), "Token decode error");
}
