use jwt::codec::{decode_base64, decode_text_base64, encode_base64, encode_text_base64};
use jwt::{decode, encode, Algorithm, ErrorKind};

const PAYLOAD: &str = "{\"user_id\":10000,\"date\":123456789}";

fn kind_of_decode(key: &str, token: &str) -> ErrorKind {
    decode(key, token.to_string()).unwrap_err().kind()
}

fn segments(token: &str) -> Vec<String> {
    token.split('.').map(|s| s.to_string()).collect()
}

fn header_json(token: &str) -> String {
    decode_text_base64(segments(token)[0].as_bytes()).unwrap()
}

#[test]
fn scenario_encode_then_decode() {
    let token = encode("123ABC", PAYLOAD, Algorithm::SHA256).unwrap();
    assert_eq!(segments(&token).len(), 3);
    let json = decode("123ABC", token.clone()).unwrap();
    let v: serde_json::Value = serde_json::from_str(&json).unwrap();
    assert_eq!(v["user_id"].as_i64(), Some(10000));
    assert_eq!(v["date"].as_i64(), Some(123456789));
    assert_eq!(kind_of_decode("wrong", &token), ErrorKind::Verify);
}

#[test]
fn scenario_token_segments() {
    let token = encode("123ABC", PAYLOAD, Algorithm::SHA256).unwrap();
    let parts = segments(&token);
    assert_eq!(parts[0], "eyJhbGciOiJIUzI1NiIsInR5cCI6IkpXVCJ9");
    assert_eq!(parts[1], encode_text_base64(PAYLOAD));
    assert_eq!(decode_base64(parts[2].as_bytes()).unwrap().len(), 32);
}

#[test]
fn round_trip_every_algorithm() {
    let algs = [
        (Algorithm::SHA1, "HS1", 20),
        (Algorithm::SHA256, "HS256", 32),
        (Algorithm::SHA384, "HS384", 48),
        (Algorithm::SHA512, "HS512", 64),
    ];
    for (alg, name, len) in algs {
        let token = encode("secret", PAYLOAD, alg).unwrap();
        assert_eq!(header_json(&token), format!("{{\"alg\":\"{}\",\"typ\":\"JWT\"}}", name));
        assert_eq!(decode_base64(segments(&token)[2].as_bytes()).unwrap().len(), len);
        assert_eq!(decode("secret", token).unwrap(), PAYLOAD);
    }
}

#[test]
fn round_trip_edge_payloads() {
    for payload in ["", "null", "\"\"", "[1,2,3]", "{\"name\":\"Zoë ✓\"}"] {
        let token = encode("", payload, Algorithm::SHA512).unwrap();
        assert_eq!(decode("", token).unwrap(), payload);
    }
}

#[test]
fn wrong_key_is_unauthentic() {
    for alg in [Algorithm::SHA1, Algorithm::SHA256, Algorithm::SHA384, Algorithm::SHA512] {
        let token = encode("key-one", PAYLOAD, alg).unwrap();
        assert_eq!(kind_of_decode("key-two", &token), ErrorKind::Verify);
        assert_eq!(kind_of_decode("", &token), ErrorKind::Verify);
    }
}

#[test]
fn tampered_signature_is_unauthentic() {
    let token = encode("123ABC", PAYLOAD, Algorithm::SHA256).unwrap();
    let parts = segments(&token);
    let mut sig = decode_base64(parts[2].as_bytes()).unwrap();
    for bit in [0usize, 7, 100, 255] {
        let mut flipped = sig.clone();
        flipped[bit / 8] ^= 1 << (bit % 8);
        let forged = format!("{}.{}.{}", parts[0], parts[1], encode_base64(&flipped));
        assert_eq!(kind_of_decode("123ABC", &forged), ErrorKind::Verify);
    }
    sig.pop();
    let short = format!("{}.{}.{}", parts[0], parts[1], encode_base64(&sig));
    assert_eq!(kind_of_decode("123ABC", &short), ErrorKind::Verify);
}

#[test]
fn tampered_payload_is_unauthentic() {
    let token = encode("123ABC", PAYLOAD, Algorithm::SHA256).unwrap();
    let parts = segments(&token);
    let other = encode_text_base64("{\"user_id\":10001,\"date\":123456789}");
    let forged = format!("{}.{}.{}", parts[0], other, parts[2]);
    assert_eq!(kind_of_decode("123ABC", &forged), ErrorKind::Verify);
    let mut bytes = parts[1].clone().into_bytes();
    bytes[0] ^= 0x20;
    let flipped = String::from_utf8(bytes).unwrap();
    let forged = format!("{}.{}.{}", parts[0], flipped, parts[2]);
    assert_eq!(kind_of_decode("123ABC", &forged), ErrorKind::Verify);
}

#[test]
fn tampered_header_is_unauthentic() {
    let token = encode("123ABC", PAYLOAD, Algorithm::SHA256).unwrap();
    let parts = segments(&token);
    let other = encode_text_base64("{\"alg\":\"HS512\",\"typ\":\"JWT\"}");
    let forged = format!("{}.{}.{}", other, parts[1], parts[2]);
    assert_eq!(kind_of_decode("123ABC", &forged), ErrorKind::Verify);
    let spaced = encode_text_base64("{\"alg\":\"HS256\", \"typ\":\"JWT\"}");
    let forged = format!("{}.{}.{}", spaced, parts[1], parts[2]);
    assert_eq!(kind_of_decode("123ABC", &forged), ErrorKind::Verify);
}

#[test]
fn malformed_structure_is_refused() {
    let token = encode("123ABC", PAYLOAD, Algorithm::SHA256).unwrap();
    let parts = segments(&token);
    let two = format!("{}.{}", parts[0], parts[1]);
    let four = format!("{}.x", token);
    for bad in ["", "abc", parts[0].as_str(), two.as_str(), four.as_str(), "a.b.c.d.e", "..."] {
        assert_eq!(kind_of_decode("123ABC", bad), ErrorKind::Decode);
    }
}

#[test]
fn empty_segments_reach_the_header() {
    assert_eq!(kind_of_decode("k", ".."), ErrorKind::Json);
}

#[test]
fn bad_header_base64_is_an_encoding_error() {
    assert_eq!(kind_of_decode("k", "!!!.e30.AAAA"), ErrorKind::Base64);
    assert_eq!(kind_of_decode("k", "eyJ9=.e30.AAAA"), ErrorKind::Base64);
}

#[test]
fn bad_header_utf8_is_a_text_error() {
    let seg = encode_base64(&[0xff, 0xfe, 0x41]);
    assert_eq!(kind_of_decode("k", &format!("{}.e30.AAAA", seg)), ErrorKind::FromUtf8);
}

#[test]
fn bad_header_json_is_a_serialization_error() {
    for text in ["not json", "{\"alg\":\"HS256\"}", "{\"alg\":1,\"typ\":\"JWT\"}", "[]"] {
        let seg = encode_text_base64(text);
        assert_eq!(kind_of_decode("k", &format!("{}.e30.AAAA", seg)), ErrorKind::Json);
    }
}

#[test]
fn bad_signature_base64_is_an_encoding_error() {
    let token = encode("123ABC", PAYLOAD, Algorithm::SHA256).unwrap();
    let parts = segments(&token);
    let forged = format!("{}.{}.{}", parts[0], parts[1], "a+b/");
    assert_eq!(kind_of_decode("123ABC", &forged), ErrorKind::Base64);
}

#[test]
fn payload_is_read_only_after_the_signature() {
    let key = "k";
    let header = encode_text_base64("{\"alg\":\"HS256\",\"typ\":\"JWT\"}");
    let payload = encode_base64(&[0xff]);
    let forged = format!("{}.{}.{}", header, payload, "AAAA");
    assert_eq!(kind_of_decode(key, &forged), ErrorKind::Verify);
    let unsigned = format!("{}.{}", header, payload);
    let sig = jwt::crypto::sign(Algorithm::SHA256, key.as_bytes(), unsigned.as_bytes());
    let signed = format!("{}.{}", unsigned, encode_base64(&sig));
    assert_eq!(kind_of_decode(key, &signed), ErrorKind::FromUtf8);
}

#[test]
fn unknown_alg_falls_back_to_sha256() {
    let key = "k";
    let header = encode_text_base64("{\"alg\":\"none\",\"typ\":\"JWT\"}");
    let payload = encode_text_base64(PAYLOAD);
    let unsigned = format!("{}.{}", header, payload);
    let sig = jwt::crypto::sign(Algorithm::SHA256, key.as_bytes(), unsigned.as_bytes());
    let token = format!("{}.{}", unsigned, encode_base64(&sig));
    assert_eq!(decode(key, token).unwrap(), PAYLOAD);
}
