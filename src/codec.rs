//! Text in unpadded URL-safe base64, and the header's JSON form.
use vstd::prelude::*;
use vstd::utf8::{decode_utf8, encode_utf8, valid_utf8};

use crate::error::{kind_of, TokenError, ErrorKind};

verus! {

/// The longest byte sequence that is encoded or signed here. Its base64 text
/// fits in `usize` with room to spare, and its length in bits fits in the
/// 64-bit counter of the hash functions.
pub const MAX_INPUT: usize = usize::MAX / 16;

/// The padding byte `=`, which unpadded base64 never holds.
pub const PAD: u8 = 61;

/// Bytes that hold a padding byte.
pub open spec fn has_padding(seg: Seq<u8>) -> bool {
    exists|i: int| 0 <= i < seg.len() && seg[i] == PAD
}

/// What a segment decodes to as unpadded URL-safe base64: nothing where it
/// holds padding, else what base64 decodes from it.
pub open spec fn segment_bytes(seg: Seq<u8>) -> Option<Seq<u8>> {
    if has_padding(seg) {
        None
    } else {
        base64url_bytes(seg)
    }
}

/// A character of the URL-safe base64 alphabet.
pub open spec fn is_base64url_char(c: char) -> bool {
    ('A' <= c && c <= 'Z') || ('a' <= c && c <= 'z') || ('0' <= c && c <= '9') || c == '-' || c
        == '_'
}

/// Text made only of URL-safe base64 characters.
pub open spec fn is_base64url_text(s: Seq<char>) -> bool {
    forall|i: int| 0 <= i < s.len() ==> is_base64url_char(#[trigger] s[i])
}

/// The unpadded URL-safe base64 text of `b`, as base64 writes it.
pub uninterp spec fn base64url_text(b: Seq<u8>) -> Seq<char>;

/// What base64 decodes from the (ASCII) bytes `text` in the unpadded URL-safe
/// configuration; `None` where it refuses them.
pub uninterp spec fn base64url_bytes(text: Seq<u8>) -> Option<Seq<u8>>;

/// Relies on base64::encode_config with URL_SAFE_NO_PAD: the text depends on
/// the bytes alone, has four characters for every three bytes (rounded up),
/// uses only the URL-safe alphabet, and base64::decode_config with the same
/// configuration gives the bytes back.
#[verifier::external_body]
fn base64url_encode(b: &[u8]) -> (r: String)
    requires
        b@.len() <= MAX_INPUT,
    ensures
        r@ == base64url_text(b@),
        r@.len() == (4 * b@.len() + 2) / 3,
        is_base64url_text(r@),
        base64url_bytes(encode_utf8(r@)) == Some(b@),
{
    base64::encode_config(b, base64::URL_SAFE_NO_PAD)
}

/// Relies on base64::decode_config with URL_SAFE_NO_PAD: the outcome depends
/// on the input bytes alone.
#[verifier::external_body]
fn base64url_decode(text: &[u8]) -> (r: Result<Vec<u8>, base64::DecodeError>)
    ensures
        match r {
            Ok(b) => base64url_bytes(text@) == Some(b@),
            Err(_) => base64url_bytes(text@) is None,
        },
{
    base64::decode_config(text, base64::URL_SAFE_NO_PAD)
}

/// Relies on String::from_utf8: it succeeds exactly on valid UTF-8, with the
/// characters that the bytes encode.
#[verifier::external_body]
fn string_from_utf8(b: Vec<u8>) -> (r: Result<String, std::string::FromUtf8Error>)
    ensures
        match r {
            Ok(s) => valid_utf8(b@) && s@ == decode_utf8(b@),
            Err(_) => !valid_utf8(b@),
        },
{
    String::from_utf8(b)
}

/// Writes bytes in unpadded URL-safe base64.
pub fn encode_base64(b: &[u8]) -> (r: String)
    requires
        b@.len() <= MAX_INPUT,
    ensures
        r@ == base64url_text(b@),
        r@.len() == (4 * b@.len() + 2) / 3,
        is_base64url_text(r@),
        segment_bytes(encode_utf8(r@)) == Some(b@),
{
    let r = base64url_encode(b);
    proof {
        lemma_base64url_text_bytes(r@);
    }
    r
}

/// Reads bytes back from unpadded URL-safe base64; padding is refused as an
/// invalid byte.
pub fn decode_base64(seg: &[u8]) -> (r: Result<Vec<u8>, TokenError>)
    ensures
        match r {
            Ok(b) => segment_bytes(seg@) == Some(b@),
            Err(e) => segment_bytes(seg@) is None && kind_of(e) == ErrorKind::Base64,
        },
{
    let mut i: usize = 0;
    while i < seg.len()
        invariant
            i <= seg@.len(),
            forall|j: int| 0 <= j < i ==> seg@[j] != PAD,
        decreases seg@.len() - i,
    {
        if seg[i] == PAD {
            return Err(TokenError::Base64(base64::DecodeError::InvalidByte(i, PAD)));
        }
        i = i + 1;
    }
    match base64url_decode(seg) {
        Ok(b) => Ok(b),
        Err(e) => Err(TokenError::Base64(e)),
    }
}

/// The base64 text of the UTF-8 encoding of `t`.
pub open spec fn encoded_text(t: Seq<char>) -> Seq<char> {
    base64url_text(encode_utf8(t))
}

/// What a base64 segment decodes to as text: its bytes must be base64, and
/// what they decode to must be UTF-8.
pub open spec fn decoded_text(seg: Seq<u8>) -> Result<Seq<char>, ErrorKind> {
    match segment_bytes(seg) {
        None => Err(ErrorKind::Base64),
        Some(b) => if valid_utf8(b) {
            Ok(decode_utf8(b))
        } else {
            Err(ErrorKind::FromUtf8)
        },
    }
}

/// Writes the UTF-8 bytes of `t` in unpadded URL-safe base64.
pub fn encode_text_base64(t: &str) -> (r: String)
    requires
        encode_utf8(t@).len() <= MAX_INPUT,
    ensures
        r@ == encoded_text(t@),
        r@.len() == (4 * encode_utf8(t@).len() + 2) / 3,
        is_base64url_text(r@),
        decoded_text(encode_utf8(r@)) == Ok::<Seq<char>, ErrorKind>(t@),
{
    let bytes = t.as_bytes();
    proof {
        broadcast use vstd::utf8::group_utf8_lib;
    }
    encode_base64(bytes)
}

/// Reads a base64 segment back into text.
pub fn decode_text_base64(seg: &[u8]) -> (r: Result<String, TokenError>)
    ensures
        match r {
            Ok(s) => decoded_text(seg@) == Ok::<Seq<char>, ErrorKind>(s@),
            Err(e) => decoded_text(seg@) == Err::<Seq<char>, ErrorKind>(kind_of(e)),
        },
{
    let bytes = decode_base64(seg)?;
    match string_from_utf8(bytes) {
        Ok(s) => Ok(s),
        Err(e) => Err(TokenError::FromUtf8Error(e)),
    }
}

/// A UTF-8 encoding takes at most four bytes for each character.
pub proof fn lemma_encode_utf8_len(t: Seq<char>)
    ensures
        encode_utf8(t).len() <= 4 * t.len(),
    decreases t.len(),
{
    if t.len() > 0 {
        lemma_encode_utf8_len(t.drop_first());
    }
}

/// The UTF-8 encoding of joined texts joins their encodings.
pub proof fn lemma_encode_utf8_concat(a: Seq<char>, b: Seq<char>)
    ensures
        encode_utf8(a + b) == encode_utf8(a) + encode_utf8(b),
    decreases a.len(),
{
    if a.len() == 0 {
        assert(a + b =~= b);
        assert(encode_utf8(a) + encode_utf8(b) =~= encode_utf8(b));
    } else {
        assert((a + b).drop_first() =~= a.drop_first() + b);
        assert((a + b)[0] == a[0]);
        lemma_encode_utf8_concat(a.drop_first(), b);
        assert(encode_utf8(a + b) =~= encode_utf8(a) + encode_utf8(b));
    }
}

/// Base64 text is ASCII, so its UTF-8 bytes are its characters one for one,
/// and none of them is a dot or padding.
pub proof fn lemma_base64url_text_bytes(s: Seq<char>)
    requires
        is_base64url_text(s),
    ensures
        encode_utf8(s).len() == s.len(),
        forall|i: int| 0 <= i < s.len() ==> #[trigger] encode_utf8(s)[i] != 46u8,
        !has_padding(encode_utf8(s)),
{
    assert(vstd::utf8::is_ascii_chars(s));
    vstd::utf8::is_ascii_chars_encode_utf8(s);
    assert forall|i: int| 0 <= i < s.len() implies #[trigger] encode_utf8(s)[i] != 46u8 by {
        assert(is_base64url_char(s[i]));
        assert(s[i] as u8 == encode_utf8(s)[i]);
    }
    assert forall|i: int| 0 <= i < s.len() implies #[trigger] encode_utf8(s)[i] != PAD by {
        assert(is_base64url_char(s[i]));
        assert(s[i] as u8 == encode_utf8(s)[i]);
    }
}

} // verus!
