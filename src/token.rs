//! Assembling a token from its header, payload and signature, and taking a
//! presented token apart again.
use vstd::prelude::*;
use vstd::string::StringExecFns;
use vstd::utf8::encode_utf8;

use crate::codec::{
    base64url_text, decode_base64, decode_text_base64, decoded_text, encode_base64,
    encode_text_base64, encoded_text, lemma_base64url_text_bytes, lemma_encode_utf8_concat,
    segment_bytes, MAX_INPUT,
};
use crate::crypto::{hmac_tag, sign, verify};
use crate::error::{text_outcome, ErrorKind, JwtError, TokenError};
use crate::header::{
    alg_of_token, alg_token, header_outcome, header_text, jwt_type, lemma_alg_token_selects,
    Algorithm, Header,
};

verus! {

/// The byte that separates the segments of a token.
pub const DOT: u8 = 46;

/// The longest payload, in UTF-8 bytes, that a token is made for: its base64
/// text and the header's still fit in what HMAC is handed.
pub const MAX_PAYLOAD: usize = usize::MAX / 64;

/// The pieces of `b` between dots, as splitting a string on `.` gives them:
/// always at least one, and one more than there are dots.
pub open spec fn split_on_dot(b: Seq<u8>) -> Seq<Seq<u8>>
    decreases b.len(),
{
    if b.len() == 0 {
        seq![Seq::<u8>::empty()]
    } else {
        let init = split_on_dot(b.drop_last());
        if b.last() == DOT {
            init.push(Seq::<u8>::empty())
        } else {
            init.update(init.len() - 1, init.last().push(b.last()))
        }
    }
}

/// Pieces joined again with a dot between each two.
pub open spec fn join_with_dots(parts: Seq<Seq<u8>>) -> Seq<u8>
    decreases parts.len(),
{
    if parts.len() <= 1 {
        if parts.len() == 1 {
            parts[0]
        } else {
            Seq::<u8>::empty()
        }
    } else {
        join_with_dots(parts.drop_last()) + seq![DOT] + parts.last()
    }
}

/// Bytes without a dot.
pub open spec fn no_dot(b: Seq<u8>) -> bool {
    forall|i: int| 0 <= i < b.len() ==> #[trigger] b[i] != DOT
}

/// The part of a token that is signed: header and payload segments joined by
/// a dot.
pub open spec fn unsigned_bytes(header: Seq<u8>, payload: Seq<u8>) -> Seq<u8> {
    header + seq![DOT] + payload
}

/// The unsigned part of the token that `encode` writes for `payload` and `alg`.
pub open spec fn unsigned_text(payload: Seq<char>, alg: Algorithm) -> Seq<char> {
    encoded_text(header_text(alg_token(alg), jwt_type())) + "."@ + encoded_text(payload)
}

/// The token that `encode` writes: the unsigned part, a dot, and the base64
/// text of its HMAC tag under `key`.
pub open spec fn token_text(key: Seq<u8>, payload: Seq<char>, alg: Algorithm) -> Seq<char> {
    unsigned_text(payload, alg) + "."@ + base64url_text(
        hmac_tag(alg, key, encode_utf8(unsigned_text(payload, alg))),
    )
}

/// What decoding the token bytes `token` under `key` gives: the payload's
/// JSON text, or the kind of the first failure. The segments must be three;
/// the header must decode; the signature must decode and match the HMAC tag
/// of the unsigned part, by the algorithm that the header names; only then
/// is the payload segment read.
pub open spec fn decode_outcome(key: Seq<u8>, token: Seq<u8>) -> Result<Seq<char>, ErrorKind> {
    let parts = split_on_dot(token);
    if parts.len() != 3 {
        Err(ErrorKind::Decode)
    } else {
        match header_outcome(parts[0]) {
            Err(k) => Err(k),
            Ok(fields) => match segment_bytes(parts[2]) {
                None => Err(ErrorKind::Base64),
                Some(sig) => if sig != hmac_tag(
                    alg_of_token(fields.0),
                    key,
                    unsigned_bytes(parts[0], parts[1]),
                ) {
                    Err(ErrorKind::Verify)
                } else {
                    decoded_text(parts[1])
                },
            },
        }
    }
}

/// Splitting on dots always gives at least one piece.
pub proof fn lemma_split_nonempty(b: Seq<u8>)
    ensures
        split_on_dot(b).len() >= 1,
    decreases b.len(),
{
    if b.len() > 0 {
        lemma_split_nonempty(b.drop_last());
    }
}

/// Joining the pieces with dots gives the bytes back.
pub proof fn lemma_join_split(b: Seq<u8>)
    ensures
        join_with_dots(split_on_dot(b)) == b,
    decreases b.len(),
{
    if b.len() > 0 {
        let init = b.drop_last();
        let s = split_on_dot(init);
        lemma_join_split(init);
        lemma_split_nonempty(init);
        if b.last() == DOT {
            assert(split_on_dot(b).drop_last() =~= s);
            assert(b =~= init + seq![DOT] + Seq::<u8>::empty());
        } else {
            let u = s.update(s.len() - 1, s.last().push(b.last()));
            if s.len() == 1 {
                assert(b =~= s[0].push(b.last()));
            } else {
                assert(u.drop_last() =~= s.drop_last());
                assert(join_with_dots(s) == join_with_dots(s.drop_last()) + seq![DOT] + s.last());
                assert(b =~= init.push(b.last()));
                assert(join_with_dots(u) == join_with_dots(u.drop_last()) + seq![DOT] + u.last());
                assert(b =~= join_with_dots(s.drop_last()) + seq![DOT] + s.last().push(b.last()));
            }
        }
    }
}

/// Bytes without a dot are one piece.
pub proof fn lemma_split_no_dot(b: Seq<u8>)
    requires
        no_dot(b),
    ensures
        split_on_dot(b) == seq![b],
    decreases b.len(),
{
    if b.len() > 0 {
        assert(no_dot(b.drop_last()));
        assert(b.last() != DOT);
        lemma_split_no_dot(b.drop_last());
        assert(b.drop_last().push(b.last()) =~= b);
        assert(split_on_dot(b) =~= seq![b]);
    } else {
        assert(b =~= Seq::<u8>::empty());
    }
}

/// Splitting around a dot splits each side.
pub proof fn lemma_split_around_dot(a: Seq<u8>, b: Seq<u8>)
    ensures
        split_on_dot(a + seq![DOT] + b) == split_on_dot(a) + split_on_dot(b),
    decreases b.len(),
{
    let x = a + seq![DOT] + b;
    if b.len() == 0 {
        assert(x.drop_last() =~= a);
        assert(split_on_dot(x) =~= split_on_dot(a) + split_on_dot(b));
    } else {
        let b0 = b.drop_last();
        lemma_split_around_dot(a, b0);
        lemma_split_nonempty(b0);
        assert(x.drop_last() =~= a + seq![DOT] + b0);
        assert(split_on_dot(x) =~= split_on_dot(a) + split_on_dot(b));
    }
}

/// Three pieces without dots, joined by dots, split into those three.
pub proof fn lemma_split_three(a: Seq<u8>, b: Seq<u8>, c: Seq<u8>)
    requires
        no_dot(a),
        no_dot(b),
        no_dot(c),
    ensures
        split_on_dot(a + seq![DOT] + b + seq![DOT] + c) == seq![a, b, c],
{
    lemma_split_around_dot(a + seq![DOT] + b, c);
    lemma_split_around_dot(a, b);
    lemma_split_no_dot(a);
    lemma_split_no_dot(b);
    lemma_split_no_dot(c);
    assert(seq![a] + seq![b] + seq![c] =~= seq![a, b, c]);
}

/// The UTF-8 bytes of a dot.
proof fn lemma_dot_bytes()
    ensures
        encode_utf8("."@) == seq![DOT],
{
    reveal_strlit(".");
    vstd::utf8::is_ascii_chars_encode_utf8("."@);
    assert(encode_utf8("."@) =~= seq![DOT]);
}

/// A token is accepted only where it has three segments, its header
/// decodes, and its signature segment decodes to the HMAC tag of its header
/// and payload segments under the key, by the algorithm that the header
/// names.
pub proof fn lemma_accepted_is_signed(key: Seq<u8>, token: Seq<u8>)
    requires
        decode_outcome(key, token) is Ok,
    ensures
        split_on_dot(token).len() == 3,
        header_outcome(split_on_dot(token)[0]) is Ok,
        segment_bytes(split_on_dot(token)[2]) == Some(
            hmac_tag(
                alg_of_token(header_outcome(split_on_dot(token)[0])->Ok_0.0),
                key,
                unsigned_bytes(split_on_dot(token)[0], split_on_dot(token)[1]),
            ),
        ),
{
}

/// A token whose header decodes, and whose signature segment decodes to
/// anything but the HMAC tag of its header and payload segments under the
/// key, is refused as unauthentic. This holds whichever of the three
/// segments was altered.
pub proof fn lemma_wrong_signature_refused(key: Seq<u8>, h: Seq<u8>, p: Seq<u8>, s: Seq<u8>)
    requires
        no_dot(h),
        no_dot(p),
        no_dot(s),
        header_outcome(h) is Ok,
        segment_bytes(s) is Some,
        segment_bytes(s)->0 != hmac_tag(
            alg_of_token(header_outcome(h)->Ok_0.0),
            key,
            unsigned_bytes(h, p),
        ),
    ensures
        decode_outcome(key, h + seq![DOT] + p + seq![DOT] + s) == Err::<Seq<char>, ErrorKind>(
            ErrorKind::Verify,
        ),
{
    lemma_split_three(h, p, s);
}

/// A token that does not have exactly three segments is refused as
/// malformed, whatever the key and whatever the segments hold.
pub proof fn lemma_malformed_refused(key: Seq<u8>, token: Seq<u8>)
    requires
        split_on_dot(token).len() != 3,
    ensures
        decode_outcome(key, token) == Err::<Seq<char>, ErrorKind>(ErrorKind::Decode),
{
}

/// Splits token bytes on every dot.
pub fn split_token(token: &[u8]) -> (parts: Vec<Vec<u8>>)
    ensures
        parts@.len() == split_on_dot(token@).len(),
        forall|k: int| 0 <= k < parts@.len() ==> #[trigger] parts@[k]@ == split_on_dot(token@)[k],
{
    let mut parts: Vec<Vec<u8>> = Vec::new();
    let mut cur: Vec<u8> = Vec::new();
    let mut i: usize = 0;
    while i < token.len()
        invariant
            i <= token@.len(),
            parts@.len() + 1 == split_on_dot(token@.subrange(0, i as int)).len(),
            forall|k: int|
                0 <= k < parts@.len() ==> #[trigger] parts@[k]@ == split_on_dot(
                    token@.subrange(0, i as int),
                )[k],
            cur@ == split_on_dot(token@.subrange(0, i as int)).last(),
        decreases token@.len() - i,
    {
        let ghost prev = token@.subrange(0, i as int);
        assert(token@.subrange(0, i + 1).drop_last() =~= prev);
        if token[i] == DOT {
            parts.push(cur);
            cur = Vec::new();
        } else {
            cur.push(token[i]);
        }
        i = i + 1;
    }
    assert(token@.subrange(0, i as int) =~= token@);
    parts.push(cur);
    parts
}

/// The two segments joined by a dot.
fn join_dot(a: &[u8], b: &[u8]) -> (r: Vec<u8>)
    requires
        a@.len() + b@.len() < usize::MAX,
    ensures
        r@ == unsigned_bytes(a@, b@),
{
    let mut r: Vec<u8> = Vec::new();
    let mut i: usize = 0;
    while i < a.len()
        invariant
            i <= a@.len(),
            r@ == a@.subrange(0, i as int),
        decreases a@.len() - i,
    {
        r.push(a[i]);
        i = i + 1;
    }
    r.push(DOT);
    let mut j: usize = 0;
    while j < b.len()
        invariant
            j <= b@.len(),
            r@ == a@ + seq![DOT] + b@.subrange(0, j as int),
        decreases b@.len() - j,
    {
        r.push(b[j]);
        j = j + 1;
    }
    assert(b@.subrange(0, j as int) =~= b@);
    r
}

/// Signs a payload, given as its JSON text, under `key` with `alg`: the
/// header and payload in base64, joined by a dot, then a dot and the base64
/// HMAC tag of those two. The token decodes under the same key to the same
/// payload.
pub fn encode(key: &str, payload: &str, alg: Algorithm) -> (r: Result<String, TokenError>)
    requires
        encode_utf8(key@).len() <= MAX_INPUT,
        encode_utf8(payload@).len() <= MAX_PAYLOAD,
    ensures
        r matches Ok(t) && t@ == token_text(encode_utf8(key@), payload@, alg),
        r matches Ok(t) ==> decode_outcome(encode_utf8(key@), encode_utf8(t@)) == Ok::<
            Seq<char>,
            ErrorKind,
        >(payload@),
        r matches Ok(t) ==> forall|k2: Seq<u8>|
            #[trigger] hmac_tag(alg, k2, encode_utf8(unsigned_text(payload@, alg))) != hmac_tag(
                alg,
                encode_utf8(key@),
                encode_utf8(unsigned_text(payload@, alg)),
            ) ==> decode_outcome(k2, encode_utf8(t@)) == Err::<Seq<char>, ErrorKind>(
                ErrorKind::Verify,
            ),
{
    let message_base64 = encode_text_base64(payload);
    let header = Header::new(alg);
    let header_base64 = header.encode_base64()?;
    let unsigned_token = header_base64.concat(".").concat(message_base64.as_str());
    let ghost h = header_base64@;
    let ghost p = message_base64@;
    proof {
        lemma_alg_token_selects(alg);
        lemma_dot_bytes();
        lemma_base64url_text_bytes(h);
        lemma_base64url_text_bytes(p);
        lemma_encode_utf8_concat(h, "."@);
        lemma_encode_utf8_concat(h + "."@, p);
        assert(encode_utf8(unsigned_token@) == encode_utf8(h) + seq![DOT] + encode_utf8(p));
    }
    let signature = sign(header.algorithm(), key.as_bytes(), unsigned_token.as_str().as_bytes());
    let signature_base64 = encode_base64(signature.as_slice());
    let token = unsigned_token.concat(".").concat(signature_base64.as_str());
    proof {
        let sg = signature_base64@;
        lemma_base64url_text_bytes(sg);
        lemma_encode_utf8_concat(unsigned_token@, "."@);
        lemma_encode_utf8_concat(unsigned_token@ + "."@, sg);
        let hb = encode_utf8(h);
        let pb = encode_utf8(p);
        let sb = encode_utf8(sg);
        assert(encode_utf8(token@) == hb + seq![DOT] + pb + seq![DOT] + sb);
        assert(no_dot(hb));
        assert(no_dot(pb));
        assert(no_dot(sb));
        lemma_split_three(hb, pb, sb);
        assert forall|k2: Seq<u8>|
            #[trigger] hmac_tag(alg, k2, encode_utf8(unsigned_text(payload@, alg))) != hmac_tag(
                alg,
                encode_utf8(key@),
                encode_utf8(unsigned_text(payload@, alg)),
            ) implies decode_outcome(k2, encode_utf8(token@)) == Err::<Seq<char>, ErrorKind>(
            ErrorKind::Verify,
        ) by {}
    }
    Ok(token)
}

/// Checks a token under `key` and gives back its payload's JSON text. The
/// token must have three segments; the header is read first, the signature
/// is checked against the header and payload segments by the algorithm that
/// the header names, and only then is the payload segment read.
pub fn decode(key: &str, token: String) -> (r: Result<String, TokenError>)
    requires
        encode_utf8(key@).len() <= MAX_INPUT,
        encode_utf8(token@).len() <= MAX_INPUT,
    ensures
        text_outcome(r) == decode_outcome(encode_utf8(key@), encode_utf8(token@)),
{
    let bytes = token.as_str().as_bytes();
    let parts = split_token(bytes);
    if parts.len() != 3 {
        return Err(TokenError::JwtError(JwtError::Decode));
    }
    let ghost sp = split_on_dot(bytes@);
    proof {
        lemma_join_split(bytes@);
        assert(sp.drop_last().drop_last() =~= seq![sp[0]]);
        assert(join_with_dots(sp.drop_last().drop_last()) == sp[0]);
        assert(sp.drop_last().last() == sp[1]);
        assert(join_with_dots(sp.drop_last()) == sp[0] + seq![DOT] + sp[1]);
        assert(parts@[0]@ == sp[0]);
        assert(parts@[1]@ == sp[1]);
        assert(parts@[2]@ == sp[2]);
    }
    let header = Header::decode_base64(parts[0].as_slice())?;
    let unsigned = join_dot(parts[0].as_slice(), parts[1].as_slice());
    let signature = decode_base64(parts[2].as_slice())?;
    verify(header.algorithm(), key.as_bytes(), unsigned.as_slice(), signature.as_slice())?;
    decode_text_base64(parts[1].as_slice())
}

} // verus!
