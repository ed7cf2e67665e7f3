//! HMAC signatures over the unsigned part of a token.
use vstd::prelude::*;

use crate::codec::MAX_INPUT;
use crate::error::{JwtError, TokenError};
use crate::header::Algorithm;

verus! {

/// The HMAC tag of `msg` under `key` with the hash function `alg`, as ring
/// computes it.
pub uninterp spec fn hmac_tag(alg: Algorithm, key: Seq<u8>, msg: Seq<u8>) -> Seq<u8>;

/// The length in bytes of a tag: the output length of the hash function.
pub open spec fn tag_len(alg: Algorithm) -> nat {
    match alg {
        Algorithm::SHA1 => 20,
        Algorithm::SHA256 => 32,
        Algorithm::SHA384 => 48,
        Algorithm::SHA512 => 64,
    }
}

/// Relies on ring::hmac::Key::new and ring::hmac::sign: the tag depends on the
/// algorithm, the key and the message alone, and is as long as the hash
/// function's output. Neither call panics on a key or
/// a message whose length in bits fits in 64 bits with a block to spare.
#[verifier::external_body]
fn hmac_sign(alg: Algorithm, key: &[u8], msg: &[u8]) -> (r: Vec<u8>)
    requires
        key@.len() <= MAX_INPUT,
        msg@.len() <= MAX_INPUT,
    ensures
        r@ == hmac_tag(alg, key@, msg@),
        r@.len() == tag_len(alg),
{
    let a = match alg {
        Algorithm::SHA1 => ring::hmac::HMAC_SHA1_FOR_LEGACY_USE_ONLY,
        Algorithm::SHA256 => ring::hmac::HMAC_SHA256,
        Algorithm::SHA384 => ring::hmac::HMAC_SHA384,
        Algorithm::SHA512 => ring::hmac::HMAC_SHA512,
    };
    ring::hmac::sign(&ring::hmac::Key::new(a, key), msg).as_ref().to_vec()
}

/// Relies on ring::hmac::Key::new and ring::hmac::verify: it succeeds exactly
/// when `tag` equals the HMAC tag of `msg`, and compares the two in constant
/// time.
#[verifier::external_body]
fn hmac_verify(alg: Algorithm, key: &[u8], msg: &[u8], tag: &[u8]) -> (r: Result<
    (),
    ring::error::Unspecified,
>)
    requires
        key@.len() <= MAX_INPUT,
        msg@.len() <= MAX_INPUT,
    ensures
        r is Ok <==> tag@ == hmac_tag(alg, key@, msg@),
{
    let a = match alg {
        Algorithm::SHA1 => ring::hmac::HMAC_SHA1_FOR_LEGACY_USE_ONLY,
        Algorithm::SHA256 => ring::hmac::HMAC_SHA256,
        Algorithm::SHA384 => ring::hmac::HMAC_SHA384,
        Algorithm::SHA512 => ring::hmac::HMAC_SHA512,
    };
    ring::hmac::verify(&ring::hmac::Key::new(a, key), msg, tag)
}

/// The signature of `msg` under `key`.
pub fn sign(alg: Algorithm, key: &[u8], msg: &[u8]) -> (r: Vec<u8>)
    requires
        key@.len() <= MAX_INPUT,
        msg@.len() <= MAX_INPUT,
    ensures
        r@ == hmac_tag(alg, key@, msg@),
        r@.len() == tag_len(alg),
{
    hmac_sign(alg, key, msg)
}

/// Checks `signature` against `msg` under `key`, in constant time. Any
/// mismatch is one opaque failure.
pub fn verify(alg: Algorithm, key: &[u8], msg: &[u8], signature: &[u8]) -> (r: Result<
    (),
    TokenError,
>)
    requires
        key@.len() <= MAX_INPUT,
        msg@.len() <= MAX_INPUT,
    ensures
        match r {
            Ok(_) => signature@ == hmac_tag(alg, key@, msg@),
            Err(e) => signature@ != hmac_tag(alg, key@, msg@) && e == TokenError::JwtError(
                JwtError::Verify,
            ),
        },
{
    match hmac_verify(alg, key, msg, signature) {
        Ok(()) => Ok(()),
        Err(_) => Err(TokenError::JwtError(JwtError::Verify)),
    }
}

} // verus!
