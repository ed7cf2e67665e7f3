//! One error type for every way that encoding or decoding a token can fail.
use vstd::prelude::*;

verus! {

/// Failures of the token format itself.
#[derive(Debug, Clone, Copy, PartialEq, Eq, Structural)]
pub enum JwtError {
    /// The token does not split into exactly three dot-separated segments.
    Decode,
    /// The signature does not match the header and payload under the key.
    Verify,
}

/// Every failure of `encode` and `decode`, by the layer it comes from.
#[derive(Debug)]
pub enum TokenError {
    Json(serde_json::Error),
    Crypto(ring::error::Unspecified),
    Base64(base64::DecodeError),
    FromUtf8Error(std::string::FromUtf8Error),
    JwtError(JwtError),
}

/// Which variant a `TokenError` is, without what it carries.
#[derive(Debug, Clone, Copy, PartialEq, Eq, Structural)]
pub enum ErrorKind {
    Json,
    Crypto,
    Base64,
    FromUtf8,
    Decode,
    Verify,
}

/// The kind of an error.
pub open spec fn kind_of(e: TokenError) -> ErrorKind {
    match e {
        TokenError::Json(_) => ErrorKind::Json,
        TokenError::Crypto(_) => ErrorKind::Crypto,
        TokenError::Base64(_) => ErrorKind::Base64,
        TokenError::FromUtf8Error(_) => ErrorKind::FromUtf8,
        TokenError::JwtError(JwtError::Decode) => ErrorKind::Decode,
        TokenError::JwtError(JwtError::Verify) => ErrorKind::Verify,
    }
}

/// A result seen through views: the text on success, the error's kind on failure.
pub open spec fn text_outcome(r: Result<String, TokenError>) -> Result<Seq<char>, ErrorKind> {
    match r {
        Ok(s) => Ok(s@),
        Err(e) => Err(kind_of(e)),
    }
}

impl JwtError {
    /// A short description of the failure.
    pub fn description(&self) -> (s: &'static str)
        ensures
            s@ == "Token decode error"@,
    {
        "Token decode error"
    }
}

impl TokenError {
    /// The kind of this error.
    pub fn kind(&self) -> (k: ErrorKind)
        ensures
            k == kind_of(*self),
    {
        match self {
            TokenError::Json(_) => ErrorKind::Json,
            TokenError::Crypto(_) => ErrorKind::Crypto,
            TokenError::Base64(_) => ErrorKind::Base64,
            TokenError::FromUtf8Error(_) => ErrorKind::FromUtf8,
            TokenError::JwtError(JwtError::Decode) => ErrorKind::Decode,
            TokenError::JwtError(JwtError::Verify) => ErrorKind::Verify,
        }
    }
}

} // verus!
