//! Signed compact tokens: a JSON header, a JSON payload and an HMAC signature,
//! each written in unpadded URL-safe base64 and joined by dots.
//!
//! `encode` signs a payload given as its JSON text; `decode` checks a token's
//! signature under a key before it hands the payload's JSON text back.
pub mod codec;
pub mod crypto;
pub mod error;
pub mod header;
mod outside;
pub mod token;

pub use error::{ErrorKind, JwtError, TokenError};
pub use header::{Algorithm, Header};
pub use token::{decode, encode};
