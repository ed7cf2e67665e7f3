//! The token header: which HMAC algorithm signs the token, and its type.
use vstd::prelude::*;
use vstd::string::StringExecFns;
use vstd::utf8::encode_utf8;

use crate::codec::{
    decode_text_base64, decoded_text, encode_text_base64, encoded_text, is_base64url_text,
    lemma_encode_utf8_len,
};
use crate::error::{kind_of, ErrorKind, TokenError};

verus! {

/// The hash functions that a token can be signed with, each used through HMAC.
#[derive(Clone, Copy, Debug, PartialEq, Eq, Structural)]
pub enum Algorithm {
    SHA1,
    SHA256,
    SHA384,
    SHA512,
}

/// The `alg` token that names `a` in a header.
pub open spec fn alg_token(a: Algorithm) -> Seq<char> {
    match a {
        Algorithm::SHA1 => "HS1"@,
        Algorithm::SHA256 => "HS256"@,
        Algorithm::SHA384 => "HS384"@,
        Algorithm::SHA512 => "HS512"@,
    }
}

/// The algorithm that a header's `alg` field selects. A string that names
/// none of the four falls back to SHA256.
pub open spec fn alg_of_token(alg: Seq<char>) -> Algorithm {
    if alg == "HS1"@ {
        Algorithm::SHA1
    } else if alg == "HS384"@ {
        Algorithm::SHA384
    } else if alg == "HS512"@ {
        Algorithm::SHA512
    } else {
        Algorithm::SHA256
    }
}

/// The type that every header written here declares.
pub open spec fn jwt_type() -> Seq<char> {
    "JWT"@
}

/// Each algorithm's token selects that algorithm again; the tokens are
/// short strings of letters and digits.
pub proof fn lemma_alg_token_selects(a: Algorithm)
    ensures
        alg_of_token(alg_token(a)) == a,
        is_plain_token(alg_token(a)),
        0 < alg_token(a).len() <= 5,
        is_plain_token(jwt_type()),
        jwt_type().len() == 3,
{
    reveal_strlit("HS1");
    reveal_strlit("HS256");
    reveal_strlit("HS384");
    reveal_strlit("HS512");
    reveal_strlit("JWT");
    assert("HS256"@.len() != "HS1"@.len());
    assert("HS384"@.len() != "HS1"@.len());
    assert("HS512"@.len() != "HS1"@.len());
    assert("HS256"@[2] != "HS384"@[2]);
    assert("HS256"@[2] != "HS512"@[2]);
    assert("HS512"@[2] != "HS384"@[2]);
}

/// Each algorithm has its own `alg` token, and a header written for it
/// selects it again.
pub proof fn lemma_algorithm_coverage()
    ensures
        alg_token(Algorithm::SHA1) == "HS1"@,
        alg_token(Algorithm::SHA256) == "HS256"@,
        alg_token(Algorithm::SHA384) == "HS384"@,
        alg_token(Algorithm::SHA512) == "HS512"@,
        forall|a: Algorithm| #[trigger] alg_of_token(alg_token(a)) == a,
{
    assert forall|a: Algorithm| #[trigger] alg_of_token(alg_token(a)) == a by {
        lemma_alg_token_selects(a);
    }
}

/// A string of ASCII letters and digits, which JSON writes between quotes
/// as it is.
pub open spec fn is_plain_token(s: Seq<char>) -> bool {
    forall|i: int|
        0 <= i < s.len() ==> {
            let c = #[trigger] s[i];
            ('A' <= c && c <= 'Z') || ('a' <= c && c <= 'z') || ('0' <= c && c <= '9')
        }
}

/// A JSON object of two string members, written without spaces.
pub open spec fn plain_json_object(k1: Seq<char>, v1: Seq<char>, k2: Seq<char>, v2: Seq<char>) -> Seq<
    char,
> {
    "{\""@ + k1 + "\":\""@ + v1 + "\",\""@ + k2 + "\":\""@ + v2 + "\"}"@
}

/// The JSON text that serde_json writes for an object whose members `k1` and
/// `k2` hold the strings `v1` and `v2`.
pub uninterp spec fn json_object_text(k1: Seq<char>, v1: Seq<char>, k2: Seq<char>, v2: Seq<char>) -> Seq<
    char,
>;

/// What serde_json reads from `text` as a JSON value whose members `k1` and
/// `k2` are strings: those two strings, or `None` where `text` is no such value.
pub uninterp spec fn json_string_members(text: Seq<char>, k1: Seq<char>, k2: Seq<char>) -> Option<
    (Seq<char>, Seq<char>),
>;

/// Relies on serde_json::to_string of a serde_json::Map holding two string
/// members. A map of strings always serializes; the default map keeps its
/// keys in order, so `k1` comes first where its first character sorts
/// first; letters and digits need no escapes; and serde_json reads two
/// distinct members back as they were written.
#[verifier::external_body]
fn write_json_object(k1: &str, v1: &str, k2: &str, v2: &str) -> (r: Result<String, serde_json::Error>)
    ensures
        r is Ok,
        r matches Ok(s) ==> {
            &&& s@ == json_object_text(k1@, v1@, k2@, v2@)
            &&& k1@ != k2@ ==> json_string_members(s@, k1@, k2@) == Some((v1@, v2@))
            &&& (is_plain_token(k1@) && is_plain_token(v1@) && is_plain_token(k2@)
                && is_plain_token(v2@) && k1@.len() > 0 && k2@.len() > 0 && k1@[0] < k2@[0])
                ==> s@ == plain_json_object(k1@, v1@, k2@, v2@)
        },
{
    let mut m = serde_json::Map::new();
    m.insert(k1.to_string(), serde_json::Value::String(v1.to_string()));
    m.insert(k2.to_string(), serde_json::Value::String(v2.to_string()));
    serde_json::to_string(&m)
}

/// Relies on serde_json::from_str into a serde_json::Value, then
/// serde_json::from_value to read the members `k1` and `k2` as strings (a
/// missing member reads as null, which is no string).
#[verifier::external_body]
fn read_json_members(text: &str, k1: &str, k2: &str) -> (r: Result<(String, String), serde_json::Error>)
    ensures
        match r {
            Ok((a, b)) => json_string_members(text@, k1@, k2@) == Some((a@, b@)),
            Err(_) => json_string_members(text@, k1@, k2@) is None,
        },
{
    let v: serde_json::Value = serde_json::from_str(text)?;
    let a: String = serde_json::from_value(v[k1].clone())?;
    let b: String = serde_json::from_value(v[k2].clone())?;
    Ok((a, b))
}

/// The JSON text of a header with these fields.
pub open spec fn header_text(alg: Seq<char>, typ: Seq<char>) -> Seq<char> {
    json_object_text("alg"@, alg, "typ"@, typ)
}

/// The fields that a header's JSON text holds, if it holds them as strings.
pub open spec fn header_fields(text: Seq<char>) -> Option<(Seq<char>, Seq<char>)> {
    json_string_members(text, "alg"@, "typ"@)
}

/// What a base64 segment decodes to as a header: its fields, or the kind of
/// the first failure.
pub open spec fn header_outcome(seg: Seq<u8>) -> Result<(Seq<char>, Seq<char>), ErrorKind> {
    match decoded_text(seg) {
        Err(k) => Err(k),
        Ok(text) => match header_fields(text) {
            None => Err(ErrorKind::Json),
            Some(f) => Ok(f),
        },
    }
}

/// The member names of a header are distinct, non-empty, plain, and `alg`
/// sorts first.
proof fn lemma_member_names()
    ensures
        "alg"@ != "typ"@,
        is_plain_token("alg"@),
        is_plain_token("typ"@),
        "alg"@.len() == 3,
        "typ"@.len() == 3,
        "alg"@[0] < "typ"@[0],
{
    reveal_strlit("alg");
    reveal_strlit("typ");
    assert("alg"@[0] != "typ"@[0]);
}

/// A token header: the name of the signing algorithm and the token's type.
#[derive(Debug)]
pub struct Header {
    pub alg: String,
    pub typ: String,
}

impl Header {
    /// The header that a token signed with `alg` carries.
    pub fn new(alg: Algorithm) -> (h: Header)
        ensures
            h.alg@ == alg_token(alg),
            h.typ@ == jwt_type(),
            is_plain_token(h.alg@),
            is_plain_token(h.typ@),
            0 < h.alg@.len() <= 5,
            h.typ@.len() == 3,
    {
        proof {
            lemma_alg_token_selects(alg);
        }
        let algorithm = match alg {
            Algorithm::SHA1 => String::from_str("HS1"),
            Algorithm::SHA256 => String::from_str("HS256"),
            Algorithm::SHA384 => String::from_str("HS384"),
            Algorithm::SHA512 => String::from_str("HS512"),
        };
        Header { alg: algorithm, typ: String::from_str("JWT") }
    }

    /// The algorithm named by the `alg` field; SHA256 where it names none.
    pub fn algorithm(&self) -> (a: Algorithm)
        ensures
            a == alg_of_token(self.alg@),
    {
        if self.alg == String::from_str("HS1") {
            Algorithm::SHA1
        } else if self.alg == String::from_str("HS384") {
            Algorithm::SHA384
        } else if self.alg == String::from_str("HS512") {
            Algorithm::SHA512
        } else {
            Algorithm::SHA256
        }
    }

    /// The header as JSON text.
    pub fn to_string(&self) -> (r: Result<String, TokenError>)
        ensures
            r matches Ok(s) && s@ == header_text(self.alg@, self.typ@),
            r matches Ok(s) ==> header_fields(s@) == Some((self.alg@, self.typ@)),
            r matches Ok(s) ==> (is_plain_token(self.alg@) && is_plain_token(self.typ@) ==> s@
                == plain_json_object("alg"@, self.alg@, "typ"@, self.typ@)),
    {
        proof {
            lemma_member_names();
        }
        match write_json_object("alg", self.alg.as_str(), "typ", self.typ.as_str()) {
            Ok(s) => Ok(s),
            Err(e) => Err(TokenError::Json(e)),
        }
    }

    /// Reads a header from JSON text.
    pub fn from_str(json: &str) -> (r: Result<Header, TokenError>)
        ensures
            match r {
                Ok(h) => header_fields(json@) == Some((h.alg@, h.typ@)),
                Err(e) => header_fields(json@) is None && kind_of(e) == ErrorKind::Json,
            },
    {
        match read_json_members(json, "alg", "typ") {
            Ok((alg, typ)) => Ok(Header { alg, typ }),
            Err(e) => Err(TokenError::Json(e)),
        }
    }

    /// The header's JSON text in unpadded URL-safe base64. Its fields are
    /// the short tokens that `new` writes.
    pub fn encode_base64(&self) -> (r: Result<String, TokenError>)
        requires
            is_plain_token(self.alg@),
            is_plain_token(self.typ@),
            self.alg@.len() <= 64,
            self.typ@.len() <= 64,
        ensures
            r matches Ok(s) && s@ == encoded_text(header_text(self.alg@, self.typ@)),
            r matches Ok(s) ==> is_base64url_text(s@) && s@.len() <= 1024,
            r matches Ok(s) ==> header_outcome(encode_utf8(s@)) == Ok::<
                (Seq<char>, Seq<char>),
                ErrorKind,
            >((self.alg@, self.typ@)),
    {
        let json = self.to_string()?;
        proof {
            lemma_member_names();
            reveal_strlit("{\"");
            reveal_strlit("\":\"");
            reveal_strlit("\",\"");
            reveal_strlit("\"}");
            lemma_encode_utf8_len(json@);
            assert(json@.len() <= 160);
        }
        Ok(encode_text_base64(json.as_str()))
    }

    /// Reads a header from a base64 segment.
    pub fn decode_base64(seg: &[u8]) -> (r: Result<Header, TokenError>)
        ensures
            match r {
                Ok(h) => header_outcome(seg@) == Ok::<(Seq<char>, Seq<char>), ErrorKind>(
                    (h.alg@, h.typ@),
                ),
                Err(e) => header_outcome(seg@) == Err::<(Seq<char>, Seq<char>), ErrorKind>(
                    kind_of(e),
                ),
            },
    {
        let json = decode_text_base64(seg)?;
        Header::from_str(json.as_str())
    }
}

} // verus!
