//! API token secrets: how they are made and how they are stored (hashed).

use vstd::prelude::*;
use vstd::string::{StrSliceExecFns, StringSliceAdditionalSpecFns};

use crate::ids::hex_char;
use rand::RngCore;
use sha2::Digest;

verus! {

/// The lowercase hexadecimal form of bytes: two digits per byte, high
/// nibble first.
pub open spec fn hex_text(bytes: Seq<u8>) -> Seq<char>
    decreases bytes.len(),
{
    if bytes.len() == 0 {
        Seq::empty()
    } else {
        hex_text(bytes.drop_last()) + seq![
            hex_char((bytes.last() / 16) as int),
            hex_char((bytes.last() % 16) as int),
        ]
    }
}

/// The hexadecimal form has two digits per byte.
pub proof fn lemma_hex_text_len(bytes: Seq<u8>)
    ensures
        hex_text(bytes).len() == 2 * bytes.len(),
    decreases bytes.len(),
{
    if bytes.len() > 0 {
        lemma_hex_text_len(bytes.drop_last());
    }
}

/// Calls `hex::encode`, which writes each byte as two lowercase hexadecimal
/// digits, high nibble first.
#[verifier::external_body]
fn hex_encode(bytes: &[u8]) -> (r: String)
    ensures
        r@ == hex_text(bytes@),
{
    hex::encode(bytes)
}

/// The SHA-256 digest of a byte string.
pub uninterp spec fn sha256_digest(bytes: Seq<u8>) -> Seq<u8>;

/// Calls `sha2::Sha256`'s `update` and `finalize` on the bytes; the digest
/// is named `sha256_digest` and is 32 bytes long.
#[verifier::external_body]
fn sha256(bytes: &[u8]) -> (r: Vec<u8>)
    ensures
        r@ == sha256_digest(bytes@),
        r@.len() == 32,
{
    let mut hasher = sha2::Sha256::new();
    hasher.update(bytes);
    hasher.finalize().to_vec()
}

/// Calls `rand::thread_rng().fill_bytes` on 32 bytes. The bytes are random:
/// only their number is stated.
#[verifier::external_body]
fn random_bytes_32() -> (r: Vec<u8>)
    ensures
        r@.len() == 32,
{
    let mut bytes = [0u8; 32];
    rand::thread_rng().fill_bytes(&mut bytes);
    bytes.to_vec()
}

/// A new token secret: 32 random bytes written as 64 lowercase hexadecimal
/// digits.
pub fn generate_token_secret() -> (r: String)
    ensures
        r@.len() == 64,
        exists|bytes: Seq<u8>| bytes.len() == 32 && r@ == hex_text(bytes),
{
    let bytes = random_bytes_32();
    let r = hex_encode(bytes.as_slice());
    proof {
        lemma_hex_text_len(bytes@);
    }
    r
}

/// The stored form of a token secret: the SHA-256 digest of its UTF-8 bytes,
/// as 64 lowercase hexadecimal digits.
pub fn hash_token(secret: &str) -> (r: String)
    ensures
        r@ == hex_text(sha256_digest(secret.spec_bytes())),
        r@.len() == 64,
{
    let digest = sha256(secret.as_bytes());
    proof {
        lemma_hex_text_len(digest@);
    }
    hex_encode(digest.as_slice())
}

/// Why a request's authorization header is refused.
#[derive(Debug, Clone, Copy, PartialEq, Eq, Structural)]
pub enum AuthHeaderError {
    Missing,
    NotBearer,
}

impl AuthHeaderError {
    pub fn message(&self) -> (r: &'static str)
        ensures
            r@ == match *self {
                AuthHeaderError::Missing => "Missing Authorization header"@,
                AuthHeaderError::NotBearer =>
                    "Invalid Authorization header format, expected 'Bearer <token>'"@,
            },
    {
        match self {
            AuthHeaderError::Missing => "Missing Authorization header",
            AuthHeaderError::NotBearer =>
                "Invalid Authorization header format, expected 'Bearer <token>'",
        }
    }
}

/// The token of an authorization header of the form `Bearer <token>`.
pub open spec fn bearer_token_of(header: Option<Seq<char>>) -> Result<Seq<char>, AuthHeaderError> {
    match header {
        None => Err(AuthHeaderError::Missing),
        Some(h) => if h.len() >= 7 && h.subrange(0, 7) == "Bearer "@ {
            Ok(h.subrange(7, h.len() as int))
        } else {
            Err(AuthHeaderError::NotBearer)
        },
    }
}

/// Takes the token out of an API request's authorization header.
pub fn bearer_token(header: Option<&str>) -> (r: Result<&str, AuthHeaderError>)
    ensures
        match bearer_token_of(
            match header {
                Some(h) => Some(h@),
                None => None,
            },
        ) {
            Ok(t) => r matches Ok(x) && x@ == t,
            Err(e) => r == Err::<&str, AuthHeaderError>(e),
        },
{
    match header {
        None => Err(AuthHeaderError::Missing),
        Some(h) => {
            let n = h.unicode_len();
            proof {
                reveal_strlit("Bearer ");
            }
            if n >= 7 && crate::text::str_equals(h.substring_char(0, 7), "Bearer ") {
                Ok(h.substring_char(7, n))
            } else {
                Err(AuthHeaderError::NotBearer)
            }
        },
    }
}

/// The stored hash an API request's token is looked up by.
pub fn request_token_hash(header: Option<&str>) -> (r: Result<String, AuthHeaderError>)
    ensures
        match bearer_token_of(
            match header {
                Some(h) => Some(h@),
                None => None,
            },
        ) {
            Ok(t) => r matches Ok(x) && exists|token: &str| token@ == t && x@ == hex_text(
                sha256_digest(token.spec_bytes()),
            ),
            Err(e) => r == Err::<String, AuthHeaderError>(e),
        },
{
    match bearer_token(header) {
        Ok(token) => Ok(hash_token(token)),
        Err(e) => Err(e),
    }
}

/// A stored API token: only the hash of its secret is kept. Ids are UUIDs
/// held as integers; times are microseconds since the Unix epoch.
#[derive(Debug, Clone)]
pub struct ApiToken {
    pub id: u128,
    pub user_id: u128,
    pub token_hash: String,
    pub name: String,
    pub last_used_at: Option<i64>,
    pub created_at: i64,
    pub revoked_at: Option<i64>,
}

/// A token as the API lists it: neither its owner, its hash nor its
/// revocation is shown.
#[derive(Debug, Clone)]
pub struct TokenResponse {
    pub id: u128,
    pub name: String,
    pub last_used_at: Option<i64>,
    pub created_at: i64,
}

/// The listing of a stored token.
pub open spec fn token_response_of(token: ApiToken) -> TokenResponse {
    TokenResponse {
        id: token.id,
        name: token.name,
        last_used_at: token.last_used_at,
        created_at: token.created_at,
    }
}

impl From<ApiToken> for TokenResponse {
    fn from(token: ApiToken) -> (r: TokenResponse) {
        TokenResponse {
            id: token.id,
            name: token.name,
            last_used_at: token.last_used_at,
            created_at: token.created_at,
        }
    }
}

impl vstd::std_specs::convert::FromSpecImpl<ApiToken> for TokenResponse {
    open spec fn obeys_from_spec() -> bool {
        true
    }

    open spec fn from_spec(token: ApiToken) -> TokenResponse {
        token_response_of(token)
    }
}

} // verus!
