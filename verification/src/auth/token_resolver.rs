//! From a bearer token to the account behind it.

use crate::encoding::{hex_encode, hex_text, sha256, sha256_digest};
use crate::text::concat2;
use vstd::prelude::*;
use vstd::utf8::encode_utf8;

verus! {

/// A key with which a project reaches a provider.
#[derive(Debug)]
pub struct PipeInfo {
    pub id: u128,
    pub provider: String,
    pub api_key_encrypted: String,
    /// The models it may be used for, separated by commas; all where there is none.
    pub model_filter: Option<String>,
}

/// Context returned after successful token resolution.
#[derive(Debug)]
pub struct AuthContext {
    pub user_id: u128,
    pub project_id: u128,
    pub token_id: u128,
    pub user_email: String,
    pub project_name: String,
    pub pipes: Vec<PipeInfo>,
}

#[derive(Debug)]
pub enum AuthError {
    InvalidToken,
    NoPipeForModel(String),
    SpendingLimitExceeded,
    Internal(String),
}

impl AuthError {
    /// The error in words.
    pub open spec fn text(&self) -> Seq<char> {
        match *self {
            AuthError::InvalidToken => "invalid or expired token"@,
            AuthError::NoPipeForModel(m) => "no pipe found for model: "@ + m@,
            AuthError::SpendingLimitExceeded => "spending limit exceeded"@,
            AuthError::Internal(m) => "internal error: "@ + m@,
        }
    }

    /// The error in words.
    pub fn message(&self) -> (r: String)
        ensures
            r@ == self.text(),
    {
        match self {
            AuthError::InvalidToken => "invalid or expired token".to_owned(),
            AuthError::NoPipeForModel(m) => concat2("no pipe found for model: ", m.as_str()),
            AuthError::SpendingLimitExceeded => "spending limit exceeded".to_owned(),
            AuthError::Internal(m) => concat2("internal error: ", m.as_str()),
        }
    }
}

/// The SHA-256 hex digest of a token.
pub open spec fn token_hash(token: Seq<char>) -> Seq<char> {
    hex_text(sha256_digest(encode_utf8(token)))
}

/// Hash a bearer token to its SHA-256 hex digest of 64 digits.
pub fn hash_token(token: &str) -> (r: String)
    ensures
        r@ == token_hash(token@),
        r@.len() == 64,
{
    let digest: Vec<u8> = sha256(token.as_bytes());
    proof {
        lemma_hex_length(digest@);
    }
    hex_encode(&digest)
}

/// How looking up a token ended.
#[derive(Debug)]
pub enum TokenLookup {
    /// There was no connection.
    NoConnection { error: String },
    /// The query failed.
    QueryFailed { error: String },
    /// The query succeeded, and found an account or none.
    Answered(Option<AuthContext>),
}

/// Resolve a bearer token to an [`AuthContext`], from what the lookup gave.
pub fn resolve_token(lookup: TokenLookup) -> (r: Result<AuthContext, AuthError>)
    ensures
        match lookup {
            TokenLookup::NoConnection { error } => match r {
                Err(AuthError::Internal(m)) => m@ == "failed to get db connection: "@ + error@,
                _ => false,
            },
            TokenLookup::QueryFailed { error } => match r {
                Err(AuthError::Internal(m)) => m@ == "db query failed: "@ + error@,
                _ => false,
            },
            TokenLookup::Answered(None) => r == Err::<AuthContext, _>(AuthError::InvalidToken),
            TokenLookup::Answered(Some(ctx)) => r == Ok::<_, AuthError>(ctx),
        },
{
    match lookup {
        TokenLookup::NoConnection { error } => Err(
            AuthError::Internal(concat2("failed to get db connection: ", error.as_str())),
        ),
        TokenLookup::QueryFailed { error } => Err(
            AuthError::Internal(concat2("db query failed: ", error.as_str())),
        ),
        TokenLookup::Answered(found) => match found {
            Some(ctx) => Ok(ctx),
            None => Err(AuthError::InvalidToken),
        },
    }
}

proof fn lemma_hex_length(bytes: Seq<u8>)
    ensures
        hex_text(bytes).len() == 2 * bytes.len(),
    decreases bytes.len(),
{
    if bytes.len() > 0 {
        lemma_hex_length(bytes.drop_last());
    }
}

} // verus!
