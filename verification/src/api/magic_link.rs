//! The answer to a request for a magic link: the purpose the token is issued
//! for, and what the client is told about the token.
use vstd::prelude::*;
use crate::text::{concat2, owned};

verus! {

/// How long a magic link lives, in seconds.
pub const MAGIC_LINK_TTL_SECS: u64 = 300;

/// The purpose a token is issued for: the one asked for, or `general`.
pub fn magic_link_purpose(asked: Option<&str>) -> (p: String)
    ensures
        p@ == match asked {
            Some(a) => a@,
            None => "general"@,
        },
{
    match asked {
        Some(a) => owned(a),
        None => owned("general"),
    }
}

/// What the client is told about an issued token.
#[derive(Debug, Clone)]
pub struct MagicLinkAnswer {
    /// The token.
    pub token: String,
    /// Seconds the token lives.
    pub expires_in: u64,
    /// The search address that carries the token.
    pub url: String,
}

/// The answer for `token`: it lives five minutes and is carried by the search
/// address as `magic_token`.
pub fn magic_link_answer(token: String) -> (a: MagicLinkAnswer)
    ensures
        a.token == token,
        a.expires_in == 300,
        a.url@ == "/api/search?magic_token="@ + token@,
{
    let url = concat2("/api/search?magic_token=", token.as_str());
    MagicLinkAnswer { token, expires_in: MAGIC_LINK_TTL_SECS, url }
}

} // verus!
