//! Access tokens that are kept until they expire.

use crate::chars;
use vstd::prelude::*;
use vstd::string::*;

verus! {

/// A token endpoint's answer.
#[derive(Debug, PartialEq, Eq)]
pub struct TokenResponse {
    pub access_token: String,
    /// How long the token is valid, in seconds.
    pub expires_in: u64,
    pub refresh_token: Option<String>,
}

/// A POST to a token endpoint.
#[derive(Debug, PartialEq, Eq)]
pub struct TokenRequest {
    pub url: String,
    pub authorization: Option<String>,
    pub form: Vec<(String, String)>,
}

/// A token, and the time at which it is given up, in nanoseconds on a clock that never goes
/// back.
#[derive(Debug, Clone, PartialEq, Eq)]
pub struct CachedToken {
    pub value: String,
    pub expires_at: u128,
}

/// A token that may be kept.
#[derive(Debug, Clone, PartialEq, Eq)]
pub struct TokenCache {
    pub token: Option<CachedToken>,
}

/// The token that is kept, if it is still good.
pub open spec fn good_token(c: TokenCache, now: u64) -> Option<Seq<char>> {
    match c.token {
        Some(t) => if t.expires_at > now {
            Some(t.value@)
        } else {
            None
        },
        None => None,
    }
}

/// How long a token is kept, in seconds: it is given up `early` before it expires, but is
/// kept for a minute at least.
pub open spec fn kept_for(expires_in: u64, early: u64) -> int {
    if expires_in - early > 60 {
        expires_in - early
    } else {
        60
    }
}

/// Whether the cache keeps the token of a reply that came at `now`.
pub open spec fn is_kept(c: TokenCache, reply: TokenResponse, early: u64, now: u64) -> bool {
    &&& c.token is Some
    &&& c.token->0.value == reply.access_token
    &&& c.token->0.expires_at == now + kept_for(reply.expires_in, early) * 1_000_000_000
}

impl TokenCache {
    pub fn new() -> (r: Self)
        ensures
            r.token is None,
    {
        TokenCache { token: None }
    }

    /// The token that is kept, if it is still good.
    pub fn get(&self, now: u64) -> (r: Option<String>)
        ensures
            chars::opt_text(r) == good_token(*self, now),
    {
        match &self.token {
            Some(t) => if t.expires_at > now as u128 {
                Some(t.value.clone())
            } else {
                None
            },
            None => None,
        }
    }

    /// Keeps the token of an answer, and hands it out.
    pub fn put(&mut self, reply: TokenResponse, early: u64, now: u64) -> (r: String)
        ensures
            r == reply.access_token,
            is_kept(*final(self), reply, early, now),
    {
        let left: u64 = if reply.expires_in > early {
            reply.expires_in - early
        } else {
            0
        };
        let seconds: u64 = if left > 60 {
            left
        } else {
            60
        };
        let expires_at: u128 = now as u128 + seconds as u128 * 1_000_000_000;
        self.token = Some(CachedToken { value: reply.access_token.clone(), expires_at });
        reply.access_token
    }
}

/// A token that was kept is handed out again for a minute at least, and never after it has
/// expired, if it was valid for longer than that.
pub proof fn law_kept_token(reply: TokenResponse, early: u64, now: u64, c: TokenCache, later: u64)
    requires
        is_kept(c, reply, early, now),
    ensures
        later < now + 60 * 1_000_000_000 ==> good_token(c, later) == Some(reply.access_token@),
        reply.expires_in >= 60 && later >= now + reply.expires_in * 1_000_000_000 ==> good_token(
            c,
            later,
        ) is None,
{
}

/// A token is good until it expires, and no longer; without one there is none.
pub proof fn law_token_is_good_until_it_expires(c: TokenCache, now: u64)
    ensures
        c.token is None ==> good_token(c, now) is None,
        c.token matches Some(t) ==> (now < t.expires_at ==> good_token(c, now) == Some(t.value@)) && (now
            >= t.expires_at ==> good_token(c, now) is None),
{
}

/// A token is given up some time before it expires, but kept for a minute at least.
pub proof fn law_token_is_given_up_early(expires_in: u64, early: u64)
    ensures
        kept_for(expires_in, early) >= 60,
        expires_in >= early + 60 ==> kept_for(expires_in, early) == expires_in - early,
        expires_in < early + 60 ==> kept_for(expires_in, early) == 60,
{
}

/// A cache that is new has no token.
pub proof fn law_new_cache_is_empty(c: TokenCache, now: u64, r: Option<String>)
    requires
        call_ensures(TokenCache::new, (), c),
        call_ensures(TokenCache::get, (&c, now), r),
    ensures
        r is None,
{
}

} // verus!
