//! The outside services: what is asked of them, and what their answers mean.
//!
//! The functions here make requests and read replies; sending is up to the caller.


pub mod apple_music;
pub mod apple_token;
pub mod mopidy;
pub mod oauth;
pub mod spotify;
pub mod spotify_playback;
pub mod tidal;
pub mod youtube;

use vstd::prelude::*;
use vstd::string::*;

verus! {

/// The texts `a` and `b`, one after the other.
pub fn text2(a: &str, b: &str) -> (r: String)
    ensures
        r@ == a@ + b@,
{
    let mut s = String::from_str(a);
    s.append(b);
    s
}

pub fn text3(a: &str, b: &str, c: &str) -> (r: String)
    ensures
        r@ == a@ + b@ + c@,
{
    let mut s = String::from_str(a);
    s.append(b);
    s.append(c);
    s
}

pub fn text4(a: &str, b: &str, c: &str, d: &str) -> (r: String)
    ensures
        r@ == a@ + b@ + c@ + d@,
{
    let mut s = String::from_str(a);
    s.append(b);
    s.append(c);
    s.append(d);
    s
}

pub fn text5(a: &str, b: &str, c: &str, d: &str, e: &str) -> (r: String)
    ensures
        r@ == a@ + b@ + c@ + d@ + e@,
{
    let mut s = String::from_str(a);
    s.append(b);
    s.append(c);
    s.append(d);
    s.append(e);
    s
}

/// What is said of a request that could not be sent.
pub fn request_failed(service: &str, error: &str) -> (r: String)
    ensures
        r@ == service@ + " request failed: "@ + error@,
{
    text3(service, " request failed: ", error)
}

/// What is said of a reply that is no success.
pub fn status_error(service: &str, status: &str, text: &str) -> (r: String)
    ensures
        r@ == service@ + " "@ + status@ + ": "@ + text@,
{
    text5(service, " ", status, ": ", text)
}

/// What is said of a reply that cannot be read.
pub fn decode_failed(service: &str, error: &str) -> (r: String)
    ensures
        r@ == service@ + " decode failed: "@ + error@,
{
    text3(service, " decode failed: ", error)
}

} // verus!
