//! URLs.

use vstd::prelude::*;
use vstd::string::*;

verus! {

/// Whether a text is an absolute URL that has a host.
pub uninterp spec fn url_has_host(t: Seq<char>) -> bool;

/// `Url::parse` and `Url::host_str`, as `reqwest` gives them: whether the text parses as an
/// absolute URL and has a host is named [`url_has_host`].
#[verifier::external_body]
pub(crate) fn has_host(t: &str) -> (r: bool)
    ensures
        r == url_has_host(t@),
{
    match reqwest::Url::parse(t) {
        Ok(url) => url.host_str().is_some(),
        Err(_) => false,
    }
}

/// The views of some pairs of texts.
pub open spec fn pair_views(v: Seq<(String, String)>) -> Seq<(Seq<char>, Seq<char>)> {
    v.map_values(|p: (String, String)| (p.0@, p.1@))
}

/// A URL with parameters added to its query, or what is wrong with it.
pub uninterp spec fn query_url(url: Seq<char>, query: Seq<(Seq<char>, Seq<char>)>) -> Result<
    Seq<char>,
    Seq<char>,
>;

/// `Url::parse_with_params`, as `reqwest` gives it: the URL as text, or the text of the error,
/// is named [`query_url`].
#[verifier::external_body]
fn parse_with_params(url: &str, query: &Vec<(String, String)>) -> (r: Result<String, String>)
    ensures
        text_result(r) == query_url(url@, pair_views(query@)),
{
    match reqwest::Url::parse_with_params(url, query) {
        Ok(full) => Ok(full.to_string()),
        Err(error) => Err(error.to_string()),
    }
}

/// The views of a text or an error text.
pub open spec fn text_result(r: Result<String, String>) -> Result<Seq<char>, Seq<char>> {
    match r {
        Ok(t) => Ok(t@),
        Err(e) => Err(e@),
    }
}

/// A URL with parameters added to its query, or what is wrong with it.
pub fn with_query(url: &str, query: &Vec<(String, String)>) -> (r: Result<String, String>)
    ensures
        text_result(r) == query_url(url@, pair_views(query@)),
{
    parse_with_params(url, query)
}

/// A parameter.
pub fn param(name: &str, value: &str) -> (r: (String, String))
    ensures
        r.0@ == name@,
        r.1@ == value@,
{
    (String::from_str(name), String::from_str(value))
}

/// One parameter.
pub fn one_param(name: &str, value: &str) -> (r: Vec<(String, String)>)
    ensures
        pair_views(r@) == seq![(name@, value@)],
{
    let mut v: Vec<(String, String)> = Vec::new();
    v.push(param(name, value));
    assert(pair_views(v@) =~= seq![(name@, value@)]);
    v
}

/// Two parameters.
pub fn two_params(a: &str, x: &str, b: &str, y: &str) -> (r: Vec<(String, String)>)
    ensures
        pair_views(r@) == seq![(a@, x@), (b@, y@)],
{
    let mut v: Vec<(String, String)> = Vec::new();
    v.push(param(a, x));
    v.push(param(b, y));
    assert(pair_views(v@) =~= seq![(a@, x@), (b@, y@)]);
    v
}

/// Three parameters.
pub fn three_params(a: &str, x: &str, b: &str, y: &str, c: &str, z: &str) -> (r: Vec<
    (String, String),
>)
    ensures
        pair_views(r@) == seq![(a@, x@), (b@, y@), (c@, z@)],
{
    let mut v: Vec<(String, String)> = Vec::new();
    v.push(param(a, x));
    v.push(param(b, y));
    v.push(param(c, z));
    assert(pair_views(v@) =~= seq![(a@, x@), (b@, y@), (c@, z@)]);
    v
}

} // verus!
