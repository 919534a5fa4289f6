//! Apple Music developer tokens.
//!
//! A developer token is a JSON Web Token that is signed with the user's own MusicKit key.

use crate::chars;
use crate::chars::is_blank;
use crate::clock;
use crate::codec;
use crate::external::{text2, text3};
use crate::json;
use crate::json::{field, integer, object, text};
use vstd::prelude::*;
use vstd::string::*;

verus! {

/// How long a token may live at most, in seconds: 180 days.
pub const DEFAULT_TTL_SECS: i64 = 15_552_000;

pub const INPUTS_REQUIRED: &'static str =
    "apple token: p8 key, key_id, and team_id are all required";

pub const P8_PARSE_FAILED: &'static str = "apple token: .p8 parse failed: ";

/// The ES256 signature of some bytes under a private key in PKCS#8 PEM, or what is wrong
/// with the key.
pub uninterp spec fn es256_signature(pem: Seq<char>, message: Seq<u8>) -> Result<
    Seq<u8>,
    Seq<char>,
>;

/// Whether a result of signing is the one that is named, and a signature has its 64 bytes.
pub open spec fn is_signing_result(
    r: Result<Vec<u8>, String>,
    named: Result<Seq<u8>, Seq<char>>,
) -> bool {
    match r {
        Ok(sig) => named == Ok::<Seq<u8>, Seq<char>>(sig@) && sig@.len() == 64,
        Err(e) => named == Err::<Seq<u8>, Seq<char>>(e@),
    }
}

/// `p256::ecdsa::SigningKey::from_pkcs8_pem`, and `sign` with that key: the signature, or the
/// text of the error, is named [`es256_signature`]. The nonce is derived from the key and
/// the message, so signing is deterministic. A signature has 64 bytes.
#[verifier::external_body]
fn sign(pem: &str, message: &[u8]) -> (r: Result<Vec<u8>, String>)
    ensures
        is_signing_result(r, es256_signature(pem@, message@)),
{
    match <p256::ecdsa::SigningKey as p256::pkcs8::DecodePrivateKey>::from_pkcs8_pem(pem) {
        Ok(key) => {
            let sig: p256::ecdsa::Signature = p256::ecdsa::signature::Signer::sign(&key, message);
            Ok(sig.to_bytes().to_vec())
        },
        Err(error) => Err(error.to_string()),
    }
}

/// The header of a token.
pub open spec fn header_view(key_id: Seq<char>) -> json::JsonView {
    json::JsonView::Object(
        seq![
            ("alg"@, json::JsonView::Str("ES256"@)),
            ("kid"@, json::JsonView::Str(key_id)),
        ],
    )
}

/// The claims of a token.
pub open spec fn claims_view(team_id: Seq<char>, issued: i64, expires: i64) -> json::JsonView {
    json::JsonView::Object(
        seq![
            ("exp"@, json::integer_view(expires)),
            ("iat"@, json::integer_view(issued)),
            ("iss"@, json::JsonView::Str(team_id)),
        ],
    )
}

/// A text in URL-safe Base64.
pub open spec fn encoded(t: Seq<char>) -> Seq<char> {
    codec::url_base64(vstd::utf8::encode_utf8(t))
}

/// What is signed: the header and the claims, with a dot between.
pub open spec fn signing_input(key_id: Seq<char>, team_id: Seq<char>, issued: i64, expires: i64) -> Seq<
    char,
> {
    encoded(json::json_text(header_view(key_id))) + "."@ + encoded(
        json::json_text(claims_view(team_id, issued, expires)),
    )
}

/// Whether `t` is a token with these claims: three parts with dots between them, the
/// first two the header and the claims as JSON, and the third a signature of 64 bytes.
pub open spec fn is_token(
    t: Seq<char>,
    key_id: Seq<char>,
    team_id: Seq<char>,
    issued: i64,
    expires: i64,
) -> bool {
    let parts = chars::split_at_char(t, '.');
    &&& parts.len() == 3
    &&& is_encoded_json(parts[0], header_view(key_id))
    &&& is_encoded_json(parts[1], claims_view(team_id, issued, expires))
    &&& codec::url_base64_bytes(parts[2]) is Some
    &&& codec::url_base64_bytes(parts[2])->0.len() == 64
}

/// Whether `t` is, in URL-safe Base64, a JSON text that reads as `v`.
pub open spec fn is_encoded_json(t: Seq<char>, v: json::JsonView) -> bool {
    &&& codec::url_base64_bytes(t) == Some(vstd::utf8::encode_utf8(json::json_text(v)))
    &&& json::parsed_json(json::json_text(v)) == Some(v)
}

/// The JSON text of an object in URL-safe Base64.
fn encoded_json(v: &json::Json) -> (r: String)
    requires
        json::writable(v@),
        json::is_read_back(v@),
    ensures
        r@ == encoded(json::json_text(v@)),
        is_encoded_json(r@, v@),
        forall|i: int| 0 <= i < r@.len() ==> r@[i] != '.',
{
    let t = v.to_text();
    let r = codec::encode_url(t.as_str().as_bytes());
    assert forall|i: int| 0 <= i < r@.len() implies r@[i] != '.' by {
        assert(codec::is_url_safe(r@[i]));
    }
    r
}

/// A token, given the signature of its first two parts, or what is wrong with the key.
pub fn signed_token(input: &str, signature: Result<Vec<u8>, String>) -> (r: Result<String, String>)
    ensures
        match signature {
            Ok(sig) => {
                &&& r is Ok
                &&& r->Ok_0@ == input@ + "."@ + codec::url_base64(sig@)
                &&& codec::is_url_text(codec::url_base64(sig@), sig@)
            },
            Err(e) => r is Err && r->Err_0@ == P8_PARSE_FAILED@ + e@,
        },
{
    match signature {
        Ok(sig) => Ok(text3(input, ".", &codec::encode_url(sig.as_slice()))),
        Err(e) => Err(text2(P8_PARSE_FAILED, &e)),
    }
}

/// Mints a MusicKit developer token that is valid for `ttl_secs` from `now`, in seconds
/// since the Unix epoch. `p8_pem` is the private key in PKCS#8 PEM.
pub fn mint_developer_token(
    p8_pem: &str,
    key_id: &str,
    team_id: &str,
    ttl_secs: i64,
    now: i64,
) -> (r: Result<String, String>)
    requires
        i64::MIN <= now + ttl_secs <= i64::MAX,
    ensures
        ({
            let expires = (now + ttl_secs) as i64;
            let input = signing_input(key_id@, team_id@, now, expires);
            if chars::trimmed(p8_pem@).len() == 0 || chars::trimmed(key_id@).len() == 0
                || chars::trimmed(team_id@).len() == 0 {
                r is Err && r->Err_0@ == INPUTS_REQUIRED@
            } else {
                match es256_signature(p8_pem@, vstd::utf8::encode_utf8(input)) {
                    Ok(sig) => {
                        &&& r is Ok
                        &&& r->Ok_0@ == input + "."@ + codec::url_base64(sig)
                        &&& is_token(r->Ok_0@, key_id@, team_id@, now, expires)
                    },
                    Err(e) => r is Err && r->Err_0@ == P8_PARSE_FAILED@ + e,
                }
            }
        }),
{
    if is_blank(p8_pem) || is_blank(key_id) || is_blank(team_id) {
        return Err(String::from_str(INPUTS_REQUIRED));
    }
    let expires: i64 = now + ttl_secs;
    let header = header_json(key_id);
    let claims = claims_json(team_id, now, expires);
    let first = encoded_json(&header);
    let second = encoded_json(&claims);
    let input = text3(&first, ".", &second);
    let signature = sign(p8_pem, input.as_str().as_bytes());
    proof {
        if signature is Ok {
            let sig = signature->Ok_0@;
            let third = codec::url_base64(sig);
            let token = input@ + "."@ + third;
            reveal_strlit(".");
            assert("."@ =~= seq!['.']);
            assert(token =~= first@.push('.') + (second@.push('.') + third));
            chars::lemma_split_first(first@, '.', second@.push('.') + third);
            chars::lemma_split_first(second@, '.', third);
            if codec::is_url_text(third, sig) {
                assert forall|i: int| 0 <= i < third.len() implies third[i] != '.' by {
                    assert(codec::is_url_safe(third[i]));
                }
                chars::lemma_split_none(third, '.');
                assert(chars::split_at_char(token, '.') =~= seq![first@, second@, third]);
            }
        }
    }
    signed_token(&input, signature)
}

fn header_json(key_id: &str) -> (r: json::Json)
    ensures
        r@ == header_view(key_id@),
        json::writable(r@),
        json::is_read_back(r@),
{
    let mut members: Vec<(String, json::Json)> = Vec::new();
    members.push(field("alg", text("ES256")));
    members.push(field("kid", text(key_id)));
    let r = object(members);
    assert(r@->Object_0 =~= header_view(key_id@)->Object_0);
    proof {
        reveal_strlit("alg");
        reveal_strlit("kid");
        chars::lemma_text_less_at("alg"@, "kid"@, 0);
        json::lemma_name_is_free("alg"@);
        json::lemma_flat_is_writable(r@);
    }
    r
}

fn claims_json(team_id: &str, issued: i64, expires: i64) -> (r: json::Json)
    ensures
        r@ == claims_view(team_id@, issued, expires),
        json::writable(r@),
        json::is_read_back(r@),
{
    let mut members: Vec<(String, json::Json)> = Vec::new();
    members.push(field("exp", integer(expires)));
    members.push(field("iat", integer(issued)));
    members.push(field("iss", text(team_id)));
    let r = object(members);
    assert(r@->Object_0 =~= claims_view(team_id@, issued, expires)->Object_0);
    proof {
        reveal_strlit("exp");
        reveal_strlit("iat");
        reveal_strlit("iss");
        chars::lemma_text_less_at("exp"@, "iat"@, 0);
        chars::lemma_text_less_at("iat"@, "iss"@, 1);
        json::lemma_name_is_free("exp"@);
        json::lemma_flat_is_writable(r@);
    }
    r
}

/// The time in seconds since the Unix epoch; 0 if the clock stands before it.
pub fn now_unix() -> (r: i64)
    ensures
        exists|moment: std::time::SystemTime| #[trigger] clock::is_moment_seconds(moment, r),
{
    clock::stamp_in_seconds()
}

// ---- Laws ----

/// The header of a token names the algorithm and the key, and its claims name the team and when it
/// was issued and expires, each under its own name.
pub proof fn law_token_tells_its_claims(
    key_id: Seq<char>,
    team_id: Seq<char>,
    issued: i64,
    expires: i64,
)
    ensures
        json::holds(header_view(key_id), "alg"@, json::JsonView::Str("ES256"@)),
        json::holds(header_view(key_id), "kid"@, json::JsonView::Str(key_id)),
        json::holds(claims_view(team_id, issued, expires), "iss"@, json::JsonView::Str(team_id)),
        issued >= 0 ==> json::holds(
            claims_view(team_id, issued, expires),
            "iat"@,
            json::JsonView::Number(json::NumberView::Unsigned(issued as u64)),
        ),
        expires >= 0 ==> json::holds(
            claims_view(team_id, issued, expires),
            "exp"@,
            json::JsonView::Number(json::NumberView::Unsigned(expires as u64)),
        ),
{
    let h = header_view(key_id)->Object_0;
    assert(h[0] == ("alg"@, json::JsonView::Str("ES256"@)));
    assert(h[1] == ("kid"@, json::JsonView::Str(key_id)));
    let c = claims_view(team_id, issued, expires)->Object_0;
    assert(c[0].0 == "exp"@);
    assert(c[1].0 == "iat"@);
    assert(c[2] == ("iss"@, json::JsonView::Str(team_id)));
}

/// What is signed is the header, a dot and the claims, each encoded.
pub proof fn law_header_and_claims_are_signed(
    key_id: Seq<char>,
    team_id: Seq<char>,
    issued: i64,
    expires: i64,
)
    ensures
        ({
            let head = codec::url_base64(
                vstd::utf8::encode_utf8(json::json_text(header_view(key_id))),
            );
            let body = codec::url_base64(
                vstd::utf8::encode_utf8(json::json_text(claims_view(team_id, issued, expires))),
            );
            signing_input(key_id, team_id, issued, expires) == head + "."@ + body
        }),
{
}

/// A signed token is what was signed, a dot and the signature; without a signature there is none.
pub proof fn law_signature_ends_the_token(
    input: &str,
    signature: Result<Vec<u8>, String>,
    r: Result<String, String>,
)
    requires
        call_ensures(signed_token, (input, signature), r),
    ensures
        r is Ok <==> signature is Ok,
        signature matches Ok(s) ==> r->Ok_0@ == input@ + "."@ + codec::url_base64(s@),
{
}

/// A token is minted only with a key, its id and the team, none of them blank; it is for the team,
/// names the key, and expires after the time that is asked for.
pub proof fn law_token_is_minted_for_the_team(
    pem: &str,
    key_id: &str,
    team_id: &str,
    ttl: i64,
    now: i64,
    r: Result<String, String>,
)
    requires
        i64::MIN <= now + ttl <= i64::MAX,
        call_ensures(mint_developer_token, (pem, key_id, team_id, ttl, now), r),
    ensures
        chars::trimmed(pem@).len() == 0 ==> r is Err,
        chars::trimmed(key_id@).len() == 0 ==> r is Err,
        chars::trimmed(team_id@).len() == 0 ==> r is Err,
        r matches Ok(t) ==> {
            let input = signing_input(key_id@, team_id@, now, (now + ttl) as i64);
            &&& t@.len() > input.len()
            &&& t@.take(input.len() as int) == input
            &&& es256_signature(pem@, vstd::utf8::encode_utf8(input)) is Ok
        },
{
    reveal_strlit(".");
    if let Ok(t) = r {
        let input = signing_input(key_id@, team_id@, now, (now + ttl) as i64);
        assert(t@.take(input.len() as int) =~= input);
    }
}

/// A minted token has three parts between dots. The first is the header and the second the claims,
/// which can be read again, and the third is a signature of 64 bytes.
pub proof fn law_token_has_three_parts(
    pem: &str,
    key_id: &str,
    team_id: &str,
    ttl: i64,
    now: i64,
    r: Result<String, String>,
)
    requires
        i64::MIN <= now + ttl <= i64::MAX,
        call_ensures(mint_developer_token, (pem, key_id, team_id, ttl, now), r),
        r is Ok,
    ensures
        ({
            let parts = chars::split_at_char(r->Ok_0@, '.');
            let header = json::json_text(header_view(key_id@));
            let claims = json::json_text(claims_view(team_id@, now, (now + ttl) as i64));
            &&& parts.len() == 3
            &&& codec::url_base64_bytes(parts[0]) == Some(vstd::utf8::encode_utf8(header))
            &&& codec::url_base64_bytes(parts[1]) == Some(vstd::utf8::encode_utf8(claims))
            &&& json::parsed_json(header) == Some(header_view(key_id@))
            &&& json::parsed_json(claims) == Some(claims_view(team_id@, now, (now + ttl) as i64))
            &&& codec::url_base64_bytes(parts[2]) matches Some(s) && s.len() == 64
        }),
{
}

} // verus!
