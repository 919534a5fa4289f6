use base64::Engine;
use p256::ecdsa::signature::Verifier;
use p256::ecdsa::{Signature, SigningKey, VerifyingKey};
use p256::pkcs8::EncodePrivateKey;
use penumbra::external::apple_token::{
    mint_developer_token, now_unix, signed_token, DEFAULT_TTL_SECS, INPUTS_REQUIRED,
    P8_PARSE_FAILED,
};

/// A throwaway P-256 key in PKCS#8 PEM — structurally valid, not an Apple key.
fn test_p8() -> (SigningKey, String) {
    let key = SigningKey::random(&mut rand_core::OsRng);
    let pem = key.to_pkcs8_pem(p256::pkcs8::LineEnding::LF).unwrap().to_string();
    (key, pem)
}

#[test]
fn mint_produces_three_part_jwt_with_expected_claims() {
    let jwt =
        mint_developer_token(&test_p8().1, "ABC123DEFG", "TEAM123456", 3600, 1_000_000).unwrap();
    let parts: Vec<&str> = jwt.split('.').collect();
    assert_eq!(parts.len(), 3);

    let header: serde_json::Value = serde_json::from_slice(
        &base64::engine::general_purpose::URL_SAFE_NO_PAD.decode(parts[0]).unwrap(),
    )
    .unwrap();
    assert_eq!(header["alg"], "ES256");
    assert_eq!(header["kid"], "ABC123DEFG");

    let claims: serde_json::Value = serde_json::from_slice(
        &base64::engine::general_purpose::URL_SAFE_NO_PAD.decode(parts[1]).unwrap(),
    )
    .unwrap();
    assert_eq!(claims["iss"], "TEAM123456");
    assert_eq!(claims["iat"], 1_000_000);
    assert_eq!(claims["exp"], 1_003_600);
    // Raw ES256 signature is exactly 64 bytes.
    assert_eq!(
        base64::engine::general_purpose::URL_SAFE_NO_PAD.decode(parts[2]).unwrap().len(),
        64
    );
}

#[test]
fn missing_inputs_error() {
    assert!(mint_developer_token("", "k", "t", 3600, 0).is_err());
    assert!(mint_developer_token("pem", "", "t", 3600, 0).is_err());
}

#[test]
fn blank_inputs_and_bad_keys_have_their_own_errors() {
    assert_eq!(mint_developer_token("pem", "k", " \n", 1, 0), Err(INPUTS_REQUIRED.to_string()));
    let error = mint_developer_token("pem", "k", "t", 1, 0).unwrap_err();
    assert!(error.starts_with(P8_PARSE_FAILED));
}

#[test]
fn the_signature_is_the_keys_own() {
    let (key, pem) = test_p8();
    let jwt = mint_developer_token(&pem, "k", "t", DEFAULT_TTL_SECS, -5).unwrap();
    let (input, signature) = jwt.rsplit_once('.').unwrap();
    let bytes = base64::engine::general_purpose::URL_SAFE_NO_PAD.decode(signature).unwrap();
    let signature = Signature::from_slice(&bytes).unwrap();
    assert!(VerifyingKey::from(&key).verify(input.as_bytes(), &signature).is_ok());
    // Signing is deterministic.
    assert_eq!(mint_developer_token(&pem, "k", "t", DEFAULT_TTL_SECS, -5).unwrap(), jwt);
}

#[test]
fn the_token_ends_in_the_signature() {
    assert_eq!(signed_token("a.b", Ok(vec![255, 255])), Ok("a.b.__8".to_string()));
    assert_eq!(signed_token("a.b", Err("no".to_string())), Err(format!("{P8_PARSE_FAILED}no")));
}

#[test]
fn the_clock_counts_seconds() {
    assert!(now_unix() > 1_600_000_000);
    assert!(now_unix() < 100_000_000_000);
}
