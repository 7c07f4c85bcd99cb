//! The token lifecycle end to end: extraction, derivation, verification and
//! response emission, in plaintext and in private (encrypted) mode.

use axum_csrf::{CsrfConfig, CsrfError, CsrfToken, SameSite};

fn plain_config() -> CsrfConfig {
    CsrfConfig::new()
        .with_key(None)
        .with_salt(b"abc".to_vec())
        .with_lifetime(0)
        .with_cookie_len(16)
}

fn private_config(key_byte: u8) -> CsrfConfig {
    CsrfConfig::new()
        .with_key(Some(vec![key_byte; 64]))
        .with_salt(b"abc".to_vec())
        .with_lifetime(0)
        .with_cookie_len(16)
}

/// The `name=value` first segment of a `Set-Cookie` header value.
fn cookie_pair_of(set_cookie: &str) -> String {
    set_cookie.split(';').next().unwrap().to_string()
}

#[test]
fn derive_then_verify_succeeds() {
    let token = CsrfToken::extract(plain_config(), &Vec::new());
    let authenticity = token.authenticity_token().unwrap();
    assert!(token.verify(&authenticity).is_ok());
}

#[test]
fn altered_token_is_rejected_with_verify() {
    let token = CsrfToken::extract(plain_config(), &Vec::new());
    let authenticity = token.authenticity_token().unwrap();
    // Replace the first character by another Base64 character: still
    // well-formed, no longer matching.
    let mut altered: Vec<char> = authenticity.chars().collect();
    altered[0] = if altered[0] == 'B' { 'C' } else { 'B' };
    let altered: String = altered.into_iter().collect();
    assert_eq!(token.verify(&altered), Err(CsrfError::Verify));
}

#[test]
fn malformed_submission_is_rejected_with_password_hash() {
    let token = CsrfToken::extract(plain_config(), &Vec::new());
    assert_eq!(token.verify("not base64 at all!"), Err(CsrfError::PasswordHash));
    // An empty string is canonical Base64 of no bytes: well-formed, so it
    // fails the comparison, not the decoding.
    assert_eq!(token.verify(""), Err(CsrfError::Verify));
}

#[test]
fn well_formed_but_wrong_submission_is_rejected_with_verify() {
    let token = CsrfToken::extract(plain_config(), &Vec::new());
    // Canonical Base64 of three zero bytes: well-formed, wrong value.
    assert_eq!(token.verify("AAAA"), Err(CsrfError::Verify));
}

#[test]
fn round_trip_plain_mode_keeps_the_secret() {
    let token = CsrfToken::extract(plain_config(), &Vec::new());
    let headers = token.inject();
    assert_eq!(headers.len(), 1);
    let cookie_header = cookie_pair_of(&headers[0]);
    let again = CsrfToken::extract(plain_config(), &vec![cookie_header]);
    assert_eq!(again.token, token.token);
}

#[test]
fn round_trip_private_mode_keeps_the_secret() {
    let token = CsrfToken::extract(private_config(7), &Vec::new());
    let headers = token.inject();
    assert_eq!(headers.len(), 1);
    let pair = cookie_pair_of(&headers[0]);
    // The wire value is sealed: it is not the plaintext secret.
    let wire_value = pair.split('=').skip(1).collect::<Vec<_>>().join("=");
    assert_ne!(wire_value, token.token);
    let again = CsrfToken::extract(private_config(7), &vec![pair]);
    assert_eq!(again.token, token.token);
}

#[test]
fn injection_twice_is_identical_in_plain_mode() {
    let token = CsrfToken::extract(plain_config(), &Vec::new());
    let first = token.inject();
    let second = token.inject();
    assert_eq!(first, second);
}

#[test]
fn injection_twice_in_private_mode_carries_the_same_secret() {
    let token = CsrfToken::extract(private_config(9), &Vec::new());
    let first = CsrfToken::extract(private_config(9), &vec![cookie_pair_of(&token.inject()[0])]);
    let second = CsrfToken::extract(private_config(9), &vec![cookie_pair_of(&token.inject()[0])]);
    assert_eq!(first.token, second.token);
    assert_eq!(first.token, token.token);
}

#[test]
fn default_config_round_trips_with_its_generated_key() {
    let config = CsrfConfig::default();
    let token = CsrfToken::extract(config.clone(), &Vec::new());
    assert_eq!(token.token.len(), 16);
    let pair = cookie_pair_of(&token.inject()[0]);
    let again = CsrfToken::extract(config, &vec![pair]);
    assert_eq!(again.token, token.token);
}

#[test]
fn bit_flipped_token_is_rejected() {
    let token = CsrfToken::extract(plain_config(), &Vec::new());
    let authenticity = token.authenticity_token().unwrap();
    let mut bytes = authenticity.into_bytes();
    for bit in 0..8 {
        let mut altered = bytes.clone();
        altered[0] ^= 1 << bit;
        if let Ok(altered) = String::from_utf8(altered) {
            assert!(token.verify(&altered).is_err());
        }
    }
    bytes[0] ^= 1;
    let altered = String::from_utf8(bytes).unwrap();
    assert!(token.verify(&altered).is_err());
}

#[test]
fn session_cookie_has_no_expiry_attribute() {
    let token = CsrfToken::extract(plain_config(), &Vec::new());
    let headers = token.inject();
    assert!(!headers[0].contains("Max-Age"));
    assert!(!headers[0].contains("Expires"));
}

#[test]
fn nonzero_lifespan_emits_max_age() {
    let config = plain_config().with_lifetime(3600);
    let token = CsrfToken::extract(config, &Vec::new());
    let headers = token.inject();
    assert!(headers[0].contains("; Max-Age=3600"));
}

#[test]
fn missing_cookie_header_generates_secret_of_configured_length() {
    let token = CsrfToken::extract(plain_config(), &Vec::new());
    assert_eq!(token.token.len(), 16);
    assert!(token.token.chars().all(|c| c.is_ascii_alphanumeric()));
    assert_eq!(token.inject().len(), 1);
}

#[test]
fn garbled_cookie_header_generates_secret_of_configured_length() {
    let garbled = vec!["%%%;;==;".to_string(), "no equals here".to_string()];
    let token = CsrfToken::extract(plain_config(), &garbled);
    assert_eq!(token.token.len(), 16);
    assert!(token.token.chars().all(|c| c.is_ascii_alphanumeric()));
    assert_eq!(token.inject().len(), 1);
}

#[test]
fn wrong_length_cookie_value_forces_regeneration() {
    let header = "Csrf_Token=tooshort".to_string();
    let token = CsrfToken::extract(plain_config(), &vec![header]);
    assert_ne!(token.token, "tooshort");
    assert_eq!(token.token.len(), 16);
}

#[test]
fn scenario_session_cookie_and_self_verifying_token() {
    // Config {secret_length: 16, salt: "abc", lifespan: 0}; request with no
    // cookies.
    let config = plain_config();
    let token = CsrfToken::extract(config, &Vec::new());
    let headers = token.inject();
    assert_eq!(headers.len(), 1);
    // A session cookie: no expiry attribute.
    assert!(!headers[0].contains("Max-Age"));
    assert!(!headers[0].contains("Expires"));
    // Its value is the 16-character secret.
    let pair = cookie_pair_of(&headers[0]);
    let value = pair.split('=').nth(1).unwrap();
    assert_eq!(value.len(), 16);
    // The derived authenticity token verifies against itself and fails
    // against one derived from another freshly generated token.
    let authenticity = token.authenticity_token().unwrap();
    assert!(token.verify(&authenticity).is_ok());
    let other = CsrfToken::extract(plain_config(), &Vec::new());
    let other_authenticity = other.authenticity_token().unwrap();
    assert_ne!(token.token, other.token);
    assert!(token.verify(&other_authenticity).is_err());
}

#[test]
fn scenario_wrong_key_treats_cookie_as_absent() {
    // A cookie sealed under one key, parsed under another: treated as
    // absent, a fresh secret issued, no failure.
    let token = CsrfToken::extract(private_config(1), &Vec::new());
    let pair = cookie_pair_of(&token.inject()[0]);
    let other = CsrfToken::extract(private_config(2), &vec![pair.clone()]);
    assert_eq!(other.token.len(), 16);
    assert_ne!(other.token, token.token);
    // The same header under the right key still yields the original secret.
    let same = CsrfToken::extract(private_config(1), &vec![pair]);
    assert_eq!(same.token, token.token);
}

#[test]
fn host_prefix_round_trip() {
    let config = plain_config().with_secure(true).with_prefix_with_host(true);
    let token = CsrfToken::extract(config, &Vec::new());
    let headers = token.inject();
    assert!(headers[0].starts_with("__Host-Csrf_Token="));
    assert!(headers[0].contains("; Secure"));
    let pair = cookie_pair_of(&headers[0]);
    let config2 = plain_config().with_secure(true).with_prefix_with_host(true);
    let again = CsrfToken::extract(config2, &vec![pair]);
    assert_eq!(again.token, token.token);
}

#[test]
fn same_site_values_serialize_as_configured() {
    for (mode, text) in [
        (SameSite::Strict, "; SameSite=Strict"),
        (SameSite::Lax, "; SameSite=Lax"),
        (SameSite::Unrestricted, "; SameSite=None"),
    ] {
        let config = plain_config().with_cookie_same_site(mode);
        let token = CsrfToken::extract(config, &Vec::new());
        assert!(token.inject()[0].contains(text));
    }
}

#[test]
fn derivation_matches_hmac_sha256_exactly() {
    // HMAC-SHA256 with key "abc" over "0123456789abcdef", Base64-encoded,
    // computed independently of this library.
    let token = CsrfToken {
        token: "0123456789abcdef".to_string(),
        config: plain_config(),
    };
    assert_eq!(
        token.authenticity_token().unwrap(),
        "tx0DxKyXK9RInj/fHBvwMLF5Hm7TBa6tww7yw4NHJNw="
    );
    assert!(token.verify("tx0DxKyXK9RInj/fHBvwMLF5Hm7TBa6tww7yw4NHJNw=").is_ok());
}

#[test]
fn verification_is_deterministic_across_equal_tokens() {
    let token = CsrfToken::extract(plain_config(), &Vec::new());
    let authenticity = token.authenticity_token().unwrap();
    let second = token.authenticity_token().unwrap();
    assert_eq!(authenticity, second);
    // A different salt derives a different authenticity token.
    let other_salt =
        CsrfToken { token: token.token.clone(), config: plain_config().with_salt(b"xyz".to_vec()) };
    assert_ne!(other_salt.authenticity_token().unwrap(), authenticity);
    assert_eq!(other_salt.verify(&authenticity), Err(CsrfError::Verify));
}
