//! Configuration defaults, the builder methods, and the error descriptions.

use axum_csrf::{CsrfConfig, CsrfError, SameSite};

#[test]
fn default_is_secure_by_default() {
    let config = CsrfConfig::default();
    assert_eq!(config.lifespan, 21600);
    assert_eq!(config.cookie_name, "Csrf_Token");
    assert_eq!(config.cookie_path, "/");
    assert!(config.cookie_http_only);
    assert!(!config.cookie_secure);
    assert_eq!(config.cookie_domain, None);
    assert_eq!(config.cookie_same_site, SameSite::Lax);
    assert_eq!(config.cookie_len, 16);
    assert!(!config.prefix_with_host);
    assert_eq!(config.key.as_ref().map(|k| k.len()), Some(64));
    assert_eq!(config.salt, b"Csrf_Salt".to_vec());
}

#[test]
fn new_equals_default_shape() {
    let a = CsrfConfig::new();
    let b = CsrfConfig::default();
    assert_eq!(a.lifespan, b.lifespan);
    assert_eq!(a.cookie_name, b.cookie_name);
    assert_eq!(a.cookie_len, b.cookie_len);
    // The generated keys are random and so differ between the two.
    assert_ne!(a.key, b.key);
}

#[test]
fn builders_set_their_fields_and_nothing_else() {
    let config = CsrfConfig::new()
        .with_cookie_domain(Some("www.helpme.com".to_string()))
        .with_lifetime(120)
        .with_cookie_name("my_cookie")
        .with_cookie_path("/sub")
        .with_cookie_same_site(SameSite::Strict)
        .with_http_only(false)
        .with_secure(true)
        .with_cookie_len(32)
        .with_key(None)
        .with_salt(b"pepper".to_vec())
        .with_prefix_with_host(true);
    assert_eq!(config.cookie_domain, Some("www.helpme.com".to_string()));
    assert_eq!(config.lifespan, 120);
    assert_eq!(config.cookie_name, "my_cookie");
    assert_eq!(config.cookie_path, "/sub");
    assert_eq!(config.cookie_same_site, SameSite::Strict);
    assert!(!config.cookie_http_only);
    assert!(config.cookie_secure);
    assert_eq!(config.cookie_len, 32);
    assert_eq!(config.key, None);
    assert_eq!(config.salt, b"pepper".to_vec());
    assert!(config.prefix_with_host);
}

#[test]
fn with_key_keeps_a_supplied_key() {
    let key = vec![42u8; 64];
    let config = CsrfConfig::new().with_key(Some(key.clone()));
    assert_eq!(config.key, Some(key));
}

#[test]
fn error_messages_match_their_kinds() {
    assert_eq!(CsrfError::PasswordHash.message(), "Token could not be hashed.");
    assert_eq!(CsrfError::Verify.message(), "Verification Failed.");
    assert_eq!(CsrfError::Salt.message(), "Could not Encode Salt.");
    assert_eq!(CsrfError::Token.message(), "Could not Hash Token.");
}
