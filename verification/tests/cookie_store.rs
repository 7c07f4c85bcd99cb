//! The cookie store on its own: header parsing, lookup through the plain
//! and the private path, and `Set-Cookie` serialization.

use axum_csrf::{build_set_cookie, get_cookies, set_cookies, CsrfConfig, SameSite};

fn attribute_config() -> CsrfConfig {
    CsrfConfig::new()
        .with_key(None)
        .with_cookie_name("session")
        .with_cookie_path("/app")
        .with_cookie_domain(Some("example.com".to_string()))
        .with_cookie_same_site(SameSite::Strict)
        .with_secure(true)
        .with_http_only(true)
        .with_lifetime(3600)
}

#[test]
fn parses_two_cookies_from_one_header() {
    let jar = get_cookies(&vec!["a=1; b=2".to_string()]);
    assert_eq!(jar.get_cookie("a", &None), Some("1".to_string()));
    assert_eq!(jar.get_cookie("b", &None), Some("2".to_string()));
    assert_eq!(jar.get_cookie("c", &None), None);
}

#[test]
fn parses_cookies_across_headers() {
    let jar = get_cookies(&vec!["a=1".to_string(), "b=2".to_string()]);
    assert_eq!(jar.get_cookie("a", &None), Some("1".to_string()));
    assert_eq!(jar.get_cookie("b", &None), Some("2".to_string()));
}

#[test]
fn later_cookie_of_same_name_wins() {
    let jar = get_cookies(&vec!["a=1; a=2".to_string()]);
    assert_eq!(jar.get_cookie("a", &None), Some("2".to_string()));
}

#[test]
fn whitespace_around_name_and_value_is_trimmed() {
    let jar = get_cookies(&vec![" a = 1 ; b=2".to_string()]);
    assert_eq!(jar.get_cookie("a", &None), Some("1".to_string()));
}

#[test]
fn malformed_segments_are_dropped_silently() {
    let jar = get_cookies(&vec!["garbage; =novalue; ; a=1".to_string()]);
    assert_eq!(jar.get_cookie("a", &None), Some("1".to_string()));
    assert_eq!(jar.get_cookie("garbage", &None), None);
    assert_eq!(jar.get_cookie("", &None), None);
}

#[test]
fn value_keeps_everything_after_the_first_equals() {
    let jar = get_cookies(&vec!["a=abc==; b=x=y".to_string()]);
    assert_eq!(jar.get_cookie("a", &None), Some("abc==".to_string()));
    assert_eq!(jar.get_cookie("b", &None), Some("x=y".to_string()));
}

#[test]
fn empty_value_is_kept() {
    let jar = get_cookies(&vec!["a=".to_string()]);
    assert_eq!(jar.get_cookie("a", &None), Some("".to_string()));
}

#[test]
fn set_cookie_serializes_every_configured_attribute() {
    let header = build_set_cookie(&attribute_config(), "session", "v123");
    assert_eq!(
        header,
        "session=v123; Path=/app; SameSite=Strict; Domain=example.com; Secure; HttpOnly; \
         Max-Age=3600"
    );
}

#[test]
fn set_cookie_without_optional_attributes() {
    let config = CsrfConfig::new()
        .with_key(None)
        .with_cookie_path("/")
        .with_cookie_same_site(SameSite::Lax)
        .with_secure(false)
        .with_http_only(false)
        .with_lifetime(0);
    let header = build_set_cookie(&config, "n", "v");
    assert_eq!(header, "n=v; Path=/; SameSite=Lax");
}

#[test]
fn max_age_renders_large_lifespans_exactly() {
    let config = attribute_config().with_lifetime(u64::MAX);
    let header = build_set_cookie(&config, "n", "v");
    assert!(header.ends_with("; Max-Age=18446744073709551615"));
    let one = attribute_config().with_lifetime(1);
    assert!(build_set_cookie(&one, "n", "v").ends_with("; Max-Age=1"));
}

#[test]
fn delta_serializes_each_added_cookie() {
    let config = attribute_config();
    let mut jar = get_cookies(&Vec::new());
    jar.add_cookie("session".to_string(), "s1".to_string(), &None);
    jar.add_cookie("other".to_string(), "s2".to_string(), &None);
    let headers = set_cookies(&jar, &config);
    assert_eq!(headers.len(), 2);
    assert!(headers[0].starts_with("session=s1; "));
    assert!(headers[1].starts_with("other=s2; "));
}

#[test]
fn private_path_round_trips_through_the_jar() {
    let key = Some(vec![5u8; 64]);
    let mut jar = get_cookies(&Vec::new());
    jar.add_cookie("n".to_string(), "secretvalue".to_string(), &key);
    let config = attribute_config().with_cookie_name("n");
    let headers = set_cookies(&jar, &config);
    let pair = headers[0].split(';').next().unwrap();
    let wire = pair.splitn(2, '=').nth(1).unwrap();
    assert_ne!(wire, "secretvalue");
    let jar2 = get_cookies(&vec![pair.to_string()]);
    assert_eq!(jar2.get_cookie("n", &key), Some("secretvalue".to_string()));
    // The plain path sees only the sealed value.
    assert_eq!(jar2.get_cookie("n", &None), Some(wire.to_string()));
}

#[test]
fn undecryptable_value_reads_as_absent() {
    let key = Some(vec![5u8; 64]);
    let jar = get_cookies(&vec!["n=AAAAAAAAAAAAAAAAAAAAAAAAAAAA".to_string()]);
    assert_eq!(jar.get_cookie("n", &key), None);
}
