//! The boundary to the outside cryptographic crates. Every function here is
//! `external_body`: its contract is assumed, not proved, and states no more
//! than the called crate's own source and documentation promise. Everything
//! built on top of these contracts is verified.

use vstd::prelude::*;
use hmac::Mac;
use base64ct::Encoding;
use rand::Rng;

verus! {

/// The HMAC-SHA256 tag over `msg` keyed by `key`. A pure function of its
/// arguments; its value is not modeled.
pub uninterp spec fn hmac_sha256_of(key: Seq<u8>, msg: Seq<u8>) -> Seq<u8>;

/// The standard padded Base64 rendering of `b`. A pure function of its
/// argument; its value is not modeled.
pub uninterp spec fn base64_of(b: Seq<u8>) -> Seq<char>;

/// What authenticated decryption of the cookie value `value`, bound to the
/// cookie name `name` and keyed by `key`, yields: the plaintext when the
/// value is a well-formed seal under that key and name, nothing otherwise.
/// A pure function of its arguments; its value is not modeled.
pub uninterp spec fn sealed_secret_of(key: Seq<u8>, name: Seq<char>, value: Seq<char>) -> Option<
    Seq<char>,
>;

/// Relies on `cookie::Key::generate` and `Key::master`: a fresh 512-bit
/// (64-byte) key from the operating system's secure random source.
/// Panics only if that source yields no randomness.
#[verifier::external_body]
pub fn generate_key() -> (r: Vec<u8>)
    ensures
        r@.len() == 64,
{
    cookie::Key::generate().master().to_vec()
}

/// Relies on `rand`'s `Alphanumeric` distribution sampled from `thread_rng`:
/// every drawn character is `a`-`z`, `A`-`Z` or `0`-`9`. Nothing more is
/// promised of the outcome: the result is random.
#[verifier::external_body]
pub fn random_alphanumeric(len: usize) -> (r: String)
    ensures
        r@.len() == len as nat,
        crate::text::all_alphanumeric_chars(r@),
{
    rand::thread_rng().sample_iter(&rand::distributions::Alphanumeric).take(len).map(
        char::from,
    ).collect()
}

/// Relies on `hmac::Hmac<sha2::Sha256>`: `new_from_slice` accepts keys of any
/// length (it never returns an error), and `finalize` yields the 32-byte
/// HMAC-SHA256 tag, a deterministic function of key and message.
#[verifier::external_body]
pub fn hmac_sha256(key: &[u8], msg: &[u8]) -> (r: Vec<u8>)
    ensures
        r@ == hmac_sha256_of(key@, msg@),
        r@.len() == 32,
{
    let mut mac = hmac::Hmac::<sha2::Sha256>::new_from_slice(key).unwrap();
    mac.update(msg);
    mac.finalize().into_bytes().to_vec()
}

/// Relies on `hmac::Hmac<sha2::Sha256>` and `Mac::verify_slice`: the
/// constant-time check succeeds exactly when `tag` equals the HMAC-SHA256
/// tag over `msg` keyed by `key`.
#[verifier::external_body]
pub fn hmac_sha256_verify(key: &[u8], msg: &[u8], tag: &[u8]) -> (r: bool)
    ensures
        r == (tag@ == hmac_sha256_of(key@, msg@)),
{
    let mut mac = hmac::Hmac::<sha2::Sha256>::new_from_slice(key).unwrap();
    mac.update(msg);
    mac.verify_slice(tag).is_ok()
}

/// Relies on `base64ct::Base64::encode_string`: the canonical padded Base64
/// rendering of the input. The length bound keeps the input under the
/// crate's documented panic threshold.
#[verifier::external_body]
pub fn base64_encode(b: &[u8]) -> (r: String)
    requires
        b@.len() <= 0x10000000,
    ensures
        r@ == base64_of(b@),
{
    base64ct::Base64::encode_string(b)
}

/// Relies on `base64ct::Base64::decode_vec`: a strict decoder that accepts
/// exactly the canonical padded Base64 renderings and inverts
/// `encode_string`. So decoding succeeds precisely on strings that some
/// byte sequence encodes to, and yields that (unique) byte sequence.
#[verifier::external_body]
pub fn base64_decode(s: &str) -> (r: Option<Vec<u8>>)
    ensures
        match r {
            Option::Some(v) => base64_of(v@) == s@ && (forall|b: Seq<u8>|
                base64_of(b) == s@ ==> b == v@),
            Option::None => forall|b: Seq<u8>| base64_of(b) != s@,
        },
{
    match base64ct::Base64::decode_vec(s) {
        Ok(v) => Option::Some(v),
        Err(_) => Option::None,
    }
}

/// Relies on `cookie`'s private jar (`CookieJar::private_mut` and
/// `PrivateJar::add`): the stored value is the AES-256-GCM seal of the
/// plaintext under the encryption half of `key`, with the cookie name as
/// associated data, rendered in standard padded Base64. Decrypting that
/// value with the same key and name yields the plaintext back; the rendering
/// uses only Base64 characters. The result is random (a fresh nonce), so
/// nothing more is promised of it. Panics only if the operating system
/// yields no randomness for the nonce.
#[verifier::external_body]
pub fn seal_value(key: &[u8], name: &str, value: &str) -> (r: String)
    requires
        key@.len() == 64,
    ensures
        sealed_secret_of(key@, name@, r@) == Option::Some(value@),
        crate::text::all_base64_chars(r@),
        r@.len() > 0,
{
    let mut jar = cookie::CookieJar::new();
    let k = cookie::Key::from(key);
    jar.private_mut(&k).add(cookie::Cookie::new(name.to_owned(), value.to_owned()));
    jar.get(name).unwrap().value().to_owned()
}

/// Relies on `cookie`'s private jar (`CookieJar::private` and
/// `PrivateJar::decrypt`): authenticated decryption of `value` under the
/// encryption half of `key` with `name` as associated data, a deterministic
/// function of its arguments that yields the plaintext for a well-formed
/// seal and nothing for anything else.
#[verifier::external_body]
pub fn unseal_value(key: &[u8], name: &str, value: &str) -> (r: Option<String>)
    requires
        key@.len() == 64,
    ensures
        match r {
            Option::Some(v) => sealed_secret_of(key@, name@, value@) == Option::Some(v@),
            Option::None => sealed_secret_of(key@, name@, value@) is None,
        },
{
    let jar = cookie::CookieJar::new();
    let k = cookie::Key::from(key);
    let c = cookie::Cookie::new(name.to_owned(), value.to_owned());
    match jar.private(&k).decrypt(c) {
        Some(plain) => Option::Some(plain.value().to_owned()),
        None => Option::None,
    }
}

/// Relies on `u64`'s `Display` implementation: the decimal rendering of the
/// number, most significant digit first, no sign and no leading zero.
#[verifier::external_body]
pub fn u64_to_dec_string(n: u64) -> (r: String)
    ensures
        r@ == crate::text::dec_str_of(n as nat),
{
    n.to_string()
}

} // verus!
