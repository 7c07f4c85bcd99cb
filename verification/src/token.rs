//! The per-request token manager: obtaining or generating the Secret Token
//! from the request's cookies, deriving the authenticity token that is safe
//! to embed in a form, verifying a submitted authenticity token, and
//! building the `Set-Cookie` header values that carry the secret back to
//! the client.
//!
//! The authenticity token is the HMAC-SHA256 tag over the Secret Token,
//! keyed by the configuration's salt and rendered in Base64; verification
//! recomputes the tag and compares in constant time.

use vstd::prelude::*;
use vstd::string::*;
use crate::config::CsrfConfig;
use crate::cookies::{
    CookieJar, get_cookies, set_cookies, get_cookie_spec, parse_header_pairs,
    parse_headers_pairs, key_view, set_cookie_string_spec,
};
use crate::error::CsrfError;
use crate::text::{
    all_alphanumeric_chars, is_alphanumeric_char, char_is_alphanumeric, all_base64_chars,
};
use crate::trusted::{
    hmac_sha256_of, base64_of, sealed_secret_of, hmac_sha256, hmac_sha256_verify,
    base64_encode, base64_decode, random_alphanumeric,
};

verus! {

/// A secret of the configured length made of alphanumeric characters: the
/// only values accepted from an existing cookie and the only values
/// generated afresh.
pub open spec fn valid_secret_spec(cfg: CsrfConfig, s: Seq<char>) -> bool {
    s.len() == cfg.cookie_len && all_alphanumeric_chars(s)
}

/// What extraction finds in the request's `Cookie` header values: the
/// cookie under the effective name, read through the private path when a
/// key is configured, and only if the result is a valid secret. A missing,
/// undecryptable or malformed cookie yields nothing.
pub open spec fn extracted_secret_spec(cfg: CsrfConfig, headers: Seq<Seq<char>>) -> Option<
    Seq<char>,
> {
    match get_cookie_spec(
        parse_headers_pairs(headers),
        cfg.effective_cookie_name(),
        key_view(cfg.key),
    ) {
        Option::Some(v) => if valid_secret_spec(cfg, v) {
            Option::Some(v)
        } else {
            Option::None
        },
        Option::None => Option::None,
    }
}

/// The relation `get_token` establishes between the request's headers and
/// the returned Secret Token: the existing valid secret when there is one,
/// otherwise some fresh alphanumeric secret of the configured length.
pub open spec fn token_from_spec(cfg: CsrfConfig, headers: Seq<Seq<char>>, token: Seq<char>) -> bool {
    match extracted_secret_spec(cfg, headers) {
        Option::Some(s) => token == s,
        Option::None => token.len() == cfg.cookie_len && all_alphanumeric_chars(token),
    }
}

/// Whatever `get_token` returns is a valid secret.
pub proof fn lemma_token_from_valid(cfg: CsrfConfig, headers: Seq<Seq<char>>, token: Seq<char>)
    requires
        token_from_spec(cfg, headers, token),
    ensures
        valid_secret_spec(cfg, token),
{
}

/// Decides `valid_secret_spec`.
fn check_secret(cfg: &CsrfConfig, s: &str) -> (r: bool)
    ensures
        r == valid_secret_spec(*cfg, s@),
{
    let n = s.unicode_len();
    if n != cfg.cookie_len {
        return false;
    }
    let mut i: usize = 0;
    while i < n
        invariant
            n == s@.len(),
            0 <= i <= n,
            forall|j: int| 0 <= j < i ==> is_alphanumeric_char(#[trigger] s@[j]),
        decreases n - i,
    {
        if !char_is_alphanumeric(s.get_char(i)) {
            return false;
        }
        i = i + 1;
    }
    true
}

/// Obtains the Secret Token for this request: the cookie's valid secret
/// when one is present, a freshly generated alphanumeric secret of the
/// configured length otherwise. Total: a missing or garbled `Cookie`
/// header never fails the request.
pub fn get_token(config: &CsrfConfig, headers: &Vec<String>) -> (r: String)
    requires
        config.wf(),
    ensures
        token_from_spec(*config, headers.deep_view(), r@),
{
    let cookie_jar = get_cookies(headers);
    let name = config.effective_name();
    match cookie_jar.get_cookie(name.as_str(), &config.key) {
        Option::Some(v) => {
            if check_secret(config, v.as_str()) {
                v
            } else {
                random_alphanumeric(config.cookie_len)
            }
        },
        Option::None => random_alphanumeric(config.cookie_len),
    }
}

/// The per-request token: the Secret Token together with the policy it was
/// obtained under. Created once per request by extraction, consumed by
/// authenticity-token derivation, verification and response emission.
#[derive(Clone)]
pub struct CsrfToken {
    /// The Secret Token stored in (or destined for) the cookie.
    pub token: String,
    /// The policy this token lives under.
    pub config: CsrfConfig,
}

impl CsrfToken {
    /// The token is usable: its configuration is well formed and the secret
    /// is of the configured length and alphanumeric.
    pub open spec fn wf(self) -> bool {
        self.config.wf() && valid_secret_spec(self.config, self.token@)
    }

    /// Extraction: obtains or generates the Secret Token from the request's
    /// `Cookie` header values and binds it to the configuration. Never
    /// fails; a garbled header simply forces a fresh secret.
    pub fn extract(config: CsrfConfig, cookie_headers: &Vec<String>) -> (r: CsrfToken)
        requires
            config.wf(),
        ensures
            r.config == config,
            token_from_spec(config, cookie_headers.deep_view(), r.token@),
            r.wf(),
    {
        let token = get_token(&config, cookie_headers);
        proof {
            lemma_token_from_valid(config, cookie_headers.deep_view(), token@);
        }
        CsrfToken { token, config }
    }
}

/// The characters of an ASCII string as bytes.
pub open spec fn ascii_bytes(s: Seq<char>) -> Seq<u8> {
    Seq::new(s.len(), |i: int| s[i] as u8)
}

/// Alphanumeric characters are ASCII.
pub proof fn lemma_alphanumeric_ascii(s: Seq<char>)
    requires
        all_alphanumeric_chars(s),
    ensures
        vstd::utf8::is_ascii_chars(s),
{
    assert forall|i: int| 0 <= i < s.len() implies '\0' <= #[trigger] s[i] <= '\u{7f}' by {
        assert(is_alphanumeric_char(s[i]));
    }
}

/// The authenticity token belonging to a secret: the Base64 rendering of
/// the HMAC-SHA256 tag over the secret's bytes, keyed by the salt.
pub open spec fn derive_spec(salt: Seq<u8>, secret: Seq<u8>) -> Seq<char> {
    base64_of(hmac_sha256_of(salt, secret))
}

/// What verification of a submitted authenticity token yields: success
/// exactly on the one string that derivation produces for this salt and
/// secret; `Verify` for any other well-formed Base64 string; and
/// `PasswordHash` for a string that no byte sequence renders to.
pub open spec fn verify_spec(salt: Seq<u8>, secret: Seq<u8>, submitted: Seq<char>) -> Result<
    (),
    CsrfError,
> {
    if exists|b: Seq<u8>| base64_of(b) == submitted {
        if submitted == derive_spec(salt, secret) {
            Result::Ok(())
        } else {
            Result::Err(CsrfError::Verify)
        }
    } else {
        Result::Err(CsrfError::PasswordHash)
    }
}

impl CsrfToken {
    /// Derives the authenticity token to place within the form: the
    /// HMAC-SHA256 tag over the Secret Token keyed by the configured salt,
    /// Base64-encoded. Never the secret itself. With HMAC every salt is
    /// acceptable key material, so this always succeeds.
    pub fn authenticity_token(&self) -> (r: Result<String, CsrfError>)
        requires
            self.wf(),
        ensures
            match r {
                Result::Ok(t) => t@ == derive_spec(
                    self.config.salt@,
                    ascii_bytes(self.token@),
                ),
                Result::Err(_) => false,
            },
    {
        proof {
            lemma_alphanumeric_ascii(self.token@);
            vstd::utf8::is_ascii_chars_encode_utf8(self.token@);
            assert(vstd::utf8::encode_utf8(self.token@) =~= ascii_bytes(self.token@));
        }
        let tag = hmac_sha256(self.config.salt.as_slice(), self.token.as_str().as_bytes());
        let encoded = base64_encode(tag.as_slice());
        Result::Ok(encoded)
    }

    /// Verifies that the submitted form token matches the cookie's secret:
    /// decodes the submission, recomputes the HMAC-SHA256 tag and compares
    /// through the MAC's constant-time check. `PasswordHash` names a
    /// submission that is not Base64 at all; `Verify` one that is well
    /// formed but does not match. Both are terminal rejections.
    pub fn verify(&self, form_authenticity_token: &str) -> (r: Result<(), CsrfError>)
        requires
            self.wf(),
        ensures
            r == verify_spec(
                self.config.salt@,
                ascii_bytes(self.token@),
                form_authenticity_token@,
            ),
    {
        proof {
            lemma_alphanumeric_ascii(self.token@);
            vstd::utf8::is_ascii_chars_encode_utf8(self.token@);
            assert(vstd::utf8::encode_utf8(self.token@) =~= ascii_bytes(self.token@));
        }
        match base64_decode(form_authenticity_token) {
            Option::None => Result::Err(CsrfError::PasswordHash),
            Option::Some(decoded) => {
                let matches_tag = hmac_sha256_verify(
                    self.config.salt.as_slice(),
                    self.token.as_str().as_bytes(),
                    decoded.as_slice(),
                );
                proof {
                    assert(base64_of(decoded@) == form_authenticity_token@);
                }
                if matches_tag {
                    Result::Ok(())
                } else {
                    Result::Err(CsrfError::Verify)
                }
            },
        }
    }
}

/// The one `Set-Cookie` header value that response injection emits in
/// plaintext mode: the secret under the effective cookie name, with the
/// configured attributes.
pub open spec fn inject_plain_spec(cfg: CsrfConfig, token: Seq<char>) -> Seq<Seq<char>> {
    seq![set_cookie_string_spec(cfg, cfg.effective_cookie_name(), token)]
}

impl CsrfToken {
    /// Response injection: the `Set-Cookie` header values (exactly one)
    /// that carry the Secret Token back to the client, the value sealed
    /// first when a key is configured. The caller appends them to the
    /// outgoing response, once per response that used the token.
    pub fn inject(&self) -> (r: Vec<String>)
        requires
            self.wf(),
        ensures
            r.deep_view().len() == 1,
            self.config.key is None ==> r.deep_view() == inject_plain_spec(
                self.config,
                self.token@,
            ),
            (match key_view(self.config.key) {
                Option::Some(k) => {
                    let wire = wire_value_of(r.deep_view(), self.config);
                    &&& sealed_secret_of(k, self.config.effective_cookie_name(), wire)
                        == Option::Some(self.token@)
                    &&& all_base64_chars(wire)
                    &&& r.deep_view() == seq![
                        set_cookie_string_spec(
                            self.config,
                            self.config.effective_cookie_name(),
                            wire,
                        ),
                    ]
                },
                Option::None => true,
            }),
    {
        let mut jar = CookieJar::new();
        let name = self.config.effective_name();
        let ghost name_view = name@;
        jar.add_cookie(name, self.token.clone(), &self.config.key);
        let ghost wire = jar.added@.last().value@;
        proof {
            assert(jar.added_pairs() =~= seq![(name_view, wire)]);
        }
        let headers = set_cookies(&jar, &self.config);
        proof {
            assert(headers.deep_view() =~= seq![
                set_cookie_string_spec(self.config, name_view, wire),
            ]);
            assert(wire_value_of(headers.deep_view(), self.config) == wire) by {
                lemma_wire_value_of(headers.deep_view(), self.config, wire);
            }
        }
        headers
    }
}

/// The cookie value inside the one emitted `Set-Cookie` header: the header
/// is `name=value; ...attributes`, and this recovers the value.
pub open spec fn wire_value_of(headers: Seq<Seq<char>>, cfg: CsrfConfig) -> Seq<char> {
    choose|w: Seq<char>|
        headers == seq![set_cookie_string_spec(cfg, cfg.effective_cookie_name(), w)]
}

/// `wire_value_of` recovers the value that the header was built from,
/// because two values yielding the same header are equal: the header's
/// prefix up to the first `; Path=` determines `name=value`.
proof fn lemma_wire_value_of(headers: Seq<Seq<char>>, cfg: CsrfConfig, w: Seq<char>)
    requires
        headers == seq![set_cookie_string_spec(cfg, cfg.effective_cookie_name(), w)],
    ensures
        wire_value_of(headers, cfg) == w,
{
    let name = cfg.effective_cookie_name();
    assert(exists|x: Seq<char>| headers == seq![set_cookie_string_spec(cfg, name, x)]) by {
        assert(headers == seq![set_cookie_string_spec(cfg, name, w)]);
    }
    let w2 = wire_value_of(headers, cfg);
    assert(headers == seq![set_cookie_string_spec(cfg, name, w2)]);
    assert(seq![set_cookie_string_spec(cfg, name, w)][0] == set_cookie_string_spec(cfg, name, w));
    assert(seq![set_cookie_string_spec(cfg, name, w2)][0] == set_cookie_string_spec(cfg, name, w2));
    lemma_set_cookie_value_injective(cfg, name, w, w2);
}

/// For one name and configuration, the serialized `Set-Cookie` header
/// determines the cookie value: equal headers mean equal values.
proof fn lemma_set_cookie_value_injective(cfg: CsrfConfig, name: Seq<char>, w: Seq<char>, w2: Seq<char>)
    requires
        set_cookie_string_spec(cfg, name, w) == set_cookie_string_spec(cfg, name, w2),
    ensures
        w == w2,
{
    let a = crate::cookies::set_cookie_base_spec(cfg, name, w);
    let b = crate::cookies::set_cookie_base_spec(cfg, name, w2);
    lemma_set_cookie_suffix_len(cfg, name, w);
    lemma_set_cookie_suffix_len(cfg, name, w2);
    assert(a.len() == b.len());
    assert(w.len() == w2.len());
    assert forall|i: int| 0 <= i < w.len() implies w[i] == w2[i] by {
        let p = name.len() + 1;
        assert(a[p + i] == w[i]);
        assert(b[p + i] == w2[i]);
        assert(set_cookie_string_spec(cfg, name, w)[p + i] == a[p + i]);
        assert(set_cookie_string_spec(cfg, name, w2)[p + i] == b[p + i]);
    }
    assert(w =~= w2);
}

/// The serialized header is the base part followed by a suffix whose length
/// does not depend on the cookie value; so equal headers have equal-length
/// base parts and equal-length values.
proof fn lemma_set_cookie_suffix_len(cfg: CsrfConfig, name: Seq<char>, w: Seq<char>)
    ensures
        set_cookie_string_spec(cfg, name, w).len() == crate::cookies::set_cookie_base_spec(
            cfg,
            name,
            w,
        ).len() + set_cookie_suffix_len(cfg),
        crate::cookies::set_cookie_base_spec(cfg, name, w).len() == name.len() + 1 + w.len()
            + "; Path="@.len() + cfg.cookie_path@.len() + "; SameSite="@.len()
            + crate::config::same_site_str(cfg.cookie_same_site).len(),
{
    reveal_strlit("=");
}

/// The length of everything the serializer appends after the base part:
/// a function of the configuration alone.
pub open spec fn set_cookie_suffix_len(cfg: CsrfConfig) -> nat {
    (match cfg.cookie_domain {
        Option::Some(d) => "; Domain="@.len() + d@.len(),
        Option::None => 0,
    }) + (if cfg.cookie_secure {
        "; Secure"@.len()
    } else {
        0
    }) + (if cfg.cookie_http_only {
        "; HttpOnly"@.len()
    } else {
        0
    }) + (if cfg.lifespan > 0 {
        "; Max-Age="@.len() + crate::text::dec_str_of(cfg.lifespan as nat).len()
    } else {
        0
    })
}

/// Injecting the same unmodified token twice produces identical
/// `Set-Cookie` output: in plaintext mode the emitted header values are a
/// function of the configuration and the secret alone.
pub proof fn lemma_inject_idempotent(
    cfg: CsrfConfig,
    token: Seq<char>,
    first: Seq<Seq<char>>,
    second: Seq<Seq<char>>,
)
    requires
        cfg.key is None,
        first == inject_plain_spec(cfg, token),
        second == inject_plain_spec(cfg, token),
    ensures
        first == second,
{
}

/// A zero lifespan makes a session cookie: the emitted header value is
/// exactly the base part with the configured `Domain`, `Secure` and
/// `HttpOnly` attributes, and no expiry (`Max-Age`) attribute is appended.
pub proof fn lemma_session_cookie_no_expiry(cfg: CsrfConfig, name: Seq<char>, value: Seq<char>)
    requires
        cfg.lifespan == 0,
    ensures
        set_cookie_string_spec(cfg, name, value) == ({
            let base = crate::cookies::set_cookie_base_spec(cfg, name, value);
            let with_domain = match cfg.cookie_domain {
                Option::Some(d) => base + "; Domain="@ + d@,
                Option::None => base,
            };
            let with_secure = if cfg.cookie_secure {
                with_domain + "; Secure"@
            } else {
                with_domain
            };
            if cfg.cookie_http_only {
                with_secure + "; HttpOnly"@
            } else {
                with_secure
            }
        }),
{
}

/// The cookie round trip in plaintext mode: a subsequent request that
/// sends back exactly the cookie this library issued — the effective name
/// and the plaintext secret — yields that same secret again, with no
/// spurious regeneration.
pub proof fn lemma_round_trip_plain(cfg: CsrfConfig, secret: Seq<char>, header: Seq<char>)
    requires
        cfg.wf(),
        cfg.key is None,
        valid_secret_spec(cfg, secret),
        header == cfg.effective_cookie_name() + "="@ + secret,
    ensures
        extracted_secret_spec(cfg, seq![header]) == Option::Some(secret),
{
    let name = cfg.effective_cookie_name();
    cfg.lemma_effective_name_wf();
    crate::text::lemma_alphanumeric_value_chars(secret);
    crate::cookies::lemma_parse_simple_pair(name, secret);
    lemma_single_header_lookup(cfg, name, secret, header);
}

/// The cookie round trip in private mode: a subsequent request that sends
/// back the sealed cookie this library issued yields the original secret
/// again, because unsealing the wire value under the same key and name
/// recovers it. A wire value sealed under a different key unseals to
/// nothing, so it is treated as absent instead.
pub proof fn lemma_round_trip_private(
    cfg: CsrfConfig,
    secret: Seq<char>,
    wire: Seq<char>,
    header: Seq<char>,
)
    requires
        cfg.wf(),
        cfg.key is Some,
        valid_secret_spec(cfg, secret),
        all_base64_chars(wire),
        header == cfg.effective_cookie_name() + "="@ + wire,
    ensures
        sealed_secret_of(cfg.key.unwrap()@, cfg.effective_cookie_name(), wire)
            == Option::Some(secret) ==> extracted_secret_spec(cfg, seq![header])
            == Option::Some(secret),
        sealed_secret_of(cfg.key.unwrap()@, cfg.effective_cookie_name(), wire) is None
            ==> extracted_secret_spec(cfg, seq![header]) is None,
{
    let name = cfg.effective_cookie_name();
    cfg.lemma_effective_name_wf();
    crate::text::lemma_base64_value_chars(wire);
    crate::cookies::lemma_parse_simple_pair(name, wire);
    lemma_single_header_lookup(cfg, name, wire, header);
}

/// A request carrying the single header `name=value` (under the effective
/// cookie name) makes the jar's lookup yield exactly that value.
proof fn lemma_single_header_lookup(
    cfg: CsrfConfig,
    name: Seq<char>,
    value: Seq<char>,
    header: Seq<char>,
)
    requires
        header == name + "="@ + value,
        parse_header_pairs(header) == seq![(name, value)],
    ensures
        crate::cookies::lookup_pairs(parse_headers_pairs(seq![header]), name)
            == Option::Some(value),
{
    let hs = seq![header];
    assert(hs[0] == header);
    assert(hs.drop_first() =~= Seq::<Seq<char>>::empty());
    assert(parse_headers_pairs(hs.drop_first()) =~= Seq::<(Seq<char>, Seq<char>)>::empty());
    let ps = parse_headers_pairs(hs);
    assert(ps =~= seq![(name, value)]);
    assert(ps.last() == (name, value));
}

/// Deriving and then verifying always succeeds: for every salt and secret,
/// the authenticity token that derivation produces is accepted.
pub proof fn lemma_derive_verifies(salt: Seq<u8>, secret: Seq<u8>)
    ensures
        verify_spec(salt, secret, derive_spec(salt, secret)) == Result::<(), CsrfError>::Ok(()),
{
    let tag = hmac_sha256_of(salt, secret);
    assert(base64_of(tag) == derive_spec(salt, secret));
}

/// Any alteration of the derived authenticity token is rejected: a changed
/// submission never verifies, and one that is still well-formed Base64 is
/// rejected with `Verify`.
pub proof fn lemma_altered_token_rejected(salt: Seq<u8>, secret: Seq<u8>, submitted: Seq<char>)
    ensures
        submitted != derive_spec(salt, secret) ==> verify_spec(salt, secret, submitted) is Err,
        (submitted != derive_spec(salt, secret) && (exists|b: Seq<u8>|
            base64_of(b) == submitted)) ==> verify_spec(salt, secret, submitted)
            == Result::<(), CsrfError>::Err(CsrfError::Verify),
{
}

} // verus!
