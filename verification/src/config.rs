//! The immutable policy object: cookie naming and attributes, lifespan,
//! secret length, optional encryption key and the HMAC salt. Built once,
//! then shared read-only by every request.

use vstd::prelude::*;
use vstd::string::*;
use crate::text::{all_cookie_name_chars, is_cookie_name_char};

verus! {

/// How the cookie restricts cross-site sending.
#[derive(Clone, Copy, Debug, PartialEq, Eq, Structural)]
pub enum SameSite {
    /// Sent on same-site requests only.
    Strict,
    /// Sent on same-site requests and top-level cross-site navigation.
    Lax,
    /// Sent on all requests (the `SameSite=None` attribute value).
    Unrestricted,
}

/// The attribute value that each `SameSite` policy serializes to.
pub open spec fn same_site_str(ss: SameSite) -> Seq<char> {
    match ss {
        SameSite::Strict => "Strict"@,
        SameSite::Lax => "Lax"@,
        SameSite::Unrestricted => "None"@,
    }
}

/// The policy for issuing and protecting the CSRF cookie.
#[derive(Clone)]
pub struct CsrfConfig {
    /// Cookie lifespan in seconds; zero makes a session cookie with no
    /// `Max-Age` attribute.
    pub lifespan: u64,
    /// CSRF cookie name.
    pub cookie_name: String,
    /// Secret token character length.
    pub cookie_len: usize,
    /// Cookie domain attribute, if any.
    pub cookie_domain: Option<String>,
    /// Cookie http-only flag.
    pub cookie_http_only: bool,
    /// Cookie path attribute.
    pub cookie_path: String,
    /// Restricts how the cookie is sent cross-site.
    pub cookie_same_site: SameSite,
    /// Cookie secure flag.
    pub cookie_secure: bool,
    /// Whether the emitted cookie name carries the `__Host-` prefix.
    pub prefix_with_host: bool,
    /// 64-byte master key enabling the private (encrypted) cookie jar.
    pub key: Option<Vec<u8>>,
    /// HMAC key material for authenticity-token derivation.
    pub salt: Vec<u8>,
}

impl CsrfConfig {
    /// The configuration is usable: a positive secret length, a cookie name
    /// that survives the cookie wire format, attribute values free of the
    /// `;` separator, a full-length key when one is set, and `Secure` set
    /// whenever the `__Host-` prefix is requested (host-prefixed cookies
    /// require it).
    pub open spec fn wf(self) -> bool {
        &&& self.cookie_len > 0
        &&& self.cookie_name@.len() > 0
        &&& all_cookie_name_chars(self.cookie_name@)
        &&& no_semicolon(self.cookie_path@)
        &&& (match self.cookie_domain {
            Option::Some(d) => no_semicolon(d@),
            Option::None => true,
        })
        &&& (match self.key {
            Option::Some(k) => k@.len() == 64,
            Option::None => true,
        })
        &&& (self.prefix_with_host ==> self.cookie_secure)
    }

    /// The name the emitted cookie actually carries: the configured name,
    /// with the `__Host-` prefix when requested.
    pub open spec fn effective_cookie_name(self) -> Seq<char> {
        if self.prefix_with_host {
            "__Host-"@ + self.cookie_name@
        } else {
            self.cookie_name@
        }
    }

    /// The effective name of a usable configuration still survives the
    /// cookie wire format.
    pub proof fn lemma_effective_name_wf(self)
        requires
            self.wf(),
        ensures
            self.effective_cookie_name().len() > 0,
            all_cookie_name_chars(self.effective_cookie_name()),
    {
        reveal_strlit("__Host-");
        if self.prefix_with_host {
            let p = "__Host-"@;
            let e = self.effective_cookie_name();
            assert(forall|i: int|
                0 <= i < p.len() ==> is_cookie_name_char(#[trigger] p[i])) by {
                reveal_strlit("__Host-");
            }
            assert forall|i: int| 0 <= i < e.len() implies is_cookie_name_char(
                #[trigger] e[i],
            ) by {
                if i < p.len() {
                    assert(e[i] == p[i]);
                } else {
                    assert(e[i] == self.cookie_name@[i - p.len()]);
                }
            }
        }
    }

    /// Creates the default configuration; equivalent to
    /// `CsrfConfig::default()`.
    pub fn new() -> (r: Self)
        ensures
            default_spec(r),
            r.wf(),
    {
        Self::default()
    }

    /// Sets the cookie's domain attribute.
    pub fn with_cookie_domain(self, name: Option<String>) -> (r: Self)
        ensures
            r == (CsrfConfig { cookie_domain: name, ..self }),
    {
        CsrfConfig { cookie_domain: name, ..self }
    }

    /// Sets the cookie's lifespan (expiration time) in seconds; zero makes
    /// a session cookie.
    pub fn with_lifetime(self, time: u64) -> (r: Self)
        ensures
            r == (CsrfConfig { lifespan: time, ..self }),
    {
        CsrfConfig { lifespan: time, ..self }
    }

    /// Sets the cookie's name.
    pub fn with_cookie_name(self, name: &str) -> (r: Self)
        ensures
            r.cookie_name@ == name@,
            r == (CsrfConfig { cookie_name: r.cookie_name, ..self }),
    {
        CsrfConfig { cookie_name: String::from_str(name), ..self }
    }

    /// Sets the cookie's path attribute; leave as the default `/` for the
    /// cookie to apply site-wide.
    pub fn with_cookie_path(self, path: &str) -> (r: Self)
        ensures
            r.cookie_path@ == path@,
            r == (CsrfConfig { cookie_path: r.cookie_path, ..self }),
    {
        CsrfConfig { cookie_path: String::from_str(path), ..self }
    }

    /// Sets the cookie's same-site policy.
    pub fn with_cookie_same_site(self, same_site: SameSite) -> (r: Self)
        ensures
            r == (CsrfConfig { cookie_same_site: same_site, ..self }),
    {
        CsrfConfig { cookie_same_site: same_site, ..self }
    }

    /// Sets the cookie's http-only flag.
    pub fn with_http_only(self, is_set: bool) -> (r: Self)
        ensures
            r == (CsrfConfig { cookie_http_only: is_set, ..self }),
    {
        CsrfConfig { cookie_http_only: is_set, ..self }
    }

    /// Sets the cookie's secure flag, for sending over https only.
    pub fn with_secure(self, is_set: bool) -> (r: Self)
        ensures
            r == (CsrfConfig { cookie_secure: is_set, ..self }),
    {
        CsrfConfig { cookie_secure: is_set, ..self }
    }

    /// Sets the secret token's character length.
    pub fn with_cookie_len(self, length: usize) -> (r: Self)
        ensures
            r == (CsrfConfig { cookie_len: length, ..self }),
    {
        CsrfConfig { cookie_len: length, ..self }
    }

    /// Sets the 64-byte encryption key, enabling private (encrypted)
    /// cookies; `None` stores cookie values in plaintext. Supply a stable
    /// key explicitly to keep cookies readable across process restarts.
    pub fn with_key(self, key: Option<Vec<u8>>) -> (r: Self)
        requires
            (match key {
                Option::Some(k) => k@.len() == 64,
                Option::None => true,
            }),
        ensures
            r == (CsrfConfig { key: key, ..self }),
    {
        CsrfConfig { key: key, ..self }
    }

    /// Sets the HMAC salt that authenticity tokens are derived with.
    pub fn with_salt(self, salt: Vec<u8>) -> (r: Self)
        ensures
            r == (CsrfConfig { salt: salt, ..self }),
    {
        CsrfConfig { salt: salt, ..self }
    }

    /// Sets whether the emitted cookie name carries the `__Host-` prefix;
    /// host-prefixed cookies also require the secure flag.
    pub fn with_prefix_with_host(self, is_set: bool) -> (r: Self)
        ensures
            r == (CsrfConfig { prefix_with_host: is_set, ..self }),
    {
        CsrfConfig { prefix_with_host: is_set, ..self }
    }

    /// The name the emitted cookie actually carries.
    pub fn effective_name(&self) -> (r: String)
        ensures
            r@ == self.effective_cookie_name(),
    {
        if self.prefix_with_host {
            let mut s = String::from_str("__Host-");
            s.append(self.cookie_name.as_str());
            s
        } else {
            self.cookie_name.clone()
        }
    }
}

/// `s` never holds the `;` cookie separator.
pub open spec fn no_semicolon(s: Seq<char>) -> bool {
    forall|i: int| 0 <= i < s.len() ==> #[trigger] s[i] != ';'
}

/// What the default configuration holds: secure-by-default flags, a 6-hour
/// lifespan, a 16-character secret and a freshly generated 64-byte key.
/// The key bytes are random, so only their presence and length are stated.
pub open spec fn default_spec(c: CsrfConfig) -> bool {
    &&& c.lifespan == 21600
    &&& c.cookie_name@ == "Csrf_Token"@
    &&& c.cookie_path@ == "/"@
    &&& c.cookie_http_only == true
    &&& c.cookie_secure == false
    &&& c.cookie_domain is None
    &&& c.cookie_same_site == SameSite::Lax
    &&& c.cookie_len == 16
    &&& c.prefix_with_host == false
    &&& (match c.key {
        Option::Some(k) => k@.len() == 64,
        Option::None => false,
    })
    &&& c.salt@ == "Csrf_Salt".spec_bytes()
}

impl Default for CsrfConfig {
    /// Secure-by-default values, with a freshly generated random key; supply
    /// a stable key through `with_key` to keep cookies readable across
    /// process restarts.
    fn default() -> (r: Self)
        ensures
            default_spec(r),
            r.wf(),
    {
        let r = CsrfConfig {
            lifespan: 21600,
            cookie_name: String::from_str("Csrf_Token"),
            cookie_path: String::from_str("/"),
            cookie_http_only: true,
            cookie_secure: false,
            cookie_domain: Option::None,
            cookie_same_site: SameSite::Lax,
            cookie_len: 16,
            prefix_with_host: false,
            key: Option::Some(crate::trusted::generate_key()),
            salt: vstd::slice::slice_to_vec("Csrf_Salt".as_bytes()),
        };
        proof {
            lemma_default_wf(r);
        }
        r
    }
}

/// The default configuration is well formed.
pub proof fn lemma_default_wf(c: CsrfConfig)
    requires
        default_spec(c),
    ensures
        c.wf(),
{
    reveal_strlit("Csrf_Token");
    reveal_strlit("/");
}

} // verus!
