//! The per-request cookie store: parsing the `Cookie` request headers into an
//! "original" snapshot, reading a named cookie through the plain or the
//! private (encrypted) path, recording added cookies, and serializing the
//! delta as `Set-Cookie` header values.
//!
//! Parsing follows the wire format `name1=value1; name2=value2`: each header
//! value is split on `;`, each segment is split at its first `=` with
//! whitespace trimmed, and malformed segments are dropped silently so that a
//! corrupted cookie never fails the request.

use vstd::prelude::*;
use vstd::string::*;
use crate::config::{CsrfConfig, same_site_str};
use crate::text::{
    find_char, trim, trim_front, trim_back, find_char_str, trim_str, trim_front_str,
    trim_back_str, lemma_find_char, lemma_trim_noop, dec_str_of, is_space_char,
    is_cookie_name_char, is_cookie_value_char, all_cookie_name_chars, all_cookie_value_chars,
};
use crate::trusted::{sealed_secret_of, seal_value, unseal_value, u64_to_dec_string};

verus! {

/// One cookie as it stands on the wire: a name and a value.
pub struct CookieEntry {
    /// The cookie's name.
    pub name: String,
    /// The cookie's value, encrypted in private-jar mode.
    pub value: String,
}

impl CookieEntry {
    /// The entry as a pair of character sequences.
    pub open spec fn pair(self) -> (Seq<char>, Seq<char>) {
        (self.name@, self.value@)
    }
}

/// A sequence of entries as pairs of character sequences.
pub open spec fn entries_view(v: Seq<CookieEntry>) -> Seq<(Seq<char>, Seq<char>)> {
    v.map_values(|e: CookieEntry| e.pair())
}

/// What one `name=value` segment of a `Cookie` header parses to: whitespace
/// is trimmed around the segment, the name and the value, the name must be
/// nonempty, and a segment without `=` is malformed.
pub open spec fn parse_segment_spec(s: Seq<char>) -> Option<(Seq<char>, Seq<char>)> {
    let t = trim(s);
    match find_char(t, '=') {
        Option::None => Option::None,
        Option::Some(i) => {
            let n = trim_back(t.subrange(0, i));
            let v = trim_front(t.subrange(i + 1, t.len() as int));
            if n.len() == 0 {
                Option::None
            } else {
                Option::Some((n, v))
            }
        },
    }
}

/// The pairs of one parsed segment: one for a well-formed segment, none for
/// a malformed one.
pub open spec fn segment_pairs(s: Seq<char>) -> Seq<(Seq<char>, Seq<char>)> {
    match parse_segment_spec(s) {
        Option::Some(p) => seq![p],
        Option::None => Seq::empty(),
    }
}

/// The pairs parsed from one `Cookie` header value: its segments, split on
/// `;`, each parsed, malformed ones dropped.
pub open spec fn parse_header_pairs(s: Seq<char>) -> Seq<(Seq<char>, Seq<char>)>
    decreases s.len(),
{
    match find_char(s, ';') {
        Option::Some(i) => {
            proof {
                lemma_find_char(s, ';');
            }
            segment_pairs(s.subrange(0, i)) + parse_header_pairs(
                s.subrange(i + 1, s.len() as int),
            )
        },
        Option::None => segment_pairs(s),
    }
}

/// The pairs parsed from a sequence of `Cookie` header values, in order.
pub open spec fn parse_headers_pairs(hs: Seq<Seq<char>>) -> Seq<(Seq<char>, Seq<char>)>
    decreases hs.len(),
{
    if hs.len() == 0 {
        Seq::empty()
    } else {
        parse_header_pairs(hs[0]) + parse_headers_pairs(hs.drop_first())
    }
}

/// The value of the last pair named `name`, if any: a later cookie with the
/// same name overrides an earlier one.
pub open spec fn lookup_pairs(ps: Seq<(Seq<char>, Seq<char>)>, name: Seq<char>) -> Option<
    Seq<char>,
>
    decreases ps.len(),
{
    if ps.len() == 0 {
        Option::None
    } else if ps.last().0 == name {
        Option::Some(ps.last().1)
    } else {
        lookup_pairs(ps.drop_last(), name)
    }
}

/// A header holding exactly one well-formed `name=value` pair — a name of
/// legal name characters, an `=`, and a value of legal value characters —
/// parses to exactly that pair. This is the shape of every cookie this
/// library emits, so a cookie sent back by the client is recovered as it
/// was issued.
pub proof fn lemma_parse_simple_pair(name: Seq<char>, value: Seq<char>)
    requires
        name.len() > 0,
        all_cookie_name_chars(name),
        all_cookie_value_chars(value),
    ensures
        parse_header_pairs(name + "="@ + value) == seq![(name, value)],
{
    reveal_strlit("=");
    let eq = "="@;
    let s = name + eq + value;
    assert(s.len() == name.len() + 1 + value.len());
    assert(s[name.len() as int] == '=');
    assert forall|i: int| 0 <= i < s.len() implies #[trigger] s[i] != ';' && !is_space_char(
        s[i],
    ) by {
        if i < name.len() {
            assert(s[i] == name[i]);
            assert(is_cookie_name_char(name[i]));
        } else if i == name.len() {
            assert(s[i] == '=');
        } else {
            assert(s[i] == value[i - name.len() - 1]);
            assert(is_cookie_value_char(value[i - name.len() - 1]));
        }
    }
    lemma_find_char(s, ';');
    match find_char(s, ';') {
        Option::Some(i) => {
            assert(false);
        },
        Option::None => {},
    }
    assert(parse_header_pairs(s) == segment_pairs(s));
    lemma_trim_noop(s);
    assert(trim(s) == s);
    lemma_find_char(s, '=');
    match find_char(s, '=') {
        Option::None => {
            assert(false);
        },
        Option::Some(i) => {
            if i < name.len() {
                assert(s[i] == name[i]);
                assert(is_cookie_name_char(name[i]));
                assert(false);
            }
            if i > name.len() {
                assert(s[name.len() as int] != '=');
                assert(false);
            }
            assert(i == name.len());
            assert(s.subrange(0, i) =~= name);
            assert(!is_space_char(name[name.len() - 1]));
            assert(trim_back(name) == name);
            assert(s.subrange(i + 1, s.len() as int) =~= value);
            if value.len() > 0 {
                assert(!is_space_char(value[0]));
            }
            assert(trim_front(value) == value);
            assert(parse_segment_spec(s) == Option::Some((name, value)));
            assert(segment_pairs(s) =~= seq![(name, value)]);
        },
    }
}

/// Parses one segment and appends the resulting pair, if any, to `out`.
fn push_segment(seg: &str, out: &mut Vec<CookieEntry>)
    ensures
        entries_view(final(out)@) == entries_view(old(out)@) + segment_pairs(seg@),
{
    let ghost pre = out@;
    let t = trim_str(seg);
    match find_char_str(t, '=') {
        Option::None => {
            assert(entries_view(out@) =~= entries_view(pre) + segment_pairs(seg@));
        },
        Option::Some(i) => {
            proof {
                lemma_find_char(t@, '=');
            }
            let n = t.unicode_len();
            let raw_name = t.substring_char(0, i);
            let name = trim_back_str(raw_name);
            let raw_value = t.substring_char(i + 1, n);
            let value = trim_front_str(raw_value);
            if name.unicode_len() > 0 {
                out.push(
                    CookieEntry {
                        name: String::from_str(name),
                        value: String::from_str(value),
                    },
                );
                proof {
                    assert(entries_view(out@) =~= entries_view(pre) + segment_pairs(seg@));
                }
            } else {
                assert(entries_view(out@) =~= entries_view(pre) + segment_pairs(seg@));
            }
        },
    }
}

/// Parses one full `Cookie` header value, appending every well-formed
/// segment to `out`.
fn parse_header_into(s: &str, out: &mut Vec<CookieEntry>)
    ensures
        entries_view(final(out)@) == entries_view(old(out)@) + parse_header_pairs(s@),
    decreases s@.len(),
{
    let ghost pre = out@;
    match find_char_str(s, ';') {
        Option::Some(i) => {
            proof {
                lemma_find_char(s@, ';');
            }
            let n = s.unicode_len();
            let seg = s.substring_char(0, i);
            push_segment(seg, out);
            let rest = s.substring_char(i + 1, n);
            parse_header_into(rest, out);
            proof {
                assert(entries_view(out@) =~= entries_view(pre) + parse_header_pairs(s@));
            }
        },
        Option::None => {
            push_segment(s, out);
        },
    }
}

/// Parses every `Cookie` header value into a fresh jar's original
/// snapshot. Malformed segments are dropped; this never fails.
pub fn get_cookies(headers: &Vec<String>) -> (r: CookieJar)
    ensures
        r.original_pairs() == parse_headers_pairs(headers.deep_view()),
        r.added_pairs() == Seq::<(Seq<char>, Seq<char>)>::empty(),
{
    let ghost hv = headers.deep_view();
    let mut original: Vec<CookieEntry> = Vec::new();
    let mut i: usize = 0;
    proof {
        assert(hv.subrange(0, hv.len() as int) =~= hv);
        assert(entries_view(original@) =~= Seq::<(Seq<char>, Seq<char>)>::empty());
    }
    while i < headers.len()
        invariant
            0 <= i <= headers@.len(),
            hv == headers.deep_view(),
            hv.len() == headers@.len(),
            entries_view(original@) + parse_headers_pairs(
                hv.subrange(i as int, hv.len() as int),
            ) == parse_headers_pairs(hv),
        decreases headers@.len() - i,
    {
        let ghost pre = entries_view(original@);
        let ghost rest = hv.subrange(i as int, hv.len() as int);
        proof {
            assert(rest[0] == headers@[i as int]@);
            assert(rest.drop_first() =~= hv.subrange(i as int + 1, hv.len() as int));
        }
        parse_header_into(headers[i].as_str(), &mut original);
        i = i + 1;
        proof {
            assert(entries_view(original@) + parse_headers_pairs(
                hv.subrange(i as int, hv.len() as int),
            ) =~= parse_headers_pairs(hv));
        }
    }
    proof {
        assert(hv.subrange(i as int, hv.len() as int).len() == 0);
        assert(entries_view(original@) + parse_headers_pairs(
            hv.subrange(i as int, hv.len() as int),
        ) =~= entries_view(original@));
    }
    let r = CookieJar { original, added: Vec::new() };
    proof {
        assert(r.added_pairs() =~= Seq::<(Seq<char>, Seq<char>)>::empty());
    }
    r
}

/// The per-request cookie store: the "original" snapshot parsed from the
/// request headers, and the cookies added for the response (the delta).
pub struct CookieJar {
    /// The cookies the request brought, in parse order.
    pub original: Vec<CookieEntry>,
    /// The cookies added for the response, values already on wire form.
    pub added: Vec<CookieEntry>,
}

/// The optional key as an optional byte sequence.
pub open spec fn key_view(key: Option<Vec<u8>>) -> Option<Seq<u8>> {
    match key {
        Option::Some(k) => Option::Some(k@),
        Option::None => Option::None,
    }
}

/// The key is either absent or a full 64-byte master key.
pub open spec fn key_wf(key: Option<Vec<u8>>) -> bool {
    match key {
        Option::Some(k) => k@.len() == 64,
        Option::None => true,
    }
}

/// What reading `name` from the parsed pairs yields: the last cookie of
/// that name, decrypted when a key is given; a missing cookie, a failed
/// decryption and a forged value alike yield nothing.
pub open spec fn get_cookie_spec(
    pairs: Seq<(Seq<char>, Seq<char>)>,
    name: Seq<char>,
    key: Option<Seq<u8>>,
) -> Option<Seq<char>> {
    match lookup_pairs(pairs, name) {
        Option::None => Option::None,
        Option::Some(v) => match key {
            Option::None => Option::Some(v),
            Option::Some(k) => sealed_secret_of(k, name, v),
        },
    }
}

impl CookieJar {
    /// The original snapshot as pairs of character sequences.
    pub open spec fn original_pairs(self) -> Seq<(Seq<char>, Seq<char>)> {
        entries_view(self.original@)
    }

    /// The added cookies as pairs of character sequences.
    pub open spec fn added_pairs(self) -> Seq<(Seq<char>, Seq<char>)> {
        entries_view(self.added@)
    }

    /// An empty jar.
    pub fn new() -> (r: Self)
        ensures
            r.original_pairs() == Seq::<(Seq<char>, Seq<char>)>::empty(),
            r.added_pairs() == Seq::<(Seq<char>, Seq<char>)>::empty(),
    {
        let r = CookieJar { original: Vec::new(), added: Vec::new() };
        proof {
            assert(r.original_pairs() =~= Seq::<(Seq<char>, Seq<char>)>::empty());
            assert(r.added_pairs() =~= Seq::<(Seq<char>, Seq<char>)>::empty());
        }
        r
    }

    /// The raw wire value of the last original cookie named `name`, if any.
    fn lookup_original(&self, name: &str) -> (r: Option<String>)
        ensures
            match r {
                Option::Some(v) => lookup_pairs(self.original_pairs(), name@)
                    == Option::Some(v@),
                Option::None => lookup_pairs(self.original_pairs(), name@) is None,
            },
    {
        let name_s = String::from_str(name);
        let ghost pairs = self.original_pairs();
        let mut i: usize = self.original.len();
        proof {
            assert(pairs =~= entries_view(self.original@.subrange(0, i as int)));
        }
        while i > 0
            invariant
                0 <= i <= self.original@.len(),
                name_s@ == name@,
                pairs == self.original_pairs(),
                lookup_pairs(pairs, name@) == lookup_pairs(
                    entries_view(self.original@.subrange(0, i as int)),
                    name@,
                ),
            decreases i,
        {
            i = i - 1;
            let ghost upto = entries_view(self.original@.subrange(0, i + 1));
            proof {
                assert(upto.last() == self.original@[i as int].pair());
                assert(upto.drop_last() =~= entries_view(
                    self.original@.subrange(0, i as int),
                ));
            }
            if self.original[i].name == name_s {
                return Option::Some(self.original[i].value.clone());
            }
        }
        proof {
            assert(entries_view(self.original@.subrange(0, 0)) =~= Seq::<(
                Seq<char>,
                Seq<char>,
            )>::empty());
        }
        Option::None
    }

    /// Reads the cookie named `name`: through the private (decrypting) path
    /// when a key is given, as plaintext otherwise. A missing cookie and an
    /// undecryptable one alike yield `None`, never an error.
    pub fn get_cookie(&self, name: &str, key: &Option<Vec<u8>>) -> (r: Option<String>)
        requires
            key_wf(*key),
        ensures
            match r {
                Option::Some(v) => get_cookie_spec(self.original_pairs(), name@, key_view(*key))
                    == Option::Some(v@),
                Option::None => get_cookie_spec(self.original_pairs(), name@, key_view(*key))
                    is None,
            },
    {
        match self.lookup_original(name) {
            Option::None => Option::None,
            Option::Some(v) => match key {
                Option::None => Option::Some(v),
                Option::Some(k) => unseal_value(k.as_slice(), name, v.as_str()),
            },
        }
    }

    /// Adds a cookie to the response delta, sealing (encrypting) its value
    /// first when a key is given.
    pub fn add_cookie(&mut self, name: String, value: String, key: &Option<Vec<u8>>)
        requires
            key_wf(*key),
        ensures
            final(self).original == old(self).original,
            final(self).added@.len() == old(self).added@.len() + 1,
            final(self).added@.drop_last() == old(self).added@,
            ({
                let e = final(self).added@.last();
                &&& e.name@ == name@
                &&& (match key_view(*key) {
                    Option::None => e.value@ == value@,
                    Option::Some(k) => sealed_secret_of(k, name@, e.value@) == Option::Some(
                        value@,
                    ) && crate::text::all_base64_chars(e.value@) && e.value@.len() > 0,
                })
            }),
    {
        let ghost pre = self.added@;
        match key {
            Option::None => self.added.push(CookieEntry { name, value }),
            Option::Some(k) => {
                let wire = seal_value(k.as_slice(), name.as_str(), value.as_str());
                self.added.push(CookieEntry { name, value: wire });
            },
        }
        proof {
            assert(self.added@.drop_last() =~= pre);
        }
    }
}

/// The `Set-Cookie` header value issued for a cookie under the configured
/// attributes, leading part: `name=value; Path=...; SameSite=...`.
pub open spec fn set_cookie_base_spec(
    cfg: CsrfConfig,
    name: Seq<char>,
    value: Seq<char>,
) -> Seq<char> {
    name + "="@ + value + "; Path="@ + cfg.cookie_path@ + "; SameSite="@ + same_site_str(
        cfg.cookie_same_site,
    )
}

/// The flag and expiry attributes that follow the base part: `Domain`,
/// `Secure` and `HttpOnly` as configured, and `Max-Age` only for a nonzero
/// lifespan.
pub open spec fn set_cookie_string_spec(
    cfg: CsrfConfig,
    name: Seq<char>,
    value: Seq<char>,
) -> Seq<char> {
    let base = set_cookie_base_spec(cfg, name, value);
    let with_domain = match cfg.cookie_domain {
        Option::Some(d) => base + "; Domain="@ + d@,
        Option::None => base,
    };
    let with_secure = if cfg.cookie_secure {
        with_domain + "; Secure"@
    } else {
        with_domain
    };
    let with_http_only = if cfg.cookie_http_only {
        with_secure + "; HttpOnly"@
    } else {
        with_secure
    };
    if cfg.lifespan > 0 {
        with_http_only + "; Max-Age="@ + dec_str_of(cfg.lifespan as nat)
    } else {
        with_http_only
    }
}

/// Builds the `Set-Cookie` header value for one cookie.
pub fn build_set_cookie(cfg: &CsrfConfig, name: &str, value: &str) -> (r: String)
    ensures
        r@ == set_cookie_string_spec(*cfg, name@, value@),
{
    let mut s = String::from_str(name);
    s.append("=");
    s.append(value);
    s.append("; Path=");
    s.append(cfg.cookie_path.as_str());
    s.append("; SameSite=");
    match cfg.cookie_same_site {
        crate::config::SameSite::Strict => s.append("Strict"),
        crate::config::SameSite::Lax => s.append("Lax"),
        crate::config::SameSite::Unrestricted => s.append("None"),
    }
    proof {
        assert(s@ =~= set_cookie_base_spec(*cfg, name@, value@));
    }
    match &cfg.cookie_domain {
        Option::Some(d) => {
            s.append("; Domain=");
            s.append(d.as_str());
        },
        Option::None => {},
    }
    let ghost with_domain = s@;
    if cfg.cookie_secure {
        s.append("; Secure");
    }
    let ghost with_secure = s@;
    if cfg.cookie_http_only {
        s.append("; HttpOnly");
    }
    let ghost with_http_only = s@;
    if cfg.lifespan > 0 {
        s.append("; Max-Age=");
        let ds = u64_to_dec_string(cfg.lifespan);
        s.append(ds.as_str());
    }
    proof {
        let base = set_cookie_base_spec(*cfg, name@, value@);
        assert(with_domain =~= (match cfg.cookie_domain {
            Option::Some(d) => base + "; Domain="@ + d@,
            Option::None => base,
        }));
        if cfg.lifespan > 0 {
            assert(s@ =~= with_http_only + "; Max-Age="@ + dec_str_of(cfg.lifespan as nat));
        }
        assert(s@ == set_cookie_string_spec(*cfg, name@, value@));
    }
    s
}

/// The `Set-Cookie` header values belonging to the added cookies, in order.
pub open spec fn delta_headers_spec(
    cfg: CsrfConfig,
    added: Seq<(Seq<char>, Seq<char>)>,
) -> Seq<Seq<char>> {
    added.map_values(|p: (Seq<char>, Seq<char>)| set_cookie_string_spec(cfg, p.0, p.1))
}

/// Serializes the jar's delta — the cookies added for the response — as
/// `Set-Cookie` header values.
pub fn set_cookies(jar: &CookieJar, cfg: &CsrfConfig) -> (r: Vec<String>)
    ensures
        r.deep_view() == delta_headers_spec(*cfg, jar.added_pairs()),
{
    let mut out: Vec<String> = Vec::new();
    let mut i: usize = 0;
    while i < jar.added.len()
        invariant
            0 <= i <= jar.added@.len(),
            out.deep_view() == delta_headers_spec(
                *cfg,
                entries_view(jar.added@.subrange(0, i as int)),
            ),
        decreases jar.added@.len() - i,
    {
        let h = build_set_cookie(cfg, jar.added[i].name.as_str(), jar.added[i].value.as_str());
        out.push(h);
        i = i + 1;
        proof {
            let s0 = entries_view(jar.added@.subrange(0, i - 1));
            let s1 = entries_view(jar.added@.subrange(0, i as int));
            assert(s1 =~= s0.push(jar.added@[i - 1].pair()));
            assert(delta_headers_spec(*cfg, s1) =~= delta_headers_spec(*cfg, s0).push(
                set_cookie_string_spec(
                    *cfg,
                    jar.added@[i - 1].name@,
                    jar.added@[i - 1].value@,
                ),
            ));
            assert(out.deep_view() =~= delta_headers_spec(*cfg, s1));
        }
    }
    proof {
        assert(jar.added@.subrange(0, jar.added@.len() as int) =~= jar.added@);
        assert(out.deep_view() =~= delta_headers_spec(*cfg, jar.added_pairs()));
    }
    out
}

} // verus!
