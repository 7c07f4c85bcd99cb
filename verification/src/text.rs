//! Character classes and small string utilities used by the cookie grammar:
//! finding a separator, trimming whitespace, and decimal rendering.

use vstd::prelude::*;
use vstd::string::*;

verus! {

/// Whitespace that may surround a cookie segment, name or value.
pub open spec fn is_space_char(c: char) -> bool {
    c == ' ' || c == '\t'
}

/// The characters a generated secret consists of.
pub open spec fn is_alphanumeric_char(c: char) -> bool {
    ('a' <= c && c <= 'z') || ('A' <= c && c <= 'Z') || ('0' <= c && c <= '9')
}

/// Characters allowed in a cookie name so that the name survives the
/// `name=value; ...` wire format: no separator, no equals sign, no blank.
pub open spec fn is_cookie_name_char(c: char) -> bool {
    !(c == ';' || c == '=' || c == ' ' || c == '\t')
}

/// Characters allowed in a cookie value so that the value survives the
/// `name=value; ...` wire format: no separator, no blank.
pub open spec fn is_cookie_value_char(c: char) -> bool {
    !(c == ';' || c == ' ' || c == '\t')
}

/// The standard Base64 alphabet with padding, as emitted for encrypted
/// cookie values and authenticity tokens.
pub open spec fn is_base64_char(c: char) -> bool {
    is_alphanumeric_char(c) || c == '+' || c == '/' || c == '='
}

/// Every character of `s` satisfies `is_cookie_name_char`.
pub open spec fn all_cookie_name_chars(s: Seq<char>) -> bool {
    forall|i: int| 0 <= i < s.len() ==> is_cookie_name_char(#[trigger] s[i])
}

/// Every character of `s` satisfies `is_cookie_value_char`.
pub open spec fn all_cookie_value_chars(s: Seq<char>) -> bool {
    forall|i: int| 0 <= i < s.len() ==> is_cookie_value_char(#[trigger] s[i])
}

/// Every character of `s` satisfies `is_alphanumeric_char`.
pub open spec fn all_alphanumeric_chars(s: Seq<char>) -> bool {
    forall|i: int| 0 <= i < s.len() ==> is_alphanumeric_char(#[trigger] s[i])
}

/// Every character of `s` satisfies `is_base64_char`.
pub open spec fn all_base64_chars(s: Seq<char>) -> bool {
    forall|i: int| 0 <= i < s.len() ==> is_base64_char(#[trigger] s[i])
}

/// Alphanumeric characters are legal cookie-value characters.
pub proof fn lemma_alphanumeric_value_chars(s: Seq<char>)
    requires
        all_alphanumeric_chars(s),
    ensures
        all_cookie_value_chars(s),
{
    assert forall|i: int| 0 <= i < s.len() implies is_cookie_value_char(#[trigger] s[i]) by {
        assert(is_alphanumeric_char(s[i]));
    }
}

/// Base64 characters are legal cookie-value characters.
pub proof fn lemma_base64_value_chars(s: Seq<char>)
    requires
        all_base64_chars(s),
    ensures
        all_cookie_value_chars(s),
{
    assert forall|i: int| 0 <= i < s.len() implies is_cookie_value_char(#[trigger] s[i]) by {
        assert(is_base64_char(s[i]));
    }
}

/// The position of the first occurrence of `c` in `s`, if any.
pub open spec fn find_char(s: Seq<char>, c: char) -> Option<int>
    decreases s.len(),
{
    if s.len() == 0 {
        Option::None
    } else if s[0] == c {
        Option::Some(0)
    } else {
        match find_char(s.drop_first(), c) {
            Option::Some(i) => Option::Some(i + 1),
            Option::None => Option::None,
        }
    }
}

/// What `find_char` returns: the first index holding `c`, or nothing when
/// `c` does not occur.
pub proof fn lemma_find_char(s: Seq<char>, c: char)
    ensures
        match find_char(s, c) {
            Option::Some(i) => 0 <= i < s.len() && s[i] == c && (forall|j: int|
                0 <= j < i ==> s[j] != c),
            Option::None => forall|j: int| 0 <= j < s.len() ==> s[j] != c,
        },
    decreases s.len(),
{
    if s.len() > 0 && s[0] != c {
        let t = s.drop_first();
        lemma_find_char(t, c);
        match find_char(t, c) {
            Option::Some(i) => {
                assert(find_char(s, c) == Option::Some(i + 1));
                assert(s[i + 1] == t[i]);
                assert forall|j: int| 0 <= j < i + 1 implies s[j] != c by {
                    if j > 0 {
                        assert(s[j] == t[j - 1]);
                    }
                }
            },
            Option::None => {
                assert forall|j: int| 0 <= j < s.len() implies s[j] != c by {
                    if j > 0 {
                        assert(s[j] == t[j - 1]);
                    }
                }
            },
        }
    }
}

/// `s` without its leading whitespace.
pub open spec fn trim_front(s: Seq<char>) -> Seq<char>
    decreases s.len(),
{
    if s.len() > 0 && is_space_char(s[0]) {
        trim_front(s.drop_first())
    } else {
        s
    }
}

/// `s` without its trailing whitespace.
pub open spec fn trim_back(s: Seq<char>) -> Seq<char>
    decreases s.len(),
{
    if s.len() > 0 && is_space_char(s[s.len() - 1]) {
        trim_back(s.drop_last())
    } else {
        s
    }
}

/// `s` without leading or trailing whitespace.
pub open spec fn trim(s: Seq<char>) -> Seq<char> {
    trim_back(trim_front(s))
}

/// Trimming a sequence without boundary whitespace leaves it unchanged.
pub proof fn lemma_trim_noop(s: Seq<char>)
    requires
        s.len() > 0 ==> !is_space_char(s[0]) && !is_space_char(s[s.len() - 1]),
    ensures
        trim(s) == s,
{
}

/// The decimal rendering of `n`, most significant digit first.
pub open spec fn dec_str_of(n: nat) -> Seq<char>
    decreases n,
{
    if n < 10 {
        seq![digit_char(n)]
    } else {
        dec_str_of(n / 10) + seq![digit_char(n % 10)]
    }
}

/// The character for the decimal digit `d`.
pub open spec fn digit_char(d: nat) -> char
    recommends
        d < 10,
{
    ((48 + d) as u8) as char
}

/// Decides `is_space_char`.
pub fn char_is_space(c: char) -> (r: bool)
    ensures
        r == is_space_char(c),
{
    c == ' ' || c == '\t'
}

/// Decides `is_alphanumeric_char`.
pub fn char_is_alphanumeric(c: char) -> (r: bool)
    ensures
        r == is_alphanumeric_char(c),
{
    ('a' <= c && c <= 'z') || ('A' <= c && c <= 'Z') || ('0' <= c && c <= '9')
}

/// Decides `is_cookie_name_char`.
pub fn char_is_cookie_name(c: char) -> (r: bool)
    ensures
        r == is_cookie_name_char(c),
{
    !(c == ';' || c == '=' || c == ' ' || c == '\t')
}

/// Decides `is_cookie_value_char`.
pub fn char_is_cookie_value(c: char) -> (r: bool)
    ensures
        r == is_cookie_value_char(c),
{
    !(c == ';' || c == ' ' || c == '\t')
}

/// The position of the first occurrence of `c` in `s`, if any.
pub fn find_char_str(s: &str, c: char) -> (r: Option<usize>)
    ensures
        match r {
            Option::Some(i) => find_char(s@, c) == Option::Some(i as int),
            Option::None => find_char(s@, c) is None,
        },
{
    let n = s.unicode_len();
    let mut i: usize = 0;
    while i < n
        invariant
            n == s@.len(),
            0 <= i <= n,
            forall|j: int| 0 <= j < i ==> s@[j] != c,
        decreases n - i,
    {
        if s.get_char(i) == c {
            proof {
                lemma_find_char(s@, c);
            }
            return Option::Some(i);
        }
        i = i + 1;
    }
    proof {
        lemma_find_char(s@, c);
    }
    Option::None
}

/// `s` without its leading whitespace.
pub fn trim_front_str<'a>(s: &'a str) -> (r: &'a str)
    ensures
        r@ == trim_front(s@),
    decreases s@.len(),
{
    let n = s.unicode_len();
    if n > 0 {
        let c0 = s.get_char(0);
        if c0 == ' ' || c0 == '\t' {
            let t = s.substring_char(1, n);
            proof {
                assert(t@ =~= s@.drop_first());
            }
            return trim_front_str(t);
        }
    }
    s
}

/// `s` without its trailing whitespace.
pub fn trim_back_str<'a>(s: &'a str) -> (r: &'a str)
    ensures
        r@ == trim_back(s@),
    decreases s@.len(),
{
    let n = s.unicode_len();
    if n > 0 {
        let cl = s.get_char(n - 1);
        if cl == ' ' || cl == '\t' {
            let t = s.substring_char(0, n - 1);
            proof {
                assert(t@ =~= s@.drop_last());
            }
            return trim_back_str(t);
        }
    }
    s
}

/// `s` without leading or trailing whitespace.
pub fn trim_str<'a>(s: &'a str) -> (r: &'a str)
    ensures
        r@ == trim(s@),
{
    trim_back_str(trim_front_str(s))
}

} // verus!
