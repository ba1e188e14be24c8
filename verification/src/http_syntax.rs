//! The pieces of HTTP syntax that requests and responses are checked
//! against, with the parsers of the `http` crate behind them.

use vstd::prelude::*;

verus! {

/// A `tchar` of RFC 9110: the characters a method or a header name is made of.
pub open spec fn is_tchar(c: char) -> bool {
    ||| ('a' <= c && c <= 'z')
    ||| ('A' <= c && c <= 'Z')
    ||| ('0' <= c && c <= '9')
    ||| c == '!' || c == '#' || c == '$' || c == '%' || c == '&' || c == '\''
    ||| c == '*' || c == '+' || c == '-' || c == '.' || c == '^' || c == '_'
    ||| c == '`' || c == '|' || c == '~'
}

/// A valid request method: a non-empty run of `tchar`s (methods are case-sensitive).
pub open spec fn is_method(s: Seq<char>) -> bool {
    &&& s.len() > 0
    &&& forall|i: int| 0 <= i < s.len() ==> is_tchar(#[trigger] s[i])
}

/// The longest header name the `http` crate accepts.
pub const MAX_HEADER_NAME_LEN: usize = 65535;

/// A valid header name: between one and `MAX_HEADER_NAME_LEN` `tchar`s.
pub open spec fn is_header_name(s: Seq<char>) -> bool {
    &&& 1 <= s.len() <= MAX_HEADER_NAME_LEN
    &&& forall|i: int| 0 <= i < s.len() ==> is_tchar(#[trigger] s[i])
}

/// A character with ASCII upper case mapped to lower case.
pub open spec fn ascii_lower_char(c: char) -> char {
    if 'A' <= c && c <= 'Z' {
        ((c as u32) + 32) as char
    } else {
        c
    }
}

/// A text with ASCII upper case mapped to lower case.
pub open spec fn ascii_lower(s: Seq<char>) -> Seq<char> {
    s.map_values(|c: char| ascii_lower_char(c))
}

/// A character a header value may hold: anything but control characters
/// other than horizontal tab, and DEL.
pub open spec fn is_header_value_char(c: char) -> bool {
    c == '\t' || (c as u32 >= 32 && c as u32 != 127)
}

/// A valid header value text.
pub open spec fn is_header_value(s: Seq<char>) -> bool {
    forall|i: int| 0 <= i < s.len() ==> is_header_value_char(#[trigger] s[i])
}

/// A byte that `HeaderValue::to_str` lets through: visible ASCII or tab.
pub open spec fn is_visible_ascii(b: u8) -> bool {
    (32 <= b && b < 127) || b == 9
}

/// The text of a header value, when all its bytes are visible ASCII.
pub open spec fn visible_text(v: Seq<u8>) -> Option<Seq<char>> {
    if forall|i: int| 0 <= i < v.len() ==> is_visible_ascii(#[trigger] v[i]) {
        Some(v.map_values(|b: u8| b as char))
    } else {
        None
    }
}

/// A header value is handed on as text exactly when every byte is visible
/// ASCII or tab, and then unchanged: one character per byte, each with the
/// byte's code.
pub proof fn lemma_visible_text_unchanged(v: Seq<u8>)
    ensures
        visible_text(v) is Some <==> forall|i: int| 0 <= i < v.len() ==> is_visible_ascii(#[trigger] v[i]),
        visible_text(v) matches Some(t) ==> {
            &&& t.len() == v.len()
            &&& forall|i: int| 0 <= i < v.len() ==> (#[trigger] t[i] as u32) == v[i] as u32
        },
{
    if visible_text(v) is Some {
        let t = visible_text(v).unwrap();
        assert forall|i: int| 0 <= i < v.len() implies (#[trigger] t[i] as u32) == v[i] as u32 by {
            let b: u8 = v[i];
            assert(t[i] == b as char);
            assert((b as char) as u32 == b as u32);
        }
    }
}

/// What the `http` crate makes of a URI text: its normalised form, or
/// `None` where it rejects it.
pub uninterp spec fn uri_text(s: Seq<char>) -> Option<Seq<char>>;

/// Parses a request method (`http::Method::from_str`) and gives back its text
/// (`Method::as_str`).
///
/// Trusted: the method is accepted exactly when it is a non-empty run of
/// `tchar`s, and its text is the input unchanged.
#[verifier::external_body]
pub(crate) fn parse_method(s: &str) -> (r: Option<String>)
    ensures
        r is Some <==> is_method(s@),
        r matches Some(m) ==> m@ == s@,
{
    <http::Method as std::str::FromStr>::from_str(s).ok().map(|m| m.as_str().to_string())
}

/// Parses a header name (`http::HeaderName::from_bytes`) and gives back its
/// normalised text (`HeaderName::as_str`).
///
/// Trusted: the name is accepted exactly when it is one to `MAX_HEADER_NAME_LEN`
/// `tchar`s, and its text is the input in ASCII lower case.
#[verifier::external_body]
pub(crate) fn parse_header_name(s: &str) -> (r: Option<String>)
    ensures
        r is Some <==> is_header_name(s@),
        r matches Some(n) ==> n@ == ascii_lower(s@),
{
    http::HeaderName::from_bytes(s.as_bytes()).ok().map(|n| n.as_str().to_string())
}

/// Whether `http::HeaderValue::from_str` accepts a header value text.
///
/// Trusted: it is accepted exactly when no character is a control character
/// other than tab, or DEL (the bytes of a non-ASCII character are all above 127).
#[verifier::external_body]
pub(crate) fn accepts_header_value(s: &str) -> (r: bool)
    ensures
        r == is_header_value(s@),
{
    http::HeaderValue::from_str(s).is_ok()
}

/// Parses a URI (`http::Uri::try_from`) and gives back its text (`Uri`'s `Display`).
///
/// Trusted: the result is `uri_text` of the input; what the parser accepts and
/// how it normalises is not restated here.
#[verifier::external_body]
pub(crate) fn parse_uri(s: &str) -> (r: Option<String>)
    ensures
        match r {
            Some(u) => uri_text(s@) == Some(u@),
            None => uri_text(s@) is None,
        },
{
    http::Uri::try_from(s).ok().map(|u| u.to_string())
}

/// The text of a header value as `http::HeaderValue::to_str` gives it: present
/// when every byte is visible ASCII or tab, each byte then read as a character.
pub fn header_value_to_str(v: &Vec<u8>) -> (r: Option<String>)
    ensures
        match r {
            Some(t) => visible_text(v@) == Some(t@),
            None => visible_text(v@) is None,
        },
{
    let mut i: usize = 0;
    while i < v.len()
        invariant
            0 <= i <= v.len(),
            forall|j: int| 0 <= j < i ==> is_visible_ascii(#[trigger] v@[j]),
        decreases v.len() - i,
    {
        let b: u8 = v[i];
        if !((32 <= b && b < 127) || b == 9) {
            assert(!is_visible_ascii(v@[i as int]));
            return None;
        }
        i = i + 1;
    }
    let mut t = String::new();
    let mut k: usize = 0;
    while k < v.len()
        invariant
            0 <= k <= v.len(),
            t@ == v@.subrange(0, k as int).map_values(|b: u8| b as char),
        decreases v.len() - k,
    {
        crate::text::push_char(&mut t, v[k] as char);
        k = k + 1;
        assert(t@ =~= v@.subrange(0, k as int).map_values(|b: u8| b as char));
    }
    assert(v@.subrange(0, v.len() as int) =~= v@);
    Some(t)
}

} // verus!
