//! Plain-value models of the HTTP messages that cross the URL scheme handler.

use crate::http_syntax::{ascii_lower, is_header_name, parse_header_name};
use vstd::prelude::*;

verus! {

/// The HTTP version of a response.
#[derive(Debug, Clone, Copy, PartialEq, Eq, Structural)]
pub enum HttpVersion {
    Http09,
    Http10,
    Http11,
    H2,
    H3,
}

/// The text the platform is given for a version (`http::Version`'s `Debug` form).
pub open spec fn version_text(v: HttpVersion) -> Seq<char> {
    match v {
        HttpVersion::Http09 => "HTTP/0.9"@,
        HttpVersion::Http10 => "HTTP/1.0"@,
        HttpVersion::Http11 => "HTTP/1.1"@,
        HttpVersion::H2 => "HTTP/2.0"@,
        HttpVersion::H3 => "HTTP/3.0"@,
    }
}

impl HttpVersion {
    /// The text of the version, such as `HTTP/1.1`.
    pub fn as_str(&self) -> (s: &'static str)
        ensures
            s@ == version_text(*self),
    {
        match self {
            HttpVersion::Http09 => "HTTP/0.9",
            HttpVersion::Http10 => "HTTP/1.0",
            HttpVersion::Http11 => "HTTP/1.1",
            HttpVersion::H2 => "HTTP/2.0",
            HttpVersion::H3 => "HTTP/3.0",
        }
    }
}

/// The head of an HTTP response: status, version and header fields in order.
///
/// A header name may occur more than once; values are raw bytes and need not
/// be text.
pub struct ResponseHead {
    pub status: u16,
    pub version: HttpVersion,
    pub headers: Vec<(String, Vec<u8>)>,
}

/// An HTTP response with a body of type `T`.
pub struct HttpResponse<T> {
    pub head: ResponseHead,
    pub body: T,
}

/// A response body whose length in bytes is known.
pub trait ContentLength {
    /// The number of bytes of the body.
    spec fn content_length(&self) -> nat;

    /// The number of bytes of the body.
    fn len(&self) -> (n: usize)
        ensures
            n == self.content_length(),
    ;
}

impl ContentLength for () {
    open spec fn content_length(&self) -> nat {
        0
    }

    fn len(&self) -> (n: usize) {
        0
    }
}

impl ContentLength for Vec<u8> {
    open spec fn content_length(&self) -> nat {
        self@.len()
    }

    fn len(&self) -> (n: usize) {
        Vec::len(self)
    }
}

impl<'a, T: ContentLength> ContentLength for &'a T {
    open spec fn content_length(&self) -> nat {
        (**self).content_length()
    }

    fn len(&self) -> (n: usize) {
        (**self).len()
    }
}

/// The content length of a body is its number of bytes: none for a unit
/// body, every byte of a byte vector, and that of the body a reference points to.
pub proof fn lemma_content_length_counts_bytes<'a, T: ContentLength>(v: Vec<u8>, r: &'a T)
    ensures
        v.content_length() == v@.len(),
        ().content_length() == 0,
        r.content_length() == (*r).content_length(),
{
}

/// An HTTP request as handed to the application: method, URI, header fields
/// in order (names in lower case) and body.
pub struct HttpRequest {
    pub method: String,
    pub uri: String,
    pub headers: Vec<(String, String)>,
    pub body: Vec<u8>,
}

impl HttpRequest {
    /// The first value of header `name`, looked up as the `http` crate's
    /// header map does: the name is read as a header name, ignoring ASCII
    /// case; a text that is no valid header name finds nothing.
    pub fn header(&self, name: &str) -> (v: Option<&String>)
        ensures
            match v {
                Some(v) => is_header_name(name@) && exists|i: int|
                    0 <= i < self.headers@.len() && self.headers@[i].0@ == ascii_lower(name@) && self.headers@[i].1 == *v
                    && forall|j: int| 0 <= j < i ==> self.headers@[j].0@ != ascii_lower(name@),
                None => !is_header_name(name@)
                    || forall|i: int| 0 <= i < self.headers@.len() ==> self.headers@[i].0@ != ascii_lower(name@),
            },
    {
        let key = match parse_header_name(name) {
            Some(key) => key,
            None => return None,
        };
        let mut i: usize = 0;
        while i < self.headers.len()
            invariant
                0 <= i <= self.headers@.len(),
                key@ == ascii_lower(name@),
                is_header_name(name@),
                forall|j: int| 0 <= j < i ==> self.headers@[j].0@ != ascii_lower(name@),
            decreases self.headers.len() - i,
        {
            if self.headers[i].0 == key {
                return Some(&self.headers[i].1);
            }
            i = i + 1;
        }
        None
    }
}

} // verus!
