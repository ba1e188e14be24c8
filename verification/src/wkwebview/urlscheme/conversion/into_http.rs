//! The HTTP request handed to the application, built from what the web view's
//! URL request holds.

use crate::http_syntax::{
    accepts_header_value, ascii_lower, is_header_name, is_header_value, is_method, parse_header_name,
    parse_method, parse_uri, uri_text,
};
use crate::message::HttpRequest;
use vstd::prelude::*;

verus! {

/// The size of the buffer a request body stream is read into.
pub const STREAM_CHUNK_LEN: usize = 1024;

/// Where the body of a URL request comes from.
pub enum RequestBody {
    /// The request carries its body as data.
    Data(Vec<u8>),
    /// The request carries a body stream; these are the bytes read from it.
    Stream(Vec<u8>),
    /// The request has no body.
    Empty,
}

/// Which of its body sources a URL request's body is taken from.
#[derive(Debug, Clone, Copy, PartialEq, Eq, Structural)]
pub enum BodySource {
    /// The body data.
    Data,
    /// The body stream, read to its end.
    Stream,
    /// Neither: the body is empty.
    Empty,
}

/// Picks the body source of a URL request: its body data where it has
/// some, else its body stream where it has one, else none.
pub fn choose_body_source(has_data: bool, has_stream: bool) -> (s: BodySource)
    ensures
        s == if has_data {
            BodySource::Data
        } else if has_stream {
            BodySource::Stream
        } else {
            BodySource::Empty
        },
{
    if has_data {
        BodySource::Data
    } else if has_stream {
        BodySource::Stream
    } else {
        BodySource::Empty
    }
}

/// What the web view's URL request holds, as plain values.
pub struct UrlRequest {
    /// The HTTP method, where the request names one.
    pub method: Option<String>,
    /// The absolute URL text, where the request has one.
    pub url: Option<String>,
    /// The header fields, in the order the request lists them.
    pub headers: Vec<(String, String)>,
    /// The body.
    pub body: RequestBody,
}

/// The bytes of a request body; an absent body is empty.
pub open spec fn body_bytes(b: RequestBody) -> Seq<u8> {
    match b {
        RequestBody::Data(d) => d@,
        RequestBody::Stream(s) => s@,
        RequestBody::Empty => Seq::empty(),
    }
}

/// Whether an HTTP request can be made of `r`: its method, URL and every
/// header name and value are accepted by the `http` crate.
pub open spec fn is_convertible(r: &UrlRequest) -> bool {
    &&& (r.method matches Some(m) ==> is_method(m@))
    &&& (r.url matches Some(u) ==> uri_text(u@) is Some)
    &&& forall|i: int| #![trigger r.headers@[i]] 0 <= i < r.headers@.len() ==> {
        &&& is_header_name(r.headers@[i].0@)
        &&& is_header_value(r.headers@[i].1@)
    }
}

/// The body of a converted request is every byte of the URL request's body
/// data or of what was read from its stream, whatever its length; a request
/// without either has an empty body.
pub proof fn lemma_body_bytes_kept(r: &UrlRequest, h: &HttpRequest)
    requires
        converts_to(r, h),
    ensures
        r.body matches RequestBody::Data(d) ==> h.body@ == d@,
        r.body matches RequestBody::Stream(s) ==> h.body@ == s@,
        r.body is Empty ==> h.body@.len() == 0,
{
}

/// `h` is the HTTP request made of `r`: the method, `GET` where none is
/// named; the URI as the `http` crate reads the URL, `/` where there is none;
/// every header in order with its name in lower case; and the body.
pub open spec fn converts_to(r: &UrlRequest, h: &HttpRequest) -> bool {
    &&& h.method@ == match r.method {
        Some(m) => m@,
        None => "GET"@,
    }
    &&& h.uri@ == match r.url {
        Some(u) => uri_text(u@).unwrap(),
        None => "/"@,
    }
    &&& h.headers@.len() == r.headers@.len()
    &&& forall|i: int| #![trigger h.headers@[i]] 0 <= i < h.headers@.len() ==> {
        &&& h.headers@[i].0@ == ascii_lower(r.headers@[i].0@)
        &&& h.headers@[i].1@ == r.headers@[i].1@
    }
    &&& h.body@ == body_bytes(r.body)
}

/// Looking a header up on the converted request: where no other header of
/// the URL request has the same name ignoring ASCII case, the lower-cased
/// name of header `i` names header `i` of the HTTP request and no other, and
/// its value is the URL request's value. (`HttpRequest::header` then finds it.)
pub proof fn lemma_header_lookup(r: &UrlRequest, h: &HttpRequest, i: int)
    requires
        converts_to(r, h),
        0 <= i < r.headers@.len(),
        forall|j: int| 0 <= j < r.headers@.len() && j != i
            ==> #[trigger] ascii_lower(r.headers@[j].0@) != ascii_lower(r.headers@[i].0@),
    ensures
        h.headers@[i].0@ == ascii_lower(r.headers@[i].0@),
        h.headers@[i].1@ == r.headers@[i].1@,
        forall|j: int| 0 <= j < h.headers@.len() && #[trigger] h.headers@[j].0@ == ascii_lower(r.headers@[i].0@) ==> j == i,
{
    assert forall|j: int| 0 <= j < h.headers@.len() && #[trigger] h.headers@[j].0@ == ascii_lower(r.headers@[i].0@) implies j == i by {
        assert(h.headers@[j].0@ == ascii_lower(r.headers@[j].0@));
    }
}

impl UrlRequest {
    /// The HTTP request made of this URL request.
    pub fn into_http(&self) -> (h: HttpRequest)
        requires
            is_convertible(self),
        ensures
            converts_to(self, &h),
    {
        let method = match &self.method {
            Some(m) => parse_method(m.as_str()).unwrap(),
            None => "GET".to_string(),
        };
        let uri = match &self.url {
            Some(u) => parse_uri(u.as_str()).unwrap(),
            None => "/".to_string(),
        };
        let mut headers: Vec<(String, String)> = Vec::new();
        let mut i: usize = 0;
        while i < self.headers.len()
            invariant
                0 <= i <= self.headers@.len(),
                is_convertible(self),
                headers@.len() == i,
                forall|j: int| #![trigger headers@[j]] 0 <= j < i ==> {
                    &&& headers@[j].0@ == ascii_lower(self.headers@[j].0@)
                    &&& headers@[j].1@ == self.headers@[j].1@
                },
            decreases self.headers.len() - i,
        {
            let ghost entry = self.headers@[i as int];
            assert(is_header_name(entry.0@));
            let name = parse_header_name(self.headers[i].0.as_str()).unwrap();
            headers.push((name, self.headers[i].1.clone()));
            i = i + 1;
        }
        let body = match &self.body {
            RequestBody::Data(d) => vstd::slice::slice_to_vec(d.as_slice()),
            RequestBody::Stream(s) => vstd::slice::slice_to_vec(s.as_slice()),
            RequestBody::Empty => Vec::new(),
        };
        HttpRequest { method, uri, headers, body }
    }

    /// The HTTP request made of this URL request, or `None` where the `http`
    /// crate rejects its method, URL or a header.
    pub fn try_into_http(&self) -> (h: Option<HttpRequest>)
        ensures
            h is Some <==> is_convertible(self),
            h matches Some(h) ==> converts_to(self, &h),
    {
        match &self.method {
            Some(m) => {
                if parse_method(m.as_str()).is_none() {
                    return None;
                }
            },
            None => {},
        }
        match &self.url {
            Some(u) => {
                if parse_uri(u.as_str()).is_none() {
                    return None;
                }
            },
            None => {},
        }
        let mut i: usize = 0;
        while i < self.headers.len()
            invariant
                0 <= i <= self.headers@.len(),
                forall|j: int| #![trigger self.headers@[j]] 0 <= j < i ==> {
                    &&& is_header_name(self.headers@[j].0@)
                    &&& is_header_value(self.headers@[j].1@)
                },
            decreases self.headers.len() - i,
        {
            if parse_header_name(self.headers[i].0.as_str()).is_none() {
                assert(!is_header_name(self.headers@[i as int].0@));
                return None;
            }
            if !accepts_header_value(self.headers[i].1.as_str()) {
                assert(!is_header_value(self.headers@[i as int].1@));
                return None;
            }
            i = i + 1;
        }
        Some(self.into_http())
    }
}

/// The bytes one read of a body stream contributes: the first `n` bytes of
/// the buffer when the read reported a positive count `n`, else none.
pub open spec fn read_bytes(buffer: Seq<u8>, n: int) -> Seq<u8> {
    if n > 0 {
        buffer.take(n)
    } else {
        Seq::empty()
    }
}

/// The body a sequence of reads `(buffer, count)` collects, in order.
pub open spec fn collected(reads: Seq<(Seq<u8>, int)>) -> Seq<u8>
    decreases reads.len(),
{
    if reads.len() == 0 {
        Seq::empty()
    } else {
        collected(reads.drop_last()) + read_bytes(reads.last().0, reads.last().1)
    }
}

/// The reads a stream holding `data` gives into a buffer of `len` bytes: each
/// fills the buffer as far as the remaining data allows.
pub open spec fn full_reads(data: Seq<u8>, len: nat) -> Seq<(Seq<u8>, int)>
    recommends
        len > 0,
    decreases data.len(),
{
    if data.len() == 0 || len == 0 {
        Seq::empty()
    } else {
        let n = if data.len() < len { data.len() } else { len };
        seq![(data.take(n as int), n as int)] + full_reads(data.skip(n as int), len)
    }
}

proof fn lemma_collected_prepend(first: (Seq<u8>, int), rest: Seq<(Seq<u8>, int)>)
    ensures
        collected(seq![first] + rest) == read_bytes(first.0, first.1) + collected(rest),
    decreases rest.len(),
{
    if rest.len() == 0 {
        let s = seq![first] + rest;
        assert(s.drop_last() =~= Seq::<(Seq<u8>, int)>::empty());
        assert(s.last() == first);
        assert(collected(s.drop_last()) =~= Seq::<u8>::empty());
        assert(collected(s) =~= read_bytes(first.0, first.1) + collected(rest));
    } else {
        assert((seq![first] + rest).drop_last() =~= seq![first] + rest.drop_last());
        lemma_collected_prepend(first, rest.drop_last());
        assert((seq![first] + rest).last() == rest.last());
        assert(collected(seq![first] + rest) =~= read_bytes(first.0, first.1) + collected(rest));
    }
}

/// Reading a whole stream one buffer at a time collects exactly its data:
/// no byte is dropped, repeated or added, whatever the data's length is
/// against the buffer's.
pub proof fn lemma_whole_stream_collected(data: Seq<u8>, len: nat)
    requires
        len > 0,
    ensures
        collected(full_reads(data, len)) == data,
    decreases data.len(),
{
    if data.len() > 0 {
        let n = if data.len() < len { data.len() } else { len };
        lemma_whole_stream_collected(data.skip(n as int), len);
        lemma_collected_prepend((data.take(n as int), n as int), full_reads(data.skip(n as int), len));
        assert(data.take(n as int).take(n as int) =~= data.take(n as int));
        assert(data.take(n as int) + data.skip(n as int) =~= data);
    } else {
        assert(data =~= Seq::<u8>::empty());
    }
}

/// Collects the body of a request from its body stream, read one buffer at a time.
pub struct BodyStreamReader {
    body: Vec<u8>,
}

impl View for BodyStreamReader {
    type V = Seq<u8>;

    closed spec fn view(&self) -> Seq<u8> {
        self.body@
    }
}

impl BodyStreamReader {
    /// A reader that has collected nothing yet.
    pub fn new() -> (r: Self)
        ensures
            r@ == Seq::<u8>::empty(),
    {
        BodyStreamReader { body: Vec::new() }
    }

    /// Takes in one read of the stream into `buffer` that reported
    /// `bytes_read`: a positive count appends that many bytes from the start
    /// of the buffer; zero or a negative count (an error) appends nothing.
    pub fn absorb(&mut self, buffer: &[u8], bytes_read: isize)
        requires
            bytes_read <= buffer@.len(),
        ensures
            final(self)@ == if bytes_read > 0 {
                old(self)@ + buffer@.take(bytes_read as int)
            } else {
                old(self)@
            },
            final(self)@ == old(self)@ + read_bytes(buffer@, bytes_read as int),
    {
        if bytes_read > 0 {
            let n: usize = bytes_read as usize;
            let ghost start = self.body@;
            let mut k: usize = 0;
            while k < n
                invariant
                    0 <= k <= n,
                    n <= buffer@.len(),
                    self.body@ == start + buffer@.take(k as int),
                decreases n - k,
            {
                self.body.push(buffer[k]);
                k = k + 1;
                assert(self.body@ =~= start + buffer@.take(k as int));
            }
        }
    }

    /// The bytes collected so far.
    pub fn into_body(self) -> (b: Vec<u8>)
        ensures
            b@ == self@,
    {
        self.body
    }
}

} // verus!
