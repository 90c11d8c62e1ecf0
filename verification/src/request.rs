//! The HTTP request message.
//!
//! A [`Request`] owns a method, a URL, a header collection, a body handle
//! and an optional known-length hint.  The body is a single, exclusively
//! held [`Body`]; setting a new body discards the old one atomically.  The
//! length hint is maintained by the convenience body installers and may be
//! overridden independently of the actual body, in which case keeping the
//! two consistent is the caller's responsibility.

use vstd::prelude::*;
use vstd::utf8::encode_utf8;
use vstd::utf8::is_ascii_chars;
use vstd::utf8::is_ascii_chars_encode_utf8;

use crate::body::Body;
use crate::headers::lower_bytes;
use crate::headers::name_byte_ok;
use crate::headers::spec_index_of;
use crate::headers::valid_name_bytes;
use crate::headers::values_all_valid;
use crate::headers::HeaderEntry;
use crate::headers::HeaderError;
use crate::headers::HeaderName;
use crate::headers::HeaderValue;
use crate::headers::Headers;
use crate::method::Method;
use crate::mime::spec_byte_stream;
use crate::mime::spec_plain;
use crate::mime::Mime;
use crate::url::Url;

verus! {

/// The normalized bytes of the `content-type` header name.
pub open spec fn content_type_key() -> Seq<u8> {
    lower_bytes(encode_utf8("content-type"@))
}

/// The text `content-type` is acceptable as a header name.
proof fn lemma_content_type_name_ok()
    ensures
        valid_name_bytes(encode_utf8("content-type"@)),
{
    reveal_strlit("content-type");
    let s = "content-type"@;
    assert(is_ascii_chars(s));
    is_ascii_chars_encode_utf8(s);
    assert forall|i: int|
        0 <= i < encode_utf8(s).len() implies name_byte_ok(#[trigger] encode_utf8(s)[i]) by {
        assert(encode_utf8(s)[i] == s[i] as u8);
    }
}

/// An HTTP request.
#[derive(Debug)]
pub struct Request {
    method: Method,
    url: Url,
    headers: Headers,
    body: Body,
    length: Option<usize>,
}

impl Request {
    /// The request's method.
    pub closed spec fn spec_method(self) -> Method {
        self.method
    }

    /// The request's target address, as text.
    pub closed spec fn spec_url(self) -> Seq<char> {
        self.url@
    }

    /// The request's header collection.
    pub closed spec fn spec_headers(self) -> Headers {
        self.headers
    }

    /// The request's body handle.
    pub closed spec fn spec_body(self) -> Body {
        self.body
    }

    /// The request's known-length hint.
    pub closed spec fn spec_len(self) -> Option<usize> {
        self.length
    }

    /// The bytes the body will still yield when drained.
    pub open spec fn body_view(self) -> Seq<u8> {
        self.spec_body().remaining()
    }

    /// A request is well formed when its body handle is.
    pub open spec fn wf(self) -> bool {
        self.spec_body().wf()
    }

    /// Create a new request.  It carries an already-exhausted body and a
    /// length hint of zero bytes, and no headers.
    pub fn new(method: Method, url: Url) -> (r: Request)
        ensures
            r.wf(),
            r.spec_method() == method,
            r.spec_url() == url@,
            r.spec_headers().entries_seq() == Seq::<HeaderEntry>::empty(),
            r.spec_len() == Some(0usize),
            r.body_view() == Seq::<u8>::empty(),
    {
        Request {
            method,
            url,
            headers: Headers::new(),
            body: Body::empty(),
            length: Some(0),
        }
    }

    /// The HTTP method.
    pub fn method(&self) -> (r: &Method)
        ensures
            *r == self.spec_method(),
    {
        &self.method
    }

    /// The target address.
    pub fn url(&self) -> (r: &Url)
        ensures
            r@ == self.spec_url(),
    {
        &self.url
    }

    /// The header collection.
    pub fn headers(&self) -> (r: &Headers)
        ensures
            *r == self.spec_headers(),
    {
        &self.headers
    }

    /// Direct mutable access to the header collection.
    pub fn headers_mut(&mut self) -> (r: &mut Headers)
        ensures
            *r == old(self).spec_headers(),
            final(self).spec_headers() == *final(r),
            final(self).spec_method() == old(self).spec_method(),
            final(self).spec_url() == old(self).spec_url(),
            final(self).spec_body() == old(self).spec_body(),
            final(self).spec_len() == old(self).spec_len(),
    {
        &mut self.headers
    }

    /// Consume the request, yielding its header collection alone, for
    /// consuming traversal of the entries.
    pub fn into_headers(self) -> (r: Headers)
        ensures
            r == self.spec_headers(),
    {
        self.headers
    }

    /// Borrowed access to the current body handle.
    pub fn body_reader(&self) -> (r: &Body)
        ensures
            *r == self.spec_body(),
    {
        &self.body
    }

    /// Consume the request, yielding ownership of the body handle alone.
    pub fn into_body_reader(self) -> (r: Body)
        ensures
            r == self.spec_body(),
    {
        self.body
    }

    /// Install a body handle, discarding the previous one.  The length hint
    /// is left untouched: a caller installing a body of known size must set
    /// it separately, or a stale hint stays in place.
    pub fn set_body_reader(&mut self, body: Body)
        ensures
            final(self).spec_body() == body,
            final(self).spec_method() == old(self).spec_method(),
            final(self).spec_url() == old(self).spec_url(),
            final(self).spec_headers() == old(self).spec_headers(),
            final(self).spec_len() == old(self).spec_len(),
    {
        self.body = body;
    }

    /// Set the body to the UTF-8 bytes of a string: the body then yields
    /// exactly those bytes, the length hint is set to their count, and the
    /// `content-type` header is set to the fixed plain-text media type.
    pub fn set_body_string(&mut self, string: String) -> (r: Result<(), HeaderError>)
        ensures
            r is Ok,
            final(self).wf(),
            final(self).body_view() == encode_utf8(string@),
            final(self).spec_len() matches Some(n) && n == encode_utf8(string@).len(),
            final(self).spec_headers().spec_get(content_type_key()) matches Some(vs) && vs.len()
                == 1 && vs[0]@ == spec_plain(),
            forall|k: Seq<u8>|
                k != content_type_key() ==> final(self).spec_headers().spec_get(k) == old(
                    self,
                ).spec_headers().spec_get(k),
            final(self).spec_method() == old(self).spec_method(),
            final(self).spec_url() == old(self).spec_url(),
    {
        let bytes = string.as_str().as_bytes_vec();
        self.length = Some(bytes.len());
        self.body = Body::from_bytes(bytes);
        match self.set_mime(Mime::plain()) {
            Ok(_) => Ok(()),
            Err(e) => Err(e),
        }
    }

    /// Set the body to a copy of the given bytes: the body then yields
    /// exactly those bytes, the length hint is set to their count, and the
    /// `content-type` header is set to the fixed binary-stream media type.
    pub fn set_body_bytes(&mut self, bytes: &[u8]) -> (r: Result<(), HeaderError>)
        ensures
            r is Ok,
            final(self).wf(),
            final(self).body_view() == bytes@,
            final(self).spec_len() matches Some(n) && n == bytes@.len(),
            final(self).spec_headers().spec_get(content_type_key()) matches Some(vs) && vs.len()
                == 1 && vs[0]@ == spec_byte_stream(),
            forall|k: Seq<u8>|
                k != content_type_key() ==> final(self).spec_headers().spec_get(k) == old(
                    self,
                ).spec_headers().spec_get(k),
            final(self).spec_method() == old(self).spec_method(),
            final(self).spec_url() == old(self).spec_url(),
    {
        self.length = Some(bytes.len());
        self.body = Body::copy_from_slice(bytes);
        match self.set_mime(Mime::byte_stream()) {
            Ok(_) => Ok(()),
            Err(e) => Err(e),
        }
    }

    /// Look an HTTP header up.
    pub fn header(&self, name: &HeaderName) -> (r: Option<&Vec<HeaderValue>>)
        ensures
            match r {
                Some(v) => self.spec_headers().spec_get(name@) == Some(v@),
                None => self.spec_headers().spec_get(name@) is None,
            },
    {
        self.headers.get(name)
    }

    /// Look an HTTP header up for mutation of its values.
    pub fn get_mut(&mut self, name: &HeaderName) -> (r: Option<&mut Vec<HeaderValue>>)
        ensures
            old(self).spec_headers().spec_get(name@) is None ==> r.is_none() && *final(self)
                == *old(self),
            old(self).spec_headers().spec_get(name@) is Some ==> r.is_some() && ({
                let olds = old(self).spec_headers().entries_seq();
                let i = spec_index_of(olds, name@);
                *r.unwrap() == olds[i].1 && final(self).spec_headers().entries_seq()
                    == olds.update(i, (olds[i].0, *final(r.unwrap())))
            }),
            final(self).spec_method() == old(self).spec_method(),
            final(self).spec_url() == old(self).spec_url(),
            final(self).spec_body() == old(self).spec_body(),
            final(self).spec_len() == old(self).spec_len(),
    {
        self.headers.get_mut(name)
    }

    /// Set an HTTP header: install the values under the name, returning the
    /// values the name held before, or fail without changing anything when
    /// some value is malformed.
    pub fn set_header(&mut self, name: HeaderName, values: Vec<HeaderValue>) -> (r: Result<
        Option<Vec<HeaderValue>>,
        HeaderError,
    >)
        ensures
            match r {
                Ok(prev) => {
                    &&& values_all_valid(values@)
                    &&& match prev {
                        Some(pv) => old(self).spec_headers().spec_get(name@) == Some(pv@),
                        None => old(self).spec_headers().spec_get(name@) is None,
                    }
                    &&& final(self).spec_headers().spec_get(name@) == Some(values@)
                    &&& forall|k: Seq<u8>|
                        k != name@ ==> final(self).spec_headers().spec_get(k) == old(
                            self,
                        ).spec_headers().spec_get(k)
                },
                Err(e) => {
                    &&& !values_all_valid(values@)
                    &&& e == HeaderError::InvalidValue
                    &&& *final(self) == *old(self)
                },
            },
            final(self).spec_method() == old(self).spec_method(),
            final(self).spec_url() == old(self).spec_url(),
            final(self).spec_body() == old(self).spec_body(),
            final(self).spec_len() == old(self).spec_len(),
    {
        self.headers.insert(name, values)
    }

    /// Install a media type under the `content-type` header, returning the
    /// values that header held before.
    pub fn set_mime(&mut self, mime: Mime) -> (r: Result<Option<Vec<HeaderValue>>, HeaderError>)
        ensures
            r matches Ok(prev) && match prev {
                Some(pv) => old(self).spec_headers().spec_get(content_type_key()) == Some(pv@),
                None => old(self).spec_headers().spec_get(content_type_key()) is None,
            },
            final(self).spec_headers().spec_get(content_type_key()) matches Some(vs) && vs.len()
                == 1 && vs[0]@ == mime@,
            forall|k: Seq<u8>|
                k != content_type_key() ==> final(self).spec_headers().spec_get(k) == old(
                    self,
                ).spec_headers().spec_get(k),
            final(self).spec_method() == old(self).spec_method(),
            final(self).spec_url() == old(self).spec_url(),
            final(self).spec_body() == old(self).spec_body(),
            final(self).spec_len() == old(self).spec_len(),
    {
        proof {
            lemma_content_type_name_ok();
        }
        let name = match HeaderName::from_string(String::from_str("content-type")) {
            Ok(n) => n,
            Err(e) => {
                return Err(e);
            },
        };
        let value = mime.into_value();
        let mut values: Vec<HeaderValue> = Vec::new();
        values.push(value);
        match self.set_header(name, values) {
            Ok(prev) => Ok(prev),
            Err(e) => {
                return Err(e);
            },
        }
    }

    /// The known length of the body stream, if one has been recorded.
    ///
    /// `None` tells a consumer to prefer a streamed transfer encoding over
    /// a fixed content length.
    pub fn len(&self) -> (r: Option<usize>)
        ensures
            r == self.spec_len(),
    {
        self.length
    }

    /// Override the length hint, independently of the actual body: the
    /// caller is responsible for keeping the two consistent.
    pub fn set_len(self, len: usize) -> (r: Self)
        ensures
            r.spec_len() == Some(len),
            r.spec_method() == self.spec_method(),
            r.spec_url() == self.spec_url(),
            r.spec_headers() == self.spec_headers(),
            r.spec_body() == self.spec_body(),
    {
        let mut r = self;
        r.length = Some(len);
        r
    }

    /// Every header entry, in insertion order of their names.
    pub fn iter(&self) -> (r: &Vec<HeaderEntry>)
        ensures
            r@ == self.spec_headers().entries_seq(),
    {
        self.headers.iter()
    }

    /// Mutable access to the values of the header entry at a position; the
    /// entry's name stays as it was.
    pub fn iter_mut(&mut self, i: usize) -> (r: &mut Vec<HeaderValue>)
        requires
            i < old(self).spec_headers().entries_seq().len(),
        ensures
            *r == old(self).spec_headers().entries_seq()[i as int].1,
            final(self).spec_headers().entries_seq() == old(self).spec_headers().entries_seq()
                .update(
                i as int,
                (old(self).spec_headers().entries_seq()[i as int].0, *final(r)),
            ),
            final(self).spec_method() == old(self).spec_method(),
            final(self).spec_url() == old(self).spec_url(),
            final(self).spec_body() == old(self).spec_body(),
            final(self).spec_len() == old(self).spec_len(),
    {
        self.headers.iter_mut(i)
    }

    /// Fill a buffer: expose every body byte not yet consumed, straight
    /// from the body handle.  An empty slice signals end-of-stream.
    pub fn fill_buf(&self) -> (r: &[u8])
        requires
            self.wf(),
        ensures
            r@ == self.body_view(),
    {
        self.body.fill_buf()
    }

    /// Take up to `limit` bytes off the front of the body, as a reader
    /// filling a buffer of that size would, straight from the body handle.
    /// An empty result signals end-of-stream.
    pub fn read_max(&mut self, limit: usize) -> (r: Vec<u8>)
        requires
            old(self).wf(),
        ensures
            final(self).wf(),
            r@ == old(self).body_view().take(
                vstd::math::min(limit as int, old(self).body_view().len() as int),
            ),
            final(self).body_view() == old(self).body_view().skip(
                vstd::math::min(limit as int, old(self).body_view().len() as int),
            ),
            final(self).spec_method() == old(self).spec_method(),
            final(self).spec_url() == old(self).spec_url(),
            final(self).spec_headers() == old(self).spec_headers(),
            final(self).spec_len() == old(self).spec_len(),
    {
        self.body.read_max(limit)
    }

    /// Consume `amt` of the bytes exposed by `fill_buf`, straight on the
    /// body handle.
    pub fn consume(&mut self, amt: usize)
        requires
            old(self).wf(),
            amt <= old(self).body_view().len(),
        ensures
            final(self).wf(),
            final(self).body_view() == old(self).body_view().skip(amt as int),
            final(self).spec_method() == old(self).spec_method(),
            final(self).spec_url() == old(self).spec_url(),
            final(self).spec_headers() == old(self).spec_headers(),
            final(self).spec_len() == old(self).spec_len(),
    {
        self.body.consume(amt);
    }
}

} // verus!
