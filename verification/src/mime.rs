//! MIME values for the `content-type` header.
//!
//! A [`Mime`] is an opaque media-type text that can be installed as a header
//! value.  Parsing and interpreting media types is outside this library's
//! scope; the two well-known constants the request constructors need are
//! provided here.

use vstd::prelude::*;
use vstd::utf8::encode_utf8;
use vstd::utf8::is_ascii_chars;
use vstd::utf8::is_ascii_chars_encode_utf8;

use crate::headers::valid_value;
use crate::headers::value_byte_ok;
use crate::headers::HeaderError;
use crate::headers::HeaderValue;

verus! {

/// A media-type text, always acceptable as a header value.
#[derive(Debug)]
pub struct Mime {
    text: String,
}

impl View for Mime {
    type V = Seq<char>;

    closed spec fn view(&self) -> Seq<char> {
        self.text@
    }
}

#[verifier::type_invariant]
spec fn mime_inv(m: Mime) -> bool {
    valid_value(m@)
}

/// The fixed plain-text media type: `text/plain; charset=utf-8`.
pub open spec fn spec_plain() -> Seq<char> {
    "text/plain; charset=utf-8"@
}

/// The fixed binary-stream media type: `application/octet-stream`.
pub open spec fn spec_byte_stream() -> Seq<char> {
    "application/octet-stream"@
}

/// The plain-text media type is an acceptable header value.
pub proof fn lemma_plain_valid()
    ensures
        valid_value(spec_plain()),
{
    reveal_strlit("text/plain; charset=utf-8");
    let s = spec_plain();
    assert(is_ascii_chars(s));
    is_ascii_chars_encode_utf8(s);
    assert forall|i: int|
        0 <= i < encode_utf8(s).len() implies value_byte_ok(#[trigger] encode_utf8(s)[i]) by {
        assert(encode_utf8(s)[i] == s[i] as u8);
    }
}

/// The binary-stream media type is an acceptable header value.
pub proof fn lemma_byte_stream_valid()
    ensures
        valid_value(spec_byte_stream()),
{
    reveal_strlit("application/octet-stream");
    let s = spec_byte_stream();
    assert(is_ascii_chars(s));
    is_ascii_chars_encode_utf8(s);
    assert forall|i: int|
        0 <= i < encode_utf8(s).len() implies value_byte_ok(#[trigger] encode_utf8(s)[i]) by {
        assert(encode_utf8(s)[i] == s[i] as u8);
    }
}

impl Mime {
    /// The media type for plain UTF-8 text.
    pub fn plain() -> (r: Mime)
        ensures
            r@ == spec_plain(),
    {
        proof {
            lemma_plain_valid();
        }
        Mime { text: String::from_str("text/plain; charset=utf-8") }
    }

    /// The media type for a generic binary stream.
    pub fn byte_stream() -> (r: Mime)
        ensures
            r@ == spec_byte_stream(),
    {
        proof {
            lemma_byte_stream_valid();
        }
        Mime { text: String::from_str("application/octet-stream") }
    }

    /// Wrap any media-type text whose bytes are acceptable in a header.
    pub fn from_string(text: String) -> (r: Result<Mime, HeaderError>)
        ensures
            match r {
                Ok(m) => valid_value(text@) && m@ == text@,
                Err(e) => !valid_value(text@) && e == HeaderError::InvalidValue,
            },
    {
        let probe = HeaderValue::new(text);
        if probe.is_valid() {
            Ok(Mime { text: probe.into_string() })
        } else {
            Err(HeaderError::InvalidValue)
        }
    }

    /// The textual form of the media type.
    pub fn as_str(&self) -> (r: &str)
        ensures
            r@ == self@,
    {
        self.text.as_str()
    }

    /// The media type as a header value.
    pub fn into_value(self) -> (r: HeaderValue)
        ensures
            r@ == self@,
            valid_value(r@),
    {
        proof {
            use_type_invariant(&self);
        }
        HeaderValue::new(self.text)
    }
}

} // verus!
