//! In-memory representation of a single HTTP request message.
//!
//! A [`Request`] owns a method, a URL, an ordered collection of headers, an
//! owned body byte source, and an optional known-length hint.  The body is
//! a single, exclusively held handle that is drained by repeatedly filling
//! a buffer and consuming a prefix of it; the request forwards those two
//! operations to the handle without adding any behavior of its own.

mod body;
mod headers;
mod method;
mod mime;
mod request;
mod url;

pub use body::Body;
pub use headers::{HeaderError, HeaderName, HeaderValue, Headers};
pub use method::Method;
pub use mime::Mime;
pub use request::Request;
pub use url::Url;
