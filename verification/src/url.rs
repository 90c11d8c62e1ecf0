//! An opaque, already-validated URL value.
//!
//! Parsing and validating URLs is outside this library's scope: a [`Url`]
//! carries the textual form of an address that some other component has
//! already checked, and the request never interprets it.

use vstd::prelude::*;

verus! {

/// The target address of a request, kept as opaque text.
#[derive(Debug)]
pub struct Url {
    text: String,
}

impl View for Url {
    type V = Seq<char>;

    closed spec fn view(&self) -> Seq<char> {
        self.text@
    }
}

impl Url {
    /// Wrap an already-validated address.
    pub fn from_string(text: String) -> (r: Url)
        ensures
            r@ == text@,
    {
        Url { text }
    }

    /// The textual form of the address.
    pub fn as_str(&self) -> (r: &str)
        ensures
            r@ == self@,
    {
        self.text.as_str()
    }
}

impl Clone for Url {
    fn clone(&self) -> (r: Self)
        ensures
            r@ == self@,
    {
        Url { text: self.text.clone() }
    }
}

} // verus!
