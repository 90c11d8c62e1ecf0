//! The owned body byte source of a request.
//!
//! A [`Body`] is the single handle through which a request's payload is
//! drained.  It offers the two operations of a buffered byte source: filling
//! a buffer (here: exposing every byte not yet consumed) and consuming a
//! prefix of the filled bytes.  Draining a body is a one-way walk: consumed
//! bytes are never returned again.

use vstd::math::min;
use vstd::prelude::*;
use vstd::slice::slice_subrange;
use vstd::slice::slice_to_vec;

verus! {

/// An owned, exclusively-held byte source backed by an in-memory buffer.
///
/// An empty body and a body built from a string or a byte buffer are all
/// values of this one type, so a request can hold any of them behind the
/// same handle.
#[derive(Debug)]
pub struct Body {
    data: Vec<u8>,
    pos: usize,
}

impl Body {
    /// The bytes this body will still yield, in order, before signaling
    /// end-of-stream.
    pub closed spec fn remaining(self) -> Seq<u8> {
        self.data@.skip(self.pos as int)
    }

    /// The cursor never points past the end of the buffer.
    pub closed spec fn wf(self) -> bool {
        self.pos <= self.data.len()
    }

    /// An already-exhausted body: it signals end-of-stream at once.
    pub fn empty() -> (r: Body)
        ensures
            r.wf(),
            r.remaining() == Seq::<u8>::empty(),
    {
        let r = Body { data: Vec::new(), pos: 0 };
        proof {
            assert(r.remaining() =~= Seq::<u8>::empty());
        }
        r
    }

    /// A body that yields exactly the given bytes.
    pub fn from_bytes(data: Vec<u8>) -> (r: Body)
        ensures
            r.wf(),
            r.remaining() == data@,
    {
        let r = Body { data, pos: 0 };
        proof {
            assert(r.remaining() =~= r.data@);
        }
        r
    }

    /// A body that yields exactly the given bytes, copied out of a borrowed
    /// slice.
    pub fn copy_from_slice(data: &[u8]) -> (r: Body)
        ensures
            r.wf(),
            r.remaining() == data@,
    {
        Body::from_bytes(slice_to_vec(data))
    }

    /// Fill a buffer: expose every byte that has been produced and not yet
    /// consumed.  An empty slice signals end-of-stream.
    pub fn fill_buf(&self) -> (r: &[u8])
        requires
            self.wf(),
        ensures
            r@ == self.remaining(),
    {
        slice_subrange(self.data.as_slice(), self.pos, self.data.len())
    }

    /// Consume `amt` of the bytes exposed by `fill_buf`, so they are not
    /// yielded again.
    pub fn consume(&mut self, amt: usize)
        requires
            old(self).wf(),
            amt <= old(self).remaining().len(),
        ensures
            final(self).wf(),
            final(self).remaining() == old(self).remaining().skip(amt as int),
    {
        self.pos = self.pos + amt;
        proof {
            assert(self.remaining() =~= old(self).remaining().skip(amt as int));
        }
    }

    /// Take up to `limit` bytes off the front of the body, as a reader
    /// filling a buffer of that size would.  An empty result signals
    /// end-of-stream.
    pub fn read_max(&mut self, limit: usize) -> (r: Vec<u8>)
        requires
            old(self).wf(),
        ensures
            final(self).wf(),
            r@ == old(self).remaining().take(min(limit as int, old(self).remaining().len() as int)),
            final(self).remaining() == old(self).remaining().skip(
                min(limit as int, old(self).remaining().len() as int),
            ),
    {
        let left = self.data.len() - self.pos;
        let n = if limit <= left {
            limit
        } else {
            left
        };
        let chunk = slice_to_vec(slice_subrange(self.data.as_slice(), self.pos, self.pos + n));
        self.pos = self.pos + n;
        proof {
            assert(chunk@ =~= old(self).remaining().take(n as int));
            assert(self.remaining() =~= old(self).remaining().skip(n as int));
        }
        chunk
    }

    /// Drain the body: take every byte it will still yield, in order,
    /// leaving it at end-of-stream.
    pub fn drain_to_vec(&mut self) -> (r: Vec<u8>)
        requires
            old(self).wf(),
        ensures
            final(self).wf(),
            r@ == old(self).remaining(),
            final(self).remaining() == Seq::<u8>::empty(),
    {
        let chunk = slice_to_vec(self.fill_buf());
        self.consume(chunk.len());
        proof {
            assert(self.remaining() =~= Seq::<u8>::empty());
        }
        chunk
    }

    /// How many bytes draining this body will still yield.
    pub fn bytes_left(&self) -> (r: usize)
        requires
            self.wf(),
        ensures
            r == self.remaining().len(),
    {
        self.data.len() - self.pos
    }
}

} // verus!
