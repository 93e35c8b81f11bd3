//! The request buffer.
//!
//! A connection is read once, into a buffer of fixed capacity. What does
//! not fit is never seen: every decision on a request is made on the bytes
//! that the buffer holds.

use crate::ascii::copy_range;
use vstd::prelude::*;

verus! {

/// The capacity of the request buffer, in bytes.
pub const BUFFER_CAPACITY: usize = 512;

/// What the buffer keeps of `data`: all of it, or its first
/// [`BUFFER_CAPACITY`] bytes where it is longer.
pub open spec fn buffered(data: Seq<u8>) -> Seq<u8> {
    if data.len() <= BUFFER_CAPACITY {
        data
    } else {
        data.take(BUFFER_CAPACITY as int)
    }
}

/// The bytes of one read, at most [`BUFFER_CAPACITY`] of them.
#[derive(Debug, PartialEq, Eq)]
pub struct RequestBuffer {
    bytes: Vec<u8>,
}

impl View for RequestBuffer {
    type V = Seq<u8>;

    closed spec fn view(&self) -> Seq<u8> {
        self.bytes@
    }
}

impl RequestBuffer {
    #[verifier::type_invariant]
    spec fn within_capacity(self) -> bool {
        self.bytes@.len() <= BUFFER_CAPACITY
    }

    /// Fills a buffer from what a read returned, dropping what exceeds the
    /// capacity.
    pub fn fill(data: &[u8]) -> (buffer: RequestBuffer)
        ensures
            buffer@ == buffered(data@),
    {
        let kept: usize = if data.len() <= BUFFER_CAPACITY {
            data.len()
        } else {
            BUFFER_CAPACITY
        };
        let bytes = copy_range(data, 0, kept);
        assert(bytes@ =~= buffered(data@));
        RequestBuffer { bytes }
    }

    /// The bytes that the buffer holds.
    pub fn as_slice(&self) -> (bytes: &[u8])
        ensures
            bytes@ == self@,
            bytes@.len() <= BUFFER_CAPACITY,
    {
        proof {
            use_type_invariant(self);
        }
        self.bytes.as_slice()
    }

    /// The number of bytes that the buffer holds.
    pub fn len(&self) -> (n: usize)
        ensures
            n == self@.len(),
            n <= BUFFER_CAPACITY,
    {
        proof {
            use_type_invariant(self);
        }
        self.bytes.len()
    }

    /// Tells whether the read returned nothing.
    pub fn is_empty(&self) -> (empty: bool)
        ensures
            empty == (self@.len() == 0),
    {
        self.bytes.len() == 0
    }
}

/// What the buffer keeps is a prefix of what was read, and all of it where
/// it fits.
pub proof fn lemma_buffered(data: Seq<u8>)
    ensures
        buffered(data).len() <= BUFFER_CAPACITY,
        buffered(data).is_prefix_of(data),
        data.len() <= BUFFER_CAPACITY ==> buffered(data) == data,
        buffered(buffered(data)) == buffered(data),
{
}

} // verus!
