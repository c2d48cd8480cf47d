//! Issuing identifiers: one allocator per record kind.
use vstd::prelude::*;

verus! {

/// Hands out strictly increasing ids, starting at 1. An id is never issued
/// twice, whatever happens to the records that carry it.
pub struct IdAllocator {
    last: u64,
}

impl View for IdAllocator {
    type V = u64;

    /// The id issued last, or 0 when none has been.
    closed spec fn view(&self) -> u64 {
        self.last
    }
}

impl IdAllocator {
    /// An allocator that has issued nothing.
    pub fn new() -> (r: Self)
        ensures
            r@ == 0,
    {
        IdAllocator { last: 0 }
    }

    /// The id issued last, or 0 when none has been.
    pub fn current(&self) -> (r: u64)
        ensures
            r == self@,
    {
        self.last
    }

    /// Whether another id can be issued.
    pub fn can_issue(&self) -> (r: bool)
        ensures
            r == (self@ < u64::MAX),
    {
        self.last < u64::MAX
    }

    /// Issues a fresh id: one more than the last one.
    pub fn next(&mut self) -> (r: u64)
        requires
            old(self)@ < u64::MAX,
        ensures
            r == old(self)@ + 1,
            final(self)@ == r,
    {
        self.last = self.last + 1;
        self.last
    }
}

} // verus!
