//! An appendable byte buffer with an O(1) head split.
//!
//! The buffer tracks, besides its bytes, a start cursor (the consumed
//! prefix) and a capacity. The capacity is the policy size the pool's
//! reuse decisions go by: it never shrinks while the buffer is in use,
//! and it always covers every byte ever stored, so it bounds what the
//! buffer has held. A buffer's view is its unconsumed bytes.

use vstd::prelude::*;

verus! {

pub struct Buffer {
    data: Vec<u8>,
    start: usize,
    cap: usize,
}

impl View for Buffer {
    type V = Seq<u8>;

    closed spec fn view(&self) -> Seq<u8> {
        self.data@.subrange(self.start as int, self.data@.len() as int)
    }
}

impl Buffer {
    /// The consumed prefix: bytes split off the head so far.
    pub closed spec fn consumed(self) -> nat {
        self.start as nat
    }

    /// All bytes stored since the last reset: consumed prefix plus view.
    pub open spec fn total(self) -> nat {
        self.consumed() + self@.len()
    }

    /// The policy capacity.
    pub closed spec fn cap(self) -> nat {
        self.cap as nat
    }

    pub closed spec fn wf(self) -> bool {
        self.start <= self.data@.len() <= self.cap
    }

    /// A fresh empty buffer of the given capacity.
    pub fn with_capacity(capacity: usize) -> (r: Buffer)
        ensures
            r.wf(),
            r@ == Seq::<u8>::empty(),
            r.consumed() == 0,
            r.cap() == capacity,
    {
        let mut data: Vec<u8> = Vec::new();
        data.reserve(capacity);
        Buffer { data, start: 0, cap: capacity }
    }

    /// The unconsumed length.
    pub fn len(&self) -> (r: usize)
        requires
            self.wf(),
        ensures
            r == self@.len(),
    {
        self.data.len() - self.start
    }

    pub fn is_empty(&self) -> (r: bool)
        requires
            self.wf(),
        ensures
            r == (self@.len() == 0),
    {
        self.data.len() == self.start
    }

    /// The consumed prefix's length.
    pub fn consumed_len(&self) -> (r: usize)
        ensures
            r == self.consumed(),
    {
        self.start
    }

    pub fn capacity(&self) -> (r: usize)
        ensures
            r == self.cap(),
    {
        self.cap
    }

    /// Grows the capacity so that at least `additional` more bytes fit
    /// past what is stored; the capacity never shrinks.
    pub fn reserve(&mut self, additional: usize)
        requires
            old(self).wf(),
            old(self).total() + additional <= usize::MAX,
        ensures
            final(self).wf(),
            final(self)@ == old(self)@,
            final(self).consumed() == old(self).consumed(),
            final(self).total() == old(self).total(),
            final(self).cap() == vstd::math::max(old(self).cap() as int, old(self).total() + additional),
    {
        let needed = self.data.len() + additional;
        if needed > self.cap {
            self.data.reserve(additional);
            self.cap = needed;
        }
    }

    /// Appends bytes, growing the capacity if they do not fit.
    pub fn append(&mut self, bytes: &[u8])
        requires
            old(self).wf(),
        ensures
            final(self).wf(),
            final(self)@ == old(self)@ + bytes@,
            final(self).consumed() == old(self).consumed(),
            final(self).total() == old(self).total() + bytes@.len(),
            final(self).cap() == vstd::math::max(old(self).cap() as int, old(self).total() + bytes@.len() as int),
    {
        let mut i: usize = 0;
        while i < bytes.len()
            invariant
                i <= bytes@.len(),
                self.data@ == old(self).data@ + bytes@.subrange(0, i as int),
                self.start == old(self).start,
                self.cap == old(self).cap,
            decreases bytes@.len() - i,
        {
            self.data.push(bytes[i]);
            proof {
                assert(self.data@ =~= old(self).data@ + bytes@.subrange(0, i + 1));
            }
            i += 1;
        }
        if self.data.len() > self.cap {
            self.cap = self.data.len();
        }
        proof {
            assert(bytes@.subrange(0, bytes@.len() as int) =~= bytes@);
            assert(self@ =~= old(self)@ + bytes@);
        }
    }

    /// Splits `n` bytes off the head by advancing the start cursor.
    pub fn advance(&mut self, n: usize)
        requires
            old(self).wf(),
            n <= old(self)@.len(),
        ensures
            final(self).wf(),
            final(self)@ == old(self)@.subrange(n as int, old(self)@.len() as int),
            final(self).consumed() == old(self).consumed() + n,
            final(self).total() == old(self).total(),
            final(self).cap() == old(self).cap(),
    {
        self.start = self.start + n;
        proof {
            assert(self@ =~= old(self)@.subrange(n as int, old(self)@.len() as int));
        }
    }

    /// The unconsumed bytes.
    pub fn as_slice(&self) -> (r: &[u8])
        requires
            self.wf(),
        ensures
            r@ == self@,
    {
        vstd::slice::slice_subrange(self.data.as_slice(), self.start, self.data.len())
    }

    /// Resets the length and the cursor to zero, keeping the capacity.
    pub fn reset(&mut self)
        requires
            old(self).wf(),
        ensures
            final(self).wf(),
            final(self)@ == Seq::<u8>::empty(),
            final(self).consumed() == 0,
            final(self).total() == 0,
            final(self).cap() == old(self).cap(),
    {
        self.data.clear();
        self.start = 0;
    }
}

} // verus!
