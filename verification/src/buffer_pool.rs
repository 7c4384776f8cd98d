//! A FIFO pool of idle byte buffers.
//!
//! Every pooled buffer is empty with its cursor at zero, and its capacity
//! is at most the danger threshold: a returned buffer that grew past it is
//! discarded and replaced by a fresh one of the canonical size, so one
//! oversized client cannot permanently inflate the pooled memory.

use vstd::prelude::*;
use std::collections::VecDeque;

use crate::buffer::Buffer;

verus! {

/// The canonical buffer size.
pub const BUFFER_STANDARD_SIZE: usize = 4096;

/// Capacity above which a returned buffer is discarded rather than pooled.
pub const BUFFER_DANGER_SIZE: usize = 65536;

pub struct BufferPool {
    pool: VecDeque<Buffer>,
    buffer_size: usize,
}

impl View for BufferPool {
    type V = Seq<Buffer>;

    closed spec fn view(&self) -> Seq<Buffer> {
        self.pool@
    }
}

impl BufferPool {
    /// Each idle buffer is reset and within the danger threshold.
    pub open spec fn pooled_ok(b: Buffer) -> bool {
        &&& b.wf()
        &&& b@.len() == 0
        &&& b.consumed() == 0
        &&& b.cap() <= BUFFER_DANGER_SIZE
    }

    pub open spec fn wf(self) -> bool {
        &&& forall|i: int| 0 <= i < self@.len() ==> Self::pooled_ok(#[trigger] self@[i])
        &&& self.buffer_size_spec() <= BUFFER_DANGER_SIZE
    }

    pub open spec fn size(self) -> nat {
        self@.len()
    }

    pub closed spec fn buffer_size_spec(self) -> nat {
        self.buffer_size as nat
    }

    /// Populates the pool with `initial` buffers of `buffer_size` bytes each.
    pub fn new(initial: usize, buffer_size: usize) -> (r: BufferPool)
        requires
            buffer_size <= BUFFER_DANGER_SIZE,
        ensures
            r.wf(),
            r.size() == initial,
            r.buffer_size_spec() == buffer_size,
            forall|i: int| 0 <= i < r@.len() ==> (#[trigger] r@[i]).cap() == buffer_size,
    {
        let mut pool: VecDeque<Buffer> = VecDeque::with_capacity(initial);
        let mut i: usize = 0;
        while i < initial
            invariant
                i <= initial,
                pool@.len() == i,
                buffer_size <= BUFFER_DANGER_SIZE,
                forall|j: int| 0 <= j < pool@.len() ==> Self::pooled_ok(#[trigger] pool@[j]),
                forall|j: int| 0 <= j < pool@.len() ==> (#[trigger] pool@[j]).cap() == buffer_size,
            decreases initial - i,
        {
            pool.push_back(Buffer::with_capacity(buffer_size));
            i += 1;
        }
        BufferPool { pool, buffer_size }
    }

    /// How many idle buffers the pool holds.
    pub fn idle_buffers(&self) -> (r: usize)
        ensures
            r == self.size(),
    {
        self.pool.len()
    }

    /// Takes the oldest idle buffer; if none is left, allocates a fresh
    /// one of the canonical size. Never fails.
    pub fn checkout(&mut self) -> (r: Buffer)
        requires
            old(self).wf(),
        ensures
            final(self).wf(),
            final(self).buffer_size_spec() == old(self).buffer_size_spec(),
            Self::pooled_ok(r),
            old(self).size() > 0 ==> r == old(self)@[0] && final(self)@ == old(self)@.skip(1),
            old(self).size() == 0 ==> r.cap() == old(self).buffer_size_spec() && final(self)@
                == old(self)@,
    {
        match self.pool.pop_front() {
            Some(b) => {
                proof {
                    assert(b == old(self)@[0]);
                    assert forall|i: int| 0 <= i < self@.len() implies Self::pooled_ok(
                        #[trigger] self@[i],
                    ) by {
                        assert(self@[i] == old(self)@[i + 1]);
                    }
                }
                b
            },
            None => Buffer::with_capacity(self.buffer_size),
        }
    }

    /// Resets a buffer and pushes it back, unless its capacity exceeds
    /// the danger threshold, in which case a fresh canonical-size buffer
    /// takes its place.
    pub fn return_buffer(&mut self, buf: Buffer)
        requires
            old(self).wf(),
            buf.wf(),
        ensures
            final(self).wf(),
            final(self).buffer_size_spec() == old(self).buffer_size_spec(),
            final(self).size() == old(self).size() + 1,
            final(self)@.subrange(0, old(self).size() as int) == old(self)@,
            Self::pooled_ok(final(self)@[old(self).size() as int]),
            buf.cap() <= BUFFER_DANGER_SIZE ==> final(self)@[old(self).size() as int].cap() == buf.cap(),
            buf.cap() > BUFFER_DANGER_SIZE ==> final(self)@[old(self).size() as int].cap()
                == old(self).buffer_size_spec(),
    {
        let mut buf = buf;
        buf.reset();
        if buf.capacity() <= BUFFER_DANGER_SIZE {
            self.pool.push_back(buf);
        } else {
            self.pool.push_back(Buffer::with_capacity(self.buffer_size));
        }
        proof {
            assert(self@.subrange(0, old(self).size() as int) =~= old(self)@);
        }
    }
}

} // verus!
