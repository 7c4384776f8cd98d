//! The server core: the connection table, the buffer pool, and the
//! decisions of the event loop — token dispatch, slot assignment on
//! accept, and reclamation on teardown. The host binary owns the
//! listener, the readiness notifier and the wake primitive, and calls
//! in here for every decision.

use vstd::prelude::*;

use crate::buffer_pool::{BufferPool, BUFFER_DANGER_SIZE, BUFFER_STANDARD_SIZE};
use crate::connection::Connection;
use crate::table::ConnectionTable;
use crate::{LISTENER_TOKEN, SLAB_OFFSET, WAKER_TOKEN};

verus! {

/// Where a readiness token leads: the two reserved tokens, or a
/// connection slot key (the token minus the reserved offset).
#[derive(Clone, Copy, PartialEq, Eq, Structural, Debug)]
pub enum Route {
    Listener,
    Waker,
    Connection(usize),
}

/// Dispatches one readiness token.
pub fn dispatch_token(token: usize) -> (r: Route)
    ensures
        token == LISTENER_TOKEN ==> r == Route::Listener,
        token == WAKER_TOKEN ==> r == Route::Waker,
        token >= SLAB_OFFSET ==> r == Route::Connection((token - SLAB_OFFSET) as usize),
{
    if token == LISTENER_TOKEN {
        Route::Listener
    } else if token == WAKER_TOKEN {
        Route::Waker
    } else {
        Route::Connection(token - SLAB_OFFSET)
    }
}

/// What one accept attempt reported.
#[derive(Clone, Copy, PartialEq, Eq, Structural, Debug)]
pub enum AcceptOutcome {
    /// A socket was accepted.
    Accepted,
    /// The kernel has no pending connection: the accept loop must stop.
    WouldBlock,
    /// Some other error; it is logged and the loop goes on.
    Failed,
}

/// Law: the accept loop stops exactly when would-block is reported —
/// an accepted socket or a transient failure keeps it going.
pub fn accept_loop_continues(outcome: AcceptOutcome) -> (r: bool)
    ensures
        r == !(outcome is WouldBlock),
{
    match outcome {
        AcceptOutcome::WouldBlock => false,
        _ => true,
    }
}

pub struct ServerCore {
    pub connections: ConnectionTable,
    pub buffer_pool: BufferPool,
}

impl ServerCore {
    pub open spec fn wf(self) -> bool {
        &&& self.connections.wf()
        &&& self.buffer_pool.wf()
    }

    /// Preallocates a 1024-slot-capacity table and a pool of 1024
    /// canonical-size buffers.
    pub fn new() -> (r: ServerCore)
        ensures
            r.wf(),
            r.connections@.len() == 0,
            r.buffer_pool.size() == 1024,
            r.buffer_pool.buffer_size_spec() == BUFFER_STANDARD_SIZE,
            forall|i: int|
                0 <= i < r.buffer_pool@.len() ==> (#[trigger] r.buffer_pool@[i]).cap()
                    == BUFFER_STANDARD_SIZE,
    {
        ServerCore {
            connections: ConnectionTable::with_capacity(1024),
            buffer_pool: BufferPool::new(1024, BUFFER_STANDARD_SIZE),
        }
    }

    /// Admits one accepted socket: lends two pooled buffers to a fresh
    /// connection, stores it under the lowest vacant key, and returns
    /// the readiness token to register the socket under — always the
    /// slot key plus the reserved offset.
    pub fn accept_connection(&mut self) -> (token: usize)
        requires
            old(self).wf(),
            old(self).connections@.len() + SLAB_OFFSET < usize::MAX,
        ensures
            final(self).wf(),
            token >= SLAB_OFFSET,
            ({
                let key = token - SLAB_OFFSET;
                &&& key <= old(self).connections@.len()
                &&& (forall|j: int| 0 <= j < key ==> (#[trigger] old(self).connections@[j]) is Some)
                &&& (key < old(self).connections@.len() ==> old(self).connections@[key] is None)
                &&& final(self).connections@.len() == vstd::math::max(
                    old(self).connections@.len() as int,
                    key + 1,
                )
                &&& (final(self).connections@[key] matches Some(c) && c.wf()
                    && c.state_spec() is Reading && c.read_buffer@.len() == 0
                    && c.read_buffer.consumed() == 0 && c.write_buffer@.len() == 0
                    && c.write_buffer.consumed() == 0)
                &&& (forall|j: int|
                    0 <= j < old(self).connections@.len() && j != key
                        ==> final(self).connections@[j] == old(self).connections@[j])
                &&& (old(self).buffer_pool.size() >= 2 ==> (final(self).connections@[key]
                    matches Some(c) && c.read_buffer == old(self).buffer_pool@[0]
                    && c.write_buffer == old(self).buffer_pool@[1]))
            }),
            final(self).buffer_pool.buffer_size_spec() == old(self).buffer_pool.buffer_size_spec(),
            final(self).buffer_pool@ == old(self).buffer_pool@.skip(
                vstd::math::min(2, old(self).buffer_pool.size() as int),
            ),
    {
        let read_buffer = self.buffer_pool.checkout();
        let write_buffer = self.buffer_pool.checkout();
        proof {
            if old(self).buffer_pool.size() >= 2 {
                assert(self.buffer_pool@ =~= old(self).buffer_pool@.skip(2));
            } else if old(self).buffer_pool.size() == 1 {
                assert(self.buffer_pool@ =~= old(self).buffer_pool@.skip(1));
            } else {
                assert(self.buffer_pool@ =~= old(self).buffer_pool@.skip(0));
            }
        }
        let conn = Connection::new(read_buffer, write_buffer);
        let key = self.connections.insert(conn);
        key + SLAB_OFFSET
    }

    /// Removes and hands out the connection a token routes to, leaving
    /// its slot vacant while the host works on it.
    pub fn take_connection(&mut self, token: usize) -> (r: Option<Connection>)
        requires
            old(self).wf(),
            token >= SLAB_OFFSET,
        ensures
            final(self).wf(),
            ({
                let key = token - SLAB_OFFSET;
                &&& (key >= old(self).connections@.len() ==> r is None && final(self).connections@
                    == old(self).connections@)
                &&& (key < old(self).connections@.len() ==> r == old(self).connections@[key as int]
                    && final(self).connections@ == old(self).connections@.update(key as int, None))
            }),
            r matches Some(c) ==> c.wf(),
            final(self).buffer_pool == old(self).buffer_pool,
    {
        self.connections.take(token - SLAB_OFFSET)
    }

    /// Puts a connection back into the slot its token routes to.
    pub fn restore_connection(&mut self, token: usize, conn: Connection)
        requires
            old(self).wf(),
            conn.wf(),
            token >= SLAB_OFFSET,
            token - SLAB_OFFSET < old(self).connections@.len(),
            old(self).connections@[token - SLAB_OFFSET] is None,
        ensures
            final(self).wf(),
            final(self).connections@ == old(self).connections@.update(
                token - SLAB_OFFSET,
                Some(conn),
            ),
            final(self).buffer_pool == old(self).buffer_pool,
    {
        self.connections.restore(token - SLAB_OFFSET, conn);
    }

    /// Reclaims a closed connection's buffers into the pool: its read
    /// buffer and then its write buffer are reset and appended, each
    /// replaced by a fresh canonical-size buffer if it grew past the
    /// danger threshold.
    pub fn recycle(&mut self, conn: Connection)
        requires
            old(self).wf(),
            conn.wf(),
        ensures
            final(self).wf(),
            final(self).buffer_pool.size() == old(self).buffer_pool.size() + 2,
            final(self).buffer_pool.buffer_size_spec() == old(self).buffer_pool.buffer_size_spec(),
            final(self).buffer_pool@.subrange(0, old(self).buffer_pool.size() as int)
                == old(self).buffer_pool@,
            ({
                let at = old(self).buffer_pool.size() as int;
                let canonical = old(self).buffer_pool.buffer_size_spec();
                let pool = final(self).buffer_pool@;
                &&& (conn.read_buffer.cap() <= BUFFER_DANGER_SIZE ==> pool[at].cap()
                    == conn.read_buffer.cap())
                &&& (conn.read_buffer.cap() > BUFFER_DANGER_SIZE ==> pool[at].cap() == canonical)
                &&& (conn.write_buffer.cap() <= BUFFER_DANGER_SIZE ==> pool[at + 1].cap()
                    == conn.write_buffer.cap())
                &&& (conn.write_buffer.cap() > BUFFER_DANGER_SIZE ==> pool[at + 1].cap()
                    == canonical)
            }),
            final(self).connections@ == old(self).connections@,
    {
        let ghost before = self.buffer_pool@;
        let (read_buffer, write_buffer) = conn.get_buffers();
        self.buffer_pool.return_buffer(read_buffer);
        let ghost middle = self.buffer_pool@;
        self.buffer_pool.return_buffer(write_buffer);
        proof {
            assert(self.buffer_pool@.subrange(0, before.len() as int) =~= before);
            assert(self.buffer_pool@[before.len() as int] == middle[before.len() as int]);
        }
    }
}

} // verus!
