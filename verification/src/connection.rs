//! The per-connection state machine.
//!
//! A connection owns a read buffer, a write buffer and a state in
//! {Reading, Writing, Closed}; transitions are monotonic toward Closed
//! within one request lifecycle. The host loop performs the socket
//! calls and reports their outcomes; every decision — size accounting,
//! parsing, dispatch, encoding, cursor advances — is made here.
//!
//! The read-phase transition is captured by the pure function
//! [`read_step`]: it depends only on the accumulated unconsumed bytes
//! (and the running total against the request-size cap), which is what
//! makes delivery in arbitrary segments equivalent to a single delivery.

use vstd::prelude::*;

use crate::buffer::Buffer;
use crate::handler::Handler;
use crate::parser::{http_parse, parse_request, ParseModel};
use crate::response::{spec_encode, ResponseModel};
use crate::MAX_REQUEST_SIZE;

verus! {

#[derive(Clone, Copy, PartialEq, Eq, Structural, Debug)]
pub enum ConnectionState {
    Reading,
    Writing,
    Closed,
}

/// The outcome of one read-phase step: the next state, the unconsumed
/// read bytes, how many bytes the parser consumed, and what was staged
/// for writing.
pub ghost struct ReadStep {
    pub state: ConnectionState,
    pub read: Seq<u8>,
    pub consumed: nat,
    pub wrote: Seq<u8>,
}

/// What one delivered chunk does, as a function of the accumulated
/// unconsumed bytes `data` and the running byte total `total`: a
/// complete parse dispatches to the handler, stages the encoded
/// response and consumes the request's bytes; a partial parse waits for
/// more data, unless the total has hit the request-size cap, which
/// closes the connection; a parse error closes it.
pub open spec fn read_step<H: Handler>(h: &H, data: Seq<u8>, total: nat) -> ReadStep {
    match http_parse(data) {
        ParseModel::Complete(req, n) => ReadStep {
            state: ConnectionState::Writing,
            read: data.skip(n as int),
            consumed: n,
            wrote: spec_encode(h.on_request(req)),
        },
        ParseModel::Partial => ReadStep {
            state: if total >= MAX_REQUEST_SIZE {
                ConnectionState::Closed
            } else {
                ConnectionState::Reading
            },
            read: data,
            consumed: 0,
            wrote: Seq::<u8>::empty(),
        },
        ParseModel::Error => ReadStep {
            state: ConnectionState::Closed,
            read: data,
            consumed: 0,
            wrote: Seq::<u8>::empty(),
        },
    }
}

/// Law: at the request-size cap, a request of exactly the cap that
/// parses complete is dispatched and answered, while one still
/// incomplete at the cap closes the connection with no response staged.
pub proof fn lemma_request_size_boundary<H: Handler>(h: &H, data: Seq<u8>)
    requires
        data.len() == MAX_REQUEST_SIZE,
    ensures
        http_parse(data) matches ParseModel::Complete(req, n) ==> read_step(
            h,
            data,
            data.len(),
        ).state is Writing && read_step(h, data, data.len()).wrote == spec_encode(
            h.on_request(req),
        ),
        http_parse(data) is Partial ==> read_step(h, data, data.len()).state is Closed
            && read_step(h, data, data.len()).wrote == Seq::<u8>::empty(),
{
}

/// The bytes of a segmented delivery, concatenated in order.
pub open spec fn concat_chunks(chunks: Seq<Seq<u8>>) -> Seq<u8>
    decreases chunks.len(),
{
    if chunks.len() == 0 {
        Seq::<u8>::empty()
    } else {
        chunks[0] + concat_chunks(chunks.drop_first())
    }
}

/// The read-phase outcome of delivering `chunks` one at a time into a
/// connection that is reading and already holds `buffered`: each chunk
/// takes one [`read_step`], and delivery goes on only while the
/// connection keeps reading.
pub open spec fn deliver<H: Handler>(h: &H, buffered: Seq<u8>, chunks: Seq<Seq<u8>>) -> ReadStep
    decreases chunks.len(),
{
    if chunks.len() == 0 {
        ReadStep {
            state: ConnectionState::Reading,
            read: buffered,
            consumed: 0,
            wrote: Seq::<u8>::empty(),
        }
    } else {
        let data = buffered + chunks[0];
        let s = read_step(h, data, data.len());
        if chunks.len() == 1 {
            s
        } else if s.state is Reading {
            deliver(h, data, chunks.drop_first())
        } else {
            s
        }
    }
}

/// Law: a request split across arbitrarily small segments yields the
/// same outcome — state, retained bytes, consumed count and staged
/// response — as a single delivery of the same bytes, provided every
/// proper prefix of the split still parses as partial and stays under
/// the size cap (otherwise the earlier segments would already have
/// settled the connection).
pub proof fn lemma_segmented_delivery<H: Handler>(h: &H, buffered: Seq<u8>, chunks: Seq<Seq<u8>>)
    requires
        chunks.len() >= 1,
        forall|k: int|
            1 <= k < chunks.len() ==> http_parse(
                buffered + concat_chunks(#[trigger] chunks.take(k)),
            ) is Partial,
        forall|k: int|
            1 <= k < chunks.len() ==> (buffered + concat_chunks(#[trigger] chunks.take(k))).len()
                < MAX_REQUEST_SIZE,
    ensures
        deliver(h, buffered, chunks) == read_step(
            h,
            buffered + concat_chunks(chunks),
            (buffered + concat_chunks(chunks)).len(),
        ),
    decreases chunks.len(),
{
    if chunks.len() == 1 {
        assert(chunks.drop_first() =~= Seq::<Seq<u8>>::empty());
        assert(buffered + concat_chunks(chunks) =~= buffered + chunks[0]);
    } else {
        let data = buffered + chunks[0];
        let rest = chunks.drop_first();
        assert(chunks.take(1).drop_first() =~= Seq::<Seq<u8>>::empty());
        assert(chunks.take(1)[0] == chunks[0]);
        assert(concat_chunks(chunks.take(1)) == chunks.take(1)[0] + concat_chunks(
            chunks.take(1).drop_first(),
        ));
        assert(concat_chunks(Seq::<Seq<u8>>::empty()) == Seq::<u8>::empty());
        assert(buffered + concat_chunks(chunks.take(1)) =~= data);
        assert(http_parse(data) is Partial);
        assert(data.len() < MAX_REQUEST_SIZE);
        assert forall|k: int| 1 <= k < rest.len() implies http_parse(
            data + concat_chunks(#[trigger] rest.take(k)),
        ) is Partial && (data + concat_chunks(rest.take(k))).len() < MAX_REQUEST_SIZE by {
            assert(chunks.take(k + 1).drop_first() =~= rest.take(k));
            assert(chunks.take(k + 1)[0] == chunks[0]);
            assert(data + concat_chunks(rest.take(k)) =~= buffered + concat_chunks(
                chunks.take(k + 1),
            ));
        }
        lemma_segmented_delivery(h, data, rest);
        assert(buffered + concat_chunks(chunks) =~= data + concat_chunks(rest));
    }
}

/// Whether the host must re-register the socket with writable interest
/// added: exactly on the transition into Writing. A connection is
/// registered with readable interest alone at accept, to avoid spurious
/// wakeups while it has nothing to send.
pub fn needs_writable_interest(before: ConnectionState, after: ConnectionState) -> (r: bool)
    ensures
        r == (!(before is Writing) && after is Writing),
{
    before != ConnectionState::Writing && after == ConnectionState::Writing
}

pub struct Connection {
    pub read_buffer: Buffer,
    pub write_buffer: Buffer,
    pub state: ConnectionState,
}

impl Connection {
    pub open spec fn state_spec(self) -> ConnectionState {
        self.state
    }

    /// Well-formedness: the buffers are sound, the read side never holds
    /// more than the request-size cap (consumed prefix included), and
    /// the write buffer is staged exactly while writing.
    pub open spec fn wf(self) -> bool {
        &&& self.read_buffer.wf()
        &&& self.write_buffer.wf()
        &&& self.read_buffer.total() <= MAX_REQUEST_SIZE
        &&& (self.state_spec() is Reading ==> self.read_buffer.total() < MAX_REQUEST_SIZE)
        &&& (self.state_spec() is Reading ==> self.write_buffer.total() == 0)
        &&& (self.state_spec() is Writing ==> self.write_buffer@.len() > 0)
    }

    /// A fresh connection around two empty buffers, ready to read.
    pub fn new(read_buffer: Buffer, write_buffer: Buffer) -> (r: Connection)
        requires
            read_buffer.wf(),
            read_buffer@.len() == 0,
            read_buffer.consumed() == 0,
            write_buffer.wf(),
            write_buffer@.len() == 0,
            write_buffer.consumed() == 0,
        ensures
            r.wf(),
            r.state_spec() is Reading,
            r.read_buffer == read_buffer,
            r.write_buffer == write_buffer,
    {
        Connection { state: ConnectionState::Reading, read_buffer, write_buffer }
    }

    pub fn state(&self) -> (s: ConnectionState)
        ensures
            s == self.state_spec(),
    {
        self.state
    }

    /// How many bytes the host may read toward this connection right
    /// now: what the request-size cap still admits, in reserve steps of
    /// at most 1024 — and at least one byte whenever the connection is
    /// reading. The read buffer's capacity is grown to fit.
    pub fn read_budget(&mut self) -> (r: usize)
        requires
            old(self).wf(),
        ensures
            final(self).wf(),
            final(self).state_spec() == old(self).state_spec(),
            final(self).read_buffer@ == old(self).read_buffer@,
            final(self).read_buffer.consumed() == old(self).read_buffer.consumed(),
            final(self).write_buffer == old(self).write_buffer,
            r == vstd::math::min(1024, MAX_REQUEST_SIZE - old(self).read_buffer.total()),
            r <= MAX_REQUEST_SIZE - old(self).read_buffer.total(),
            old(self).state_spec() is Reading ==> 1 <= r,
    {
        let len = self.read_buffer.len();
        let space_left = MAX_REQUEST_SIZE - (self.read_buffer.consumed_len() + len);
        let want = if space_left < 1024 {
            space_left
        } else {
            1024
        };
        self.read_buffer.reserve(want);
        want
    }

    /// Feeds one chunk the host read off the socket: appends it, parses
    /// the whole unconsumed prefix, and takes the [`read_step`]
    /// transition — dispatching to the handler and staging the encoded
    /// response when the request is complete.
    pub fn on_read_data<H: Handler>(&mut self, chunk: &[u8], handler: &H)
        requires
            old(self).wf(),
            old(self).state_spec() is Reading,
            old(self).read_buffer.total() + chunk@.len() <= MAX_REQUEST_SIZE,
        ensures
            final(self).wf(),
            ({
                let step = read_step(
                    handler,
                    old(self).read_buffer@ + chunk@,
                    old(self).read_buffer.total() + chunk@.len(),
                );
                &&& final(self).state_spec() == step.state
                &&& final(self).read_buffer@ == step.read
                &&& final(self).read_buffer.consumed() == old(self).read_buffer.consumed()
                    + step.consumed
                &&& final(self).read_buffer.total() == old(self).read_buffer.total() + chunk@.len()
                &&& final(self).write_buffer@ == old(self).write_buffer@ + step.wrote
                &&& final(self).write_buffer.consumed() == old(self).write_buffer.consumed()
            }),
    {
        self.read_buffer.append(chunk);
        let outcome = parse_request(self.read_buffer.as_slice());
        match outcome {
            crate::parser::ParseStatus::Complete(req, n) => {
                let resp = handler.handle(req);
                let bytes = resp.encode_to_vec();
                self.write_buffer.append(bytes.as_slice());
                self.read_buffer.advance(n);
                self.state = ConnectionState::Writing;
                proof {
                    crate::response::lemma_encode_nonempty(resp@);
                }
            },
            crate::parser::ParseStatus::Partial => {
                let len = self.read_buffer.consumed_len() + self.read_buffer.len();
                if len >= MAX_REQUEST_SIZE {
                    self.state = ConnectionState::Closed;
                }
            },
            crate::parser::ParseStatus::Error => {
                self.state = ConnectionState::Closed;
            },
        }
    }

    /// The peer closed, or a socket error: the connection collapses.
    pub fn close(&mut self)
        requires
            old(self).wf(),
        ensures
            final(self).wf(),
            final(self).state_spec() is Closed,
            final(self).read_buffer == old(self).read_buffer,
            final(self).write_buffer == old(self).write_buffer,
    {
        self.state = ConnectionState::Closed;
    }

    /// The host wrote `n` bytes of the staged response: they are split
    /// off the write buffer's head; when nothing is left the connection
    /// closes (one response per connection).
    pub fn on_wrote(&mut self, n: usize)
        requires
            old(self).wf(),
            old(self).state_spec() is Writing,
            1 <= n <= old(self).write_buffer@.len(),
        ensures
            final(self).wf(),
            final(self).read_buffer == old(self).read_buffer,
            final(self).write_buffer@ == old(self).write_buffer@.skip(n as int),
            final(self).write_buffer.consumed() == old(self).write_buffer.consumed() + n,
            final(self).state_spec() == (if n == old(self).write_buffer@.len() {
                ConnectionState::Closed
            } else {
                ConnectionState::Writing
            }),
    {
        self.write_buffer.advance(n);
        if self.write_buffer.is_empty() {
            self.state = ConnectionState::Closed;
        }
    }

    /// Hands the two buffers back for reclamation.
    pub fn get_buffers(self) -> (r: (Buffer, Buffer))
        ensures
            r.0 == self.read_buffer,
            r.1 == self.write_buffer,
    {
        (self.read_buffer, self.write_buffer)
    }
}

} // verus!
