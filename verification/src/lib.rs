//! A minimal single-threaded HTTP/1.1 server library.
//!
//! The verified core covers the buffer pool, the response encoder, the
//! request-parser integration, the per-connection state machine and the
//! connection table; a host binary supplies the sockets and the event loop.

use vstd::prelude::*;

pub mod ascii;
pub mod buffer;
pub mod buffer_pool;
pub mod connection;
pub mod handler;
pub mod parser;
pub mod request;
pub mod response;
pub mod server;
pub mod table;

pub use ascii::eq_ignore_ascii_case;
pub use buffer::Buffer;
pub use buffer_pool::{BufferPool, BUFFER_DANGER_SIZE, BUFFER_STANDARD_SIZE};
pub use connection::{Connection, ConnectionState};
pub use handler::{FixedHandler, Handler};
pub use parser::{parse_request, ParseStatus};
pub use request::{HeaderField, Request};
pub use response::Response;
pub use server::{AcceptOutcome, Route, ServerCore};
pub use table::ConnectionTable;

verus! {

/// Hard cap on the bytes buffered for one request (request line plus headers).
pub const MAX_REQUEST_SIZE: usize = 8192;

/// Readiness token reserved for the listening socket.
pub const LISTENER_TOKEN: usize = 0;

/// Readiness token reserved for the wake primitive.
pub const WAKER_TOKEN: usize = 1;

/// Connection tokens are the slot key plus this offset, past the reserved tokens.
pub const SLAB_OFFSET: usize = 2;

} // verus!
