use ducta::connection::needs_writable_interest;
use ducta::{
    AcceptOutcome, Buffer, BufferPool, ConnectionState, Route, ServerCore, BUFFER_DANGER_SIZE,
    BUFFER_STANDARD_SIZE, LISTENER_TOKEN, SLAB_OFFSET, WAKER_TOKEN,
};

#[test]
fn checkout_from_empty_pool_allocates() {
    let mut pool = BufferPool::new(0, BUFFER_STANDARD_SIZE);
    assert_eq!(pool.idle_buffers(), 0);
    let b = pool.checkout();
    assert_eq!(b.capacity(), BUFFER_STANDARD_SIZE);
    assert_eq!(b.len(), 0);
    assert_eq!(pool.idle_buffers(), 0);
}

#[test]
fn returned_buffer_is_reset() {
    let mut pool = BufferPool::new(0, BUFFER_STANDARD_SIZE);
    let mut b = pool.checkout();
    b.append(b"some request bytes");
    b.advance(5);
    pool.return_buffer(b);
    assert_eq!(pool.idle_buffers(), 1);
    let again = pool.checkout();
    assert_eq!(again.len(), 0);
    assert_eq!(again.capacity(), BUFFER_STANDARD_SIZE);
}

#[test]
fn oversized_buffer_is_replaced() {
    let mut pool = BufferPool::new(0, BUFFER_STANDARD_SIZE);
    let big = Buffer::with_capacity(BUFFER_DANGER_SIZE + 1);
    pool.return_buffer(big);
    let replaced = pool.checkout();
    assert_eq!(replaced.capacity(), BUFFER_STANDARD_SIZE);
}

#[test]
fn buffer_at_danger_threshold_is_kept() {
    let mut pool = BufferPool::new(0, BUFFER_STANDARD_SIZE);
    let edge = Buffer::with_capacity(BUFFER_DANGER_SIZE);
    pool.return_buffer(edge);
    let kept = pool.checkout();
    assert_eq!(kept.capacity(), BUFFER_DANGER_SIZE);
}

#[test]
fn pool_is_fifo() {
    let mut pool = BufferPool::new(0, BUFFER_STANDARD_SIZE);
    pool.return_buffer(Buffer::with_capacity(100));
    pool.return_buffer(Buffer::with_capacity(200));
    assert_eq!(pool.checkout().capacity(), 100);
    assert_eq!(pool.checkout().capacity(), 200);
}

#[test]
fn buffer_head_split_and_growth() {
    let mut b = Buffer::with_capacity(4);
    b.append(b"abcdef");
    assert!(b.capacity() >= 6);
    assert_eq!(b.as_slice(), b"abcdef");
    b.advance(2);
    assert_eq!(b.as_slice(), b"cdef");
    assert_eq!(b.len(), 4);
    b.append(b"gh");
    assert_eq!(b.as_slice(), b"cdefgh");
    let cap_before = b.capacity();
    b.reset();
    assert_eq!(b.len(), 0);
    assert_eq!(b.capacity(), cap_before);
}

#[test]
fn token_dispatch() {
    assert_eq!(ducta::server::dispatch_token(LISTENER_TOKEN), Route::Listener);
    assert_eq!(ducta::server::dispatch_token(WAKER_TOKEN), Route::Waker);
    assert_eq!(ducta::server::dispatch_token(2), Route::Connection(0));
    assert_eq!(ducta::server::dispatch_token(17), Route::Connection(15));
}

#[test]
fn accept_loop_stops_exactly_on_would_block() {
    assert!(ducta::server::accept_loop_continues(AcceptOutcome::Accepted));
    assert!(ducta::server::accept_loop_continues(AcceptOutcome::Failed));
    assert!(!ducta::server::accept_loop_continues(AcceptOutcome::WouldBlock));
}

#[test]
fn writable_interest_added_exactly_on_entering_writing() {
    assert!(needs_writable_interest(ConnectionState::Reading, ConnectionState::Writing));
    assert!(!needs_writable_interest(ConnectionState::Writing, ConnectionState::Writing));
    assert!(!needs_writable_interest(ConnectionState::Reading, ConnectionState::Reading));
    assert!(!needs_writable_interest(ConnectionState::Reading, ConnectionState::Closed));
    assert!(!needs_writable_interest(ConnectionState::Writing, ConnectionState::Closed));
}

#[test]
fn fresh_pool_buffers_have_canonical_capacity() {
    let mut pool = BufferPool::new(3, BUFFER_STANDARD_SIZE);
    assert_eq!(pool.checkout().capacity(), BUFFER_STANDARD_SIZE);
    assert_eq!(pool.checkout().capacity(), BUFFER_STANDARD_SIZE);
    assert_eq!(pool.checkout().capacity(), BUFFER_STANDARD_SIZE);
    assert_eq!(pool.idle_buffers(), 0);
}

#[test]
fn tokens_are_slot_keys_plus_offset() {
    let mut core = ServerCore::new();
    let t0 = core.accept_connection();
    let t1 = core.accept_connection();
    let t2 = core.accept_connection();
    assert_eq!(t0, SLAB_OFFSET);
    assert_eq!(t1, SLAB_OFFSET + 1);
    assert_eq!(t2, SLAB_OFFSET + 2);
}

#[test]
fn removed_slot_key_is_reused() {
    let mut core = ServerCore::new();
    let t0 = core.accept_connection();
    let t1 = core.accept_connection();
    let conn = core.take_connection(t0).expect("live connection");
    assert_eq!(conn.state(), ConnectionState::Reading);
    core.recycle(conn);
    let reused = core.accept_connection();
    assert_eq!(reused, t0);
    assert_ne!(reused, t1);
}

#[test]
fn take_and_restore_round_trip() {
    let mut core = ServerCore::new();
    let token = core.accept_connection();
    let conn = core.take_connection(token).expect("live connection");
    assert!(core.take_connection(token).is_none());
    core.restore_connection(token, conn);
    assert!(core.take_connection(token).is_some());
}

#[test]
fn recycle_returns_both_buffers() {
    let mut core = ServerCore::new();
    let before = core.buffer_pool.idle_buffers();
    let token = core.accept_connection();
    assert_eq!(core.buffer_pool.idle_buffers(), before - 2);
    let conn = core.take_connection(token).expect("live connection");
    core.recycle(conn);
    assert_eq!(core.buffer_pool.idle_buffers(), before);
}

#[test]
fn take_of_unknown_token_is_none() {
    let mut core = ServerCore::new();
    assert!(core.take_connection(SLAB_OFFSET).is_none());
    assert!(core.take_connection(99).is_none());
}
