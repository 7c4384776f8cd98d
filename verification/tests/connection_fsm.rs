use ducta::{BufferPool, Connection, ConnectionState, FixedHandler, Response, MAX_REQUEST_SIZE};

fn fresh_connection() -> Connection {
    let mut pool = BufferPool::new(2, 4096);
    let rb = pool.checkout();
    let wb = pool.checkout();
    Connection::new(rb, wb)
}

fn plain_handler(status: u16, body: &[u8]) -> FixedHandler {
    FixedHandler { status, headers: Vec::new(), body: body.to_vec() }
}

/// Feeds `data` respecting the read budget, as the host loop would;
/// stops when the connection leaves the Reading state. Returns how many
/// bytes were delivered.
fn feed(conn: &mut Connection, handler: &FixedHandler, data: &[u8], chunk_cap: usize) -> usize {
    let mut offset = 0;
    while offset < data.len() && conn.state() == ConnectionState::Reading {
        let budget = conn.read_budget();
        let step = budget.min(chunk_cap).min(data.len() - offset);
        conn.on_read_data(&data[offset..offset + step], handler);
        offset += step;
    }
    offset
}

#[test]
fn basic_get() {
    let mut conn = fresh_connection();
    let handler = plain_handler(200, b"Hi");
    feed(&mut conn, &handler, b"GET / HTTP/1.1\r\nHost: x\r\n\r\n", usize::MAX);
    assert_eq!(conn.state, ConnectionState::Writing);
    assert_eq!(
        conn.write_buffer.as_slice(),
        b"HTTP/1.1 200 OK\r\nContent-Length: 2\r\nContent-Type: text/plain\r\n\r\nHi"
    );
    let n = conn.write_buffer.len();
    conn.on_wrote(n);
    assert_eq!(conn.state, ConnectionState::Closed);
    assert_eq!(conn.write_buffer.len(), 0);
}

#[test]
fn not_found_reply() {
    let mut conn = fresh_connection();
    let handler = plain_handler(404, b"");
    feed(&mut conn, &handler, b"GET /missing HTTP/1.1\r\nHost: x\r\n\r\n", usize::MAX);
    assert_eq!(conn.state, ConnectionState::Writing);
    assert!(conn.write_buffer.as_slice().starts_with(
        b"HTTP/1.1 404 Not Found\r\nContent-Length: 0\r\nContent-Type: text/plain\r\n\r\n"
    ));
}

#[test]
fn custom_content_type_reply() {
    let mut conn = fresh_connection();
    let handler = FixedHandler {
        status: 200,
        headers: vec![("Content-Type".to_string(), "application/json".to_string())],
        body: b"{}".to_vec(),
    };
    feed(&mut conn, &handler, b"GET / HTTP/1.1\r\nHost: x\r\n\r\n", usize::MAX);
    let text = String::from_utf8(conn.write_buffer.as_slice().to_vec()).unwrap();
    assert_eq!(text.matches("Content-Type: application/json").count(), 1);
    assert!(!text.contains("text/plain"));
}

#[test]
fn partial_write_backpressure() {
    let mut conn = fresh_connection();
    let handler = plain_handler(200, b"Hello");
    feed(&mut conn, &handler, b"GET / HTTP/1.1\r\n\r\n", usize::MAX);
    assert_eq!(conn.state, ConnectionState::Writing);
    let total = conn.write_buffer.len();
    conn.on_wrote(3);
    assert_eq!(conn.state, ConnectionState::Writing);
    assert_eq!(conn.write_buffer.len(), total - 3);
    let rest = conn.write_buffer.len();
    conn.on_wrote(rest);
    assert_eq!(conn.state, ConnectionState::Closed);
}

#[test]
fn malformed_request_closes_silently() {
    let mut conn = fresh_connection();
    let handler = plain_handler(200, b"Hi");
    feed(&mut conn, &handler, b"GARBAGE\r\n\r\n", usize::MAX);
    assert_eq!(conn.state, ConnectionState::Closed);
    assert_eq!(conn.write_buffer.len(), 0);
}

#[test]
fn peer_eof_closes() {
    let mut conn = fresh_connection();
    conn.close();
    assert_eq!(conn.state, ConnectionState::Closed);
}

fn request_of_exactly(len: usize) -> Vec<u8> {
    let prefix = b"GET /".to_vec();
    let suffix = b" HTTP/1.1\r\nHost: x\r\n\r\n".to_vec();
    let padding = len - prefix.len() - suffix.len();
    let mut req = prefix;
    req.extend(std::iter::repeat(b'a').take(padding));
    req.extend_from_slice(&suffix);
    assert_eq!(req.len(), len);
    req
}

#[test]
fn exact_limit_request_succeeds() {
    let mut conn = fresh_connection();
    let handler = plain_handler(200, b"ok");
    let req = request_of_exactly(MAX_REQUEST_SIZE);
    let delivered = feed(&mut conn, &handler, &req, usize::MAX);
    assert_eq!(delivered, MAX_REQUEST_SIZE);
    assert_eq!(conn.state, ConnectionState::Writing);
    assert!(conn.write_buffer.as_slice().starts_with(b"HTTP/1.1 200 OK\r\n"));
}

#[test]
fn oversize_request_closes_without_response() {
    let mut conn = fresh_connection();
    let handler = plain_handler(200, b"ok");
    // One byte past the cap, and no terminator ever: a slow dribble.
    let mut attack = b"GET /".to_vec();
    attack.extend(std::iter::repeat(b'a').take(MAX_REQUEST_SIZE - 4));
    assert_eq!(attack.len(), MAX_REQUEST_SIZE + 1);
    let delivered = feed(&mut conn, &handler, &attack, 1);
    // The connection collapses once the cap is reached, before the last byte.
    assert_eq!(delivered, MAX_REQUEST_SIZE);
    assert_eq!(conn.state, ConnectionState::Closed);
    assert_eq!(conn.write_buffer.len(), 0);
}

#[test]
fn segmented_delivery_equals_single_delivery() {
    let request: &[u8] = b"GET /index HTTP/1.1\r\nHost: example\r\nAccept: */*\r\n\r\n";
    let handler = plain_handler(200, b"Hi");

    let mut whole = fresh_connection();
    feed(&mut whole, &handler, request, usize::MAX);

    let mut split = fresh_connection();
    feed(&mut split, &handler, request, 1);

    assert_eq!(whole.state, ConnectionState::Writing);
    assert_eq!(split.state, ConnectionState::Writing);
    assert_eq!(whole.write_buffer.as_slice(), split.write_buffer.as_slice());
    assert_eq!(whole.read_buffer.len(), split.read_buffer.len());
}

#[test]
fn pipelined_second_request_stays_buffered() {
    let mut conn = fresh_connection();
    let handler = plain_handler(200, b"Hi");
    let two = b"GET /a HTTP/1.1\r\n\r\nGET /b HTTP/1.1\r\n\r\n".to_vec();
    feed(&mut conn, &handler, &two, usize::MAX);
    // The first request is answered; the second stays resident.
    assert_eq!(conn.state, ConnectionState::Writing);
    assert_eq!(conn.read_buffer.as_slice(), b"GET /b HTTP/1.1\r\n\r\n");
}

#[test]
fn read_budget_never_exceeds_cap() {
    let mut conn = fresh_connection();
    let budget = conn.read_budget();
    assert_eq!(budget, 1024);
    let handler = plain_handler(200, b"x");
    let almost = request_of_exactly(MAX_REQUEST_SIZE);
    feed(&mut conn, &handler, &almost[..MAX_REQUEST_SIZE - 100], usize::MAX);
    assert_eq!(conn.state, ConnectionState::Reading);
    let last = conn.read_budget();
    assert_eq!(last, 100);
}

#[test]
fn handler_sees_parsed_request() {
    // A request parsed through the real grammar parser: the header value
    // comes back out of the request view, proving the bytes flowed through.
    let parsed = ducta::parse_request(b"GET /p?q=1 HTTP/1.1\r\nHost: example\r\nX-Tag: seven\r\n\r\n");
    match parsed {
        ducta::ParseStatus::Complete(req, consumed) => {
            assert_eq!(consumed, 52);
            assert_eq!(req.method, "GET");
            assert_eq!(req.path, "/p?q=1");
            assert_eq!(req.version, 1);
            assert_eq!(req.headers.len(), 2);
            assert_eq!(req.get_header("host"), Some(b"example".as_slice()));
            assert_eq!(req.get_header("X-TAG"), Some(b"seven".as_slice()));
            assert_eq!(req.get_header("absent"), None);
        }
        _ => panic!("expected a complete parse"),
    }
}

#[test]
fn parser_partial_and_error() {
    assert!(matches!(
        ducta::parse_request(b"GET / HTTP/1.1\r\nHost:"),
        ducta::ParseStatus::Partial
    ));
    assert!(matches!(ducta::parse_request(b"GARBAGE\r\n\r\n"), ducta::ParseStatus::Error));
}

#[test]
fn handler_response_echoes_fixture() {
    let handler = FixedHandler {
        status: 404,
        headers: vec![("X-K".to_string(), "v".to_string())],
        body: b"none".to_vec(),
    };
    let parsed = ducta::parse_request(b"GET / HTTP/1.1\r\n\r\n");
    let req = match parsed {
        ducta::ParseStatus::Complete(req, _) => req,
        _ => panic!("expected a complete parse"),
    };
    let resp: Response = ducta::Handler::handle(&handler, req);
    assert_eq!(resp.status, 404);
    assert_eq!(resp.headers, vec![("X-K".to_string(), "v".to_string())]);
    assert_eq!(resp.body, b"none".to_vec());
}
