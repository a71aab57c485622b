use twebd::conn::{tls_interest, ConnState, Connection, Interest, MAX_HEAD_BYTES};
use twebd::http::{HttpMethod, HttpStatus, HttpResponse};
use twebd::srv::Registry;
use twebd::syn::{shutdown_plan, worker_run, worker_step, Message, ThreadPool};

#[test]
fn request_assembles_across_partial_reads() {
    let mut c = Connection::new(7);
    assert_eq!(c.state, ConnState::Opened);
    c.on_data(&b"GET /x HTT".to_vec());
    assert_eq!(c.state, ConnState::Reading);
    assert!(c.request.is_none());
    c.on_data(&b"P/1.1\r\nHost: y\r\n\r\n".to_vec());
    assert_eq!(c.state, ConnState::Responding);
    let req = c.request.as_ref().unwrap();
    assert_eq!(req.method, HttpMethod::Get);
    assert_eq!(req.uri, b"/x".to_vec());
}

#[test]
fn body_is_awaited_before_responding() {
    let mut c = Connection::new(3);
    c.on_data(&b"POST / HTTP/1.1\r\nContent-Length: 5\r\n\r\nhe".to_vec());
    assert_eq!(c.state, ConnState::Reading);
    c.on_data(&b"llo".to_vec());
    assert_eq!(c.state, ConnState::Responding);
    assert_eq!(c.request.as_ref().unwrap().body.content, b"hello".to_vec());
}

#[test]
fn scenario_oversize_head_is_431() {
    let mut c = Connection::new(9);
    c.on_data(&b"GET /x HTTP/1.1\r\n".to_vec());
    // 20 KiB of padding header lines without a terminating blank line
    let pad = b"X-Pad: a\r\n".repeat(2048);
    assert!(pad.len() > MAX_HEAD_BYTES);
    c.on_data(&pad);
    assert_eq!(c.state, ConnState::Responding);
    let resp = c.response.as_ref().unwrap().clone();
    assert_eq!(resp.status, HttpStatus::RequestHeaderFieldsTooLarge);
    assert_eq!(resp.status.code(), 431);
    c.enqueue_response(&resp);
    assert_eq!(c.state, ConnState::Draining);
    assert!(c.wbuf.starts_with(b"HTTP/1.1 431 Request Header Fields Too Large\r\n"));
}

#[test]
fn scenario_unknown_method_is_answered_400() {
    let mut c = Connection::new(2);
    c.on_data(&b"PATCHX / HTTP/1.1\r\n\r\n".to_vec());
    assert_eq!(c.state, ConnState::Responding);
    assert_eq!(c.response.as_ref().unwrap().status.code(), 400);
}

#[test]
fn unsupported_version_is_answered_505() {
    let mut c = Connection::new(2);
    c.on_data(&b"GET / HTTP/9.9\r\n\r\n".to_vec());
    assert_eq!(c.response.as_ref().unwrap().status.code(), 505);
}

#[test]
fn draining_closes_once_the_buffer_empties() {
    let mut c = Connection::new(4);
    c.on_data(&b"GET / HTTP/1.1\r\n\r\n".to_vec());
    assert_eq!(c.state, ConnState::Responding);
    let resp = HttpResponse::from_status(HttpStatus::NotFound);
    c.enqueue_response(&resp);
    assert_eq!(c.state, ConnState::Draining);
    let half = c.wbuf.len() / 2;
    c.on_writable(half);
    assert_eq!(c.state, ConnState::Draining);
    let rest = c.wbuf.len();
    c.on_writable(rest);
    assert_eq!(c.state, ConnState::Closing);
    assert!(c.is_closing());
    c.shutdown();
    assert_eq!(c.state, ConnState::Closed);
    assert!(c.is_closed());
}

#[test]
fn peer_close_skips_the_response() {
    let mut c = Connection::new(5);
    c.on_data(&b"GET / HT".to_vec());
    c.on_peer_close();
    assert_eq!(c.state, ConnState::Closing);
}

#[test]
fn interest_follows_the_state() {
    let mut c = Connection::new(6);
    assert_eq!(c.interest(), Interest::Read);
    c.on_data(&b"GET / HTTP/1.1\r\n\r\n".to_vec());
    assert_eq!(c.interest(), Interest::ReadWrite);
    let resp = HttpResponse::from_status(HttpStatus::NotFound);
    c.enqueue_response(&resp);
    assert_eq!(c.interest(), Interest::ReadWrite);
    let n = c.wbuf.len();
    c.on_writable(n);
    assert_eq!(c.interest(), Interest::Idle);
}

#[test]
fn tls_interest_follows_the_session_flags() {
    assert_eq!(tls_interest(true, true), Interest::ReadWrite);
    assert_eq!(tls_interest(true, false), Interest::Read);
    assert_eq!(tls_interest(false, true), Interest::Write);
    assert_eq!(tls_interest(false, false), Interest::Write);
}

#[test]
fn registry_hands_out_fresh_nonzero_tokens() {
    let mut reg = Registry::new();
    let a = reg.accept();
    let b = reg.accept();
    let c = reg.accept();
    assert_eq!((a, b, c), (1, 2, 3));
    assert_eq!(reg.len(), 3);
    assert!(a != 0 && b != 0 && c != 0);
}

#[test]
fn registry_take_and_check_in_round_trip() {
    let mut reg = Registry::new();
    let t = reg.accept();
    let _ = reg.accept();
    let mut conn = reg.take(t).unwrap();
    assert_eq!(conn.token, t);
    assert_eq!(reg.len(), 1);
    assert!(reg.position(t).is_none());
    conn.on_data(&b"GET / HTTP/1.1\r\n\r\n".to_vec());
    if !conn.is_closed() {
        reg.check_in(conn);
    }
    assert_eq!(reg.len(), 2);
    assert!(reg.position(t).is_some());
}

#[test]
fn closed_connections_stay_out_of_the_registry() {
    let mut reg = Registry::new();
    let t = reg.accept();
    let mut conn = reg.take(t).unwrap();
    conn.on_peer_close();
    conn.shutdown();
    assert!(conn.is_closed());
    // a closed connection is dropped, never checked back in
    assert_eq!(reg.len(), 0);
    assert!(reg.position(t).is_none());
    assert!(reg.take(t).is_none());
}

#[test]
fn workers_run_jobs_and_stop_on_terminate() {
    assert!(worker_step(&Message::Job(1)));
    assert!(!worker_step(&Message::Terminate));
    let queue = vec![
        Message::Job(1),
        Message::Job(2),
        Message::Terminate,
        Message::Job(3),
    ];
    assert_eq!(worker_run(&queue), 3);
    let no_stop = vec![Message::Job(1), Message::Job(2)];
    assert_eq!(worker_run(&no_stop), 2);
    let empty: Vec<Message> = Vec::new();
    assert_eq!(worker_run(&empty), 0);
}

#[test]
fn shutdown_plan_carries_one_terminate_per_worker() {
    let pool = ThreadPool::new(4);
    assert_eq!(pool.size(), 4);
    let plan = shutdown_plan(pool.size());
    assert_eq!(plan.len(), 4);
    for m in &plan {
        assert_eq!(*m, Message::Terminate);
        assert!(!worker_step(m));
    }
}

#[test]
fn token_counter_skips_the_reserved_token_on_wraparound() {
    let mut reg = Registry::new();
    reg.next_token = usize::MAX;
    let t = reg.accept();
    assert_eq!(t, usize::MAX);
    assert_eq!(reg.next_token, 1);
}

#[test]
fn take_leaves_the_other_connections_in_place() {
    let mut reg = Registry::new();
    let a = reg.accept();
    let b = reg.accept();
    let c = reg.accept();
    let taken = reg.take(b).unwrap();
    assert_eq!(taken.token, b);
    assert_eq!(reg.len(), 2);
    assert!(reg.position(a).is_some());
    assert!(reg.position(c).is_some());
    assert!(reg.position(b).is_none());
    assert!(reg.take(b).is_none());
    assert_eq!(reg.len(), 2);
}
