use tache::dispatch::{Session, SessionState, TimerAction, TimerKind};
use tache::http_codec::{build_connection_meta, decode, DecodeOutcome};
use tache::http_render::{append_response, bad_request_reason, request_timeout_reason};

const DATE: &[u8] = b"Thu, 01 Jan 1970 00:00:00 GMT";

#[test]
fn decode_single_request() {
    let buf = b"GET /x HTTP/1.1\r\nHost: example.com:80\r\n\r\n";
    match decode(buf) {
        DecodeOutcome::Complete { used, req } => {
            assert_eq!(used, buf.len());
            assert_eq!(req.method, b"GET");
            assert_eq!(req.target, b"/x");
            assert_eq!(req.headers.len(), 1);
            assert_eq!(req.headers[0].name, b"Host");
            assert_eq!(req.headers[0].value, b"example.com:80");
        }
        other => panic!("expected a complete request, got {:?}", kind_of(&other)),
    }
}

fn kind_of(o: &DecodeOutcome) -> &'static str {
    match o {
        DecodeOutcome::Partial => "partial",
        DecodeOutcome::Complete { .. } => "complete",
        DecodeOutcome::BadVersion => "bad version",
        DecodeOutcome::Malformed => "malformed",
    }
}

#[test]
fn decode_truncated_is_partial() {
    assert_eq!(kind_of(&decode(b"GET /x HTTP/1.1\r\nHost: e")), "partial");
    assert_eq!(kind_of(&decode(b"")), "partial");
    assert_eq!(kind_of(&decode(b"GET /x HTTP/1.1\r\n")), "partial");
}

#[test]
fn decode_rejects_other_versions() {
    assert_eq!(kind_of(&decode(b"GET /x HTTP/1.0\r\n\r\n")), "bad version");
    assert_eq!(kind_of(&decode(b"GET /x HTTP/2.0\r\n\r\n")), "bad version");
}

#[test]
fn decode_rejects_malformed_heads() {
    assert_eq!(kind_of(&decode(b"FOO\r\n\r\n")), "malformed");
    assert_eq!(kind_of(&decode(b"GET /x NOTHTTP/11\r\n\r\n")), "malformed");
    assert_eq!(kind_of(&decode(b"GET /x HTTP/1.1\r\nNoColonHere\r\n\r\n")), "malformed");
    assert_eq!(kind_of(&decode(b" / HTTP/1.1\r\n\r\n")), "malformed");
}

#[test]
fn decode_trims_header_blanks() {
    let buf = b"GET / HTTP/1.1\r\nHost: \t padded.example \t \r\n\r\n";
    match decode(buf) {
        DecodeOutcome::Complete { req, .. } => {
            assert_eq!(req.headers[0].value, b"padded.example");
        }
        other => panic!("expected a complete request, got {:?}", kind_of(&other)),
    }
}

#[test]
fn host_header_is_case_insensitive() {
    let buf = b"GET / HTTP/1.1\r\nhOsT: example.com:80\r\n\r\n";
    match decode(buf) {
        DecodeOutcome::Complete { req, .. } => {
            assert_eq!(req.host_header().unwrap(), b"example.com:80");
        }
        other => panic!("expected a complete request, got {:?}", kind_of(&other)),
    }
}

#[test]
fn connection_meta_from_request() {
    let buf = b"GET /x HTTP/1.1\r\nHost: example.com:80\r\n\r\n";
    match decode(buf) {
        DecodeOutcome::Complete { req, .. } => {
            let meta = build_connection_meta(&req, None, None).unwrap();
            assert!(!meta.udp);
            assert_eq!(meta.host, b"example.com");
            assert!(meta.is_host());
        }
        other => panic!("expected a complete request, got {:?}", kind_of(&other)),
    }
}

#[test]
fn connection_meta_requires_a_host() {
    let buf = b"GET /x HTTP/1.1\r\nAccept: all\r\n\r\n";
    match decode(buf) {
        DecodeOutcome::Complete { req, .. } => {
            assert!(build_connection_meta(&req, None, None).is_err());
        }
        other => panic!("expected a complete request, got {:?}", kind_of(&other)),
    }
}

#[test]
fn session_single_request_resets_keepalive() {
    let mut s = Session::new(true);
    assert_eq!(s.timer, Some(TimerKind::SlowRequest));
    let out = s.on_data(b"GET /x HTTP/1.1\r\nHost: example.com:80\r\n\r\n", DATE);
    assert_eq!(out.len(), 1);
    assert_eq!(out[0].method, b"GET");
    assert_eq!(s.timer, Some(TimerKind::KeepAlive));
    assert_eq!(s.state, SessionState::Reading);
    assert!(s.read_buf.is_empty());
}

#[test]
fn session_truncated_waits_for_more() {
    let mut s = Session::new(true);
    let out = s.on_data(b"GET /x HTTP/1.1\r\nHo", DATE);
    assert_eq!(out.len(), 0);
    assert_eq!(s.timer, Some(TimerKind::SlowRequest));
    let out = s.on_data(b"st: example.com:80\r\n\r\n", DATE);
    assert_eq!(out.len(), 1);
    assert_eq!(s.timer, Some(TimerKind::KeepAlive));
}

#[test]
fn session_pipelined_requests_in_order() {
    let mut s = Session::new(true);
    let out = s.on_data(
        b"GET /a HTTP/1.1\r\nHost: h:1\r\n\r\nGET /b HTTP/1.1\r\nHost: h:1\r\n\r\n",
        DATE,
    );
    assert_eq!(out.len(), 2);
    assert_eq!(out[0].target, b"/a");
    assert_eq!(out[1].target, b"/b");
}

#[test]
fn session_bad_version_answers_400() {
    let mut s = Session::new(true);
    let out = s.on_data(b"GET /x HTTP/1.0\r\n\r\n", DATE);
    assert_eq!(out.len(), 0);
    assert_eq!(s.state, SessionState::ShuttingDown);
    assert_eq!(s.timer, Some(TimerKind::ShutdownGrace));
    let text = String::from_utf8(s.write_buf.clone()).unwrap();
    assert!(text.starts_with("HTTP/1.1 400 Bad Request\r\n"));
    assert!(text.contains("Content-Length: 0\r\n"));
}

#[test]
fn session_slow_request_answers_408() {
    let mut s = Session::new(true);
    assert_eq!(s.on_timer(DATE), TimerAction::BeginShutdown);
    assert_eq!(s.state, SessionState::ShuttingDown);
    assert_eq!(s.timer, Some(TimerKind::ShutdownGrace));
    let text = String::from_utf8(s.write_buf.clone()).unwrap();
    assert!(text.starts_with("HTTP/1.1 408 Request Timeout\r\n"));
}

#[test]
fn shutdown_grace_expiry_closes_for_good() {
    let mut s = Session::new(true);
    s.on_timer(DATE);
    assert_eq!(s.timer, Some(TimerKind::ShutdownGrace));
    assert_eq!(s.on_timer(DATE), TimerAction::Abort);
    assert_eq!(s.state, SessionState::Closed);
    assert_eq!(s.timer, None);
}

#[test]
fn keepalive_expiry_begins_shutdown() {
    let mut s = Session::new(true);
    s.on_data(b"GET /x HTTP/1.1\r\nHost: h:1\r\n\r\n", DATE);
    assert_eq!(s.timer, Some(TimerKind::KeepAlive));
    assert_eq!(s.on_timer(DATE), TimerAction::BeginShutdown);
    assert_eq!(s.state, SessionState::ShuttingDown);
}

#[test]
fn session_without_keepalive_disarms_after_first_request() {
    let mut s = Session::new(false);
    s.on_data(b"GET /x HTTP/1.1\r\nHost: h:1\r\n\r\n", DATE);
    assert_eq!(s.timer, None);
}

#[test]
fn upgrade_request_stops_framing() {
    let mut s = Session::new(true);
    let out = s.on_data(
        b"GET /ws HTTP/1.1\r\nHost: h:1\r\nUpgrade: websocket\r\n\r\nraw-bytes-after",
        DATE,
    );
    assert_eq!(out.len(), 1);
    assert!(s.upgrade);
    assert_eq!(s.timer, None);
    assert_eq!(s.read_buf, b"raw-bytes-after");
}

#[test]
fn read_eof_begins_shutdown() {
    let mut s = Session::new(true);
    s.on_read_eof();
    assert!(s.read_closed);
    assert_eq!(s.state, SessionState::ShuttingDown);
}

#[test]
fn flush_then_shutdown_ack_closes() {
    let mut s = Session::new(true);
    s.on_timer(DATE);
    let queued = s.take_write_buf();
    assert!(queued.starts_with(b"HTTP/1.1 408"));
    assert!(s.write_buf.is_empty());
    assert!(s.on_flushed());
    s.on_shutdown_ack();
    assert_eq!(s.state, SessionState::Closed);
    assert!(s.write_closed);
}

#[test]
fn io_error_closes_at_once() {
    let mut s = Session::new(true);
    s.on_io_error();
    assert_eq!(s.state, SessionState::Closed);
    assert_eq!(s.timer, None);
}

#[test]
fn rendered_response_bytes_are_exact() {
    let mut out = Vec::new();
    append_response(&mut out, 400, &bad_request_reason(), DATE, b"");
    let expected = format!(
        "HTTP/1.1 400 Bad Request\r\nServer: tache\r\nContent-Length: 0\r\nDate: {}\r\n\r\n",
        String::from_utf8(DATE.to_vec()).unwrap()
    );
    assert_eq!(String::from_utf8(out).unwrap(), expected);
}

#[test]
fn rendered_response_carries_body_length() {
    let mut out = Vec::new();
    append_response(&mut out, 408, &request_timeout_reason(), DATE, b"hello");
    let text = String::from_utf8(out).unwrap();
    assert!(text.starts_with("HTTP/1.1 408 Request Timeout\r\n"));
    assert!(text.contains("Content-Length: 5\r\n"));
    assert!(text.ends_with("\r\n\r\nhello"));
}

#[test]
fn decode_many_headers() {
    let mut buf = Vec::new();
    buf.extend_from_slice(b"GET / HTTP/1.1\r\n");
    for i in 0..20 {
        buf.extend_from_slice(format!("X-H{}: v{}\r\n", i, i).as_bytes());
    }
    buf.extend_from_slice(b"\r\n");
    match decode(&buf) {
        DecodeOutcome::Complete { used, req } => {
            assert_eq!(used, buf.len());
            assert_eq!(req.headers.len(), 20);
            assert_eq!(req.headers[19].name, b"X-H19");
            assert_eq!(req.headers[19].value, b"v19");
        }
        other => panic!("expected a complete request, got {:?}", kind_of(&other)),
    }
}

#[test]
fn session_keeps_partial_second_request() {
    let mut s = Session::new(true);
    let out = s.on_data(b"GET /a HTTP/1.1\r\nHost: h:1\r\n\r\nGET /b HT", DATE);
    assert_eq!(out.len(), 1);
    assert_eq!(s.read_buf, b"GET /b HT");
    assert_eq!(s.state, SessionState::Reading);
}

#[test]
fn session_refuses_overgrown_buffer() {
    let mut s = Session::new(true);
    let flood = vec![b'a'; 40000];
    let out = s.on_data(&flood, DATE);
    assert_eq!(out.len(), 0);
    assert_eq!(s.state, SessionState::ShuttingDown);
    assert_eq!(s.timer, Some(TimerKind::ShutdownGrace));
    assert!(s.write_buf.starts_with(b"HTTP/1.1 400"));
    assert!(s.read_buf.is_empty());
}

#[test]
fn decode_target_with_query() {
    let buf = b"GET /path?q=1&r=2 HTTP/1.1\r\nHost: h:1\r\n\r\n";
    match decode(buf) {
        DecodeOutcome::Complete { req, .. } => {
            assert_eq!(req.target, b"/path?q=1&r=2");
        }
        other => panic!("expected a complete request, got {:?}", kind_of(&other)),
    }
}

#[test]
fn connection_meta_strips_only_numeric_ports() {
    // a bare authority stays whole
    let buf = b"GET / HTTP/1.1\r\nHost: example.com\r\n\r\n";
    match decode(buf) {
        DecodeOutcome::Complete { req, .. } => {
            let meta = build_connection_meta(&req, None, None).unwrap();
            assert_eq!(meta.host, b"example.com");
        }
        other => panic!("expected a complete request, got {:?}", kind_of(&other)),
    }
    // a non-numeric suffix after the colon is part of the host
    let buf = b"GET / HTTP/1.1\r\nHost: odd:name\r\n\r\n";
    match decode(buf) {
        DecodeOutcome::Complete { req, .. } => {
            let meta = build_connection_meta(&req, None, None).unwrap();
            assert_eq!(meta.host, b"odd:name");
        }
        other => panic!("expected a complete request, got {:?}", kind_of(&other)),
    }
    // only the trailing port goes, inner colons stay
    let buf = b"GET / HTTP/1.1\r\nHost: a:b:8080\r\n\r\n";
    match decode(buf) {
        DecodeOutcome::Complete { req, .. } => {
            let meta = build_connection_meta(&req, None, None).unwrap();
            assert_eq!(meta.host, b"a:b");
        }
        other => panic!("expected a complete request, got {:?}", kind_of(&other)),
    }
}
