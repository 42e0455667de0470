use tls_proxy::error::ProxyError;
use tls_proxy::handler::{start, step, Action, Event, Stage};

fn received(bytes: &[u8]) -> (Stage, Action) {
    let (stage, action) = start();
    assert!(matches!(action, Action::ReadClient));
    step(stage, Event::Received { bytes: bytes.to_vec() })
}

#[test]
fn exchange_end_to_end() {
    let (stage, action) = received(b"GET /anything HTTP/1.1\r\nHost: example.test\r\n\r\n");
    match action {
        Action::OpenSession { host } => assert_eq!(host, "example.test"),
        other => panic!("unexpected {:?}", other),
    }
    let (stage, action) = step(stage, Event::SessionOpened);
    match action {
        Action::SendRequest { request } => {
            assert_eq!(request, "GET / HTTP/1.1\r\nHost: example.test\r\nConnection: close\r\n\r\n")
        },
        other => panic!("unexpected {:?}", other),
    }
    let upstream = b"HTTP/1.1 200 OK\r\nContent-Length: 2\r\n\r\nhi".to_vec();
    let (stage, action) = step(stage, Event::ResponseRead { bytes: upstream.clone() });
    match action {
        Action::Deliver { response } => assert_eq!(response, upstream),
        other => panic!("unexpected {:?}", other),
    }
    let (stage, action) = step(stage, Event::Delivered);
    assert!(matches!(action, Action::Finish));
    assert!(matches!(stage, Stage::Done));
}

#[test]
fn forward_twice_same_output() {
    let upstream = b"HTTP/1.1 404 Not Found\r\n\r\n".to_vec();
    let mut delivered = Vec::new();
    for _ in 0..2 {
        let (stage, _) = received(b"GET / HTTP/1.1\r\nHost: same.test\r\n\r\n");
        let (stage, _) = step(stage, Event::SessionOpened);
        let (_, action) = step(stage, Event::ResponseRead { bytes: upstream.clone() });
        match action {
            Action::Deliver { response } => delivered.push(response),
            other => panic!("unexpected {:?}", other),
        }
    }
    assert_eq!(delivered[0], delivered[1]);
    assert_eq!(delivered[0], upstream);
}

#[test]
fn missing_host_aborts_without_session() {
    let (stage, action) = received(b"GET / HTTP/1.1\r\nAccept: */*\r\n\r\n");
    assert!(matches!(action, Action::Abort { error: ProxyError::MissingHost }));
    assert!(matches!(stage, Stage::Failed { error: ProxyError::MissingHost }));
}

#[test]
fn handshake_failure_aborts() {
    let (stage, _) = received(b"GET / HTTP/1.1\r\nHost: wrong-cert.test\r\n\r\n");
    let (stage, action) = step(stage, Event::SessionFailed { error: ProxyError::Handshake });
    assert!(matches!(action, Action::Abort { error: ProxyError::Handshake }));
    assert!(matches!(stage, Stage::Failed { error: ProxyError::Handshake }));
}

#[test]
fn client_read_failure_aborts() {
    let (stage, _) = start();
    let (stage, action) = step(stage, Event::ReceiveFailed);
    assert!(matches!(action, Action::Abort { error: ProxyError::Read }));
    assert!(matches!(stage, Stage::Failed { error: ProxyError::Read }));
}

#[test]
fn forward_failure_aborts() {
    let (stage, _) = received(b"Host: up.test\r\n");
    let (stage, _) = step(stage, Event::SessionOpened);
    let (stage, action) = step(stage, Event::ForwardFailed { error: ProxyError::Write });
    assert!(matches!(action, Action::Abort { error: ProxyError::Write }));
    assert!(matches!(stage, Stage::Failed { error: ProxyError::Write }));
}

#[test]
fn delivery_failure_aborts() {
    let (stage, _) = received(b"Host: up.test\r\n");
    let (stage, _) = step(stage, Event::SessionOpened);
    let (stage, _) = step(stage, Event::ResponseRead { bytes: vec![1, 2, 3] });
    let (stage, action) = step(stage, Event::DeliverFailed);
    assert!(matches!(action, Action::Abort { error: ProxyError::Write }));
    assert!(matches!(stage, Stage::Failed { error: ProxyError::Write }));
}

#[test]
fn invalid_utf8_request_is_decoded() {
    let mut bytes = b"GET /\xff\xfe HTTP/1.1\r\n".to_vec();
    bytes.extend_from_slice(b"Host: lossy.test\r\n\r\n");
    let (_, action) = received(&bytes);
    match action {
        Action::OpenSession { host } => assert_eq!(host, "lossy.test"),
        other => panic!("unexpected {:?}", other),
    }
}

#[test]
fn invalid_utf8_in_host_is_replaced() {
    let (_, action) = received(b"Host: a\xffb.test\r\n");
    match action {
        Action::OpenSession { host } => assert_eq!(host, "a\u{fffd}b.test"),
        other => panic!("unexpected {:?}", other),
    }
}
