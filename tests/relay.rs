use tls_proxy::relay::outbound_request;

#[test]
fn outbound_request_is_fixed() {
    assert_eq!(
        outbound_request("example.test"),
        "GET / HTTP/1.1\r\nHost: example.test\r\nConnection: close\r\n\r\n"
    );
}

#[test]
fn outbound_request_same_for_same_host() {
    assert_eq!(outbound_request("a.test"), outbound_request("a.test"));
    assert_ne!(outbound_request("a.test"), outbound_request("b.test"));
}
