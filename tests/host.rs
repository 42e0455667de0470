use tls_proxy::error::ProxyError;
use tls_proxy::host::extract_host;

#[test]
fn host_from_simple_request() {
    let r = extract_host("GET /anything HTTP/1.1\r\nHost: example.test\r\n\r\n");
    assert_eq!(r, Ok("example.test".to_string()));
}

#[test]
fn host_marker_any_case() {
    assert_eq!(extract_host("GET / HTTP/1.1\r\nhost: a.test\r\n\r\n"), Ok("a.test".to_string()));
    assert_eq!(extract_host("GET / HTTP/1.1\r\nHOST: b.test\r\n\r\n"), Ok("b.test".to_string()));
    assert_eq!(extract_host("GET / HTTP/1.1\r\nhOsT:c.test\r\n\r\n"), Ok("c.test".to_string()));
}

#[test]
fn host_first_line_wins() {
    let r = extract_host("GET / HTTP/1.1\r\nHost: first.test\r\nHost: second.test\r\n\r\n");
    assert_eq!(r, Ok("first.test".to_string()));
}

#[test]
fn host_value_trimmed() {
    let r = extract_host("GET / HTTP/1.1\nHost: \t  spaced.test \t\r\n\r\n");
    assert_eq!(r, Ok("spaced.test".to_string()));
    let r = extract_host("Host:\u{3000}wide.test\u{a0}");
    assert_eq!(r, Ok("wide.test".to_string()));
}

#[test]
fn host_on_first_and_last_line() {
    assert_eq!(extract_host("Host: top.test\r\nAccept: */*"), Ok("top.test".to_string()));
    assert_eq!(extract_host("GET / HTTP/1.1\r\nHost: end.test"), Ok("end.test".to_string()));
}

#[test]
fn host_empty_value() {
    assert_eq!(extract_host("GET / HTTP/1.1\r\nHost:\r\n\r\n"), Ok(String::new()));
}

#[test]
fn host_value_not_validated() {
    let r = extract_host("Host: not a host name!\r\n");
    assert_eq!(r, Ok("not a host name!".to_string()));
}

#[test]
fn host_missing() {
    let r = extract_host("GET / HTTP/1.1\r\nAccept: */*\r\n\r\n");
    assert_eq!(r, Err(ProxyError::MissingHost));
}

#[test]
fn host_missing_in_empty_request() {
    assert_eq!(extract_host(""), Err(ProxyError::MissingHost));
    assert_eq!(extract_host("Host"), Err(ProxyError::MissingHost));
}

#[test]
fn host_marker_only_at_line_start() {
    let r = extract_host("GET / HTTP/1.1\r\nX-Host: other.test\r\n Host: indented.test\r\n\r\n");
    assert_eq!(r, Err(ProxyError::MissingHost));
    let r = extract_host("X-Host: other.test\r\nHost: real.test\r\n");
    assert_eq!(r, Ok("real.test".to_string()));
}

#[test]
fn host_unchanged_by_appended_lines() {
    let r = "GET / HTTP/1.1\r\nHost: kept.test\r\n";
    let longer = format!("{}Host: other.test\r\nX: y\r\n\r\n", r);
    assert_eq!(extract_host(&longer), extract_host(r));
    assert_eq!(extract_host(&longer), Ok("kept.test".to_string()));
}
