use std::sync::Arc;

use rustls::RootCertStore;
use tls_proxy::error::ProxyError;
use tls_proxy::tls::{build, new_session, root_store};

#[test]
fn build_with_no_certificates() {
    assert!(build(&Vec::new(), 0).is_ok());
}

#[test]
fn build_fails_when_store_unreadable() {
    assert!(matches!(build(&Vec::new(), 2), Err(ProxyError::TrustStore)));
}

#[test]
fn build_rejects_malformed_certificate() {
    let certs = vec![vec![0x30, 0x03, 0x02, 0x01, 0x00]];
    assert!(matches!(build(&certs, 0), Err(ProxyError::TrustStore)));
    assert!(matches!(root_store(&vec![Vec::new()]), Err(ProxyError::TrustStore)));
}

#[test]
fn root_store_agrees_with_rustls() {
    let native = rustls_native_certs::load_native_certs().certs;
    for cert in native.into_iter().take(20) {
        let der = cert.as_ref().to_vec();
        let mut direct = RootCertStore::empty();
        let accepted = direct.add(cert).is_ok();
        match root_store(&vec![der]) {
            Ok(store) => {
                assert!(accepted);
                assert_eq!(store.len(), 1);
                assert_eq!(store.subjects()[0].as_ref(), direct.subjects()[0].as_ref());
            },
            Err(e) => {
                assert!(!accepted);
                assert_eq!(e, ProxyError::TrustStore);
            },
        }
    }
}

#[test]
fn session_for_dns_name_and_address() {
    let config = Arc::new(build(&Vec::new(), 0).unwrap());
    assert!(new_session("example.test", config.clone()).is_ok());
    assert!(new_session("127.0.0.1", config).is_ok());
}

#[test]
fn session_rejects_invalid_name() {
    let config = Arc::new(build(&Vec::new(), 0).unwrap());
    assert!(matches!(new_session("not a host name!", config.clone()), Err(ProxyError::InvalidServerName)));
    assert!(matches!(new_session("", config), Err(ProxyError::InvalidServerName)));
}

#[test]
fn build_presents_no_client_certificate() {
    let config = build(&Vec::new(), 0).unwrap();
    assert!(!config.client_auth_cert_resolver.has_certs());
}
