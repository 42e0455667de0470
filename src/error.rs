use vstd::prelude::*;

verus! {

/// Why the proxy gave up, at startup or on one connection.
#[derive(Debug, Clone, Copy, PartialEq, Eq, Structural)]
pub enum ProxyError {
    /// The system's trusted roots could not be loaded.
    TrustStore,
    /// The request has no `Host:` line.
    MissingHost,
    /// The host is neither a DNS name nor an IP address.
    InvalidServerName,
    /// The TCP connection to the host could not be opened.
    Connect,
    /// The TLS session could not be set up or authenticated.
    Handshake,
    /// Bytes could not be written to a peer.
    Write,
    /// Bytes could not be read from a peer.
    Read,
}

} // verus!
