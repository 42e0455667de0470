use std::sync::Arc;
use vstd::prelude::*;

use rustls::pki_types::{CertificateDer, InvalidDnsNameError, ServerName};
use rustls::client::Resumption;
use rustls::{ClientConfig, ClientConnection, RootCertStore};

use crate::error::ProxyError;

verus! {

#[verifier::external_type_specification]
#[verifier::external_body]
pub struct ExRootCertStore(RootCertStore);

#[verifier::external_type_specification]
#[verifier::external_body]
pub struct ExClientConfig(ClientConfig);

#[verifier::external_type_specification]
#[verifier::external_body]
pub struct ExClientConnection(ClientConnection);

#[verifier::external_type_specification]
#[verifier::external_body]
pub struct ExServerName<'a>(ServerName<'a>);

#[verifier::external_type_specification]
#[verifier::external_body]
pub struct ExTlsError(rustls::Error);

#[verifier::external_type_specification]
#[verifier::external_body]
pub struct ExInvalidDnsNameError(InvalidDnsNameError);

/// The subjects of the roots held by a store, in the order they were added.
pub uninterp spec fn root_subjects(s: RootCertStore) -> Seq<Seq<u8>>;

/// The subject of the trust anchor that a DER certificate yields.
pub uninterp spec fn anchor_subject(der: Seq<u8>) -> Seq<u8>;

/// The subjects of the roots that a client configuration trusts.
pub uninterp spec fn config_roots(c: ClientConfig) -> Seq<Seq<u8>>;

/// Whether a client configuration presents a client certificate.
pub uninterp spec fn config_client_auth(c: ClientConfig) -> bool;

/// Whether a client configuration keeps sessions for resumption.
pub uninterp spec fn config_resumes(c: ClientConfig) -> bool;

/// Whether a DER certificate can serve as a trust anchor.
pub uninterp spec fn is_trust_anchor(der: Seq<u8>) -> bool;

/// Whether a text is a DNS name or an IP address.
pub uninterp spec fn is_server_name(host: Seq<char>) -> bool;

/// Relies on `RootCertStore::empty`: a store without roots.
pub assume_specification[ RootCertStore::empty ]() -> (r: RootCertStore)
    ensures
        root_subjects(r).len() == 0,
;

/// Relies on `RootCertStore::add`: the certificate is parsed into one more
/// root, appended last, or rejected with the store left as it was.
#[verifier::external_body]
fn add_root(store: &mut RootCertStore, der: Vec<u8>) -> (r: Result<(), rustls::Error>)
    ensures
        r is Ok <==> is_trust_anchor(der@),
        r is Ok ==> root_subjects(*final(store)) == root_subjects(*old(store)).push(
            anchor_subject(der@),
        ),
        r is Err ==> root_subjects(*final(store)) == root_subjects(*old(store)),
{
    store.add(CertificateDer::from(der))
}

/// Relies on `ClientConfig::builder`, `with_root_certificates`,
/// `with_no_client_auth` and `Resumption::disabled`: a client configuration
/// trusting exactly `roots`, with no client certificate, that keeps no
/// session for later resumption. `builder` takes the process's crypto
/// provider, which is `ring`'s here: it is the one provider feature enabled,
/// so the builder's lookup of a provider cannot fail.
#[verifier::external_body]
fn client_config(roots: RootCertStore) -> (r: ClientConfig)
    ensures
        config_roots(r) == root_subjects(roots),
        !config_client_auth(r),
        !config_resumes(r),
{
    let mut config = ClientConfig::builder().with_root_certificates(roots).with_no_client_auth();
    config.resumption = Resumption::disabled();
    config
}

/// Relies on `ServerName::try_from(String)`: accepts a DNS name or an IP
/// address, nothing else; either is non-empty and holds no line break.
#[verifier::external_body]
fn parse_server_name(host: String) -> (r: Result<ServerName<'static>, InvalidDnsNameError>)
    ensures
        r is Ok <==> is_server_name(host@),
        r is Ok ==> host@.len() > 0 && forall|i: int|
            0 <= i < host@.len() ==> host@[i] != '\r' && host@[i] != '\n',
{
    ServerName::try_from(host)
}

/// Relies on `ClientConnection::new`: a fresh client session that has not
/// sent anything yet. It may fail for reasons of the configuration.
#[verifier::external_body]
fn new_connection(config: Arc<ClientConfig>, name: ServerName<'static>) -> (r: Result<
    ClientConnection,
    rustls::Error,
>) {
    ClientConnection::new(config, name)
}

/// Whether the certificates read from the system can make a trust store:
/// the system yielded some or reported no failure, and each one is a valid
/// trust anchor.
pub open spec fn roots_usable(certs: Seq<Vec<u8>>, load_failures: nat) -> bool {
    &&& !(certs.len() == 0 && load_failures > 0)
    &&& forall|i: int| 0 <= i < certs.len() ==> is_trust_anchor(#[trigger] certs[i]@)
}

/// The subjects of the roots made from the certificates, in order.
pub open spec fn subjects_of(certs: Seq<Vec<u8>>) -> Seq<Seq<u8>> {
    certs.map_values(|c: Vec<u8>| anchor_subject(c@))
}

/// Puts every certificate into a fresh store, in order; fails on the first
/// one that is not a valid trust anchor.
pub fn root_store(certs: &Vec<Vec<u8>>) -> (r: Result<RootCertStore, ProxyError>)
    ensures
        r is Ok <==> (forall|i: int| 0 <= i < certs@.len() ==> is_trust_anchor(#[trigger] certs@[i]@)),
        match r {
            Ok(store) => root_subjects(store) == subjects_of(certs@),
            Err(e) => e == ProxyError::TrustStore,
        },
{
    let mut store = RootCertStore::empty();
    let mut i: usize = 0;
    while i < certs.len()
        invariant
            i <= certs@.len(),
            root_subjects(store) == subjects_of(certs@.subrange(0, i as int)),
            forall|j: int| 0 <= j < i ==> is_trust_anchor(#[trigger] certs@[j]@),
        decreases certs@.len() - i,
    {
        let der = certs[i].clone();
        match add_root(&mut store, der) {
            Ok(()) => {},
            Err(_) => {
                return Err(ProxyError::TrustStore);
            },
        }
        assert(subjects_of(certs@.subrange(0, i + 1)) =~= subjects_of(
            certs@.subrange(0, i as int),
        ).push(anchor_subject(certs@[i as int]@)));
        i = i + 1;
    }
    assert(certs@.subrange(0, i as int) =~= certs@);
    Ok(store)
}

/// Builds the client configuration shared by every connection: the given
/// system certificates as roots and no client certificate. `load_failures`
/// counts the places of the system store that could not be read. The
/// configuration trusts exactly the given certificates, presents no client
/// certificate and keeps no sessions across connections.
pub fn build(certs: &Vec<Vec<u8>>, load_failures: usize) -> (r: Result<ClientConfig, ProxyError>)
    ensures
        r is Ok <==> roots_usable(certs@, load_failures as nat),
        match r {
            Ok(config) => {
                &&& config_roots(config) == subjects_of(certs@)
                &&& !config_client_auth(config)
                &&& !config_resumes(config)
            },
            Err(e) => e == ProxyError::TrustStore,
        },
{
    if certs.len() == 0 && load_failures > 0 {
        return Err(ProxyError::TrustStore);
    }
    match root_store(certs) {
        Ok(roots) => Ok(client_config(roots)),
        Err(e) => Err(e),
    }
}

/// Building is deterministic in the certificates: two configurations built
/// from the same certificates trust the same roots.
pub proof fn lemma_build_same_roots(certs: Seq<Vec<u8>>, a: ClientConfig, b: ClientConfig)
    requires
        config_roots(a) == subjects_of(certs),
        config_roots(b) == subjects_of(certs),
    ensures
        config_roots(a) == config_roots(b),
{
}

/// Prepares the TLS side of a session with `host`: checks that the host can be
/// matched against a certificate, then creates a client session that will
/// authenticate the peer under that name with `config`'s roots.
pub fn new_session(host: &str, config: Arc<ClientConfig>) -> (r: Result<ClientConnection, ProxyError>)
    ensures
        !is_server_name(host@) <==> r == Err::<ClientConnection, ProxyError>(ProxyError::InvalidServerName),
        r is Err ==> (r->Err_0 == ProxyError::InvalidServerName || r->Err_0 == ProxyError::Handshake),
        r is Ok ==> host@.len() > 0 && forall|i: int|
            0 <= i < host@.len() ==> host@[i] != '\r' && host@[i] != '\n',
{
    let name = match parse_server_name(host.to_owned()) {
        Ok(name) => name,
        Err(_) => {
            return Err(ProxyError::InvalidServerName);
        },
    };
    match new_connection(config, name) {
        Ok(conn) => Ok(conn),
        Err(_) => Err(ProxyError::Handshake),
    }
}

} // verus!
