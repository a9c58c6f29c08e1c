//! TLS for the TCP and WebSocket tools, with rustls: the trust store of
//! Mozilla's roots that webpki-roots carries, the client configuration
//! that checks certificates against it, the server name a connection
//! is for, and the decisions of the handshake and flush loops.

use vstd::prelude::*;
use std::sync::Arc;
use rustls::pki_types::{InvalidDnsNameError, ServerName, TrustAnchor};
use rustls::{ClientConfig, ClientConnection, RootCertStore};

verus! {

#[verifier::external_type_specification]
#[verifier::external_body]
pub struct ExRootCertStore(RootCertStore);

#[verifier::external_type_specification]
#[verifier::external_body]
pub struct ExTrustAnchor<'a>(TrustAnchor<'a>);

#[verifier::external_type_specification]
#[verifier::external_body]
pub struct ExClientConfig(ClientConfig);

#[verifier::external_type_specification]
#[verifier::external_body]
pub struct ExClientConnection(ClientConnection);

#[verifier::external_type_specification]
#[verifier::external_body]
pub struct ExServerName<'a>(ServerName<'a>);

#[verifier::external_type_specification]
#[verifier::external_body]
pub struct ExInvalidDnsNameError(InvalidDnsNameError);

#[verifier::external_type_specification]
#[verifier::external_body]
pub struct ExRustlsError(rustls::Error);

/// The trust anchors a root store holds, each by the DER bytes of its
/// subject, in order.
pub uninterp spec fn root_store_subjects(store: RootCertStore) -> Seq<Seq<u8>>;

/// The DER subject of entry `i` of webpki-roots' `TLS_SERVER_ROOTS`.
pub uninterp spec fn webpki_root_subject(i: nat) -> Seq<u8>;

/// Whether rustls takes `name` as a server name: a valid DNS name or an
/// IP address in text form.
pub uninterp spec fn server_name_accepted(name: Seq<char>) -> bool;

/// The trust anchors a client configuration verifies servers against,
/// each by the DER bytes of its subject, in order.
pub uninterp spec fn config_trust_anchors(c: ClientConfig) -> Seq<Seq<u8>>;

/// The TLS versions a client configuration offers, by wire number
/// (`0x0303` for TLS 1.2, `0x0304` for TLS 1.3).
pub uninterp spec fn config_versions(c: ClientConfig) -> Set<u16>;

/// Whether a client configuration can present a client certificate.
pub uninterp spec fn config_offers_client_cert(c: ClientConfig) -> bool;

/// The server name rustls makes of `name` when it takes it.
pub uninterp spec fn server_name_of(name: Seq<char>) -> ServerName<'static>;

/// The configuration a client connection was made under.
pub uninterp spec fn connection_config(conn: ClientConnection) -> ClientConfig;

/// The server name a client connection was made for.
pub uninterp spec fn connection_server_name(conn: ClientConnection) -> ServerName<'static>;

/// The number of roots in webpki-roots' `TLS_SERVER_ROOTS`.
pub open spec fn webpki_root_total() -> nat {
    120
}

/// `RootCertStore::empty`: a store without anchors.
#[verifier::external_body]
fn root_store_empty() -> (s: RootCertStore)
    ensures
        root_store_subjects(s) == Seq::<Seq<u8>>::empty(),
{
    RootCertStore::empty()
}

/// The length of webpki-roots' `TLS_SERVER_ROOTS`, a constant table of
/// 120 entries in the version used.
#[verifier::external_body]
fn webpki_root_count() -> (n: usize)
    ensures
        n == webpki_root_total(),
{
    webpki_roots::TLS_SERVER_ROOTS.len()
}

/// Pushes a copy of `TLS_SERVER_ROOTS[i]` onto the store's `roots`.
#[verifier::external_body]
fn push_webpki_root(store: &mut RootCertStore, i: usize)
    requires
        i < webpki_root_total(),
    ensures
        root_store_subjects(*final(store)) == root_store_subjects(*old(store)).push(
            webpki_root_subject(i as nat),
        ),
{
    store.roots.push(webpki_roots::TLS_SERVER_ROOTS[i].to_owned())
}

/// `ClientConfig::builder_with_protocol_versions(&[TLS12, TLS13])
/// .with_root_certificates(roots).with_no_client_auth()`: a client
/// configuration, on the crypto provider of the crate's features (ring),
/// that offers TLS 1.2 and 1.3, verifies servers against the anchors of
/// `roots` (its webpki verifier keeps the store) and has no client
/// certificate to present (its resolver always fails).
#[verifier::external_body]
fn client_config_with_roots(roots: RootCertStore) -> (c: Arc<ClientConfig>)
    ensures
        config_trust_anchors(*c) == root_store_subjects(roots),
        config_versions(*c) == set![0x0303u16, 0x0304u16],
        !config_offers_client_cert(*c),
{
    Arc::new(
        ClientConfig::builder_with_protocol_versions(
            &[&rustls::version::TLS12, &rustls::version::TLS13],
        ).with_root_certificates(roots).with_no_client_auth(),
    )
}

/// `ServerName::try_from(String)`: a DNS name or an IP address made of
/// `name` alone; the error when `name` is neither.
#[verifier::external_body]
fn server_name_try_from(name: String) -> (r: Result<ServerName<'static>, InvalidDnsNameError>)
    ensures
        r is Ok == server_name_accepted(name@),
        r matches Ok(n) ==> n == server_name_of(name@),
{
    ServerName::try_from(name)
}

/// `ClientConnection::new`: a client connection for `name` under
/// `config`, before any handshake; rustls' error when it refuses the
/// pair. Which of the two comes back is not stated (the connection also
/// draws random values).
#[verifier::external_body]
fn client_connection_new(config: Arc<ClientConfig>, name: ServerName<'static>) -> (r: Result<
    ClientConnection,
    rustls::Error,
>)
    ensures
        r matches Ok(conn) ==> connection_config(conn) == *config && connection_server_name(conn)
            == name,
{
    ClientConnection::new(config, name)
}

/// The roots a verifying client trusts: all of webpki-roots'
/// `TLS_SERVER_ROOTS`, in their order.
pub fn default_root_store() -> (s: RootCertStore)
    ensures
        root_store_subjects(s) == Seq::new(webpki_root_total(), |i: int| webpki_root_subject(i as nat)),
{
    let mut store = root_store_empty();
    let n = webpki_root_count();
    let mut i: usize = 0;
    while i < n
        invariant
            n == webpki_root_total(),
            i <= n,
            root_store_subjects(store) == Seq::new(i as nat, |j: int| webpki_root_subject(j as nat)),
        decreases n - i,
    {
        push_webpki_root(&mut store, i);
        i = i + 1;
        assert(root_store_subjects(store) =~= Seq::new(
            i as nat,
            |j: int| webpki_root_subject(j as nat),
        ));
    }
    store
}

/// The client configuration that verifies certificates: TLS 1.2 and 1.3,
/// the webpki roots, no client certificate.
pub fn verifying_config() -> (c: Arc<ClientConfig>)
    ensures
        config_trust_anchors(*c) == Seq::new(webpki_root_total(), |i: int| webpki_root_subject(i as nat)),
        config_versions(*c) == set![0x0303u16, 0x0304u16],
        !config_offers_client_cert(*c),
{
    let roots = default_root_store();
    client_config_with_roots(roots)
}

/// Why a TLS client could not be set up.
#[derive(Debug)]
pub enum TlsSetupError {
    /// The domain is neither a DNS name nor an IP address.
    InvalidDomain,
    /// rustls refused to create the connection.
    Rejected(rustls::Error),
}

/// The server name for `domain`, or `InvalidDomain` when rustls takes it
/// for neither a DNS name nor an IP address.
pub fn server_name(domain: &str) -> (r: Result<ServerName<'static>, TlsSetupError>)
    ensures
        r is Ok == server_name_accepted(domain@),
        r matches Ok(n) ==> n == server_name_of(domain@),
        r matches Err(e) ==> e is InvalidDomain,
{
    match server_name_try_from(domain.to_owned()) {
        Ok(n) => Ok(n),
        Err(_) => Err(TlsSetupError::InvalidDomain),
    }
}

/// A TLS client connection to `domain` under `config`: `InvalidDomain`
/// exactly when the domain is not a valid server name; otherwise the
/// connection, made under `config` for the server name of `domain`, or
/// rustls' refusal.
pub fn client_connection(config: Arc<ClientConfig>, domain: &str) -> (r: Result<
    ClientConnection,
    TlsSetupError,
>)
    ensures
        (r matches Err(e) && e is InvalidDomain) == !server_name_accepted(domain@),
        r matches Ok(conn) ==> connection_config(conn) == *config && connection_server_name(conn)
            == server_name_of(domain@),
{
    let name = match server_name(domain) {
        Ok(n) => n,
        Err(e) => {
            return Err(e);
        },
    };
    match client_connection_new(config, name) {
        Ok(c) => Ok(c),
        Err(e) => Err(TlsSetupError::Rejected(e)),
    }
}

/// What one round of TLS I/O (`complete_io`) gave.
#[derive(Debug, Clone, Copy, PartialEq, Eq, Structural)]
pub enum IoRound {
    /// Bytes written and read (`complete_io` gives them as (read, written)).
    Progress { wrote: usize, read: usize },
    /// The non-blocking socket had nothing to do.
    WouldBlock,
    /// Any other error.
    Failed,
}

/// What a handshake loop does next.
#[derive(Debug, Clone, Copy, PartialEq, Eq, Structural)]
pub enum HandshakeStep {
    /// Run another round at once.
    Again,
    /// The handshake is over.
    Done,
    /// Sleep 10 ms, then run another round.
    Pause,
    /// Give up with the error.
    Fail,
}

/// The handshake loop's decision: while the handshake is on and a round
/// wrote nothing, go again; a round that wrote something, or one after the
/// handshake, ends it. On a non-blocking socket a round that would block
/// pauses; on a blocking one it is an error like any other.
pub open spec fn handshake_step_spec(r: IoRound, handshaking: bool, nonblocking: bool) -> HandshakeStep {
    match r {
        IoRound::Progress { wrote, read } => if wrote == 0 && handshaking {
            HandshakeStep::Again
        } else {
            HandshakeStep::Done
        },
        IoRound::WouldBlock => if nonblocking {
            HandshakeStep::Pause
        } else {
            HandshakeStep::Fail
        },
        IoRound::Failed => HandshakeStep::Fail,
    }
}

/// Decides the handshake loop's next step.
pub fn handshake_step(r: IoRound, handshaking: bool, nonblocking: bool) -> (s: HandshakeStep)
    ensures
        s == handshake_step_spec(r, handshaking, nonblocking),
{
    match r {
        IoRound::Progress { wrote, read } => if wrote == 0 && handshaking {
            HandshakeStep::Again
        } else {
            HandshakeStep::Done
        },
        IoRound::WouldBlock => if nonblocking {
            HandshakeStep::Pause
        } else {
            HandshakeStep::Fail
        },
        IoRound::Failed => HandshakeStep::Fail,
    }
}

/// Whether a read goes on to take what rustls has decrypted after its
/// round of I/O: it does unless the round failed; a round that would
/// block still leaves buffered data to read.
pub fn read_proceeds(r: IoRound) -> (go: bool)
    ensures
        go == !(r is Failed),
{
    !matches!(r, IoRound::Failed)
}

/// The flush loop's decision: rounds go on while they make progress; one
/// that would block means all is written; an error is returned.
pub fn flush_step(r: IoRound) -> (s: HandshakeStep)
    ensures
        s == match r {
            IoRound::Progress { .. } => HandshakeStep::Again,
            IoRound::WouldBlock => HandshakeStep::Done,
            IoRound::Failed => HandshakeStep::Fail,
        },
{
    match r {
        IoRound::Progress { .. } => HandshakeStep::Again,
        IoRound::WouldBlock => HandshakeStep::Done,
        IoRound::Failed => HandshakeStep::Fail,
    }
}

} // verus!
