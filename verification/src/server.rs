//! The server: how it is configured, and how it stops.

use crate::auth::AuthMode;
use crate::endpoint::{
    endpoint_config, quic_crypto, transport_config, Identity, Limits, TlsVersion,
};
use crate::error::IoErrorKind;
use crate::outside::{error_kind, read_certificates, read_private_key, PrivateKey};
use crate::varint::VARINT_LIMIT;
use crate::{buffer, endpoint, outside};
use quinn::crypto::rustls::QuicServerConfig;
use vstd::prelude::*;

verus! {

/// How long a connection's handshakes may take, in seconds.
pub const HANDSHAKE_TIMEOUT: u64 = 10;

/// How long the head of a request may take, in seconds.
pub const REQUEST_TIMEOUT: u64 = 10;

/// How long connections may take to end when the server stops, in seconds.
pub const SHUTDOWN_TIMEOUT: u64 = 5;

/// How long a connection may stay silent, in seconds.
pub const IDLE_TIMEOUT: u64 = 30;

/// How many streams of either direction a client may have open.
pub const MAX_CONCURRENT_STREAMS: u32 = 100;

/// The code with which the endpoint is closed when the server stops.
pub const SHUTDOWN_CODE: u32 = 0;

/// The reason that is given when the endpoint is closed.
pub const SHUTDOWN_REASON: &'static str = "server shutdown";

/// Where the server's certificate and key come from.
pub enum CertificateSource<P> {
    /// They are read from these files.
    Files { cert: P, key: P },
    /// They are made up.
    SelfSigned,
}

/// Files are used if both are given.
pub fn certificate_source<P>(tls_cert: Option<P>, tls_key: Option<P>) -> (res: CertificateSource<P>)
    ensures
        res == (match (tls_cert, tls_key) {
            (Some(cert), Some(key)) => CertificateSource::Files { cert, key },
            _ => CertificateSource::SelfSigned,
        }),
{
    match (tls_cert, tls_key) {
        (Some(cert), Some(key)) => CertificateSource::Files { cert, key },
        _ => CertificateSource::SelfSigned,
    }
}

/// Why a server cannot be configured.
pub enum ServerConfigError {
    InvalidCertificate(std::io::Error),
    InvalidPrivateKey(std::io::Error),
    NoPrivateKey,
    /// The certificate and the key cannot be served with.
    Tls(std::io::Error),
    InvalidTimeout(std::io::Error),
}

impl ServerConfigError {
    /// The kind under which the error is reported.
    pub open spec fn spec_kind(self) -> IoErrorKind {
        match self {
            ServerConfigError::NoPrivateKey => IoErrorKind::InvalidInput,
            ServerConfigError::InvalidCertificate(error)
            | ServerConfigError::InvalidPrivateKey(error)
            | ServerConfigError::Tls(error)
            | ServerConfigError::InvalidTimeout(error) => outside::io_error_kind(error),
        }
    }

    /// The kind under which the error is reported.
    pub fn kind(&self) -> (res: IoErrorKind)
        ensures
            res == self.spec_kind(),
    {
        match self {
            ServerConfigError::NoPrivateKey => IoErrorKind::InvalidInput,
            ServerConfigError::InvalidCertificate(error)
            | ServerConfigError::InvalidPrivateKey(error)
            | ServerConfigError::Tls(error)
            | ServerConfigError::InvalidTimeout(error) => error_kind(error),
        }
    }

    /// The words with which the error is reported; none where it carries an error that has
    /// words of its own.
    pub fn message(&self) -> (res: Option<&'static str>)
        ensures
            res is Some <==> self is NoPrivateKey,
            res matches Some(message) ==> message@ == "no private key found"@,
    {
        match self {
            ServerConfigError::NoPrivateKey => Some("no private key found"),
            _ => None,
        }
    }

    /// The error that is carried, if there is one.
    pub fn carried(self) -> (res: Option<std::io::Error>)
        ensures
            res == (match self {
                ServerConfigError::NoPrivateKey => None,
                ServerConfigError::InvalidCertificate(error)
                | ServerConfigError::InvalidPrivateKey(error)
                | ServerConfigError::Tls(error)
                | ServerConfigError::InvalidTimeout(error) => Some(error),
            }),
    {
        match self {
            ServerConfigError::NoPrivateKey => None,
            ServerConfigError::InvalidCertificate(error)
            | ServerConfigError::InvalidPrivateKey(error)
            | ServerConfigError::Tls(error)
            | ServerConfigError::InvalidTimeout(error) => Some(error),
        }
    }
}

/// The settings of the QUIC endpoint. TLS 1.3 is the only version, and clients need no
/// certificate.
pub struct ServerSettings {
    pub certificate_chain: Vec<Vec<u8>>,
    pub private_key: PrivateKey,
    pub alpn_protocols: Vec<Vec<u8>>,
    /// In seconds.
    pub max_idle_timeout: u64,
    pub max_concurrent_bidi_streams: u32,
    pub max_concurrent_uni_streams: u32,
}

/// The name of HTTP/3 in the TLS handshake.
pub open spec fn h3_protocol() -> Seq<u8> {
    seq![0x68u8, 0x33u8]
}

/// What clients are served with: TLS 1.3 alone, this chain, this key and HTTP/3 alone, and no
/// certificate is asked of them.
pub open spec fn served_identity(
    chain: Seq<Seq<u8>>,
    key: (outside::KeyFormat, Seq<u8>),
) -> Identity {
    Identity {
        version: TlsVersion::Tls13,
        client_certificates: false,
        chain,
        key,
        protocols: seq![h3_protocol()],
    }
}

/// The limits on every connection.
pub open spec fn served_limits() -> Limits {
    Limits {
        max_idle_timeout: IDLE_TIMEOUT,
        max_concurrent_bidi_streams: MAX_CONCURRENT_STREAMS,
        max_concurrent_uni_streams: MAX_CONCURRENT_STREAMS,
    }
}

impl ServerSettings {
    /// What clients are served with under these settings.
    pub open spec fn identity(&self) -> Identity {
        Identity {
            version: TlsVersion::Tls13,
            client_certificates: false,
            chain: buffer::byte_strings(self.certificate_chain@),
            key: self.private_key@,
            protocols: buffer::byte_strings(self.alpn_protocols@),
        }
    }

    /// The limits under these settings.
    pub open spec fn limits(&self) -> Limits {
        Limits {
            max_idle_timeout: self.max_idle_timeout,
            max_concurrent_bidi_streams: self.max_concurrent_bidi_streams,
            max_concurrent_uni_streams: self.max_concurrent_uni_streams,
        }
    }
}

/// The settings for a certificate chain and a key, if there is one.
pub fn settings_for(certificate_chain: Vec<Vec<u8>>, key: Option<PrivateKey>) -> (res: Result<
    ServerSettings,
    ServerConfigError,
>)
    ensures
        match key {
            None => res matches Err(ServerConfigError::NoPrivateKey),
            Some(key) => res matches Ok(settings) && settings.identity() == served_identity(
                buffer::byte_strings(certificate_chain@),
                key@,
            ) && settings.limits() == served_limits(),
        },
{
    match key {
        None => Err(ServerConfigError::NoPrivateKey),
        Some(private_key) => {
            let mut protocol: Vec<u8> = Vec::new();
            protocol.push(0x68);
            protocol.push(0x33);
            assert(protocol@ =~= h3_protocol());
            let mut alpn_protocols: Vec<Vec<u8>> = Vec::new();
            alpn_protocols.push(protocol);
            assert(buffer::byte_strings(alpn_protocols@) =~= seq![h3_protocol()]);
            Ok(
                ServerSettings {
                    certificate_chain,
                    private_key,
                    alpn_protocols,
                    max_idle_timeout: IDLE_TIMEOUT,
                    max_concurrent_bidi_streams: MAX_CONCURRENT_STREAMS,
                    max_concurrent_uni_streams: MAX_CONCURRENT_STREAMS,
                },
            )
        },
    }
}

/// Configures an endpoint with `crypto`, as far as that could be made, and the limits.
pub fn configured(
    crypto: Result<QuicServerConfig, std::io::Error>,
    max_idle_timeout: u64,
    max_concurrent_bidi_streams: u32,
    max_concurrent_uni_streams: u32,
) -> (res: Result<quinn::ServerConfig, ServerConfigError>)
    ensures
        match crypto {
            Err(error) => res == Err::<quinn::ServerConfig, ServerConfigError>(
                ServerConfigError::Tls(error),
            ),
            Ok(crypto) => if max_idle_timeout * 1000 >= VARINT_LIMIT {
                res matches Err(ServerConfigError::InvalidTimeout(error)) && outside::io_error_kind(
                    error,
                ) == IoErrorKind::Other
            } else {
                res matches Ok(config) && endpoint::endpoint_identity(config)
                    == endpoint::crypto_identity(crypto) && endpoint::endpoint_limits(config) == (
                Limits {
                    max_idle_timeout,
                    max_concurrent_bidi_streams,
                    max_concurrent_uni_streams,
                })
            },
        },
{
    let crypto = match crypto {
        Err(error) => {
            return Err(ServerConfigError::Tls(error));
        },
        Ok(crypto) => crypto,
    };
    match transport_config(
        max_idle_timeout,
        max_concurrent_bidi_streams,
        max_concurrent_uni_streams,
    ) {
        Err(error) => Err(ServerConfigError::InvalidTimeout(error)),
        Ok(transport) => Ok(endpoint_config(crypto, transport)),
    }
}

/// Configures an endpoint under the settings. TLS may refuse the certificate and the key.
pub fn configure(settings: ServerSettings) -> (res: Result<quinn::ServerConfig, ServerConfigError>)
    ensures
        match res {
            Ok(config) => {
                &&& settings.max_idle_timeout * 1000 < VARINT_LIMIT
                &&& endpoint::endpoint_identity(config) == settings.identity()
                &&& endpoint::endpoint_limits(config) == settings.limits()
            },
            Err(ServerConfigError::Tls(error)) => outside::io_error_kind(error)
                == IoErrorKind::Other,
            Err(ServerConfigError::InvalidTimeout(error)) => {
                &&& settings.max_idle_timeout * 1000 >= VARINT_LIMIT
                &&& outside::io_error_kind(error) == IoErrorKind::Other
            },
            Err(_) => false,
        },
{
    configured(
        quic_crypto(
            TlsVersion::Tls13,
            settings.certificate_chain,
            settings.private_key,
            settings.alpn_protocols,
        ),
        settings.max_idle_timeout,
        settings.max_concurrent_bidi_streams,
        settings.max_concurrent_uni_streams,
    )
}

/// Whether `res` is what comes of this chain and this key. TLS may refuse them.
pub open spec fn serves(
    res: Result<quinn::ServerConfig, ServerConfigError>,
    chain: Seq<Seq<u8>>,
    key: (outside::KeyFormat, Seq<u8>),
) -> bool {
    match res {
        Ok(config) => endpoint::endpoint_identity(config) == served_identity(chain, key)
            && endpoint::endpoint_limits(config) == served_limits(),
        Err(ServerConfigError::Tls(error)) => outside::io_error_kind(error) == IoErrorKind::Other,
        Err(_) => false,
    }
}

/// Configures an endpoint with what was read as the certificates and as the key. What went
/// wrong with the certificates is reported before what went wrong with the key.
pub fn config_of(
    chain: Result<Vec<Vec<u8>>, std::io::Error>,
    key: Result<Option<PrivateKey>, std::io::Error>,
) -> (res: Result<quinn::ServerConfig, ServerConfigError>)
    ensures
        match (chain, key) {
            (Err(error), _) => res == Err::<quinn::ServerConfig, ServerConfigError>(
                ServerConfigError::InvalidCertificate(error),
            ),
            (Ok(_), Err(error)) => res == Err::<quinn::ServerConfig, ServerConfigError>(
                ServerConfigError::InvalidPrivateKey(error),
            ),
            (Ok(_), Ok(None)) => res == Err::<quinn::ServerConfig, ServerConfigError>(
                ServerConfigError::NoPrivateKey,
            ),
            (Ok(chain), Ok(Some(key))) => serves(res, buffer::byte_strings(chain@), key@),
        },
{
    let certificate_chain = match chain {
        Err(error) => {
            return Err(ServerConfigError::InvalidCertificate(error));
        },
        Ok(chain) => chain,
    };
    let private_key = match key {
        Err(error) => {
            return Err(ServerConfigError::InvalidPrivateKey(error));
        },
        Ok(key) => key,
    };
    match settings_for(certificate_chain, private_key) {
        Err(error) => Err(error),
        Ok(settings) => configure(settings),
    }
}

/// Whether `res` is what comes of a certificate file and a key file that were read as `chain`
/// and `key`; none where a file could not be read.
pub open spec fn configures(
    res: Result<quinn::ServerConfig, ServerConfigError>,
    chain: Option<Seq<Seq<u8>>>,
    key: Option<Option<(outside::KeyFormat, Seq<u8>)>>,
) -> bool {
    match (chain, key) {
        (None, _) => res matches Err(ServerConfigError::InvalidCertificate(error))
            && outside::io_error_kind(error) == IoErrorKind::InvalidData,
        (Some(_), None) => res matches Err(ServerConfigError::InvalidPrivateKey(error))
            && outside::io_error_kind(error) == IoErrorKind::InvalidData,
        (Some(_), Some(None)) => res matches Err(ServerConfigError::NoPrivateKey),
        (Some(chain), Some(Some(key))) => serves(res, chain, key),
    }
}

/// Configures an endpoint for a certificate and a key in PEM.
pub fn server_config(cert: &[u8], key: &[u8]) -> (res: Result<
    quinn::ServerConfig,
    ServerConfigError,
>)
    ensures
        configures(res, outside::pem_certificates(cert@), outside::pem_private_key(key@)),
{
    config_of(read_certificates(cert), read_private_key(key))
}

/// A configured server.
pub struct MasqueServer {
    pub config: quinn::ServerConfig,
    pub auth: AuthMode,
    /// How many tunnels may run at once, over all connections.
    pub tunnel_limit: usize,
}

impl MasqueServer {
    /// Configures a server that lets `concurrent` tunnels run at once.
    pub fn new(cert: &[u8], key: &[u8], auth: AuthMode, concurrent: u32) -> (res: Result<
        MasqueServer,
        ServerConfigError,
    >)
        ensures
            configures(
                match res {
                    Ok(server) => Ok(server.config),
                    Err(error) => Err(error),
                },
                outside::pem_certificates(cert@),
                outside::pem_private_key(key@),
            ),
            res matches Ok(server) ==> server.auth == auth && server.tunnel_limit == concurrent,
    {
        match server_config(cert, key) {
            Err(error) => Err(error),
            Ok(config) => Ok(MasqueServer { config, auth, tunnel_limit: concurrent as usize }),
        }
    }
}

/// How far a server has come.
#[derive(Clone, Copy, Debug, PartialEq, Eq, Structural)]
pub enum ServerState {
    /// It takes connections.
    Accepting,
    /// It waits for its connections to end.
    Draining,
    /// It waits for its connections to be cut off.
    Aborting,
    /// It has stopped.
    Stopped,
}

/// What happened to a server.
#[derive(Clone, Copy, Debug, PartialEq, Eq, Structural)]
pub enum ServerEvent {
    /// It was told to stop.
    Shutdown,
    /// A client wants to connect.
    Incoming,
    /// A connection has ended.
    ConnectionEnded,
    /// Its endpoint is gone.
    EndpointClosed,
    /// All its connections have ended.
    Drained,
    /// Its connections took too long to end.
    DrainTimedOut,
}

/// What to do next about a server.
#[derive(Clone, Copy, Debug, PartialEq, Eq, Structural)]
pub enum ServerAction {
    /// Wait for the next event.
    Wait,
    /// Serve the client that wants to connect.
    Serve,
    /// Take no more connections, and wait for those there are, up to the shutdown timeout.
    Drain,
    /// Cut all connections off, and wait until they are.
    AbortConnections,
    /// Close the endpoint with [`SHUTDOWN_CODE`] and [`SHUTDOWN_REASON`], and wait until it is
    /// idle.
    CloseEndpoint,
    /// Return at once.
    Return,
}

impl ServerEvent {
    /// Whether the event can happen to a server in this state.
    pub open spec fn fits(self, state: ServerState) -> bool {
        match state {
            ServerState::Accepting => self == ServerEvent::Shutdown || self
                == ServerEvent::Incoming || self == ServerEvent::ConnectionEnded || self
                == ServerEvent::EndpointClosed,
            ServerState::Draining => self == ServerEvent::Drained || self
                == ServerEvent::DrainTimedOut,
            ServerState::Aborting => self == ServerEvent::Drained,
            ServerState::Stopped => false,
        }
    }
}

impl ServerState {
    /// What is done about an event.
    pub open spec fn next(self, event: ServerEvent) -> (ServerState, ServerAction) {
        match event {
            ServerEvent::Incoming => (self, ServerAction::Serve),
            ServerEvent::ConnectionEnded => (self, ServerAction::Wait),
            ServerEvent::Shutdown => (ServerState::Draining, ServerAction::Drain),
            ServerEvent::EndpointClosed => (ServerState::Stopped, ServerAction::Return),
            ServerEvent::DrainTimedOut => (ServerState::Aborting, ServerAction::AbortConnections),
            ServerEvent::Drained => (ServerState::Stopped, ServerAction::CloseEndpoint),
        }
    }

    /// Says what to do about an event.
    pub fn on_event(self, event: ServerEvent) -> (res: (ServerState, ServerAction))
        requires
            event.fits(self),
        ensures
            res == self.next(event),
    {
        match event {
            ServerEvent::Incoming => (self, ServerAction::Serve),
            ServerEvent::ConnectionEnded => (self, ServerAction::Wait),
            ServerEvent::Shutdown => (ServerState::Draining, ServerAction::Drain),
            ServerEvent::EndpointClosed => (ServerState::Stopped, ServerAction::Return),
            ServerEvent::DrainTimedOut => (ServerState::Aborting, ServerAction::AbortConnections),
            ServerEvent::Drained => (ServerState::Stopped, ServerAction::CloseEndpoint),
        }
    }
}

/// How far a server has come after `events`.
pub open spec fn server_after(events: Seq<ServerEvent>) -> ServerState
    decreases events.len(),
{
    if events.len() == 0 {
        ServerState::Accepting
    } else {
        server_after(events.drop_last()).next(events.last()).0
    }
}

/// Whether each of `events` can happen to a server at that point.
pub open spec fn server_events_fit(events: Seq<ServerEvent>) -> bool
    decreases events.len(),
{
    events.len() == 0 || server_events_fit(events.drop_last()) && events.last().fits(
        server_after(events.drop_last()),
    )
}

/// A server serves clients until it is told to stop or its endpoint is gone, and none after
/// that.
pub proof fn no_service_after_shutdown(events: Seq<ServerEvent>, at: int)
    requires
        server_events_fit(events),
        0 <= at < events.len(),
        events[at] == ServerEvent::Shutdown || events[at] == ServerEvent::EndpointClosed,
    ensures
        !(server_after(events) is Accepting),
        forall|i: int| at < i < events.len() ==> events[i] != ServerEvent::Incoming,
    decreases events.len(),
{
    if at < events.len() - 1 {
        no_service_after_shutdown(events.drop_last(), at);
        assert forall|i: int| at < i < events.len() implies events[i] != ServerEvent::Incoming by {
            if i < events.len() - 1 {
                assert(events.drop_last()[i] == events[i]);
            }
        }
    }
}

/// A server that was told to stop closes its endpoint once its connections have ended, by
/// themselves or cut off; they are cut off only when they took too long.
pub proof fn shutdown_closes_the_endpoint(state: ServerState, event: ServerEvent)
    requires
        event.fits(state),
    ensures
        state.next(event).1 == ServerAction::CloseEndpoint <==> event == ServerEvent::Drained,
        state.next(event).1 == ServerAction::AbortConnections <==> state == ServerState::Draining
            && event == ServerEvent::DrainTimedOut,
        state == ServerState::Aborting ==> state.next(event).0 == ServerState::Stopped,
{
}

/// The limits by number.
pub proof fn times_are_limited()
    ensures
        HANDSHAKE_TIMEOUT == 10,
        REQUEST_TIMEOUT == 10,
        SHUTDOWN_TIMEOUT == 5,
        IDLE_TIMEOUT == 30,
        MAX_CONCURRENT_STREAMS == 100,
        SHUTDOWN_CODE == 0,
        SHUTDOWN_REASON@ == "server shutdown"@,
{
}

/// The settings for a chain and a key hold all certificates of the chain, in order, and the
/// key, each byte for byte, and offer HTTP/3 alone.
pub proof fn settings_hold_the_whole_chain(
    chain: Seq<Vec<u8>>,
    key: PrivateKey,
    settings: ServerSettings,
)
    requires
        settings.identity() == served_identity(buffer::byte_strings(chain), key@),
        settings.limits() == served_limits(),
    ensures
        settings.certificate_chain@.len() == chain.len(),
        forall|i: int|
            0 <= i < chain.len() ==> (#[trigger] settings.certificate_chain@[i])@ == chain[i]@,
        settings.private_key.format == key.format,
        settings.private_key.der@ == key.der@,
        settings.alpn_protocols@.len() == 1,
        settings.alpn_protocols@[0]@ == seq![0x68u8, 0x33u8],
        settings.max_idle_timeout == 30,
        settings.max_concurrent_bidi_streams == 100,
        settings.max_concurrent_uni_streams == 100,
{
    let held = buffer::byte_strings(settings.certificate_chain@);
    let given = buffer::byte_strings(chain);
    assert(settings.identity().chain == held);
    assert(held == given);
    assert forall|i: int| 0 <= i < chain.len() implies (
    #[trigger] settings.certificate_chain@[i])@ == chain[i]@ by {
        assert(held[i] == given[i]);
    }
    let offered = buffer::byte_strings(settings.alpn_protocols@);
    let wanted = seq![h3_protocol()];
    assert(settings.identity().protocols == wanted);
    assert(offered.len() == wanted.len());
    assert(offered[0] == wanted[0]);
}

/// An endpoint that is configured under settings serves with what the settings hold: every
/// certificate, the key and every protocol, over TLS 1.3 alone, and under their limits.
pub proof fn endpoints_serve_with_their_settings(
    settings: ServerSettings,
    config: quinn::ServerConfig,
)
    requires
        endpoint::endpoint_identity(config) == settings.identity(),
        endpoint::endpoint_limits(config) == settings.limits(),
    ensures
        ({
            let served = endpoint::endpoint_identity(config);
            let limits = endpoint::endpoint_limits(config);
            &&& served.version == TlsVersion::Tls13
            &&& !served.client_certificates
            &&& served.chain.len() == settings.certificate_chain@.len()
            &&& forall|i: int|
                0 <= i < served.chain.len() ==> #[trigger] served.chain[i]
                    == settings.certificate_chain@[i]@
            &&& served.key == (settings.private_key.format, settings.private_key.der@)
            &&& served.protocols.len() == settings.alpn_protocols@.len()
            &&& forall|i: int|
                0 <= i < served.protocols.len() ==> #[trigger] served.protocols[i]
                    == settings.alpn_protocols@[i]@
            &&& limits.max_idle_timeout == settings.max_idle_timeout
            &&& limits.max_concurrent_bidi_streams == settings.max_concurrent_bidi_streams
            &&& limits.max_concurrent_uni_streams == settings.max_concurrent_uni_streams
        }),
{
}

/// Where an endpoint is configured from a certificate file and a key file, it serves with all
/// certificates that were read, in order, and with the key that was read, over TLS 1.3 and
/// HTTP/3 alone and without asking for certificates. Otherwise the first of these reasons holds:
/// the certificates cannot be read, the key cannot be read, there is no key, TLS refuses them.
pub proof fn endpoints_serve_with_what_was_read(
    res: Result<quinn::ServerConfig, ServerConfigError>,
    cert: Seq<u8>,
    key: Seq<u8>,
)
    requires
        configures(res, outside::pem_certificates(cert), outside::pem_private_key(key)),
    ensures
        ({
            let read_chain = outside::pem_certificates(cert);
            let read_key = outside::pem_private_key(key);
            &&& (res is Err && res->Err_0 is InvalidCertificate) <==> read_chain is None
            &&& (res is Err && res->Err_0 is InvalidPrivateKey) <==> read_chain is Some
                && read_key is None
            &&& (res is Err && res->Err_0 is NoPrivateKey) <==> read_chain is Some && read_key
                == Some(None::<(outside::KeyFormat, Seq<u8>)>)
            &&& !(res is Err && res->Err_0 is InvalidTimeout)
            &&& res matches Ok(config) ==> {
                let served = endpoint::endpoint_identity(config);
                let limits = endpoint::endpoint_limits(config);
                &&& read_chain == Some(served.chain)
                &&& read_key == Some(Some(served.key))
                &&& served.protocols == seq![seq![0x68u8, 0x33u8]]
                &&& served.version == TlsVersion::Tls13
                &&& !served.client_certificates
                &&& limits.max_idle_timeout == 30
                &&& limits.max_concurrent_bidi_streams == 100
                &&& limits.max_concurrent_uni_streams == 100
            }
        }),
{
}

/// An error is reported under the kind of the error that it carries; a missing key is invalid
/// input.
pub proof fn configuration_errors_keep_their_kind(error: ServerConfigError)
    ensures
        match error {
            ServerConfigError::NoPrivateKey => error.spec_kind() == IoErrorKind::InvalidInput,
            ServerConfigError::InvalidCertificate(carried) => error.spec_kind()
                == outside::io_error_kind(carried),
            ServerConfigError::InvalidPrivateKey(carried) => error.spec_kind()
                == outside::io_error_kind(carried),
            ServerConfigError::Tls(carried) => error.spec_kind() == outside::io_error_kind(carried),
            ServerConfigError::InvalidTimeout(carried) => error.spec_kind()
                == outside::io_error_kind(carried),
        },
{
}

/// What is done about every event, and that every event is taken where it can happen.
pub proof fn servers_go_their_way(state: ServerState, event: ServerEvent)
    ensures
        state == ServerState::Accepting && (event == ServerEvent::Shutdown || event
            == ServerEvent::Incoming || event == ServerEvent::ConnectionEnded || event
            == ServerEvent::EndpointClosed) ==> event.fits(state),
        state == ServerState::Draining && (event == ServerEvent::Drained || event
            == ServerEvent::DrainTimedOut) ==> event.fits(state),
        state == ServerState::Aborting && event == ServerEvent::Drained ==> event.fits(state),
        event.fits(state) ==> match event {
            ServerEvent::Incoming => state.next(event) == (
                ServerState::Accepting,
                ServerAction::Serve,
            ),
            ServerEvent::ConnectionEnded => state.next(event) == (
                ServerState::Accepting,
                ServerAction::Wait,
            ),
            ServerEvent::Shutdown => state.next(event) == (
                ServerState::Draining,
                ServerAction::Drain,
            ),
            ServerEvent::EndpointClosed => state.next(event) == (
                ServerState::Stopped,
                ServerAction::Return,
            ),
            ServerEvent::DrainTimedOut => state.next(event) == (
                ServerState::Aborting,
                ServerAction::AbortConnections,
            ),
            ServerEvent::Drained => state.next(event) == (
                ServerState::Stopped,
                ServerAction::CloseEndpoint,
            ),
        },
{
}

} // verus!
