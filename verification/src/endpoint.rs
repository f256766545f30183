//! The QUIC endpoint's configuration, as the `rustls` and `quinn` crates take it.
//!
//! What is stated here of those crates is taken on trust; everything else in the library is
//! proved from it.

use crate::error::IoErrorKind;
use crate::outside::{KeyFormat, PrivateKey};
use crate::{buffer, outside, varint};
use quinn::crypto::rustls::QuicServerConfig;
use quinn::{IdleTimeout, TransportConfig};
use rustls::pki_types::{CertificateDer, PrivateKeyDer};
use rustls::version::{TLS12, TLS13};
use std::io::Error;
use std::sync::Arc;
use std::time::Duration;
use vstd::prelude::*;

verus! {

#[verifier::external_type_specification]
#[verifier::external_body]
pub struct ExQuicServerConfig(quinn::crypto::rustls::QuicServerConfig);

#[verifier::external_type_specification]
#[verifier::external_body]
pub struct ExTransportConfig(quinn::TransportConfig);

#[verifier::external_type_specification]
#[verifier::external_body]
pub struct ExServerConfig(quinn::ServerConfig);

/// A version of TLS.
#[derive(Clone, Copy, Debug, PartialEq, Eq, Structural)]
pub enum TlsVersion {
    Tls12,
    Tls13,
}

/// What clients are served with.
pub struct Identity {
    /// The only version of TLS.
    pub version: TlsVersion,
    /// Whether clients are asked for a certificate.
    pub client_certificates: bool,
    pub chain: Seq<Seq<u8>>,
    pub key: (KeyFormat, Seq<u8>),
    /// The protocols that are offered.
    pub protocols: Seq<Seq<u8>>,
}

/// Limits on a connection: how long it may stay silent, in seconds, and how many streams of
/// either direction the client may have open.
pub struct Limits {
    pub max_idle_timeout: u64,
    pub max_concurrent_bidi_streams: u32,
    pub max_concurrent_uni_streams: u32,
}

/// What a `quinn::crypto::rustls::QuicServerConfig` was made with.
pub uninterp spec fn crypto_identity(crypto: quinn::crypto::rustls::QuicServerConfig) -> Identity;

/// The limits that a `quinn::TransportConfig` holds.
pub uninterp spec fn transport_limits(transport: quinn::TransportConfig) -> Limits;

/// What the cryptography of a `quinn::ServerConfig` was made with.
pub uninterp spec fn endpoint_identity(config: quinn::ServerConfig) -> Identity;

/// The limits that the transport configuration of a `quinn::ServerConfig` holds.
pub uninterp spec fn endpoint_limits(config: quinn::ServerConfig) -> Limits;

/// `ConfigBuilder::with_single_cert`, for one version of TLS and after `with_no_client_auth`,
/// takes the chain and the key or fails. What it makes is given the protocols and handed to
/// `QuicServerConfig::try_from`. Every failure is wrapped by `io::Error::other`, whose kind is
/// `Other`. When it succeeds is left unsaid: some keys are loaded with the help of the system's
/// random source, which may fail.
#[verifier::external_body]
pub(crate) fn quic_crypto(
    version: TlsVersion,
    chain: Vec<Vec<u8>>,
    key: PrivateKey,
    protocols: Vec<Vec<u8>>,
) -> (res: Result<QuicServerConfig, Error>)
    ensures
        match res {
            Ok(crypto) => crypto_identity(crypto) == (Identity {
                version,
                client_certificates: false,
                chain: buffer::byte_strings(chain@),
                key: key@,
                protocols: buffer::byte_strings(protocols@),
            }),
            Err(error) => outside::io_error_kind(error) == IoErrorKind::Other,
        },
{
    let version = match version { TlsVersion::Tls12 => &TLS12, TlsVersion::Tls13 => &TLS13 };
    let chain = chain.into_iter().map(CertificateDer::from).collect();
    let key = match key.format {
        KeyFormat::Pkcs1 => PrivateKeyDer::Pkcs1(key.der.into()),
        KeyFormat::Sec1 => PrivateKeyDer::Sec1(key.der.into()),
        KeyFormat::Pkcs8 => PrivateKeyDer::Pkcs8(key.der.into()),
    };
    let provider = Arc::new(rustls::crypto::ring::default_provider());
    let mut tls = rustls::ServerConfig::builder_with_provider(provider)
        .with_protocol_versions(&[version]).map_err(Error::other)?
        .with_no_client_auth().with_single_cert(chain, key).map_err(Error::other)?;
    tls.alpn_protocols = protocols;
    QuicServerConfig::try_from(tls).map_err(Error::other)
}

/// `TransportConfig` keeps the limits that it is given. `IdleTimeout::try_from` takes every
/// time of less than 2^62 milliseconds and no other; its failure is wrapped by
/// `io::Error::other`, whose kind is `Other`.
#[verifier::external_body]
pub(crate) fn transport_config(
    max_idle_timeout: u64,
    max_concurrent_bidi_streams: u32,
    max_concurrent_uni_streams: u32,
) -> (res: Result<TransportConfig, Error>)
    ensures
        res is Ok <==> max_idle_timeout * 1000 < varint::VARINT_LIMIT,
        res matches Ok(transport) ==> transport_limits(transport) == (Limits {
            max_idle_timeout,
            max_concurrent_bidi_streams,
            max_concurrent_uni_streams,
        }),
        res matches Err(error) ==> outside::io_error_kind(error) == IoErrorKind::Other,
{
    let idle = IdleTimeout::try_from(Duration::from_secs(max_idle_timeout)).map_err(Error::other)?;
    let mut transport = TransportConfig::default();
    transport.max_idle_timeout(Some(idle));
    transport.max_concurrent_bidi_streams(max_concurrent_bidi_streams.into());
    transport.max_concurrent_uni_streams(max_concurrent_uni_streams.into());
    Ok(transport)
}

/// `quinn::ServerConfig::with_crypto` and `ServerConfig::transport_config` keep what they are
/// given. The key for handshake tokens, which is random, is left unsaid.
#[verifier::external_body]
pub(crate) fn endpoint_config(crypto: QuicServerConfig, transport: TransportConfig) -> (res:
    quinn::ServerConfig)
    ensures
        endpoint_identity(res) == crypto_identity(crypto),
        endpoint_limits(res) == transport_limits(transport),
{
    let mut config = quinn::ServerConfig::with_crypto(Arc::new(crypto));
    config.transport_config(Arc::new(transport));
    config
}

} // verus!
