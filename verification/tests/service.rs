//! Configuration, the end of a server, domain lists and text on concrete values.

use base64::Engine;
use quinn::crypto::rustls::QuicServerConfig;
use rustls::pki_types::{PrivateKeyDer, PrivatePkcs8KeyDer};
use std::io::{Error, ErrorKind};
use std::path::PathBuf;
use std::sync::Arc;
use vproxy::auth::AuthMode;
use vproxy::cli::{BootArgs, Proxy};
use vproxy::connection::{
    CLOSE_CODE, CLOSE_REASON, ENABLE_DATAGRAM, ENABLE_EXTENDED_CONNECT, REQUESTS_AFTER_GOING_AWAY,
};
use vproxy::error::IoErrorKind;
use vproxy::outside::{KeyFormat, PrivateKey};
use vproxy::server::{
    certificate_source, config_of, configure, configured, server_config, settings_for, CertificateSource,
    MasqueServer, ServerAction, ServerConfigError, ServerEvent, ServerSettings, ServerState,
    SHUTDOWN_CODE, SHUTDOWN_REASON,
};
use vproxy::text::{
    characters, contains_char, parse_u16, rsplit_once, same_text, split, strip_prefix,
    strip_suffix, trim, white_space,
};

fn section(label: &str, der: &[u8]) -> String {
    let content = base64::engine::general_purpose::STANDARD.encode(der);
    format!("-----BEGIN {label}-----\n{content}\n-----END {label}-----\n")
}

fn no_auth() -> AuthMode {
    AuthMode {
        username: None,
        password: None,
    }
}

fn der(tag: u8, parts: &[&[u8]]) -> Vec<u8> {
    let content = parts.concat();
    let mut bytes = vec![tag];
    if content.len() >= 128 {
        bytes.push(0x81);
    }
    bytes.push(content.len() as u8);
    bytes.extend_from_slice(&content);
    bytes
}

fn ed25519() -> Vec<u8> {
    der(0x30, &[&der(0x06, &[&[0x2b, 0x65, 0x70]])])
}

fn key_der(seed: u8) -> Vec<u8> {
    let seed = der(0x04, &[&der(0x04, &[&[seed; 32]])]);
    der(0x30, &[&der(0x02, &[&[0]]), &ed25519(), &seed])
}

fn certificate_der(seed: u8) -> Vec<u8> {
    let key = PrivatePkcs8KeyDer::from(key_der(seed));
    let public_key = rustls::crypto::ring::sign::any_eddsa_type(&key)
        .expect("valid key")
        .public_key()
        .expect("the key has a public part")
        .to_vec();
    certificate_of(&public_key)
}

fn certificate_of(public_key: &[u8]) -> Vec<u8> {
    let time = |text: &str| der(0x17, &[text.as_bytes()]);
    let validity = der(0x30, &[&time("250101000000Z"), &time("350101000000Z")]);
    let content = der(
        0x30,
        &[
            &der(0xa0, &[&der(0x02, &[&[2]])]),
            &der(0x02, &[&[1]]),
            &ed25519(),
            &der(0x30, &[]),
            &validity,
            &der(0x30, &[]),
            public_key,
        ],
    );
    let signature = der(0x03, &[&[0], &[0; 64]]);
    der(0x30, &[&content, &ed25519(), &signature])
}

fn certificate(seed: u8) -> String {
    section("CERTIFICATE", &certificate_der(seed))
}

fn private_key(seed: u8) -> String {
    section("PRIVATE KEY", &key_der(seed))
}

#[test]
fn a_certificate_with_its_key_is_configured() {
    match server_config(certificate(1).as_bytes(), private_key(1).as_bytes()) {
        Ok(config) => {
            let transport = format!("{:?}", config.transport);
            assert!(transport.contains("max_idle_timeout: Some(30000)"));
            assert!(transport.contains("max_concurrent_bidi_streams: 100"));
            assert!(transport.contains("max_concurrent_uni_streams: 100"));
        }
        Err(_) => panic!("the certificate is the key's"),
    }
}

#[test]
fn the_first_certificate_has_to_be_the_keys() {
    let configured = |cert: String, key: String| server_config(cert.as_bytes(), key.as_bytes());
    assert!(matches!(
        configured(certificate(1), private_key(2)),
        Err(ServerConfigError::Tls(_))
    ));
    assert!(matches!(
        configured(certificate(2) + &certificate(1), private_key(1)),
        Err(ServerConfigError::Tls(_))
    ));
    assert!(matches!(
        configured(String::new(), private_key(1)),
        Err(ServerConfigError::Tls(_))
    ));
    assert!(configured(certificate(1) + &certificate(2), private_key(1)).is_ok());
}

#[test]
fn keys_have_to_be_in_the_format_that_they_are_labelled_with() {
    assert!(matches!(
        server_config(
            certificate(1).as_bytes(),
            section("RSA PRIVATE KEY", &key_der(1)).as_bytes()
        ),
        Err(ServerConfigError::Tls(_))
    ));
    assert!(matches!(
        server_config(
            certificate(1).as_bytes(),
            section("EC PRIVATE KEY", &key_der(1)).as_bytes()
        ),
        Err(ServerConfigError::Tls(_))
    ));
}

#[test]
fn the_first_key_counts() {
    let configured = |key: String| server_config(certificate(1).as_bytes(), key.as_bytes());
    assert!(configured(certificate(3) + &private_key(1) + &private_key(2)).is_ok());
    assert!(matches!(
        configured(private_key(2) + &private_key(1)),
        Err(ServerConfigError::Tls(_))
    ));
}

#[test]
fn unreadable_files_are_refused() {
    let cut_short = "-----BEGIN CERTIFICATE-----\nAQID\n";
    let no_base64 = "-----BEGIN CERTIFICATE-----\n????\n-----END CERTIFICATE-----\n";
    let no_label = "-----BEGIN CERTIFICATE\n";
    for text in [cut_short, no_base64, no_label] {
        match server_config(text.as_bytes(), private_key(1).as_bytes()) {
            Err(ServerConfigError::InvalidCertificate(error)) => {
                assert_eq!(error.kind(), ErrorKind::InvalidData);
            }
            _ => panic!("the certificate cannot be read"),
        }
        match server_config(certificate(1).as_bytes(), text.as_bytes()) {
            Err(ServerConfigError::InvalidPrivateKey(error)) => {
                assert_eq!(error.kind(), ErrorKind::InvalidData);
            }
            _ => panic!("the key cannot be read"),
        }
        assert!(matches!(
            server_config(text.as_bytes(), text.as_bytes()),
            Err(ServerConfigError::InvalidCertificate(_))
        ));
    }
    assert!(matches!(
        server_config(certificate(1).as_bytes(), certificate(1).as_bytes()),
        Err(ServerConfigError::NoPrivateKey)
    ));
    assert!(matches!(
        server_config(certificate(1).as_bytes(), b""),
        Err(ServerConfigError::NoPrivateKey)
    ));
}

#[test]
fn settings_need_a_key() {
    assert!(matches!(
        settings_for(vec![], None),
        Err(ServerConfigError::NoPrivateKey)
    ));
    let key = PrivateKey {
        format: KeyFormat::Sec1,
        der: vec![1],
    };
    match settings_for(vec![vec![2]], Some(key)) {
        Ok(settings) => {
            assert_eq!(settings.certificate_chain, vec![vec![2]]);
            assert_eq!(settings.private_key.format, KeyFormat::Sec1);
            assert_eq!(settings.private_key.der, vec![1]);
            assert_eq!(settings.alpn_protocols, vec![b"h3".to_vec()]);
            assert_eq!(settings.max_idle_timeout, 30);
            assert_eq!(settings.max_concurrent_bidi_streams, 100);
            assert_eq!(settings.max_concurrent_uni_streams, 100);
        }
        Err(_) => panic!("there is a key"),
    }
}

fn settings(max_idle_timeout: u64) -> ServerSettings {
    ServerSettings {
        certificate_chain: vec![certificate_der(1)],
        private_key: PrivateKey {
            format: KeyFormat::Pkcs8,
            der: key_der(1),
        },
        alpn_protocols: vec![b"h3".to_vec()],
        max_idle_timeout,
        max_concurrent_bidi_streams: 7,
        max_concurrent_uni_streams: 8,
    }
}

#[test]
fn endpoints_keep_their_limits() {
    match configure(settings(2)) {
        Ok(config) => {
            let transport = format!("{:?}", config.transport);
            assert!(transport.contains("max_idle_timeout: Some(2000)"));
            assert!(transport.contains("max_concurrent_bidi_streams: 7"));
            assert!(transport.contains("max_concurrent_uni_streams: 8"));
        }
        Err(_) => panic!("the settings are valid"),
    }
}

fn p256_key_der() -> Vec<u8> {
    let x = [
        0x6b, 0x17, 0xd1, 0xf2, 0xe1, 0x2c, 0x42, 0x47, 0xf8, 0xbc, 0xe6, 0xe5, 0x63, 0xa4, 0x40,
        0xf2, 0x77, 0x03, 0x7d, 0x81, 0x2d, 0xeb, 0x33, 0xa0, 0xf4, 0xa1, 0x39, 0x45, 0xd8, 0x98,
        0xc2, 0x96,
    ];
    let y = [
        0x4f, 0xe3, 0x42, 0xe2, 0xfe, 0x1a, 0x7f, 0x9b, 0x8e, 0xe7, 0xeb, 0x4a, 0x7c, 0x0f, 0x9e,
        0x16, 0x2b, 0xce, 0x33, 0x57, 0x6b, 0x31, 0x5e, 0xce, 0xcb, 0xb6, 0x40, 0x68, 0x37, 0xbf,
        0x51, 0xf5,
    ];
    let mut one = [0; 32];
    one[31] = 1;
    let point = der(0xa1, &[&der(0x03, &[&[0, 4], &x, &y])]);
    der(0x30, &[&der(0x02, &[&[1]]), &der(0x04, &[&one]), &point])
}

#[test]
fn keys_of_elliptic_curves_are_served_with() {
    let key = p256_key_der();
    let loaded = PrivateKeyDer::Sec1(key.clone().into());
    let public_key = rustls::crypto::ring::sign::any_ecdsa_type(&loaded)
        .expect("valid key")
        .public_key()
        .expect("the key has a public part")
        .to_vec();
    let chain = vec![certificate_of(&public_key)];
    let with_format = |format: KeyFormat| {
        let key = PrivateKey {
            format,
            der: key.clone(),
        };
        settings_for(chain.clone(), Some(key)).and_then(configure)
    };
    assert!(with_format(KeyFormat::Sec1).is_ok());
    for format in [KeyFormat::Pkcs1, KeyFormat::Pkcs8] {
        match with_format(format) {
            Err(ServerConfigError::Tls(error)) => assert_eq!(error.kind(), ErrorKind::Other),
            _ => panic!("the key is in another format"),
        }
    }
}

fn crypto() -> QuicServerConfig {
    let provider = Arc::new(rustls::crypto::ring::default_provider());
    let tls = rustls::ServerConfig::builder_with_provider(provider)
        .with_protocol_versions(&[&rustls::version::TLS13])
        .expect("supported version")
        .with_no_client_auth()
        .with_single_cert(
            vec![certificate_der(1).into()],
            PrivateKeyDer::Pkcs8(key_der(1).into()),
        )
        .expect("the certificate is the key's");
    QuicServerConfig::try_from(tls).expect("supported cipher suite")
}

#[test]
fn endpoints_depend_on_their_cryptography_and_limits() {
    let refused = Error::new(ErrorKind::Other, "refused");
    match configured(Err(refused), 30, 1, 2) {
        Err(ServerConfigError::Tls(error)) => assert_eq!(error.to_string(), "refused"),
        _ => panic!("there is no cryptography"),
    }
    match configured(Ok(crypto()), 5, 1, 2) {
        Ok(config) => {
            let transport = format!("{:?}", config.transport);
            assert!(transport.contains("max_idle_timeout: Some(5000)"));
            assert!(transport.contains("max_concurrent_bidi_streams: 1"));
            assert!(transport.contains("max_concurrent_uni_streams: 2"));
        }
        Err(_) => panic!("the limits are valid"),
    }
    assert!(matches!(
        configured(Ok(crypto()), u64::MAX, 1, 2),
        Err(ServerConfigError::InvalidTimeout(_))
    ));
}

#[test]
fn the_error_of_the_file_that_cannot_be_read_is_reported() {
    let error = |words: &str| Error::new(ErrorKind::InvalidData, words.to_owned());
    match config_of(Err(error("chain")), Err(error("key"))) {
        Err(ServerConfigError::InvalidCertificate(error)) => {
            assert_eq!(error.to_string(), "chain");
        }
        _ => panic!("the certificate cannot be read"),
    }
    match config_of(Ok(vec![certificate_der(1)]), Err(error("key"))) {
        Err(ServerConfigError::InvalidPrivateKey(error)) => assert_eq!(error.to_string(), "key"),
        _ => panic!("the key cannot be read"),
    }
    assert!(matches!(
        config_of(Ok(vec![certificate_der(1)]), Ok(None)),
        Err(ServerConfigError::NoPrivateKey)
    ));
    let key = PrivateKey {
        format: KeyFormat::Pkcs8,
        der: key_der(1),
    };
    assert!(config_of(Ok(vec![certificate_der(1)]), Ok(Some(key))).is_ok());
}

#[test]
fn configuration_errors_have_their_kind_and_words() {
    assert_eq!(
        ServerConfigError::NoPrivateKey.kind(),
        IoErrorKind::InvalidInput
    );
    assert_eq!(
        ServerConfigError::NoPrivateKey.message(),
        Some("no private key found")
    );
    assert!(ServerConfigError::NoPrivateKey.carried().is_none());
    for wrap in [
        ServerConfigError::InvalidCertificate,
        ServerConfigError::InvalidPrivateKey,
        ServerConfigError::Tls,
        ServerConfigError::InvalidTimeout,
    ] {
        let error = wrap(Error::new(ErrorKind::InvalidData, "words"));
        assert_eq!(error.kind(), IoErrorKind::InvalidData);
        assert_eq!(error.message(), None);
        let carried = error.carried().expect("the error that is carried");
        assert_eq!(carried.to_string(), "words");
    }
}

#[test]
fn clients_are_told_what_is_taken_and_why_it_ends() {
    assert!(ENABLE_EXTENDED_CONNECT);
    assert!(ENABLE_DATAGRAM);
    assert_eq!(REQUESTS_AFTER_GOING_AWAY, 0);
    assert_eq!((CLOSE_CODE, CLOSE_REASON), (0, "proxy connection finished"));
    assert_eq!((SHUTDOWN_CODE, SHUTDOWN_REASON), (0, "server shutdown"));
}

#[test]
fn idle_timeouts_are_limited() {
    let limit = (1u64 << 62) / 1000;
    assert!(configure(settings(limit)).is_ok());
    assert!(matches!(
        configure(settings(limit + 1)),
        Err(ServerConfigError::InvalidTimeout(_))
    ));
}

#[test]
fn a_server_keeps_its_limit_and_credentials() {
    let auth = AuthMode {
        username: Some("user".to_owned()),
        password: Some("password".to_owned()),
    };
    match MasqueServer::new(
        certificate(1).as_bytes(),
        private_key(1).as_bytes(),
        auth,
        1024,
    ) {
        Ok(server) => {
            assert_eq!(server.tunnel_limit, 1024);
            assert_eq!(server.auth.username.as_deref(), Some("user"));
            assert_eq!(server.auth.password.as_deref(), Some("password"));
        }
        Err(_) => panic!("the certificate is the key's"),
    }
    assert!(matches!(
        MasqueServer::new(certificate(1).as_bytes(), b"", no_auth(), 1),
        Err(ServerConfigError::NoPrivateKey)
    ));
}

#[test]
fn certificate_files_come_in_pairs() {
    assert!(matches!(
        certificate_source(Some(1), Some(2)),
        CertificateSource::Files { cert: 1, key: 2 }
    ));
    assert!(matches!(
        certificate_source(Some(1), None),
        CertificateSource::SelfSigned
    ));
    assert!(matches!(
        certificate_source(None, Some(2)),
        CertificateSource::SelfSigned
    ));
    assert!(matches!(
        certificate_source::<i32>(None, None),
        CertificateSource::SelfSigned
    ));
}

#[test]
fn a_server_serves_until_it_stops() {
    let accepting = ServerState::Accepting;
    assert_eq!(
        accepting.on_event(ServerEvent::Incoming),
        (ServerState::Accepting, ServerAction::Serve)
    );
    assert_eq!(
        accepting.on_event(ServerEvent::ConnectionEnded),
        (ServerState::Accepting, ServerAction::Wait)
    );
    assert_eq!(
        accepting.on_event(ServerEvent::EndpointClosed),
        (ServerState::Stopped, ServerAction::Return)
    );
    assert_eq!(
        accepting.on_event(ServerEvent::Shutdown),
        (ServerState::Draining, ServerAction::Drain)
    );
}

#[test]
fn a_stopping_server_cuts_off_slow_connections_only() {
    assert_eq!(
        ServerState::Draining.on_event(ServerEvent::Drained),
        (ServerState::Stopped, ServerAction::CloseEndpoint)
    );
    assert_eq!(
        ServerState::Draining.on_event(ServerEvent::DrainTimedOut),
        (ServerState::Aborting, ServerAction::AbortConnections)
    );
    assert_eq!(
        ServerState::Aborting.on_event(ServerEvent::Drained),
        (ServerState::Stopped, ServerAction::CloseEndpoint)
    );
}

fn boot_args(domains: Option<Vec<String>>) -> BootArgs {
    BootArgs {
        log: "info".to_owned(),
        bind: "127.0.0.1:1080".to_owned(),
        concurrent: 1024,
        workers: None,
        cidr: None,
        cidr_range: None,
        fallback: None,
        domains,
        domain_file: Some(PathBuf::from("domains.txt")),
        connect_timeout: 10,
        tcp_user_timeout: Some(30),
        reuseaddr: Some(true),
        proxy: Proxy::Quic {
            auth: no_auth(),
            tls_cert: None,
            tls_key: None,
        },
    }
}

fn listed(domains: Option<&[&str]>, contents: Option<&str>) -> Option<Vec<String>> {
    let given = domains.map(|domains| domains.iter().map(|name| (*name).to_owned()).collect());
    boot_args(given).domain_list(contents)
}

fn names(list: &[&str]) -> Option<Vec<String>> {
    Some(list.iter().map(|name| (*name).to_owned()).collect())
}

#[test]
fn no_domains_are_no_list() {
    assert_eq!(listed(None, None), None);
    assert_eq!(listed(Some(&[]), None), None);
    assert_eq!(listed(None, Some("")), None);
    assert_eq!(listed(None, Some("\n\n  \n# a\n\t# b")), None);
}

#[test]
fn given_domains_come_before_those_of_the_file() {
    assert_eq!(
        listed(Some(&["a.example", " b "]), Some("c.example\nd.example\n")),
        names(&["a.example", " b ", "c.example", "d.example"])
    );
    assert_eq!(listed(Some(&["a.example"]), None), names(&["a.example"]));
}

#[test]
fn lines_of_the_domain_file_hold_entries() {
    assert_eq!(
        listed(None, Some("  a , b,,c# not a comment \n#x,y\n e\u{3000}")),
        names(&["a", "b", "", "c# not a comment", "e"])
    );
    assert_eq!(listed(None, Some(",")), names(&["", ""]));
}

#[test]
fn carriage_returns_in_the_domain_file_are_ignored() {
    assert_eq!(
        listed(None, Some("a\r\n\r\n# b\r\nc,d\r\n")),
        listed(None, Some("a\n\n# b\nc,d\n"))
    );
    assert_eq!(listed(None, Some("a\r\nb\r")), names(&["a", "b"]));
}

#[test]
fn text_is_cut_at_prefixes_and_separators() {
    assert_eq!(strip_prefix("prefix", "pre"), Some("fix"));
    assert_eq!(strip_prefix("prefix", ""), Some("prefix"));
    assert_eq!(strip_prefix("pre", "prefix"), None);
    assert_eq!(strip_prefix("\u{e9}t\u{e9}", "\u{e9}"), Some("t\u{e9}"));
    assert_eq!(strip_suffix("a//", '/'), Some("a/"));
    assert_eq!(strip_suffix("", '/'), None);
    assert_eq!(strip_suffix("a\u{e9}", '\u{e9}'), Some("a"));
    assert_eq!(rsplit_once("a:b:c", ':'), Some(("a:b", "c")));
    assert_eq!(rsplit_once(":", ':'), Some(("", "")));
    assert_eq!(rsplit_once("abc", ':'), None);
    assert_eq!(split("a,,b", ','), vec!["a", "", "b"]);
    assert_eq!(split("", ','), vec![""]);
    assert_eq!(split("a,", ','), vec!["a", ""]);
}

#[test]
fn text_is_trimmed_and_compared() {
    for text in ["  a b\t\r\n", "", "   ", "a", "\u{2003}\u{a0}a\u{85}", "\u{200b}a"] {
        assert_eq!(trim(text), text.trim());
    }
    for code in 0..0x3100 {
        if let Some(c) = char::from_u32(code) {
            assert_eq!(white_space(c), c.is_whitespace());
        }
    }
    assert!(same_text("a", "a"));
    assert!(!same_text("a", "A"));
    assert!(contains_char("100%", '%'));
    assert!(!contains_char("100", '%'));
    assert_eq!(characters("a\u{e9}"), vec!['a', '\u{e9}']);
}

#[test]
fn numbers_are_read_like_the_standard_library_reads_them() {
    for text in [
        "", "+", "-", "-0", "0", "00", "+0", "7", "65535", "65536", "065535", "99999", "1_0",
        "4294967296", "18446744073709551617", "1 ", "\u{661}",
    ] {
        assert_eq!(parse_u16(text), text.parse::<u16>().ok(), "{text}");
    }
}
