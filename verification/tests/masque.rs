//! The proxy's promises on concrete requests and byte streams.

use base64::Engine;
use bytes::{Bytes, BytesMut};
use h3::ext::Protocol;
use http::header::{CONTENT_LENGTH, CONTENT_TYPE, PROXY_AUTHORIZATION, TRANSFER_ENCODING};
use http::Request;
use std::sync::Arc;
use tokio::sync::Semaphore;
use vproxy::auth::{authenticate, AuthMode, Authentication};
use vproxy::capsule::{CapsuleDecoder, DATAGRAM_CAPSULE_TYPE, MAX_UDP_RELAY_PAYLOAD_SIZE};
use vproxy::datagram::{encode_datagram_capsule, encode_target_datagram, usable_udp_payload};
use vproxy::request::{requested_target, uses_capsule_protocol, RequestHead};
use vproxy::setup::{RequestAction, RequestEvent, RequestState};
use vproxy::varint::decode_varint;

fn head(request: &Request<()>) -> RequestHead {
    RequestHead {
        method: request.method().as_str().to_owned(),
        protocol: request
            .extensions()
            .get::<Protocol>()
            .map(|protocol| protocol.as_str().to_owned()),
        scheme: request.uri().scheme_str().map(str::to_owned),
        authority: request
            .uri()
            .authority()
            .map(|authority| authority.as_str().to_owned()),
        path: request.uri().path().to_owned(),
        query: request.uri().query().map(str::to_owned),
        headers: request.headers().clone(),
    }
}

fn connect_udp_request() -> http::request::Builder {
    Request::builder()
        .method(http::Method::CONNECT)
        .uri("https://proxy.example/.well-known/masque/udp/target.example/443/")
        .extension(Protocol::CONNECT_UDP)
        .header("capsule-protocol", "?1")
}

fn authorized(credentials: &str) -> RequestHead {
    let credentials = base64::engine::general_purpose::STANDARD.encode(credentials);
    let request = Request::builder()
        .header(PROXY_AUTHORIZATION, format!("Basic {credentials}"))
        .body(())
        .expect("valid request");
    head(&request)
}

fn user_and_password() -> AuthMode {
    AuthMode {
        username: Some("user".to_owned()),
        password: Some("password".to_owned()),
    }
}

#[test]
fn authentication_preserves_username_session_extension() {
    match authenticate(
        &user_and_password(),
        &authorized("user-session-client-a:password"),
    ) {
        Authentication::Granted {
            username,
            presented,
        } => {
            assert_eq!(username, "user");
            assert_eq!(presented, "user-session-client-a");
        }
        _ => panic!("the credentials are right"),
    }
}

#[test]
fn authentication_rejects_an_invalid_password() {
    assert!(matches!(
        authenticate(&user_and_password(), &authorized("user:wrong")),
        Authentication::Refused
    ));
}

#[test]
fn connect_udp_requires_the_https_scheme() {
    let request = Request::builder()
        .method(http::Method::CONNECT)
        .uri("quic://proxy.example/.well-known/masque/udp/target.example/443/")
        .extension(Protocol::CONNECT_UDP)
        .header("capsule-protocol", "?1")
        .body(())
        .expect("valid HTTP request");
    assert!(requested_target(&head(&request)).is_none());
}

#[test]
fn connect_udp_rejects_http_content_fields() {
    for name in [CONTENT_LENGTH, CONTENT_TYPE, TRANSFER_ENCODING] {
        let request = connect_udp_request()
            .header(name, "0")
            .body(())
            .expect("valid HTTP request");
        assert!(requested_target(&head(&request)).is_none());
    }
}

#[test]
fn connect_udp_names_its_target() {
    let request = connect_udp_request().body(()).expect("valid HTTP request");
    assert_eq!(
        requested_target(&head(&request)),
        Some(("target.example".to_owned(), 443))
    );
}

#[test]
fn capsule_decoder_handles_fragmentation_and_skips_unknown_types() {
    let mut encoded = BytesMut::new();
    encoded.extend_from_slice(&[0x17, 3, 1, 2, 3]);
    encoded.extend_from_slice(&[DATAGRAM_CAPSULE_TYPE as u8, 4, 0]);
    encoded.extend_from_slice(b"udp");

    let mut decoder = CapsuleDecoder::default();
    let mut datagrams = Vec::new();
    for byte in encoded {
        datagrams.extend(decoder.push(&[byte]).expect("valid capsule byte"));
    }
    decoder.finish().expect("complete capsule stream");
    assert_eq!(datagrams, vec![Bytes::from_static(b"\0udp")]);
}

#[test]
fn capsule_decoder_rejects_a_truncated_capsule() {
    let mut decoder = CapsuleDecoder::default();
    assert!(decoder
        .push(&[0, 4, 0, 1])
        .expect("valid prefix")
        .is_empty());
    assert!(decoder.finish().is_err());
}

#[test]
fn datagram_capsule_encodes_zero_context() {
    assert_eq!(
        encode_datagram_capsule(b"udp")
            .expect("valid capsule")
            .as_ref(),
        b"\0\x04\0udp"
    );
}

#[test]
fn target_datagram_uses_quarter_stream_id_and_zero_context() {
    let datagram = encode_target_datagram(4, b"payload").expect("valid datagram");
    assert_eq!(datagram.as_ref(), b"\x01\x00payload");
}

#[test]
fn decodes_context_varint_without_panicking_on_truncation() {
    assert_eq!(decode_varint(&[]), None);
    assert_eq!(decode_varint(&[0x40]), None);
    assert_eq!(decode_varint(&[0, 1]), Some((0, &[1][..])));
}

#[test]
fn capsule_protocol_accepts_boolean_parameters_but_not_lists() {
    let request = Request::builder()
        .header("capsule-protocol", "?1; version=1")
        .body(())
        .expect("valid request");
    assert!(uses_capsule_protocol(&head(&request)));

    let request = Request::builder()
        .header("capsule-protocol", "?1, ?1")
        .body(())
        .expect("valid request");
    assert!(!uses_capsule_protocol(&head(&request)));
}

#[test]
fn capsule_protocol_rejects_false_and_malformed_items() {
    for value in ["?0", "1", "?1;", "?1;==="] {
        let request = Request::builder()
            .header("capsule-protocol", value)
            .body(())
            .expect("valid request");
        assert!(!uses_capsule_protocol(&head(&request)), "{value}");
    }
}

fn waiting_for_a_permit() -> RequestState {
    RequestState::Admission {
        host: "target.example".to_owned(),
        port: 443,
    }
}

#[test]
fn tunnel_limit_counts_streams_instead_of_quic_connections() {
    let limit = Arc::new(Semaphore::new(1));
    let permit = limit
        .clone()
        .try_acquire_owned()
        .expect("first tunnel is admitted");
    let refused = limit.clone().try_acquire_owned();
    assert!(refused.is_err());
    let (_, action) = waiting_for_a_permit().advance(RequestEvent::Permit {
        granted: refused.is_ok(),
    });
    assert!(matches!(action, RequestAction::Respond { head, .. } if head.status == 503));
    drop(permit);
    let granted = limit.try_acquire_owned();
    assert!(granted.is_ok());
    let (_, action) = waiting_for_a_permit().advance(RequestEvent::Permit {
        granted: granted.is_ok(),
    });
    assert!(matches!(action, RequestAction::Lookup { .. }));
}

#[test]
fn drops_udp_payloads_above_the_proxy_limit() {
    let payload = [0; MAX_UDP_RELAY_PAYLOAD_SIZE + 1];
    assert_eq!(
        usable_udp_payload(&payload, MAX_UDP_RELAY_PAYLOAD_SIZE)
            .expect("payload at the limit is accepted")
            .len(),
        MAX_UDP_RELAY_PAYLOAD_SIZE
    );
    assert!(usable_udp_payload(&payload, MAX_UDP_RELAY_PAYLOAD_SIZE + 1).is_none());
}
