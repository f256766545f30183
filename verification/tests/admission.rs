//! Credentials, requests, answers and connections on concrete values.

use base64::Engine;
use http::{HeaderMap, HeaderValue};
use std::io::{Error, ErrorKind};
use vproxy::auth::{authenticate, AuthMode, Authentication};
use vproxy::connection::{ConnectionAction, ConnectionEvent, ConnectionState};
use vproxy::error::IoErrorKind;
use vproxy::outside::ItemValue;
use vproxy::request::{
    connect_udp_target, is_true, requested_target, uses_capsule_protocol, RequestHead,
};
use vproxy::response::{
    accept_tunnel, reject_authentication, reject_proxy_error, reject_request, ProxyError,
    ResponseHead,
};
use vproxy::setup::{handle_request, RequestAction, RequestEvent, RequestState};

fn request(path: &str) -> RequestHead {
    let mut headers = HeaderMap::new();
    headers.insert("capsule-protocol", HeaderValue::from_static("?1"));
    RequestHead {
        method: "CONNECT".to_owned(),
        protocol: Some("connect-udp".to_owned()),
        scheme: Some("https".to_owned()),
        authority: Some("proxy.example".to_owned()),
        path: path.to_owned(),
        query: None,
        headers,
    }
}

fn proper() -> RequestHead {
    request("/.well-known/masque/udp/target.example/443/")
}

fn target_of(path: &str) -> Option<(String, u16)> {
    requested_target(&request(path))
}

fn mode(username: &str, password: &str) -> AuthMode {
    AuthMode {
        username: Some(username.to_owned()),
        password: Some(password.to_owned()),
    }
}

fn open_mode() -> AuthMode {
    AuthMode {
        username: None,
        password: None,
    }
}

fn with_credentials(credentials: &[u8]) -> RequestHead {
    let encoded = base64::engine::general_purpose::STANDARD.encode(credentials);
    with_authorization(format!("Basic {encoded}").as_bytes())
}

fn with_authorization(value: &[u8]) -> RequestHead {
    let mut head = proper();
    head.headers.insert(
        "proxy-authorization",
        HeaderValue::from_bytes(value).expect("valid field value"),
    );
    head
}

fn granted(mode: &AuthMode, head: &RequestHead) -> Option<(String, String)> {
    match authenticate(mode, head) {
        Authentication::Granted {
            username,
            presented,
        } => Some((username, presented)),
        _ => None,
    }
}

fn refused(mode: &AuthMode, head: &RequestHead) -> bool {
    matches!(authenticate(mode, head), Authentication::Refused)
}

#[test]
fn nobody_is_asked_unless_both_credentials_are_set() {
    let name_only = AuthMode {
        username: Some("user".to_owned()),
        password: None,
    };
    let password_only = AuthMode {
        username: None,
        password: Some("password".to_owned()),
    };
    for open in [open_mode(), name_only, password_only] {
        for head in [proper(), with_credentials(b"who:ever")] {
            assert!(matches!(authenticate(&open, &head), Authentication::Open));
        }
    }
}

#[test]
fn right_credentials_let_in() {
    let configured = mode("user", "password");
    assert_eq!(
        granted(&configured, &with_credentials(b"user:password")),
        Some(("user".to_owned(), "user".to_owned()))
    );
    assert_eq!(
        granted(&configured, &with_credentials(b"user-a:b:password")),
        Some(("user".to_owned(), "user-a:b".to_owned()))
    );
}

#[test]
fn wrong_credentials_are_refused() {
    let configured = mode("user", "password");
    assert!(refused(&configured, &proper()));
    for credentials in [
        &b"user:passwor"[..],
        b"user:password ",
        b"use:password",
        b"other:password",
        b"user",
        b"",
        b":password",
    ] {
        assert!(refused(&configured, &with_credentials(credentials)));
    }
}

#[test]
fn unreadable_credentials_are_refused() {
    let configured = mode("user", "password");
    assert!(granted(
        &configured,
        &with_authorization(b"Basic dXNlcjpwYXNzd29yZA==")
    )
    .is_some());
    for value in [
        &b"basic dXNlcjpwYXNzd29yZA=="[..],
        b"Bearer dXNlcjpwYXNzd29yZA==",
        b"Basic",
        b"Basic dXNlcjpwYXNzd29yZA",
        b"Basic ????",
        b"Basic user:password",
        b"Basic dXNlcjpwYXNzd29yZA==\xff",
    ] {
        assert!(refused(&configured, &with_authorization(value)));
    }
    assert!(refused(&configured, &with_credentials(b"user\xff:password")));
}

#[test]
fn only_the_first_authorization_counts() {
    let configured = mode("user", "password");
    let mut head = with_credentials(b"user:wrong");
    head.headers.append(
        "proxy-authorization",
        HeaderValue::from_static("Basic dXNlcjpwYXNzd29yZA=="),
    );
    assert!(refused(&configured, &head));
    let mut head = with_credentials(b"user:password");
    head.headers.append(
        "proxy-authorization",
        HeaderValue::from_static("Basic ????"),
    );
    assert!(granted(&configured, &head).is_some());
}

#[test]
fn a_password_with_a_colon_refuses_even_itself() {
    let configured = mode("user", "pass:word");
    assert!(refused(&configured, &with_credentials(b"user:pass:word")));
    assert!(refused(&configured, &with_credentials(b"user:word")));
}

#[test]
fn an_empty_password_is_a_password() {
    assert_eq!(
        granted(&mode("user", ""), &with_credentials(b"user:")),
        Some(("user".to_owned(), "user".to_owned()))
    );
    assert!(refused(&mode("user", ""), &with_credentials(b"user")));
}

#[test]
fn escaped_hosts_are_decoded() {
    assert_eq!(
        target_of("/.well-known/masque/udp/2001%3Adb8%3a%3A1/443/"),
        Some(("2001:db8::1".to_owned(), 443))
    );
    assert_eq!(
        target_of("/.well-known/masque/udp/%C3%A9/1/"),
        Some(("\u{e9}".to_owned(), 1))
    );
}

#[test]
fn hosts_may_not_hold_a_percent_sign() {
    for host in ["%25", "fe80%3A%3A1%25eth0", "100%", "%2", "%zz"] {
        assert_eq!(
            target_of(&format!("/.well-known/masque/udp/{host}/443/")),
            None
        );
    }
}

#[test]
fn hosts_have_to_be_utf8() {
    assert_eq!(target_of("/.well-known/masque/udp/%FF/443/"), None);
    assert_eq!(target_of("/.well-known/masque/udp/%C3/443/"), None);
}

#[test]
fn the_host_ends_at_the_last_slash_before_the_port() {
    assert_eq!(
        target_of("/.well-known/masque/udp/a/b/443/"),
        Some(("a/b".to_owned(), 443))
    );
    assert_eq!(
        target_of("/.well-known/masque/udp/a%2Fb/443/"),
        Some(("a/b".to_owned(), 443))
    );
}

#[test]
fn improper_paths_name_no_target() {
    for path in [
        "",
        "/",
        "/.well-known/masque/udp/",
        "/.well-known/masque/udp/443/",
        "/.well-known/masque/udp//443/",
        "/.well-known/masque/udp/target.example/443",
        "/.well-known/masque/udp/target.example//",
        "/.well-known/masque/udp/target.example/443//",
        "/.well-known/masque/tcp/target.example/443/",
        "/masque/udp/target.example/443/",
        "x/.well-known/masque/udp/target.example/443/",
    ] {
        assert_eq!(target_of(path), None, "{path}");
    }
}

#[test]
fn ports_are_numbers_from_one_to_65535() {
    let port_of = |port: &str| {
        target_of(&format!("/.well-known/masque/udp/h/{port}/")).map(|(_, port)| port)
    };
    assert_eq!(port_of("1"), Some(1));
    assert_eq!(port_of("65535"), Some(65_535));
    assert_eq!(port_of("00443"), Some(443));
    assert_eq!(port_of("+443"), Some(443));
    for port in ["0", "00", "65536", "-1", "+", "++1", "4a", " 443", "", "%34", "443.0"] {
        assert_eq!(port_of(port), None, "{port}");
    }
}

#[test]
fn every_part_of_a_request_matters() {
    assert!(requested_target(&proper()).is_some());

    let mut head = proper();
    head.method = "GET".to_owned();
    assert!(requested_target(&head).is_none());

    for protocol in [None, Some("connect-ip".to_owned()), Some(String::new())] {
        let mut head = proper();
        head.protocol = protocol;
        assert!(requested_target(&head).is_none());
    }

    for scheme in [None, Some("http".to_owned()), Some("HTTPS".to_owned())] {
        let mut head = proper();
        head.scheme = scheme;
        assert!(requested_target(&head).is_none());
    }

    let mut head = proper();
    head.authority = None;
    assert!(requested_target(&head).is_none());

    let mut head = proper();
    head.query = Some(String::new());
    assert!(requested_target(&head).is_none());

    let mut head = proper();
    head.headers.clear();
    assert!(requested_target(&head).is_none());
}

#[test]
fn the_fields_decide_only_by_content_and_capsules() {
    let target = Some(("target.example".to_owned(), 443));
    assert_eq!(connect_udp_target(&proper(), false, true), target);
    assert_eq!(connect_udp_target(&proper(), true, true), None);
    assert_eq!(connect_udp_target(&proper(), false, false), None);
    assert_eq!(connect_udp_target(&proper(), true, false), None);
}

#[test]
fn other_fields_do_not_matter() {
    let mut head = proper();
    head.headers
        .insert("user-agent", HeaderValue::from_bytes(b"\xff").expect("valid field value"));
    assert!(requested_target(&head).is_some());
}

#[test]
fn exactly_one_capsule_protocol_field_is_taken() {
    let mut head = proper();
    assert!(uses_capsule_protocol(&head));
    head.headers
        .append("capsule-protocol", HeaderValue::from_static("?1"));
    assert!(!uses_capsule_protocol(&head));
    head.headers.remove("capsule-protocol");
    assert!(!uses_capsule_protocol(&head));
    head.headers.insert(
        "capsule-protocol",
        HeaderValue::from_bytes(b"?1;a=\"\xff\"").expect("valid field value"),
    );
    assert!(!uses_capsule_protocol(&head));
}

#[test]
fn only_the_boolean_true_is_true() {
    for value in ["?1;a;b=2", " ?1 "] {
        let mut head = proper();
        head.headers
            .insert("capsule-protocol", HeaderValue::from_static(value));
        assert!(uses_capsule_protocol(&head), "{value}");
    }
    for value in ["true", "\"?1\"", "1", "1.0", ":AQ==:", "@1", "?2", ""] {
        let mut head = proper();
        head.headers
            .insert("capsule-protocol", HeaderValue::from_static(value));
        assert!(!uses_capsule_protocol(&head), "{value}");
    }
    assert!(is_true(Some(ItemValue::Boolean(true))));
    for item in [
        None,
        Some(ItemValue::Boolean(false)),
        Some(ItemValue::Integer),
        Some(ItemValue::Token),
    ] {
        assert!(!is_true(item));
    }
}

fn parts(head: &ResponseHead) -> (u16, Option<(&str, &str)>) {
    (
        head.status,
        head.field
            .as_ref()
            .map(|(name, value)| (name.as_str(), value.as_str())),
    )
}

#[test]
fn requests_are_answered() {
    assert_eq!(
        parts(&reject_authentication()),
        (
            407,
            Some((
                "proxy-authenticate",
                r#"Basic realm="vproxy", charset="UTF-8""#
            ))
        )
    );
    assert_eq!(parts(&reject_request()), (400, None));
    assert_eq!(
        parts(&accept_tunnel()),
        (200, Some(("capsule-protocol", "?1")))
    );
    assert_eq!(
        parts(&reject_proxy_error(ProxyError::DnsError)),
        (502, Some(("proxy-status", "vproxy; error=dns_error")))
    );
}

#[test]
fn errors_have_their_status_and_name() {
    assert_eq!(ProxyError::DnsTimeout.response(), (504, "dns_timeout"));
    assert_eq!(ProxyError::DnsError.response(), (502, "dns_error"));
    assert_eq!(
        ProxyError::DestinationIpUnroutable.response(),
        (502, "destination_ip_unroutable")
    );
    assert_eq!(
        ProxyError::ConnectionRefused.response(),
        (502, "connection_refused")
    );
    assert_eq!(
        ProxyError::ConnectionTimeout.response(),
        (504, "connection_timeout")
    );
    assert_eq!(
        ProxyError::DestinationUnavailable.response(),
        (503, "destination_unavailable")
    );
    assert_eq!(
        ProxyError::ConnectionLimitReached.response(),
        (503, "connection_limit_reached")
    );
}

#[test]
fn connection_failures_become_proxy_errors() {
    for (kind, error) in [
        (
            ErrorKind::AddrNotAvailable,
            ProxyError::DestinationIpUnroutable,
        ),
        (
            ErrorKind::HostUnreachable,
            ProxyError::DestinationIpUnroutable,
        ),
        (
            ErrorKind::NetworkUnreachable,
            ProxyError::DestinationIpUnroutable,
        ),
        (ErrorKind::ConnectionRefused, ProxyError::ConnectionRefused),
        (ErrorKind::TimedOut, ProxyError::ConnectionTimeout),
        (
            ErrorKind::PermissionDenied,
            ProxyError::DestinationUnavailable,
        ),
        (ErrorKind::InvalidData, ProxyError::DestinationUnavailable),
        (ErrorKind::InvalidInput, ProxyError::DestinationUnavailable),
        (ErrorKind::UnexpectedEof, ProxyError::DestinationUnavailable),
    ] {
        assert_eq!(ProxyError::from_io(&Error::from(kind)), error);
    }
    assert_eq!(
        ProxyError::from_kind(IoErrorKind::TimedOut),
        ProxyError::ConnectionTimeout
    );
    assert_eq!(
        ProxyError::from_kind(IoErrorKind::Other),
        ProxyError::DestinationUnavailable
    );
}

fn answered(action: RequestAction) -> (u16, String, bool) {
    match action {
        RequestAction::Respond { head, release } => {
            let value = head.field.map(|(_, value)| value).unwrap_or_default();
            (head.status, value, release)
        }
        _ => panic!("the request goes on"),
    }
}

fn after_permit() -> RequestState {
    let (state, _) = handle_request(&proper());
    state.advance(RequestEvent::Permit { granted: true }).0
}

fn after_lookup() -> RequestState {
    after_permit().advance(RequestEvent::Addresses { count: 2 }).0
}

#[test]
fn a_request_takes_every_step_to_a_tunnel() {
    let (state, action) = handle_request(&proper());
    assert!(matches!(action, RequestAction::AcquirePermit));
    let (state, action) = state.advance(RequestEvent::Permit { granted: true });
    assert!(
        matches!(action, RequestAction::Lookup { host, port } if host == "target.example" && port == 443)
    );
    let (state, action) = state.advance(RequestEvent::Addresses { count: 1 });
    assert!(matches!(action, RequestAction::Connect { host } if host == "target.example"));
    let (state, action) = state.advance(RequestEvent::Connected);
    assert!(matches!(action, RequestAction::RunTunnel));
    assert!(matches!(state, RequestState::Finished));
}

#[test]
fn improper_requests_are_bad_requests() {
    let (state, action) = handle_request(&request("/"));
    assert!(matches!(state, RequestState::Finished));
    assert_eq!(answered(action), (400, String::new(), false));
}

#[test]
fn the_limit_is_reached_before_any_lookup() {
    let (state, _) = handle_request(&proper());
    let (state, action) = state.advance(RequestEvent::Permit { granted: false });
    assert!(matches!(state, RequestState::Finished));
    assert_eq!(
        answered(action),
        (
            503,
            "vproxy; error=connection_limit_reached".to_owned(),
            false
        )
    );
}

#[test]
fn lookups_may_fail() {
    for (event, status, error) in [
        (RequestEvent::LookupTimedOut, 504, "dns_timeout"),
        (RequestEvent::LookupFailed, 502, "dns_error"),
        (RequestEvent::Addresses { count: 0 }, 502, "dns_error"),
    ] {
        let (state, action) = after_permit().advance(event);
        assert!(matches!(state, RequestState::Finished));
        assert_eq!(
            answered(action),
            (status, format!("vproxy; error={error}"), true)
        );
    }
}

#[test]
fn connecting_may_fail() {
    for (event, status, error) in [
        (RequestEvent::ConnectTimedOut, 504, "connection_timeout"),
        (
            RequestEvent::ConnectFailed {
                error: Error::from(ErrorKind::ConnectionRefused),
            },
            502,
            "connection_refused",
        ),
        (
            RequestEvent::ConnectFailed {
                error: Error::from(ErrorKind::PermissionDenied),
            },
            503,
            "destination_unavailable",
        ),
    ] {
        let (state, action) = after_lookup().advance(event);
        assert!(matches!(state, RequestState::Finished));
        assert_eq!(
            answered(action),
            (status, format!("vproxy; error={error}"), true)
        );
    }
}

#[test]
fn a_connection_is_set_up_in_two_steps() {
    let mode = open_mode();
    let (state, action) = ConnectionState::Handshake.on_event(&mode, ConnectionEvent::SetupDone);
    assert_eq!(state, ConnectionState::Setup);
    assert!(matches!(action, ConnectionAction::SetUpHttp));
    let (state, action) = state.on_event(&mode, ConnectionEvent::SetupDone);
    assert_eq!(state, ConnectionState::Serving);
    assert!(matches!(action, ConnectionAction::Serve));
}

#[test]
fn a_connection_may_fail_or_stop_before_it_serves() {
    let mode = open_mode();
    for state in [ConnectionState::Handshake, ConnectionState::Setup] {
        let (end, action) = state.on_event(&mode, ConnectionEvent::SetupFailed);
        assert_eq!(end, ConnectionState::Closed);
        assert!(matches!(action, ConnectionAction::Return { failed: true }));
        let (end, action) = state.on_event(&mode, ConnectionEvent::Shutdown);
        assert_eq!(end, ConnectionState::Closed);
        assert!(matches!(action, ConnectionAction::Return { failed: false }));
    }
}

#[test]
fn requests_without_credentials_are_challenged() {
    let configured = mode("user", "password");
    let head = proper();
    let (state, action) =
        ConnectionState::Serving.on_event(&configured, ConnectionEvent::Request(&head));
    assert_eq!(state, ConnectionState::Refusing);
    assert!(matches!(action, ConnectionAction::Respond(head) if head.status == 407));
    let (after, action) =
        state.on_event(&configured, ConnectionEvent::RefusalSent { sent: true });
    assert_eq!(after, ConnectionState::Serving);
    assert!(matches!(action, ConnectionAction::Wait));
    let (after, action) =
        state.on_event(&configured, ConnectionEvent::RefusalSent { sent: false });
    assert_eq!(after, ConnectionState::Closed);
    assert!(matches!(
        action,
        ConnectionAction::Close {
            drain: false,
            failed: true
        }
    ));
}

#[test]
fn requests_with_credentials_are_looked_into() {
    let configured = mode("user", "password");
    let head = with_credentials(b"user-more:password");
    let (state, action) =
        ConnectionState::Serving.on_event(&configured, ConnectionEvent::Request(&head));
    assert_eq!(state, ConnectionState::Extending);
    assert!(
        matches!(action, ConnectionAction::Extend { username, presented } if username == "user" && presented == "user-more")
    );
    let (after, action) =
        state.on_event(&configured, ConnectionEvent::Extension { understood: true });
    assert_eq!(after, ConnectionState::Serving);
    assert!(matches!(action, ConnectionAction::Handle));
    let (after, action) =
        state.on_event(&configured, ConnectionEvent::Extension { understood: false });
    assert_eq!(after, ConnectionState::Refusing);
    assert!(matches!(action, ConnectionAction::Respond(head) if head.status == 407));
}

#[test]
fn open_servers_handle_every_request() {
    let head = proper();
    let (state, action) =
        ConnectionState::Serving.on_event(&open_mode(), ConnectionEvent::Request(&head));
    assert_eq!(state, ConnectionState::Serving);
    assert!(matches!(action, ConnectionAction::Handle));
}

#[test]
fn tunnels_drain_only_when_the_server_stops() {
    let mode = open_mode();
    let (state, action) = ConnectionState::Serving.on_event(&mode, ConnectionEvent::Shutdown);
    assert_eq!(state, ConnectionState::GoingAway);
    assert!(matches!(action, ConnectionAction::GoAway));
    for sent in [true, false] {
        let (end, action) = state.on_event(&mode, ConnectionEvent::GoAwaySent { sent });
        assert_eq!(end, ConnectionState::Closed);
        assert!(
            matches!(action, ConnectionAction::Close { drain: true, failed } if failed == !sent)
        );
    }
    for (event, expected) in [
        (ConnectionEvent::RequestsEnded, false),
        (ConnectionEvent::RequestFailed, true),
        (ConnectionEvent::DatagramsEnded { failed: true }, true),
        (ConnectionEvent::DatagramsEnded { failed: false }, false),
    ] {
        let (end, action) = ConnectionState::Serving.on_event(&mode, event);
        assert_eq!(end, ConnectionState::Closed);
        assert!(
            matches!(action, ConnectionAction::Close { drain: false, failed } if failed == expected)
        );
    }
    let (state, action) = ConnectionState::Serving.on_event(&mode, ConnectionEvent::TunnelEnded);
    assert_eq!(state, ConnectionState::Serving);
    assert!(matches!(action, ConnectionAction::Wait));
}

/// What a request leaves of one free permit: taken when granted, given back when asked to.
fn permits_left(events: Vec<RequestEvent>) -> usize {
    let mut free: usize = 1;
    let (mut state, mut action) = handle_request(&proper());
    for event in events {
        if matches!(event, RequestEvent::Permit { granted: true }) {
            free -= 1;
        }
        (state, action) = state.advance(event);
        if let RequestAction::Respond { release: true, .. } = action {
            free += 1;
        }
    }
    assert_eq!(
        matches!(state, RequestState::Finished),
        matches!(
            action,
            RequestAction::Respond { .. } | RequestAction::RunTunnel
        )
    );
    free
}

#[test]
fn refused_requests_give_their_permit_back() {
    let granted = || RequestEvent::Permit { granted: true };
    let found = || RequestEvent::Addresses { count: 1 };
    let failed = || RequestEvent::ConnectFailed {
        error: Error::from(ErrorKind::ConnectionRefused),
    };
    for events in [
        vec![],
        vec![RequestEvent::Permit { granted: false }],
        vec![granted(), RequestEvent::LookupTimedOut],
        vec![granted(), RequestEvent::LookupFailed],
        vec![granted(), RequestEvent::Addresses { count: 0 }],
        vec![granted(), found(), RequestEvent::ConnectTimedOut],
        vec![granted(), found(), failed()],
    ] {
        assert_eq!(permits_left(events), 1);
    }
    for events in [
        vec![granted()],
        vec![granted(), found()],
        vec![granted(), found(), RequestEvent::Connected],
    ] {
        assert_eq!(permits_left(events), 0);
    }
}
