//! What requests are answered: the tunnel's opening and the refusals.

use crate::error::IoErrorKind;
use crate::outside;
use crate::outside::error_kind;
use vstd::prelude::*;
use vstd::string::*;

verus! {

/// The head of an HTTP response, which carries one field at most.
pub struct ResponseHead {
    pub status: u16,
    pub field: Option<(String, String)>,
}

impl ResponseHead {
    /// Whether the response is this status with this field.
    pub open spec fn has(&self, status: u16, name: Seq<char>, value: Seq<char>) -> bool {
        &&& self.status == status
        &&& self.field matches Some((field_name, field_value)) && field_name@ == name
            && field_value@ == value
    }
}

/// Why a request is refused.
#[derive(Clone, Copy, Debug, PartialEq, Eq, Structural)]
pub enum Rejection {
    /// The credentials are missing or wrong.
    Credentials,
    /// The request does not ask for a tunnel properly.
    Request,
    /// The target cannot be reached.
    Target(ProxyError),
}

impl ResponseHead {
    /// Whether this is how a request refused for `reason` is answered.
    pub open spec fn answers(&self, reason: Rejection) -> bool {
        match reason {
            Rejection::Credentials => self.has(
                407,
                "proxy-authenticate"@,
                "Basic realm=\"vproxy\", charset=\"UTF-8\""@,
            ),
            Rejection::Request => self.status == 400 && self.field is None,
            Rejection::Target(error) => self.has(
                error.status(),
                "proxy-status"@,
                "vproxy; error="@ + error.token(),
            ),
        }
    }
}

/// Why no tunnel to the target could be opened.
#[derive(Clone, Copy, Debug, PartialEq, Eq, Structural)]
pub enum ProxyError {
    DnsTimeout,
    DnsError,
    DestinationIpUnroutable,
    ConnectionRefused,
    ConnectionTimeout,
    DestinationUnavailable,
    ConnectionLimitReached,
}

impl ProxyError {
    /// The error for a failure to connect to the target.
    pub open spec fn of_kind(kind: IoErrorKind) -> ProxyError {
        match kind {
            IoErrorKind::AddrNotAvailable
            | IoErrorKind::HostUnreachable
            | IoErrorKind::NetworkUnreachable => ProxyError::DestinationIpUnroutable,
            IoErrorKind::ConnectionRefused => ProxyError::ConnectionRefused,
            IoErrorKind::TimedOut => ProxyError::ConnectionTimeout,
            _ => ProxyError::DestinationUnavailable,
        }
    }

    /// The status with which the error is answered.
    pub open spec fn status(self) -> u16 {
        match self {
            ProxyError::DnsTimeout | ProxyError::ConnectionTimeout => 504,
            ProxyError::DnsError
            | ProxyError::DestinationIpUnroutable
            | ProxyError::ConnectionRefused => 502,
            ProxyError::DestinationUnavailable | ProxyError::ConnectionLimitReached => 503,
        }
    }

    /// The error's name in the `Proxy-Status` field.
    pub open spec fn token(self) -> Seq<char> {
        match self {
            ProxyError::DnsTimeout => "dns_timeout"@,
            ProxyError::DnsError => "dns_error"@,
            ProxyError::DestinationIpUnroutable => "destination_ip_unroutable"@,
            ProxyError::ConnectionRefused => "connection_refused"@,
            ProxyError::ConnectionTimeout => "connection_timeout"@,
            ProxyError::DestinationUnavailable => "destination_unavailable"@,
            ProxyError::ConnectionLimitReached => "connection_limit_reached"@,
        }
    }

    /// The error for a failure to connect to the target.
    pub fn from_kind(kind: IoErrorKind) -> (res: ProxyError)
        ensures
            res == ProxyError::of_kind(kind),
    {
        match kind {
            IoErrorKind::AddrNotAvailable
            | IoErrorKind::HostUnreachable
            | IoErrorKind::NetworkUnreachable => ProxyError::DestinationIpUnroutable,
            IoErrorKind::ConnectionRefused => ProxyError::ConnectionRefused,
            IoErrorKind::TimedOut => ProxyError::ConnectionTimeout,
            _ => ProxyError::DestinationUnavailable,
        }
    }

    /// The error for a failure to connect to the target.
    pub fn from_io(error: &std::io::Error) -> (res: ProxyError)
        ensures
            res == ProxyError::of_kind(outside::io_error_kind(*error)),
    {
        ProxyError::from_kind(error_kind(error))
    }

    /// The status and the name with which the error is answered.
    pub fn response(self) -> (res: (u16, &'static str))
        ensures
            res.0 == self.status(),
            res.1@ == self.token(),
    {
        match self {
            ProxyError::DnsTimeout => (504, "dns_timeout"),
            ProxyError::DnsError => (502, "dns_error"),
            ProxyError::DestinationIpUnroutable => (502, "destination_ip_unroutable"),
            ProxyError::ConnectionRefused => (502, "connection_refused"),
            ProxyError::ConnectionTimeout => (504, "connection_timeout"),
            ProxyError::DestinationUnavailable => (503, "destination_unavailable"),
            ProxyError::ConnectionLimitReached => (503, "connection_limit_reached"),
        }
    }
}

/// The answer to a request whose credentials are missing or wrong.
pub fn reject_authentication() -> (res: ResponseHead)
    ensures
        res.answers(Rejection::Credentials),
{
    ResponseHead {
        status: 407,
        field: Some(
            (
                "proxy-authenticate".to_owned(),
                "Basic realm=\"vproxy\", charset=\"UTF-8\"".to_owned(),
            ),
        ),
    }
}

/// The answer to a request that does not ask for a tunnel properly.
pub fn reject_request() -> (res: ResponseHead)
    ensures
        res.answers(Rejection::Request),
{
    ResponseHead { status: 400, field: None }
}

/// The answer to a request whose target cannot be reached.
pub fn reject_proxy_error(error: ProxyError) -> (res: ResponseHead)
    ensures
        res.answers(Rejection::Target(error)),
{
    let (status, token) = error.response();
    let mut value = "vproxy; error=".to_owned();
    value.append(token);
    ResponseHead { status, field: Some(("proxy-status".to_owned(), value)) }
}

/// The answer that opens a tunnel.
pub fn accept_tunnel() -> (res: ResponseHead)
    ensures
        res.has(200, "capsule-protocol"@, "?1"@),
{
    ResponseHead { status: 200, field: Some(("capsule-protocol".to_owned(), "?1".to_owned())) }
}

/// A refused request is always answered with an error status, and why it was refused can be
/// told from the answer.
pub proof fn answers_tell_why(head: ResponseHead, reason: Rejection, other: Rejection)
    requires
        head.answers(reason),
        head.answers(other),
    ensures
        reason == other,
        400 <= head.status <= 504,
{
    if let Rejection::Target(error) = reason {
        if let Rejection::Target(another) = other {
            let prefix = "vproxy; error="@;
            assert((prefix + error.token()).skip(prefix.len() as int) =~= error.token());
            assert((prefix + another.token()).skip(prefix.len() as int) =~= another.token());
            proxy_errors_are_told_apart(error, another);
        }
    }
}

/// Every error is answered with a gateway or an availability status, a timeout with the
/// gateway timeout status alone.
pub proof fn proxy_errors_are_gateway_errors(error: ProxyError)
    ensures
        502 <= error.status() <= 504,
        error.status() == 504 <==> (error == ProxyError::DnsTimeout || error
            == ProxyError::ConnectionTimeout),
{
}

/// Different errors are told apart by their names.
pub proof fn proxy_errors_are_told_apart(error: ProxyError, other: ProxyError)
    requires
        error.token() == other.token(),
    ensures
        error == other,
{
    reveal_strlit("dns_timeout");
    reveal_strlit("dns_error");
    reveal_strlit("destination_ip_unroutable");
    reveal_strlit("connection_refused");
    reveal_strlit("connection_timeout");
    reveal_strlit("destination_unavailable");
    reveal_strlit("connection_limit_reached");
    assert("dns_timeout"@.len() == 11 && "dns_error"@.len() == 9);
    assert("destination_ip_unroutable"@.len() == 25 && "destination_unavailable"@.len() == 23);
    assert("connection_refused"@.len() == 18 && "connection_timeout"@.len() == 18);
    assert("connection_limit_reached"@.len() == 24);
    assert("connection_refused"@[11] == 'r');
    assert("connection_timeout"@[11] == 't');
}

/// What a refusal is answered, in full.
pub proof fn refusals_are_answered_in_full(head: ResponseHead, reason: Rejection)
    requires
        head.answers(reason),
    ensures
        match reason {
            Rejection::Credentials => head.status == 407 && (head.field matches Some((name, value))
                && name@ == "proxy-authenticate"@ && value@
                == "Basic realm=\"vproxy\", charset=\"UTF-8\""@),
            Rejection::Request => head.status == 400 && head.field is None,
            Rejection::Target(error) => {
                &&& head.status == error.status()
                &&& head.field matches Some((name, value)) && name@ == "proxy-status"@ && value@
                    == "vproxy; error="@ + error.token()
            },
        },
{
}

/// The statuses and the names of the errors.
pub proof fn errors_are_named(error: ProxyError)
    ensures
        match error {
            ProxyError::DnsTimeout => error.status() == 504 && error.token() == "dns_timeout"@,
            ProxyError::DnsError => error.status() == 502 && error.token() == "dns_error"@,
            ProxyError::DestinationIpUnroutable => error.status() == 502 && error.token()
                == "destination_ip_unroutable"@,
            ProxyError::ConnectionRefused => error.status() == 502 && error.token()
                == "connection_refused"@,
            ProxyError::ConnectionTimeout => error.status() == 504 && error.token()
                == "connection_timeout"@,
            ProxyError::DestinationUnavailable => error.status() == 503 && error.token()
                == "destination_unavailable"@,
            ProxyError::ConnectionLimitReached => error.status() == 503 && error.token()
                == "connection_limit_reached"@,
        },
{
}

} // verus!
