//! From a request to an open tunnel: one permit, one name lookup, one socket.
//!
//! The steps that wait for the outside world are taken by the caller, who reports how each
//! one ended.

use crate::error::IoErrorKind;
use crate::relay::RelayEvent;
use crate::request::{requested_target, RequestHead};
use crate::response::{reject_proxy_error, reject_request, ProxyError, Rejection, ResponseHead};
use crate::{outside, relay};
use vstd::prelude::*;

verus! {

/// How far a request has come.
pub enum RequestState {
    /// It waits for a permit under the limit on tunnels.
    Admission { host: String, port: u16 },
    /// It waits for the addresses of its target.
    Lookup { host: String, port: u16 },
    /// It waits for a socket that is connected to its target.
    Connection { host: String, port: u16 },
    /// It has been answered or handed over to its tunnel.
    Finished,
}

/// How a step ended.
pub enum RequestEvent {
    /// A permit was asked for.
    Permit { granted: bool },
    /// The name lookup took too long.
    LookupTimedOut,
    /// The name lookup failed.
    LookupFailed,
    /// The name lookup found this many addresses.
    Addresses { count: usize },
    /// Connecting took too long.
    ConnectTimedOut,
    /// Connecting failed.
    ConnectFailed { error: std::io::Error },
    /// The socket is connected.
    Connected,
}

/// What to do next about a request.
pub enum RequestAction {
    /// Answer it and finish the stream. Then, whether that succeeded or not, give its permit
    /// back if `release` says so, and return.
    Respond { head: ResponseHead, release: bool },
    /// Ask for a permit, without waiting for one.
    AcquirePermit,
    /// Look up the host's addresses.
    Lookup { host: String, port: u16 },
    /// Connect a UDP socket to one of the addresses.
    Connect { host: String },
    /// Run the tunnel, which takes the permit over.
    RunTunnel,
}

/// How far a request has come.
pub enum RequestStateView {
    Admission { host: Seq<char>, port: u16 },
    Lookup { host: Seq<char>, port: u16 },
    Connection { host: Seq<char>, port: u16 },
    Finished,
}

/// What to do next about a request.
pub enum RequestStep {
    Reject { reason: Rejection, release: bool },
    AcquirePermit,
    Lookup { host: Seq<char>, port: u16 },
    Connect { host: Seq<char> },
    RunTunnel,
}

impl View for RequestState {
    type V = RequestStateView;

    open spec fn view(&self) -> RequestStateView {
        match self {
            RequestState::Admission { host, port } => RequestStateView::Admission {
                host: host@,
                port: *port,
            },
            RequestState::Lookup { host, port } => RequestStateView::Lookup {
                host: host@,
                port: *port,
            },
            RequestState::Connection { host, port } => RequestStateView::Connection {
                host: host@,
                port: *port,
            },
            RequestState::Finished => RequestStateView::Finished,
        }
    }
}

impl RequestAction {
    /// Whether the action takes the step.
    pub open spec fn takes(&self, step: RequestStep) -> bool {
        match step {
            RequestStep::Reject { reason, release } => {
                self matches RequestAction::Respond { head, release: given_back } && head.answers(
                    reason,
                ) && given_back == release
            },
            RequestStep::AcquirePermit => self is AcquirePermit,
            RequestStep::Lookup { host, port } => self matches RequestAction::Lookup {
                host: named,
                port: numbered,
            } && named@ == host && numbered == port,
            RequestStep::Connect { host } => self matches RequestAction::Connect { host: named }
                && named@ == host,
            RequestStep::RunTunnel => self is RunTunnel,
        }
    }
}

impl RequestEvent {
    /// Whether the event can end the step that a request waits for.
    pub open spec fn ends(&self, state: RequestStateView) -> bool {
        match state {
            RequestStateView::Admission { .. } => self is Permit,
            RequestStateView::Lookup { .. } => self is LookupTimedOut || self is LookupFailed
                || self is Addresses,
            RequestStateView::Connection { .. } => self is ConnectTimedOut || self is ConnectFailed
                || self is Connected,
            RequestStateView::Finished => false,
        }
    }
}

impl RequestStateView {
    /// Whether a request at this point holds a permit.
    pub open spec fn holds_permit(self) -> bool {
        self is Lookup || self is Connection
    }
}

/// What is done about a request that asks for `target`, or for nothing proper.
pub open spec fn first_step(target: Option<(Seq<char>, u16)>) -> (RequestStateView, RequestStep) {
    match target {
        None => (
            RequestStateView::Finished,
            RequestStep::Reject { reason: Rejection::Request, release: false },
        ),
        Some((host, port)) => (
            RequestStateView::Admission { host, port },
            RequestStep::AcquirePermit,
        ),
    }
}

/// What is done about a request when the step that it waits for has ended.
pub open spec fn next_step(state: RequestStateView, event: RequestEvent) -> (
    RequestStateView,
    RequestStep,
) {
    let reject = |error: ProxyError|
        (
            RequestStateView::Finished,
            RequestStep::Reject {
                reason: Rejection::Target(error),
                release: state.holds_permit(),
            },
        );
    match (state, event) {
        (RequestStateView::Admission { host, port }, RequestEvent::Permit { granted }) => {
            if granted {
                (RequestStateView::Lookup { host, port }, RequestStep::Lookup { host, port })
            } else {
                reject(ProxyError::ConnectionLimitReached)
            }
        },
        (RequestStateView::Lookup { host, port }, RequestEvent::Addresses { count }) => if count
            > 0 {
            (RequestStateView::Connection { host, port }, RequestStep::Connect { host })
        } else {
            reject(ProxyError::DnsError)
        },
        (_, RequestEvent::LookupTimedOut) => reject(ProxyError::DnsTimeout),
        (_, RequestEvent::LookupFailed) => reject(ProxyError::DnsError),
        (_, RequestEvent::ConnectTimedOut) => reject(ProxyError::ConnectionTimeout),
        (_, RequestEvent::ConnectFailed { error }) => reject(
            ProxyError::of_kind(outside::io_error_kind(error)),
        ),
        _ => (RequestStateView::Finished, RequestStep::RunTunnel),
    }
}

fn refuse(error: ProxyError, release: bool) -> (res: (RequestState, RequestAction))
    ensures
        res.0@ == RequestStateView::Finished,
        res.1.takes(RequestStep::Reject { reason: Rejection::Target(error), release }),
{
    (
        RequestState::Finished,
        RequestAction::Respond { head: reject_proxy_error(error), release },
    )
}

/// Starts on a request whose client may open tunnels.
pub fn handle_request(request: &RequestHead) -> (res: (RequestState, RequestAction))
    ensures
        res.0@ == first_step(request.target()).0,
        res.1.takes(first_step(request.target()).1),
{
    match requested_target(request) {
        None => (
            RequestState::Finished,
            RequestAction::Respond { head: reject_request(), release: false },
        ),
        Some((host, port)) => (
            RequestState::Admission { host, port },
            RequestAction::AcquirePermit,
        ),
    }
}

impl RequestState {
    /// Goes on with a request when the step that it waits for has ended.
    pub fn advance(self, event: RequestEvent) -> (res: (RequestState, RequestAction))
        requires
            event.ends(self@),
        ensures
            res.0@ == next_step(self@, event).0,
            res.1.takes(next_step(self@, event).1),
    {
        match (self, event) {
            (RequestState::Admission { host, port }, RequestEvent::Permit { granted }) => {
                if granted {
                    (
                        RequestState::Lookup { host: host.clone(), port },
                        RequestAction::Lookup { host, port },
                    )
                } else {
                    refuse(ProxyError::ConnectionLimitReached, false)
                }
            },
            (RequestState::Lookup { host, port }, RequestEvent::Addresses { count }) => {
                if count > 0 {
                    (
                        RequestState::Connection { host: host.clone(), port },
                        RequestAction::Connect { host },
                    )
                } else {
                    refuse(ProxyError::DnsError, true)
                }
            },
            (_, RequestEvent::LookupTimedOut) => refuse(ProxyError::DnsTimeout, true),
            (_, RequestEvent::LookupFailed) => refuse(ProxyError::DnsError, true),
            (_, RequestEvent::ConnectTimedOut) => refuse(ProxyError::ConnectionTimeout, true),
            (_, RequestEvent::ConnectFailed { error }) => {
                refuse(ProxyError::from_io(&error), true)
            },
            _ => (RequestState::Finished, RequestAction::RunTunnel),
        }
    }
}

/// How far a request for `target` has come after `events`, and what is done about it then.
pub open spec fn progress(target: Option<(Seq<char>, u16)>, events: Seq<RequestEvent>) -> (
    RequestStateView,
    RequestStep,
)
    decreases events.len(),
{
    if events.len() == 0 {
        first_step(target)
    } else {
        next_step(progress(target, events.drop_last()).0, events.last())
    }
}

/// Whether each of `events` ends the step that a request for `target` waits for at that point.
pub open spec fn in_order(target: Option<(Seq<char>, u16)>, events: Seq<RequestEvent>) -> bool
    decreases events.len(),
{
    events.len() == 0 || in_order(target, events.drop_last()) && events.last().ends(
        progress(target, events.drop_last()).0,
    )
}

/// A tunnel runs if and only if the request asks for one properly, a permit is granted, the
/// host has an address and the socket is connected, in this order.
pub proof fn tunnels_need_every_step(target: Option<(Seq<char>, u16)>, events: Seq<RequestEvent>)
    requires
        in_order(target, events),
    ensures
        progress(target, events).1 is RunTunnel <==> {
            &&& target is Some
            &&& events.len() == 3
            &&& events[0] matches RequestEvent::Permit { granted } && granted
            &&& events[1] matches RequestEvent::Addresses { count } && count > 0
            &&& events[2] is Connected
        },
{
    lemma_progress(target, events);
    reveal_with_fuel(progress, 4);
    reveal_with_fuel(in_order, 4);
}

/// A request is answered or handed to a tunnel after three steps at the most, and then only.
pub proof fn requests_come_to_an_end(target: Option<(Seq<char>, u16)>, events: Seq<RequestEvent>)
    requires
        in_order(target, events),
    ensures
        events.len() <= 3,
        progress(target, events).0 is Finished <==> (progress(target, events).1 is RunTunnel
            || progress(target, events).1 is Reject),
        events.len() == 3 ==> progress(target, events).0 is Finished,
{
    lemma_progress(target, events);
}

proof fn lemma_progress(target: Option<(Seq<char>, u16)>, events: Seq<RequestEvent>)
    requires
        in_order(target, events),
    ensures
        match progress(target, events) {
            (RequestStateView::Admission { .. }, step) => events.len() == 0 && step
                is AcquirePermit,
            (RequestStateView::Lookup { .. }, step) => events.len() == 1 && step is Lookup,
            (RequestStateView::Connection { .. }, step) => events.len() == 2 && step is Connect,
            (RequestStateView::Finished, step) => events.len() <= 3 && (step is RunTunnel || step
                is Reject) && (step is RunTunnel ==> events.len() == 3),
        },
    decreases events.len(),
{
    if events.len() > 0 {
        lemma_progress(target, events.drop_last());
    }
}

/// The limit on tunnels refuses a request exactly when its permit is not granted, before any
/// name is looked up.
pub proof fn the_limit_comes_first(host: Seq<char>, port: u16, event: RequestEvent)
    requires
        event.ends(RequestStateView::Admission { host, port }),
    ensures
        event == (RequestEvent::Permit { granted: false }) <==> next_step(
            RequestStateView::Admission { host, port },
            event,
        ).1 == (RequestStep::Reject {
            reason: Rejection::Target(ProxyError::ConnectionLimitReached),
            release: false,
        }),
        event == (RequestEvent::Permit { granted: true }) <==> next_step(
            RequestStateView::Admission { host, port },
            event,
        ).1 == (RequestStep::Lookup { host, port }),
{
}

/// How many permits are free after `events` have happened to a request for `target`, where
/// `free` were free before it and nobody else takes or gives back any: one is taken when it is
/// granted, and one is given back when the request is answered and asked to.
pub open spec fn free_permits(
    free: int,
    target: Option<(Seq<char>, u16)>,
    events: Seq<RequestEvent>,
) -> int
    decreases events.len(),
{
    if events.len() == 0 {
        free
    } else {
        let taken: int = if events.last() == (RequestEvent::Permit { granted: true }) {
            1
        } else {
            0
        };
        let given_back: int = match progress(target, events).1 {
            RequestStep::Reject { release, .. } => if release {
                1
            } else {
                0
            },
            _ => 0,
        };
        free_permits(free, target, events.drop_last()) - taken + given_back
    }
}

/// From the moment that its permit is granted, a request holds exactly that one permit, until
/// it is answered, whatever the reason, and then it holds none; or until its tunnel takes the
/// permit over.
pub proof fn admitted_requests_hold_one_permit(
    free: int,
    target: Option<(Seq<char>, u16)>,
    events: Seq<RequestEvent>,
)
    requires
        in_order(target, events),
    ensures
        ({
            let (state, step) = progress(target, events);
            let granted = events.len() > 0 && events[0] == (RequestEvent::Permit { granted: true });
            let left = free_permits(free, target, events);
            &&& step is Reject ==> left == free
            &&& !(step is Reject) && granted ==> left == free - 1
            &&& !granted ==> left == free
            &&& step is RunTunnel ==> granted
            &&& state.holds_permit() ==> granted && !(step is Reject)
            &&& state is Finished || state is Admission || state.holds_permit()
        }),
    decreases events.len(),
{
    if events.len() > 0 {
        let before = events.drop_last();
        admitted_requests_hold_one_permit(free, target, before);
        lemma_progress(target, before);
        assert(events.len() > 1 ==> before[0] == events[0]);
        assert(events.len() == 1 ==> events.last() == events[0]);
    }
}

/// Every request that comes to its end gives back the permit that it was granted: one that is
/// answered at that point, and one whose tunnel runs when the tunnel returns. As many permits
/// are free then as before it, so that the next one can be admitted.
pub proof fn every_request_gives_its_permit_back<S>(
    free: int,
    target: Option<(Seq<char>, u16)>,
    events: Seq<RequestEvent>,
    table: Map<u64, S>,
    stream_id: u64,
    session: S,
    relay_events: Seq<RelayEvent>,
)
    requires
        in_order(target, events),
        progress(target, events).0 is Finished,
        progress(target, events).1 is RunTunnel ==> relay::relay_in_order(relay_events)
            && relay::relay_after(relay_events).0 is Returned,
    ensures
        ({
            let left = free_permits(free, target, events);
            let held = relay::relay_effect(table, stream_id, session, relay_events).permit;
            match progress(target, events).1 {
                RequestStep::RunTunnel => left + 1 == free && !held,
                _ => left == free,
            }
        }),
{
    admitted_requests_hold_one_permit(free, target, events);
    requests_come_to_an_end(target, events);
    if progress(target, events).1 is RunTunnel {
        relay::tunnels_give_everything_back(table, stream_id, session, relay_events);
    }
}

/// Whether a request is refused with this status and this name, and its permit given back or
/// not.
pub open spec fn is_refused(
    res: (RequestState, RequestAction),
    status: u16,
    token: Seq<char>,
    release: bool,
) -> bool {
    &&& res.0 is Finished
    &&& res.1 matches RequestAction::Respond { head, release: given_back }
    &&& given_back == release
    &&& head.status == status
    &&& head.field matches Some((name, value))
    &&& name@ == "proxy-status"@
    &&& value@ == "vproxy; error="@ + token
}

/// A request that names a target waits for its permit, and keeps the target; any other is a bad
/// request.
pub proof fn requests_start_with_their_target(
    request: RequestHead,
    res: (RequestState, RequestAction),
)
    requires
        res.0@ == first_step(request.target()).0,
        res.1.takes(first_step(request.target()).1),
    ensures
        match request.target() {
            Some((host, port)) => {
                &&& res.0 matches RequestState::Admission { host: named, port: number }
                &&& named@ == host && number == port
                &&& res.1 is AcquirePermit
            },
            None => {
                &&& res.0 is Finished
                &&& res.1 matches RequestAction::Respond { head, release }
                &&& !release && head.status == 400 && head.field is None
            },
        },
{
}

/// The host that is looked up and connected to is the host that was asked for, with its port;
/// every step that fails is answered by its own status and name; and a connected socket is all
/// that a tunnel waits for.
pub proof fn requests_keep_their_target(
    state: RequestState,
    event: RequestEvent,
    res: (RequestState, RequestAction),
)
    requires
        res.0@ == next_step(state@, event).0,
        res.1.takes(next_step(state@, event).1),
    ensures
        match (state, event) {
            (RequestState::Admission { host, port }, RequestEvent::Permit { granted }) => {
                if granted {
                    &&& res.0 matches RequestState::Lookup { host: kept, port: number }
                    &&& kept@ == host@ && number == port
                    &&& res.1 matches RequestAction::Lookup { host: named, port: numbered }
                    &&& named@ == host@ && numbered == port
                } else {
                    is_refused(res, 503, "connection_limit_reached"@, false)
                }
            },
            (RequestState::Lookup { host, port }, RequestEvent::Addresses { count }) => {
                if count > 0 {
                    &&& res.0 matches RequestState::Connection { host: kept, port: number }
                    &&& kept@ == host@ && number == port
                    &&& res.1 matches RequestAction::Connect { host: named }
                    &&& named@ == host@
                } else {
                    is_refused(res, 502, "dns_error"@, true)
                }
            },
            (RequestState::Lookup { .. }, RequestEvent::LookupTimedOut) => is_refused(
                res,
                504,
                "dns_timeout"@,
                true,
            ),
            (RequestState::Lookup { .. }, RequestEvent::LookupFailed) => is_refused(
                res,
                502,
                "dns_error"@,
                true,
            ),
            (RequestState::Connection { .. }, RequestEvent::ConnectTimedOut) => is_refused(
                res,
                504,
                "connection_timeout"@,
                true,
            ),
            (RequestState::Connection { .. }, RequestEvent::ConnectFailed { error }) => {
                let kind = outside::io_error_kind(error);
                if kind == IoErrorKind::AddrNotAvailable || kind == IoErrorKind::HostUnreachable
                    || kind == IoErrorKind::NetworkUnreachable {
                    is_refused(res, 502, "destination_ip_unroutable"@, true)
                } else if kind == IoErrorKind::ConnectionRefused {
                    is_refused(res, 502, "connection_refused"@, true)
                } else if kind == IoErrorKind::TimedOut {
                    is_refused(res, 504, "connection_timeout"@, true)
                } else {
                    is_refused(res, 503, "destination_unavailable"@, true)
                }
            },
            (RequestState::Connection { .. }, RequestEvent::Connected) => res.0 is Finished && res.1
                is RunTunnel,
            _ => true,
        },
{
}

/// Every way in which a step can end is taken.
pub proof fn every_end_of_a_step_is_taken(state: RequestState, event: RequestEvent)
    ensures
        state is Admission && event is Permit ==> event.ends(state@),
        state is Lookup && (event is LookupTimedOut || event is LookupFailed || event
            is Addresses) ==> event.ends(state@),
        state is Connection && (event is ConnectTimedOut || event is ConnectFailed || event
            is Connected) ==> event.ends(state@),
{
}

} // verus!
