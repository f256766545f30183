//! One client's connection: its handshakes, its requests and its end.
//!
//! The caller waits for events, reports them one at a time and carries out what comes back.

use crate::auth::{authenticate, AuthMode, Authentication, AuthenticationView};
use crate::request::RequestHead;
use crate::response::{reject_authentication, Rejection, ResponseHead};
use crate::{auth, outside};
use vstd::prelude::*;

verus! {

/// Whether clients are told that extended CONNECT is taken.
pub const ENABLE_EXTENDED_CONNECT: bool = true;

/// Whether clients are told that HTTP datagrams are taken.
pub const ENABLE_DATAGRAM: bool = true;

/// How many more requests a client may start once it is told that the server goes away.
pub const REQUESTS_AFTER_GOING_AWAY: usize = 0;

/// The code with which a connection is closed.
pub const CLOSE_CODE: u32 = 0;

/// The reason that is given when a connection is closed.
pub const CLOSE_REASON: &'static str = "proxy connection finished";

/// How far a connection has come.
#[derive(Clone, Copy, Debug, PartialEq, Eq, Structural)]
pub enum ConnectionState {
    /// The QUIC handshake is under way.
    Handshake,
    /// HTTP/3 is being set up.
    Setup,
    /// It takes requests.
    Serving,
    /// The user name of an authenticated request is being looked into.
    Extending,
    /// A refusal is being sent.
    Refusing,
    /// The client is being told that the server goes away.
    GoingAway,
    /// It has come to its end.
    Closed,
}

/// What happened to a connection.
pub enum ConnectionEvent<'a> {
    /// The server is shutting down.
    Shutdown,
    /// A handshake, or the setup of HTTP/3, failed or took too long.
    SetupFailed,
    /// The handshake, or the setup of HTTP/3, is done.
    SetupDone,
    /// The next request could not be taken, or its head failed or took too long.
    RequestFailed,
    /// The client sends no more requests.
    RequestsEnded,
    /// A request arrived.
    Request(&'a RequestHead),
    /// What the user name of an authenticated request asks for was understood or not.
    Extension { understood: bool },
    /// A refusal was sent or not.
    RefusalSent { sent: bool },
    /// The client was told that the server goes away or not.
    GoAwaySent { sent: bool },
    /// The reader of the connection's datagrams ended.
    DatagramsEnded { failed: bool },
    /// A tunnel ended.
    TunnelEnded,
}

/// What to do next about a connection.
pub enum ConnectionAction {
    /// Set HTTP/3 up, with [`ENABLE_EXTENDED_CONNECT`] and [`ENABLE_DATAGRAM`].
    SetUpHttp,
    /// Start the reader of the connection's datagrams, and wait for requests.
    Serve,
    /// Wait for the next event.
    Wait,
    /// Look into what `presented` asks for beyond `username`.
    Extend { username: String, presented: String },
    /// Handle the request with the extension that was found, or with none.
    Handle,
    /// Answer the request and finish its stream.
    Respond(ResponseHead),
    /// Tell the client that the server goes away, and lets it start
    /// [`REQUESTS_AFTER_GOING_AWAY`] more requests.
    GoAway,
    /// Let the tunnels run to their end or cut them off, then close the connection with
    /// [`CLOSE_CODE`] and [`CLOSE_REASON`].
    Close { drain: bool, failed: bool },
    /// Give the connection up.
    Return { failed: bool },
}

/// What to do next about a connection.
pub enum ConnectionStep {
    SetUpHttp,
    Serve,
    Wait,
    Extend { username: Seq<char>, presented: Seq<char> },
    Handle,
    Refuse,
    GoAway,
    Close { drain: bool, failed: bool },
    Return { failed: bool },
}

impl ConnectionAction {
    /// Whether the action takes the step.
    pub open spec fn takes(&self, step: ConnectionStep) -> bool {
        match step {
            ConnectionStep::SetUpHttp => self is SetUpHttp,
            ConnectionStep::Serve => self is Serve,
            ConnectionStep::Wait => self is Wait,
            ConnectionStep::Extend { username, presented } => {
                self matches ConnectionAction::Extend { username: name, presented: whole } && name@
                    == username && whole@ == presented
            },
            ConnectionStep::Handle => self is Handle,
            ConnectionStep::Refuse => self matches ConnectionAction::Respond(head)
                && head.answers(Rejection::Credentials),
            ConnectionStep::GoAway => self is GoAway,
            ConnectionStep::Close { drain, failed } => self == (ConnectionAction::Close {
                drain,
                failed,
            }),
            ConnectionStep::Return { failed } => self == (ConnectionAction::Return { failed }),
        }
    }
}

impl<'a> ConnectionEvent<'a> {
    /// Whether the event can happen to a connection in this state.
    pub open spec fn fits(&self, state: ConnectionState) -> bool {
        match state {
            ConnectionState::Handshake | ConnectionState::Setup => self is Shutdown || self
                is SetupFailed || self is SetupDone,
            ConnectionState::Serving => {
                ||| self is Shutdown
                ||| self is RequestFailed
                ||| self is RequestsEnded
                ||| self is Request
                ||| self is DatagramsEnded
                ||| self is TunnelEnded
            },
            ConnectionState::Extending => self is Extension,
            ConnectionState::Refusing => self is RefusalSent,
            ConnectionState::GoingAway => self is GoAwaySent,
            ConnectionState::Closed => false,
        }
    }
}

/// What is done about a request whose credentials come to this.
pub open spec fn admission(verdict: AuthenticationView) -> (ConnectionState, ConnectionStep) {
    match verdict {
        AuthenticationView::Open => (ConnectionState::Serving, ConnectionStep::Handle),
        AuthenticationView::Refused => (ConnectionState::Refusing, ConnectionStep::Refuse),
        AuthenticationView::Granted { username, presented } => (
            ConnectionState::Extending,
            ConnectionStep::Extend { username, presented },
        ),
    }
}

impl ConnectionState {
    /// What is done about an event.
    pub open spec fn next(self, mode: AuthMode, event: ConnectionEvent) -> (
        ConnectionState,
        ConnectionStep,
    ) {
        let close = |drain: bool, failed: bool|
            (ConnectionState::Closed, ConnectionStep::Close { drain, failed });
        match event {
            ConnectionEvent::Shutdown => if self == ConnectionState::Serving {
                (ConnectionState::GoingAway, ConnectionStep::GoAway)
            } else {
                (ConnectionState::Closed, ConnectionStep::Return { failed: false })
            },
            ConnectionEvent::SetupFailed => (
                ConnectionState::Closed,
                ConnectionStep::Return { failed: true },
            ),
            ConnectionEvent::SetupDone => if self == ConnectionState::Handshake {
                (ConnectionState::Setup, ConnectionStep::SetUpHttp)
            } else {
                (ConnectionState::Serving, ConnectionStep::Serve)
            },
            ConnectionEvent::RequestFailed => close(false, true),
            ConnectionEvent::RequestsEnded => close(false, false),
            ConnectionEvent::Request(request) => admission(
                mode.verdict(auth::basic_credentials(request.fields())),
            ),
            ConnectionEvent::Extension { understood } => if understood {
                (ConnectionState::Serving, ConnectionStep::Handle)
            } else {
                (ConnectionState::Refusing, ConnectionStep::Refuse)
            },
            ConnectionEvent::RefusalSent { sent } => if sent {
                (ConnectionState::Serving, ConnectionStep::Wait)
            } else {
                close(false, true)
            },
            ConnectionEvent::GoAwaySent { sent } => close(true, !sent),
            ConnectionEvent::DatagramsEnded { failed } => close(false, failed),
            ConnectionEvent::TunnelEnded => (ConnectionState::Serving, ConnectionStep::Wait),
        }
    }

    /// Says what to do about a request whose credentials come to this.
    pub fn on_verdict(verdict: Authentication) -> (res: (ConnectionState, ConnectionAction))
        ensures
            res.0 == admission(verdict@).0,
            res.1.takes(admission(verdict@).1),
    {
        match verdict {
            Authentication::Open => (ConnectionState::Serving, ConnectionAction::Handle),
            Authentication::Refused => (
                ConnectionState::Refusing,
                ConnectionAction::Respond(reject_authentication()),
            ),
            Authentication::Granted { username, presented } => (
                ConnectionState::Extending,
                ConnectionAction::Extend { username, presented },
            ),
        }
    }

    /// Says what to do about an event, where `mode` says who may open tunnels.
    pub fn on_event(self, mode: &AuthMode, event: ConnectionEvent) -> (res: (
        ConnectionState,
        ConnectionAction,
    ))
        requires
            event.fits(self),
        ensures
            res.0 == self.next(*mode, event).0,
            res.1.takes(self.next(*mode, event).1),
    {
        match event {
            ConnectionEvent::Shutdown => {
                if self == ConnectionState::Serving {
                    (ConnectionState::GoingAway, ConnectionAction::GoAway)
                } else {
                    (ConnectionState::Closed, ConnectionAction::Return { failed: false })
                }
            },
            ConnectionEvent::SetupFailed => (
                ConnectionState::Closed,
                ConnectionAction::Return { failed: true },
            ),
            ConnectionEvent::SetupDone => {
                if self == ConnectionState::Handshake {
                    (ConnectionState::Setup, ConnectionAction::SetUpHttp)
                } else {
                    (ConnectionState::Serving, ConnectionAction::Serve)
                }
            },
            ConnectionEvent::RequestFailed => (
                ConnectionState::Closed,
                ConnectionAction::Close { drain: false, failed: true },
            ),
            ConnectionEvent::RequestsEnded => (
                ConnectionState::Closed,
                ConnectionAction::Close { drain: false, failed: false },
            ),
            ConnectionEvent::Request(request) => Self::on_verdict(authenticate(mode, request)),
            ConnectionEvent::Extension { understood } => {
                if understood {
                    (ConnectionState::Serving, ConnectionAction::Handle)
                } else {
                    (
                        ConnectionState::Refusing,
                        ConnectionAction::Respond(reject_authentication()),
                    )
                }
            },
            ConnectionEvent::RefusalSent { sent } => {
                if sent {
                    (ConnectionState::Serving, ConnectionAction::Wait)
                } else {
                    (
                        ConnectionState::Closed,
                        ConnectionAction::Close { drain: false, failed: true },
                    )
                }
            },
            ConnectionEvent::GoAwaySent { sent } => (
                ConnectionState::Closed,
                ConnectionAction::Close { drain: true, failed: !sent },
            ),
            ConnectionEvent::DatagramsEnded { failed } => (
                ConnectionState::Closed,
                ConnectionAction::Close { drain: false, failed },
            ),
            ConnectionEvent::TunnelEnded => (ConnectionState::Serving, ConnectionAction::Wait),
        }
    }
}

/// Tunnels are let run to their end only where the server shuts down; however else a
/// connection ends, they are cut off.
pub proof fn tunnels_drain_on_shutdown_only(
    state: ConnectionState,
    mode: AuthMode,
    event: ConnectionEvent,
)
    requires
        event.fits(state),
    ensures
        state.next(mode, event).1 matches ConnectionStep::Close { drain, .. } ==> (drain <==> state
            == ConnectionState::GoingAway),
        state.next(mode, event).0 == ConnectionState::GoingAway ==> event is Shutdown,
{
}

/// A connection whose client was told that the server goes away, or that has come to its end,
/// takes no more requests, and nothing brings it back.
pub proof fn connections_end_once(state: ConnectionState, mode: AuthMode, event: ConnectionEvent)
    requires
        event.fits(state),
    ensures
        state != ConnectionState::Closed,
        event is Request ==> state == ConnectionState::Serving,
        state == ConnectionState::GoingAway ==> state.next(mode, event).0
            == ConnectionState::Closed,
        state.next(mode, event).0 == ConnectionState::Closed <==> (state.next(mode, event).1
            is Close || state.next(mode, event).1 is Return),
{
}

/// A request is handled only if its credentials are right, or none are asked for; any other is
/// answered that credentials are required, and the connection goes on.
pub proof fn only_admitted_requests_are_handled(mode: AuthMode, request: RequestHead)
    ensures
        ({
            let verdict = mode.verdict(auth::basic_credentials(request.fields()));
            let (state, step) = ConnectionState::Serving.next(
                mode,
                ConnectionEvent::Request(&request),
            );
            &&& step is Handle <==> mode.is_open()
            &&& step is Extend <==> verdict is Granted
            &&& step is Refuse <==> verdict is Refused
            &&& step is Refuse ==> state.next(
                mode,
                ConnectionEvent::RefusalSent { sent: true },
            ).0 == ConnectionState::Serving
        }),
{
    auth::access_needs_the_password(mode, auth::basic_credentials(request.fields()));
}

/// Whether an action answers that credentials are required.
pub open spec fn is_challenge(action: ConnectionAction) -> bool {
    &&& action matches ConnectionAction::Respond(head)
    &&& head.status == 407
    &&& head.field matches Some((name, value))
    &&& name@ == "proxy-authenticate"@
    &&& value@ == "Basic realm=\"vproxy\", charset=\"UTF-8\""@
}

/// A request is handled, looked into or challenged as its credentials come to, and the user
/// name and what was appended to it are passed on as they are.
pub proof fn requests_are_admitted_by_their_credentials(
    mode: AuthMode,
    request: RequestHead,
    res: (ConnectionState, ConnectionAction),
)
    requires
        ({
            let event = ConnectionEvent::Request(&request);
            &&& res.0 == ConnectionState::Serving.next(mode, event).0
            &&& res.1.takes(ConnectionState::Serving.next(mode, event).1)
        }),
    ensures
        match mode.verdict(
            auth::basic_credentials(outside::header_map_content(request.headers)),
        ) {
            AuthenticationView::Open => res.0 == ConnectionState::Serving && res.1 is Handle,
            AuthenticationView::Refused => res.0 == ConnectionState::Refusing && is_challenge(
                res.1,
            ),
            AuthenticationView::Granted { username, presented } => {
                &&& res.0 == ConnectionState::Extending
                &&& res.1 matches ConnectionAction::Extend { username: name, presented: whole }
                &&& name@ == username && whole@ == presented
            },
        },
{
}

/// What is done about every other event.
pub proof fn connections_go_their_way(
    state: ConnectionState,
    mode: AuthMode,
    event: ConnectionEvent,
    res: (ConnectionState, ConnectionAction),
)
    requires
        event.fits(state),
        res.0 == state.next(mode, event).0,
        res.1.takes(state.next(mode, event).1),
    ensures
        ({
            let closes = |drain: bool, failed: bool|
                res.0 == ConnectionState::Closed && res.1 == (ConnectionAction::Close {
                    drain,
                    failed,
                });
            match (state, event) {
                (ConnectionState::Handshake, ConnectionEvent::SetupDone) => res.0
                    == ConnectionState::Setup && res.1 is SetUpHttp,
                (_, ConnectionEvent::SetupDone) => state == ConnectionState::Setup && res.0
                    == ConnectionState::Serving && res.1 is Serve,
                (_, ConnectionEvent::SetupFailed) => res.0 == ConnectionState::Closed && res.1 == (
                ConnectionAction::Return { failed: true }),
                (ConnectionState::Serving, ConnectionEvent::Shutdown) => res.0
                    == ConnectionState::GoingAway && res.1 is GoAway,
                (_, ConnectionEvent::Shutdown) => res.0 == ConnectionState::Closed && res.1 == (
                ConnectionAction::Return { failed: false }),
                (_, ConnectionEvent::RequestFailed) => closes(false, true),
                (_, ConnectionEvent::RequestsEnded) => closes(false, false),
                (_, ConnectionEvent::DatagramsEnded { failed }) => closes(false, failed),
                (_, ConnectionEvent::GoAwaySent { sent }) => closes(true, !sent),
                (_, ConnectionEvent::TunnelEnded) => res.0 == ConnectionState::Serving && res.1
                    is Wait,
                (_, ConnectionEvent::Extension { understood }) => if understood {
                    res.0 == ConnectionState::Serving && res.1 is Handle
                } else {
                    res.0 == ConnectionState::Refusing && is_challenge(res.1)
                },
                (_, ConnectionEvent::RefusalSent { sent }) => if sent {
                    res.0 == ConnectionState::Serving && res.1 is Wait
                } else {
                    closes(false, true)
                },
                (_, ConnectionEvent::Request(_)) => true,
            }
        }),
{
}

/// Every event is taken in the states in which it can happen.
pub proof fn every_connection_event_is_taken(event: ConnectionEvent)
    ensures
        event is SetupDone || event is SetupFailed || event is Shutdown ==> event.fits(
            ConnectionState::Handshake,
        ) && event.fits(ConnectionState::Setup),
        event is Shutdown || event is RequestFailed || event is RequestsEnded || event is Request
            || event is DatagramsEnded || event is TunnelEnded ==> event.fits(
            ConnectionState::Serving,
        ),
        event is Extension ==> event.fits(ConnectionState::Extending),
        event is RefusalSent ==> event.fits(ConnectionState::Refusing),
        event is GoAwaySent ==> event.fits(ConnectionState::GoingAway),
{
}

/// What clients are told, by number.
pub proof fn clients_are_told()
    ensures
        ENABLE_EXTENDED_CONNECT,
        ENABLE_DATAGRAM,
        REQUESTS_AFTER_GOING_AWAY == 0,
        CLOSE_CODE == 0,
        CLOSE_REASON@ == "proxy connection finished"@,
{
}

} // verus!
