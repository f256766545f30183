//! The steps around a running tunnel: its entry in the table of tunnels and the answer to its
//! request before it, and everything that is given back after it.
//!
//! The caller takes the steps, one at a time, and reports how each one ended. A tunnel that is
//! cut off while a step waits for the outside world leaves like any other.

use crate::response::{accept_tunnel, ResponseHead};
use crate::tunnel::{StreamClose, TunnelExit, TunnelOutcome};
use vstd::prelude::*;

verus! {

/// The step that a tunnel is at.
#[derive(Clone, Copy, Debug, PartialEq, Eq, Structural)]
pub enum RelayStage {
    /// The target's address is asked of the socket.
    Resolving,
    /// The tunnel is entered in the table of tunnels.
    Registering,
    /// The request is answered.
    Answering,
    /// Payloads are relayed.
    Relaying,
    /// The request stream is closed.
    Closing { failed: bool },
    /// The tunnel is taken out of the table of tunnels.
    Unregistering { failed: bool },
    /// The permit is given back.
    Releasing { failed: bool },
    /// All is done.
    Returned,
}

/// How a step ended.
#[derive(Clone, Copy, Debug, PartialEq, Eq, Structural)]
pub enum RelayEvent {
    Done,
    Failed,
    /// The tunnel came to its end.
    Ended(TunnelExit),
    /// The tunnel was cut off.
    CutOff,
}

/// The step to take next.
pub enum RelayAction {
    /// Ask the socket for the target's address.
    ResolvePeer,
    /// Enter the tunnel in the table of tunnels.
    Register,
    /// Send this head on the request stream, and leave the stream open.
    Answer(ResponseHead),
    /// Run the tunnel.
    Relay,
    /// Leave the request stream like this.
    Close(StreamClose),
    /// Take the tunnel out of the table of tunnels.
    Unregister,
    /// Give the permit back.
    Release,
    /// Return.
    Return { failed: bool },
}

/// The step to take next.
pub enum RelayStep {
    ResolvePeer,
    Register,
    Answer,
    Relay,
    Close(StreamClose),
    Unregister,
    Release,
    Return { failed: bool },
}

impl RelayAction {
    /// Whether the action takes the step; the request is answered that the tunnel is open.
    pub open spec fn takes(&self, step: RelayStep) -> bool {
        match step {
            RelayStep::ResolvePeer => self is ResolvePeer,
            RelayStep::Register => self is Register,
            RelayStep::Answer => self matches RelayAction::Answer(head) && head.has(
                200,
                "capsule-protocol"@,
                "?1"@,
            ),
            RelayStep::Relay => self is Relay,
            RelayStep::Close(close) => self == RelayAction::Close(close),
            RelayStep::Unregister => self is Unregister,
            RelayStep::Release => self is Release,
            RelayStep::Return { failed } => self == (RelayAction::Return { failed }),
        }
    }
}

impl RelayEvent {
    /// Whether a step can end like this.
    pub open spec fn ends(self, stage: RelayStage) -> bool {
        match stage {
            RelayStage::Resolving => self is Done || self is Failed,
            RelayStage::Registering => self is Done,
            RelayStage::Answering | RelayStage::Closing { .. } => self is Done || self is Failed
                || self is CutOff,
            RelayStage::Relaying => self is Ended || self is CutOff,
            RelayStage::Unregistering { .. } | RelayStage::Releasing { .. } => self is Done,
            RelayStage::Returned => false,
        }
    }
}

/// The first step of every tunnel.
pub open spec fn first() -> (RelayStage, RelayStep) {
    (RelayStage::Resolving, RelayStep::ResolvePeer)
}

impl RelayStage {
    /// The step after one that ended like this.
    pub open spec fn next(self, event: RelayEvent) -> (RelayStage, RelayStep) {
        let leave = |failed: bool|
            (RelayStage::Unregistering { failed }, RelayStep::Unregister);
        match self {
            RelayStage::Resolving => if event is Done {
                (RelayStage::Registering, RelayStep::Register)
            } else {
                (RelayStage::Releasing { failed: true }, RelayStep::Release)
            },
            RelayStage::Registering => (RelayStage::Answering, RelayStep::Answer),
            RelayStage::Answering => if event is Done {
                (RelayStage::Relaying, RelayStep::Relay)
            } else {
                leave(true)
            },
            RelayStage::Relaying => match event {
                RelayEvent::Ended(exit) => (
                    RelayStage::Closing { failed: exit.outcome != TunnelOutcome::Ended },
                    RelayStep::Close(exit.close),
                ),
                _ => leave(true),
            },
            RelayStage::Closing { failed } => leave(failed || !(event is Done)),
            RelayStage::Unregistering { failed } => (
                RelayStage::Releasing { failed },
                RelayStep::Release,
            ),
            RelayStage::Releasing { failed } => (
                RelayStage::Returned,
                RelayStep::Return { failed },
            ),
            RelayStage::Returned => (RelayStage::Returned, RelayStep::Return { failed: false }),
        }
    }

    /// Starts on a tunnel.
    pub fn start() -> (res: (RelayStage, RelayAction))
        ensures
            res.0 == first().0,
            res.1.takes(first().1),
    {
        (RelayStage::Resolving, RelayAction::ResolvePeer)
    }

    /// Goes on when a step has ended.
    pub fn advance(self, event: RelayEvent) -> (res: (RelayStage, RelayAction))
        requires
            event.ends(self),
        ensures
            res.0 == self.next(event).0,
            res.1.takes(self.next(event).1),
    {
        match (self, event) {
            (RelayStage::Resolving, RelayEvent::Done) => (
                RelayStage::Registering,
                RelayAction::Register,
            ),
            (RelayStage::Resolving, _) => (
                RelayStage::Releasing { failed: true },
                RelayAction::Release,
            ),
            (RelayStage::Registering, _) => (
                RelayStage::Answering,
                RelayAction::Answer(accept_tunnel()),
            ),
            (RelayStage::Answering, RelayEvent::Done) => (
                RelayStage::Relaying,
                RelayAction::Relay,
            ),
            (RelayStage::Relaying, RelayEvent::Ended(exit)) => {
                let failed = match exit.outcome {
                    TunnelOutcome::Ended => false,
                    _ => true,
                };
                (RelayStage::Closing { failed }, RelayAction::Close(exit.close))
            },
            (RelayStage::Closing { failed }, RelayEvent::Done) => (
                RelayStage::Unregistering { failed },
                RelayAction::Unregister,
            ),
            (RelayStage::Answering | RelayStage::Relaying | RelayStage::Closing { .. }, _) => (
                RelayStage::Unregistering { failed: true },
                RelayAction::Unregister,
            ),
            (RelayStage::Unregistering { failed }, _) => (
                RelayStage::Releasing { failed },
                RelayAction::Release,
            ),
            (RelayStage::Releasing { failed }, _) => (
                RelayStage::Returned,
                RelayAction::Return { failed },
            ),
            (RelayStage::Returned, _) => (
                RelayStage::Returned,
                RelayAction::Return { failed: false },
            ),
        }
    }
}

/// The step that a tunnel is at after `events`.
pub open spec fn relay_after(events: Seq<RelayEvent>) -> (RelayStage, RelayStep)
    decreases events.len(),
{
    if events.len() == 0 {
        first()
    } else {
        relay_after(events.drop_last()).0.next(events.last())
    }
}

/// Whether each of `events` ends the step that a tunnel is at at that point.
pub open spec fn relay_in_order(events: Seq<RelayEvent>) -> bool
    decreases events.len(),
{
    events.len() == 0 || relay_in_order(events.drop_last()) && events.last().ends(
        relay_after(events.drop_last()).0,
    )
}

/// What the steps of a tunnel have done so far.
#[verifier::ext_equal]
pub struct RelayEffect<S> {
    /// The table of tunnels.
    pub sessions: Map<u64, S>,
    /// Whether the permit is held.
    pub permit: bool,
    /// Whether the answer was sent.
    pub answered: bool,
}

/// What the steps that ended with `events` have done, where the table of tunnels was `table`
/// and nobody else changes it.
pub open spec fn relay_effect<S>(
    table: Map<u64, S>,
    stream_id: u64,
    session: S,
    events: Seq<RelayEvent>,
) -> RelayEffect<S>
    decreases events.len(),
{
    if events.len() == 0 {
        RelayEffect { sessions: table, permit: true, answered: false }
    } else {
        let before = relay_effect(table, stream_id, session, events.drop_last());
        match (relay_after(events.drop_last()).1, events.last()) {
            (RelayStep::Register, RelayEvent::Done) => RelayEffect {
                sessions: before.sessions.insert(stream_id, session),
                ..before
            },
            (RelayStep::Answer, RelayEvent::Done) => RelayEffect { answered: true, ..before },
            (RelayStep::Unregister, RelayEvent::Done) => RelayEffect {
                sessions: before.sessions.remove(stream_id),
                ..before
            },
            (RelayStep::Release, RelayEvent::Done) => RelayEffect { permit: false, ..before },
            _ => before,
        }
    }
}

/// What holds at each step of a tunnel.
proof fn lemma_relay<S>(
    table: Map<u64, S>,
    stream_id: u64,
    session: S,
    events: Seq<RelayEvent>,
)
    requires
        relay_in_order(events),
    ensures
        ({
            let (stage, step) = relay_after(events);
            let effect = relay_effect(table, stream_id, session, events);
            let registered = events.len() > 0 && events[0] is Done;
            let without = if registered {
                table.remove(stream_id)
            } else {
                table
            };
            match stage {
                RelayStage::Resolving => events.len() == 0 && step is ResolvePeer && effect == (
                RelayEffect { sessions: table, permit: true, answered: false }),
                RelayStage::Registering => events.len() == 1 && registered && step is Register
                    && effect == (RelayEffect { sessions: table, permit: true, answered: false }),
                RelayStage::Answering => events.len() == 2 && registered && step is Answer
                    && effect == (RelayEffect {
                    sessions: table.insert(stream_id, session),
                    permit: true,
                    answered: false,
                }),
                RelayStage::Relaying => events.len() == 3 && registered && step is Relay && effect
                    == (RelayEffect {
                    sessions: table.insert(stream_id, session),
                    permit: true,
                    answered: true,
                }),
                RelayStage::Closing { .. } => events.len() == 4 && registered && step is Close
                    && effect == (RelayEffect {
                    sessions: table.insert(stream_id, session),
                    permit: true,
                    answered: true,
                }),
                RelayStage::Unregistering { .. } => 3 <= events.len() <= 5 && registered && step
                    is Unregister && effect.permit && effect.sessions == table.insert(
                    stream_id,
                    session,
                ),
                RelayStage::Releasing { .. } => 1 <= events.len() <= 6 && step is Release
                    && effect.permit && effect.sessions == without && (registered ==> events.len()
                    >= 4),
                RelayStage::Returned => 2 <= events.len() <= 7 && step is Return && !effect.permit
                    && effect.sessions == without,
            }
        }),
    decreases events.len(),
{
    if events.len() > 0 {
        lemma_relay(table, stream_id, session, events.drop_last());
        assert(events.len() > 1 ==> events.drop_last()[0] == events[0]);
        assert(table.insert(stream_id, session).remove(stream_id) =~= table.remove(stream_id));
    }
}

/// While a tunnel is answered and runs, it is in the table of tunnels and holds its permit. The
/// answer that opens it is the first thing that is sent, and the tunnel is in the table before.
pub proof fn tunnels_are_registered_before_the_answer<S>(
    table: Map<u64, S>,
    stream_id: u64,
    session: S,
    events: Seq<RelayEvent>,
)
    requires
        relay_in_order(events),
    ensures
        ({
            let step = relay_after(events).1;
            let effect = relay_effect(table, stream_id, session, events);
            &&& step is Answer || step is Relay || step is Close ==> effect.sessions
                == table.insert(stream_id, session) && effect.permit
            &&& step is Answer ==> !effect.answered
            &&& step is Relay || step is Close ==> effect.answered
        }),
{
    lemma_relay(table, stream_id, session, events);
}

/// However a tunnel ends, when it returns its permit was given back and it is no longer in the
/// table of tunnels, whose other entries are as they were.
pub proof fn tunnels_give_everything_back<S>(
    table: Map<u64, S>,
    stream_id: u64,
    session: S,
    events: Seq<RelayEvent>,
)
    requires
        relay_in_order(events),
        relay_after(events).0 is Returned,
    ensures
        relay_after(events).1 is Return,
        !relay_effect(table, stream_id, session, events).permit,
        relay_effect(table, stream_id, session, events).sessions == (if events[0] is Done {
            table.remove(stream_id)
        } else {
            table
        }),
{
    lemma_relay(table, stream_id, session, events);
}

/// A tunnel returns after seven steps at the most, and nothing happens to it then.
pub proof fn tunnels_return(events: Seq<RelayEvent>)
    requires
        relay_in_order(events),
    ensures
        events.len() <= 7,
        events.len() == 7 ==> relay_after(events).0 is Returned,
        relay_after(events).0 is Returned <==> relay_after(events).1 is Return,
{
    lemma_relay(Map::<u64, ()>::empty(), 0, (), events);
}

/// A tunnel returns without a failure if and only if its target's address was known, its
/// answer was sent, it did its work and its stream could be closed.
pub proof fn tunnels_return_what_they_came_to(events: Seq<RelayEvent>)
    requires
        relay_in_order(events),
        relay_after(events).0 is Returned,
    ensures
        relay_after(events).1 == (RelayStep::Return { failed: false }) <==> {
            &&& events.len() == 7
            &&& events[3] matches RelayEvent::Ended(exit) && exit.outcome == TunnelOutcome::Ended
            &&& events[4] is Done
        },
{
    lemma_relay(Map::<u64, ()>::empty(), 0, (), events);
    lemma_outcome(events);
}

/// Whether a failure is to be returned, at each step of a tunnel.
proof fn lemma_outcome(events: Seq<RelayEvent>)
    requires
        relay_in_order(events),
    ensures
        ({
            let fine = events.len() >= 5 && events[3] is Ended && events[3]->Ended_0.outcome
                == TunnelOutcome::Ended && events[4] is Done;
            match relay_after(events) {
                (RelayStage::Closing { failed }, _) => events.len() == 4 && events[3] is Ended
                    && failed == (events[3]->Ended_0.outcome != TunnelOutcome::Ended),
                (RelayStage::Unregistering { failed }, _) => failed == !(fine && events.len() == 5),
                (RelayStage::Releasing { failed }, _) => failed == !(fine && events.len() == 6),
                (RelayStage::Returned, step) => step == (RelayStep::Return {
                    failed: !(fine && events.len() == 7),
                }),
                _ => events.len() <= 3,
            }
        }),
    decreases events.len(),
{
    if events.len() > 0 {
        let before = events.drop_last();
        lemma_outcome(before);
        lemma_relay(Map::<u64, ()>::empty(), 0, (), before);
        assert(before.len() > 3 ==> before[3] == events[3]);
        assert(before.len() > 4 ==> before[4] == events[4]);
    }
}

/// What is done at each step of a tunnel, and that the answer is the one that opens it.
pub proof fn relays_go_their_way(
    stage: RelayStage,
    event: RelayEvent,
    res: (RelayStage, RelayAction),
)
    requires
        event.ends(stage),
        res.0 == stage.next(event).0,
        res.1.takes(stage.next(event).1),
    ensures
        ({
            let leaves = |failed: bool|
                res.0 == (RelayStage::Unregistering { failed }) && res.1 is Unregister;
            match (stage, event) {
                (RelayStage::Resolving, RelayEvent::Done) => res.0 == RelayStage::Registering
                    && res.1 is Register,
                (RelayStage::Resolving, _) => res.0 == (RelayStage::Releasing { failed: true })
                    && res.1 is Release,
                (RelayStage::Registering, _) => {
                    &&& res.0 == RelayStage::Answering
                    &&& res.1 matches RelayAction::Answer(head)
                    &&& head.status == 200
                    &&& head.field matches Some((name, value))
                    &&& name@ == "capsule-protocol"@ && value@ == "?1"@
                },
                (RelayStage::Answering, RelayEvent::Done) => res.0 == RelayStage::Relaying && res.1
                    is Relay,
                (RelayStage::Relaying, RelayEvent::Ended(exit)) => res.0 == (RelayStage::Closing {
                    failed: exit.outcome != TunnelOutcome::Ended,
                }) && res.1 == RelayAction::Close(exit.close),
                (RelayStage::Closing { failed }, RelayEvent::Done) => leaves(failed),
                (RelayStage::Unregistering { failed }, _) => res.0 == (RelayStage::Releasing {
                    failed,
                }) && res.1 is Release,
                (RelayStage::Releasing { failed }, _) => res.0 == RelayStage::Returned && res.1 == (
                RelayAction::Return { failed }),
                _ => leaves(true),
            }
        }),
{
}

/// Every way in which a step can end is taken.
pub proof fn every_end_of_a_relay_step_is_taken(stage: RelayStage, event: RelayEvent)
    ensures
        event is Done && stage != RelayStage::Relaying && stage != RelayStage::Returned
            ==> event.ends(stage),
        event is Failed && (stage is Resolving || stage is Answering || stage is Closing)
            ==> event.ends(stage),
        event is Ended && stage is Relaying ==> event.ends(stage),
        event is CutOff && (stage is Answering || stage is Relaying || stage is Closing)
            ==> event.ends(stage),
{
}

} // verus!
