//! The tunnels of a connection, and what becomes of the HTTP datagrams for them.

use crate::datagram::{forward_capsule_datagram, Delivery};
use crate::tunnel::TunnelSignal;
use crate::{datagram, varint};
use std::collections::HashMap;
use vstd::prelude::*;

verus! {

broadcast use vstd::std_specs::hash::group_hash_axioms;

/// The running tunnels of a connection, by the ID of their request stream.
pub struct SessionTable<S> {
    sessions: HashMap<u64, S>,
}

impl<S> View for SessionTable<S> {
    type V = Map<u64, S>;

    closed spec fn view(&self) -> Map<u64, S> {
        self.sessions@
    }
}

/// What to do about an HTTP datagram.
pub enum DatagramAction<'a> {
    /// Drop it.
    Ignore,
    /// Report something to the tunnel that it is for.
    Signal(TunnelSignal),
    /// Send this payload to the target of the tunnel that it is for.
    Forward(&'a [u8]),
}

/// What to do about an HTTP datagram.
pub enum DatagramStep {
    Ignore,
    Signal(TunnelSignal),
    Forward(Seq<u8>),
}

impl<'a> View for DatagramAction<'a> {
    type V = DatagramStep;

    open spec fn view(&self) -> DatagramStep {
        match self {
            DatagramAction::Ignore => DatagramStep::Ignore,
            DatagramAction::Signal(signal) => DatagramStep::Signal(*signal),
            DatagramAction::Forward(payload) => DatagramStep::Forward(payload@),
        }
    }
}

/// What is done about a datagram, depending on whether it is for a running tunnel.
pub open spec fn datagram_step(known: bool, payload: Seq<u8>) -> DatagramStep {
    if !known {
        DatagramStep::Ignore
    } else {
        match datagram::delivery(payload) {
            Delivery::Malformed => DatagramStep::Signal(TunnelSignal::DatagramError),
            Delivery::Ignored => DatagramStep::Ignore,
            Delivery::Payload(payload) => DatagramStep::Forward(payload),
        }
    }
}

impl<S> SessionTable<S> {
    /// A table without tunnels.
    pub fn new() -> (res: SessionTable<S>)
        ensures
            res@ == Map::<u64, S>::empty(),
    {
        SessionTable { sessions: HashMap::new() }
    }

    /// Registers a tunnel.
    pub fn insert(&mut self, stream_id: u64, session: S)
        ensures
            final(self)@ == old(self)@.insert(stream_id, session),
    {
        self.sessions.insert(stream_id, session);
    }

    /// Forgets a tunnel.
    pub fn remove(&mut self, stream_id: u64)
        ensures
            final(self)@ == old(self)@.remove(stream_id),
    {
        self.sessions.remove(&stream_id);
    }

    /// The tunnel on a request stream, if it is running.
    pub fn get(&self, stream_id: u64) -> (res: Option<&S>)
        ensures
            res == (if self@.contains_key(stream_id) {
                Some(&self@[stream_id])
            } else {
                None
            }),
    {
        self.sessions.get(&stream_id)
    }

    /// Says what to do about a datagram for a request stream, of which `payload` is what
    /// follows the stream's ID.
    pub fn process_datagram<'a>(&self, stream_id: u64, payload: &'a [u8]) -> (res: DatagramAction<
        'a,
    >)
        ensures
            res@ == datagram_step(self@.contains_key(stream_id), payload@),
    {
        if self.sessions.get(&stream_id).is_none() {
            return DatagramAction::Ignore;
        }
        match forward_capsule_datagram(payload) {
            Err(_) => DatagramAction::Signal(TunnelSignal::DatagramError),
            Ok(None) => DatagramAction::Ignore,
            Ok(Some(payload)) => DatagramAction::Forward(payload),
        }
    }
}

/// Says what to do when a payload could not be sent to the target, because it was too long or
/// otherwise.
pub fn datagram_not_sent(oversized: bool) -> (res: Option<TunnelSignal>)
    ensures
        res == (if oversized {
            None
        } else {
            Some(TunnelSignal::SocketError)
        }),
{
    if oversized {
        None
    } else {
        Some(TunnelSignal::SocketError)
    }
}

/// A tunnel that is registered and forgotten again leaves the table as it was, if its stream
/// had no tunnel before.
pub proof fn registration_is_undone<S>(table: Map<u64, S>, stream_id: u64, session: S)
    requires
        !table.contains_key(stream_id),
    ensures
        table.insert(stream_id, session).remove(stream_id) == table,
{
    assert(table.insert(stream_id, session).remove(stream_id) =~= table);
}

/// Registering or forgetting a tunnel makes no difference to the others.
pub proof fn tunnels_are_independent<S>(
    table: Map<u64, S>,
    stream_id: u64,
    session: S,
    other: u64,
    payload: Seq<u8>,
)
    requires
        other != stream_id,
    ensures
        datagram_step(table.insert(stream_id, session).contains_key(other), payload)
            == datagram_step(table.contains_key(other), payload),
        datagram_step(table.remove(stream_id).contains_key(other), payload) == datagram_step(
            table.contains_key(other),
            payload,
        ),
        table.contains_key(other) ==> table.insert(stream_id, session)[other] == table[other]
            && table.remove(stream_id)[other] == table[other],
{
}

/// What the proxy sends to a client as a datagram, a client that tunnels likewise would
/// forward: the payload goes through unchanged.
pub proof fn datagrams_carry_their_payload(payload: Seq<u8>)
    requires
        payload.len() <= crate::capsule::MAX_UDP_RELAY_PAYLOAD_SIZE,
    ensures
        datagram_step(true, datagram::in_context_zero(payload)) == DatagramStep::Forward(payload),
{
    datagram::context_zero_is_forwarded(payload);
}

/// What is done about a datagram, by its tunnel, its context ID and what follows it: nothing
/// without a tunnel; a report where there is no context ID; and the payload is forwarded, all
/// of it, under context zero and up to 1500 bytes.
pub proof fn datagrams_are_processed_by_their_context<S>(
    table: Map<u64, S>,
    stream_id: u64,
    datagram: Seq<u8>,
    action: DatagramAction,
)
    requires
        action@ == datagram_step(table.contains_key(stream_id), datagram),
    ensures
        if !table.contains_key(stream_id) {
            action is Ignore
        } else {
            match varint::varint_at(datagram) {
                None => action == DatagramAction::Signal(TunnelSignal::DatagramError),
                Some((context, width)) => if context == 0 && datagram.len() - width <= 1500 {
                    action matches DatagramAction::Forward(payload) && datagram == datagram.take(
                        width as int,
                    ) + payload@
                } else {
                    action is Ignore
                },
            }
        },
{
    if varint::varint_at(datagram) is Some {
        varint::varint_is_bounded(datagram);
        let width = varint::varint_at(datagram)->Some_0.1 as int;
        assert(datagram =~= datagram.take(width) + datagram.skip(width));
    }
}

} // verus!
