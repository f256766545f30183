//! A running tunnel: what is done when a byte arrives from the client, a payload arrives from
//! the target, or one of them goes away.
//!
//! The caller waits for events, reports them one at a time and carries out what comes back.

use crate::buffer::{bytes_as_slice, Content};
use crate::capsule::{CapsuleDecoder, MAX_UDP_RELAY_PAYLOAD_SIZE};
use crate::datagram::{
    encode_datagram_capsule, encode_target_datagram, forward_capsule_datagram, usable_udp_payload,
    Delivery,
};
use crate::error::{IoErrorKind, ProtocolError};
use crate::outside::error_kind;
use crate::{buffer, capsule, datagram, outside, varint};
use bytes::Bytes;
use vstd::prelude::*;

verus! {

/// What the connection's datagram reader reports to a tunnel.
#[derive(Clone, Copy, Debug, PartialEq, Eq, Structural)]
pub enum TunnelSignal {
    /// A datagram for the tunnel has no context ID.
    DatagramError,
    /// The tunnel's socket failed.
    SocketError,
}

/// What happened to a tunnel.
pub enum TunnelEvent<'a> {
    /// The server is shutting down.
    Shutdown,
    /// The datagram reader reported something, or went away.
    Signal(Option<TunnelSignal>),
    /// Bytes arrived on the request stream.
    StreamData(&'a [u8]),
    /// The client finished the request stream.
    StreamEnded,
    /// Reading from or writing to the request stream failed.
    StreamFailed,
    /// Receiving from the socket put `length` bytes into `buffer`, or as many as fit.
    SocketReceived {
        buffer: &'a [u8],
        length: usize,
        /// Whether the client takes HTTP datagrams.
        datagrams: bool,
        /// The longest datagram that the connection takes, if it takes any.
        max_datagram_size: Option<usize>,
    },
    /// Receiving from the socket failed, because the payload was too long or otherwise.
    ReceiveFailed { oversized: bool },
    /// Sending a payload to the target failed, because it was too long or otherwise.
    ForwardFailed { oversized: bool, error: &'a std::io::Error },
    /// Sending a datagram to the client failed, because it was too long or otherwise.
    DatagramFailed { too_large: bool },
}

/// How a request stream is left when its tunnel ends.
#[derive(Clone, Copy, Debug, PartialEq, Eq, Structural)]
pub enum StreamClose {
    /// Nothing is done about it.
    Leave,
    /// The server's side is finished.
    Finish,
    /// The client is told to stop, with the code for a datagram error.
    Stop,
}

/// Why a tunnel ends.
#[derive(Clone, Copy, Debug, PartialEq, Eq, Structural)]
pub enum TunnelOutcome {
    /// It has done its work.
    Ended,
    /// What the event is about went wrong.
    Failed,
    /// A framing rule was broken.
    Violation(ProtocolError),
}

/// How a tunnel ends.
#[derive(Clone, Copy, Debug, PartialEq, Eq, Structural)]
pub struct TunnelExit {
    pub close: StreamClose,
    pub outcome: TunnelOutcome,
}

/// What to do next about a tunnel.
pub enum TunnelAction {
    /// Wait for the next event.
    Continue,
    /// Send the payloads to the target one after another, then end the tunnel if `exit` says
    /// so.
    Forward { payloads: Vec<Vec<u8>>, exit: Option<TunnelExit> },
    /// Send this HTTP datagram to the client.
    SendDatagram(Bytes),
    /// Send these bytes on the request stream.
    SendCapsule(Bytes),
    /// End the tunnel.
    Exit(TunnelExit),
}

/// What to do next about a tunnel.
pub enum TunnelStep {
    Continue,
    Forward { payloads: Seq<Seq<u8>>, exit: Option<TunnelExit> },
    SendDatagram(Seq<u8>),
    SendCapsule(Seq<u8>),
    Exit(TunnelExit),
}

impl View for TunnelAction {
    type V = TunnelStep;

    open spec fn view(&self) -> TunnelStep {
        match self {
            TunnelAction::Continue => TunnelStep::Continue,
            TunnelAction::Forward { payloads, exit } => TunnelStep::Forward {
                payloads: buffer::byte_strings(payloads@),
                exit: *exit,
            },
            TunnelAction::SendDatagram(bytes) => TunnelStep::SendDatagram(bytes.content()),
            TunnelAction::SendCapsule(bytes) => TunnelStep::SendCapsule(bytes.content()),
            TunnelAction::Exit(exit) => TunnelStep::Exit(*exit),
        }
    }
}

/// The payloads to forward among datagrams from the client, up to the first one that has no
/// context ID, and whether there is such a one.
pub open spec fn forwarding(datagrams: Seq<Seq<u8>>) -> (Seq<Seq<u8>>, bool)
    decreases datagrams.len(),
{
    if datagrams.len() == 0 {
        (Seq::empty(), false)
    } else {
        let (payloads, malformed) = forwarding(datagrams.drop_last());
        if malformed {
            (payloads, true)
        } else {
            match datagram::delivery(datagrams.last()) {
                Delivery::Malformed => (payloads, true),
                Delivery::Ignored => (payloads, false),
                Delivery::Payload(payload) => (payloads.push(payload), false),
            }
        }
    }
}

/// How a tunnel ends when a datagram from the client has no context ID.
pub open spec fn malformed_exit() -> TunnelExit {
    TunnelExit {
        close: StreamClose::Stop,
        outcome: TunnelOutcome::Violation(ProtocolError::MissingContextId),
    }
}

/// How a payload from the target is sent to the client on the request stream `stream_id`.
pub open spec fn outgoing(
    stream_id: u64,
    payload: Seq<u8>,
    datagrams: bool,
    max_datagram_size: Option<usize>,
) -> TunnelStep {
    if stream_id >= varint::VARINT_LIMIT {
        TunnelStep::Exit(
            TunnelExit {
                close: StreamClose::Leave,
                outcome: TunnelOutcome::Violation(ProtocolError::InvalidStreamId),
            },
        )
    } else {
        match (datagrams, max_datagram_size) {
            (true, Some(maximum)) => if datagram::target_datagram(stream_id, payload).len()
                <= maximum {
                TunnelStep::SendDatagram(datagram::target_datagram(stream_id, payload))
            } else {
                TunnelStep::Continue
            },
            _ => TunnelStep::SendCapsule(datagram::datagram_capsule(payload)),
        }
    }
}

impl<'a> TunnelEvent<'a> {
    /// Whether a received payload that may be relayed lies within its buffer.
    pub open spec fn is_sound(&self) -> bool {
        self matches TunnelEvent::SocketReceived { buffer, length, .. } ==> (length
            <= MAX_UDP_RELAY_PAYLOAD_SIZE ==> length <= buffer@.len())
    }

    /// Whether the event is about a payload that is too long to be passed on.
    pub open spec fn is_oversized(&self) -> bool {
        match *self {
            TunnelEvent::SocketReceived { length, .. } => length > MAX_UDP_RELAY_PAYLOAD_SIZE,
            TunnelEvent::ReceiveFailed { oversized } => oversized,
            TunnelEvent::ForwardFailed { oversized, .. } => oversized,
            TunnelEvent::DatagramFailed { too_large } => too_large,
            _ => false,
        }
    }

    /// What the event asks for on the request stream `stream_id` when `pending` has arrived
    /// since the last complete capsule.
    pub open spec fn step(&self, stream_id: u64, pending: Seq<u8>) -> TunnelStep {
        match *self {
            TunnelEvent::Shutdown => TunnelStep::Exit(
                TunnelExit { close: StreamClose::Finish, outcome: TunnelOutcome::Ended },
            ),
            TunnelEvent::Signal(Some(TunnelSignal::DatagramError)) => TunnelStep::Exit(
                TunnelExit { close: StreamClose::Stop, outcome: TunnelOutcome::Ended },
            ),
            TunnelEvent::Signal(_) => TunnelStep::Exit(
                TunnelExit { close: StreamClose::Finish, outcome: TunnelOutcome::Ended },
            ),
            TunnelEvent::StreamData(data) => {
                let (payloads, malformed) = forwarding(capsule::datagrams(pending + data@));
                TunnelStep::Forward {
                    payloads,
                    exit: if malformed {
                        Some(malformed_exit())
                    } else {
                        None
                    },
                }
            },
            TunnelEvent::StreamEnded => TunnelStep::Exit(
                TunnelExit {
                    close: if pending.len() == 0 {
                        StreamClose::Leave
                    } else {
                        StreamClose::Stop
                    },
                    outcome: TunnelOutcome::Ended,
                },
            ),
            TunnelEvent::StreamFailed => TunnelStep::Exit(
                TunnelExit { close: StreamClose::Leave, outcome: TunnelOutcome::Failed },
            ),
            TunnelEvent::SocketReceived { buffer, length, datagrams, max_datagram_size } => {
                if length <= MAX_UDP_RELAY_PAYLOAD_SIZE {
                    outgoing(stream_id, buffer@.take(length as int), datagrams, max_datagram_size)
                } else {
                    TunnelStep::Continue
                }
            },
            TunnelEvent::ReceiveFailed { oversized } => if oversized {
                TunnelStep::Continue
            } else {
                TunnelStep::Exit(
                    TunnelExit { close: StreamClose::Finish, outcome: TunnelOutcome::Failed },
                )
            },
            TunnelEvent::ForwardFailed { oversized, error } => if oversized {
                TunnelStep::Continue
            } else {
                TunnelStep::Exit(
                    TunnelExit {
                        close: if outside::io_error_kind(*error) == IoErrorKind::InvalidData {
                            StreamClose::Stop
                        } else {
                            StreamClose::Leave
                        },
                        outcome: TunnelOutcome::Failed,
                    },
                )
            },
            TunnelEvent::DatagramFailed { too_large } => if too_large {
                TunnelStep::Continue
            } else {
                TunnelStep::Exit(
                    TunnelExit { close: StreamClose::Leave, outcome: TunnelOutcome::Failed },
                )
            },
        }
    }

    /// What has arrived since the last complete capsule after the event.
    pub open spec fn left_pending(&self, pending: Seq<u8>) -> Seq<u8> {
        match *self {
            TunnelEvent::StreamData(data) => capsule::unfinished(pending + data@),
            _ => pending,
        }
    }
}

/// The state of a running tunnel.
pub struct Tunnel {
    stream_id: u64,
    capsules: CapsuleDecoder,
}

impl Tunnel {
    /// Whether the tunnel's decoder is sound.
    pub closed spec fn wf(&self) -> bool {
        self.capsules.wf()
    }

    /// The ID of the request stream.
    pub closed spec fn stream(&self) -> u64 {
        self.stream_id
    }

    /// What has arrived on the request stream since the last complete capsule.
    pub closed spec fn pending(&self) -> Seq<u8> {
        self.capsules@
    }

    /// A tunnel on a request stream on which nothing has arrived yet.
    pub fn open(stream_id: u64) -> (res: Tunnel)
        ensures
            res.wf(),
            res.stream() == stream_id,
            res.pending() == Seq::<u8>::empty(),
    {
        Tunnel { stream_id, capsules: CapsuleDecoder::default() }
    }

    /// Takes in bytes from the request stream.
    fn stream_data(&mut self, data: &[u8]) -> (res: TunnelAction)
        requires
            old(self).wf(),
        ensures
            final(self).wf(),
            final(self).stream() == old(self).stream(),
            final(self).pending() == capsule::unfinished(old(self).pending() + data@),
            res@ == TunnelEvent::StreamData(data).step(old(self).stream(), old(self).pending()),
    {
        let datagrams = match self.capsules.push(data) {
            Err(error) => {
                return TunnelAction::Exit(
                    TunnelExit {
                        close: StreamClose::Stop,
                        outcome: TunnelOutcome::Violation(error),
                    },
                );
            },
            Ok(datagrams) => datagrams,
        };
        let ghost all = buffer::contents(datagrams@);
        let mut payloads: Vec<Vec<u8>> = Vec::new();
        let mut index: usize = 0;
        assert(buffer::byte_strings(payloads@) =~= Seq::<Seq<u8>>::empty());
        while index < datagrams.len()
            invariant
                index <= datagrams@.len(),
                all == buffer::contents(datagrams@),
                forwarding(all.take(index as int)) == (buffer::byte_strings(payloads@), false),
                self.wf(),
                self.stream() == old(self).stream(),
                self.pending() == capsule::unfinished(old(self).pending() + data@),
                all == capsule::datagrams(old(self).pending() + data@),
            decreases datagrams@.len() - index,
        {
            let ghost before = payloads@;
            let current = bytes_as_slice(&datagrams[index]);
            proof {
                assert(all.take(index + 1).drop_last() =~= all.take(index as int));
                assert(all.take(index + 1).last() == current@);
            }
            match forward_capsule_datagram(current) {
                Err(error) => {
                    proof {
                        lemma_malformed_stays(all, index + 1);
                    }
                    let exit = TunnelExit {
                        close: StreamClose::Stop,
                        outcome: TunnelOutcome::Violation(error),
                    };
                    return TunnelAction::Forward { payloads, exit: Some(exit) };
                },
                Ok(None) => {},
                Ok(Some(payload)) => {
                    payloads.push(vstd::slice::slice_to_vec(payload));
                    assert(buffer::byte_strings(payloads@) =~= buffer::byte_strings(before).push(
                        payload@,
                    ));
                },
            }
            index = index + 1;
        }
        assert(all.take(index as int) =~= all);
        TunnelAction::Forward { payloads, exit: None }
    }

    /// Takes in a payload from the target.
    fn socket_payload(
        &self,
        payload: &[u8],
        datagrams: bool,
        max_datagram_size: Option<usize>,
    ) -> (res: TunnelAction)
        requires
            payload@.len() <= MAX_UDP_RELAY_PAYLOAD_SIZE,
        ensures
            res@ == outgoing(self.stream(), payload@, datagrams, max_datagram_size),
    {
        proof {
            if self.stream_id < varint::VARINT_LIMIT {
                varint::varint_bytes_size((self.stream_id / 4) as nat);
            }
            varint::varint_bytes_size(payload@.len() + 1);
        }
        let datagram = match encode_target_datagram(self.stream_id, payload) {
            Err(error) => {
                return TunnelAction::Exit(
                    TunnelExit {
                        close: StreamClose::Leave,
                        outcome: TunnelOutcome::Violation(error),
                    },
                );
            },
            Ok(datagram) => datagram,
        };
        match (datagrams, max_datagram_size) {
            (true, Some(maximum)) => {
                if bytes_as_slice(&datagram).len() <= maximum {
                    TunnelAction::SendDatagram(datagram)
                } else {
                    TunnelAction::Continue
                }
            },
            _ => match encode_datagram_capsule(payload) {
                Err(error) => TunnelAction::Exit(
                    TunnelExit {
                        close: StreamClose::Leave,
                        outcome: TunnelOutcome::Violation(error),
                    },
                ),
                Ok(capsule) => TunnelAction::SendCapsule(capsule),
            },
        }
    }

    /// Says what to do about an event.
    pub fn on_event(&mut self, event: TunnelEvent) -> (res: TunnelAction)
        requires
            old(self).wf(),
            event.is_sound(),
        ensures
            final(self).wf(),
            final(self).stream() == old(self).stream(),
            final(self).pending() == event.left_pending(old(self).pending()),
            res@ == event.step(old(self).stream(), old(self).pending()),
    {
        match event {
            TunnelEvent::Shutdown => TunnelAction::Exit(
                TunnelExit { close: StreamClose::Finish, outcome: TunnelOutcome::Ended },
            ),
            TunnelEvent::Signal(Some(TunnelSignal::DatagramError)) => TunnelAction::Exit(
                TunnelExit { close: StreamClose::Stop, outcome: TunnelOutcome::Ended },
            ),
            TunnelEvent::Signal(_) => TunnelAction::Exit(
                TunnelExit { close: StreamClose::Finish, outcome: TunnelOutcome::Ended },
            ),
            TunnelEvent::StreamData(data) => self.stream_data(data),
            TunnelEvent::StreamEnded => {
                let close = match self.capsules.finish() {
                    Ok(()) => StreamClose::Leave,
                    Err(_) => StreamClose::Stop,
                };
                TunnelAction::Exit(TunnelExit { close, outcome: TunnelOutcome::Ended })
            },
            TunnelEvent::StreamFailed => TunnelAction::Exit(
                TunnelExit { close: StreamClose::Leave, outcome: TunnelOutcome::Failed },
            ),
            TunnelEvent::SocketReceived { buffer, length, datagrams, max_datagram_size } => {
                match usable_udp_payload(buffer, length) {
                    None => TunnelAction::Continue,
                    Some(payload) => self.socket_payload(payload, datagrams, max_datagram_size),
                }
            },
            TunnelEvent::ReceiveFailed { oversized } => {
                if oversized {
                    TunnelAction::Continue
                } else {
                    TunnelAction::Exit(
                        TunnelExit { close: StreamClose::Finish, outcome: TunnelOutcome::Failed },
                    )
                }
            },
            TunnelEvent::ForwardFailed { oversized, error } => {
                if oversized {
                    TunnelAction::Continue
                } else {
                    let close = match error_kind(error) {
                        IoErrorKind::InvalidData => StreamClose::Stop,
                        _ => StreamClose::Leave,
                    };
                    TunnelAction::Exit(TunnelExit { close, outcome: TunnelOutcome::Failed })
                }
            },
            TunnelEvent::DatagramFailed { too_large } => {
                if too_large {
                    TunnelAction::Continue
                } else {
                    TunnelAction::Exit(
                        TunnelExit { close: StreamClose::Leave, outcome: TunnelOutcome::Failed },
                    )
                }
            },
        }
    }
}

/// Nothing after a malformed datagram is forwarded.
proof fn lemma_malformed_stays(datagrams: Seq<Seq<u8>>, count: int)
    requires
        0 <= count <= datagrams.len(),
        forwarding(datagrams.take(count)).1,
    ensures
        forwarding(datagrams) == forwarding(datagrams.take(count)),
    decreases datagrams.len() - count,
{
    if count == datagrams.len() {
        assert(datagrams.take(count) =~= datagrams);
    } else {
        assert(datagrams.take(count + 1).drop_last() =~= datagrams.take(count));
        lemma_malformed_stays(datagrams, count + 1);
    }
}

/// Forwarding goes on where it stopped, unless it stopped at a malformed datagram.
proof fn lemma_forwarding_goes_on(first: Seq<Seq<u8>>, second: Seq<Seq<u8>>)
    ensures
        forwarding(first + second) == (if forwarding(first).1 {
            forwarding(first)
        } else {
            (forwarding(first).0 + forwarding(second).0, forwarding(second).1)
        }),
    decreases second.len(),
{
    if second.len() == 0 {
        assert(first + second =~= first);
        assert(forwarding(first).0 + forwarding(second).0 =~= forwarding(first).0);
    } else {
        lemma_forwarding_goes_on(first, second.drop_last());
        assert((first + second).drop_last() =~= first + second.drop_last());
        assert((first + second).last() == second.last());
        if let Delivery::Payload(payload) = datagram::delivery(second.last()) {
            assert((forwarding(first).0 + forwarding(second.drop_last()).0).push(payload)
                =~= forwarding(first).0 + forwarding(second.drop_last()).0.push(payload));
        }
    }
}

/// What is forwarded does not depend on how the client's bytes are cut into pieces: two pieces
/// one after the other give what both give at once, unless the first already broke the
/// framing rules, which ends the tunnel.
pub proof fn pieces_are_forwarded_alike(pending: Seq<u8>, first: Seq<u8>, second: Seq<u8>)
    ensures
        ({
            let at_once = forwarding(capsule::datagrams(pending + (first + second)));
            let before = forwarding(capsule::datagrams(pending + first));
            let after = forwarding(
                capsule::datagrams(capsule::unfinished(pending + first) + second),
            );
            at_once == (if before.1 {
                before
            } else {
                (before.0 + after.0, after.1)
            })
        }),
{
    capsule::fragmentation_is_invisible(pending, first, second);
    lemma_forwarding_goes_on(
        capsule::datagrams(pending + first),
        capsule::datagrams(capsule::unfinished(pending + first) + second),
    );
}

/// The payloads to forward of pieces that arrive one after another on a request stream, up to
/// the piece that breaks the framing rules, and whether there is such a one.
pub open spec fn forwarded_pieces(pieces: Seq<Seq<u8>>) -> (Seq<Seq<u8>>, bool)
    decreases pieces.len(),
{
    if pieces.len() == 0 {
        (Seq::empty(), false)
    } else {
        let (payloads, ended) = forwarded_pieces(pieces.drop_last());
        if ended {
            (payloads, true)
        } else {
            let pending = capsule::taken_in(pieces.drop_last()).1;
            let (more, malformed) = forwarding(capsule::datagrams(pending + pieces.last()));
            (payloads + more, malformed)
        }
    }
}

/// However many pieces the client's bytes arrive in, what is forwarded of them is what is
/// forwarded of the whole stream.
pub proof fn streams_are_forwarded_whole(pieces: Seq<Seq<u8>>)
    ensures
        forwarded_pieces(pieces) == forwarding(capsule::datagrams(capsule::joined(pieces))),
    decreases pieces.len(),
{
    let empty = Seq::<u8>::empty();
    capsule::pieces_yield_the_whole(pieces);
    if pieces.len() > 0 {
        let before = capsule::joined(pieces.drop_last());
        streams_are_forwarded_whole(pieces.drop_last());
        capsule::pieces_yield_the_whole(pieces.drop_last());
        pieces_are_forwarded_alike(empty, before, pieces.last());
        assert(empty + before =~= before);
        assert(empty + (before + pieces.last()) =~= before + pieces.last());
    } else {
        assert(capsule::taken_in(pieces).0.len() == 0);
    }
}

/// A payload that the client sends in a capsule reaches the target as it is, and nothing stays
/// pending.
pub proof fn client_capsules_are_forwarded(event: TunnelEvent, stream_id: u64, payload: Seq<u8>)
    requires
        event matches TunnelEvent::StreamData(data) && data@ == datagram::datagram_capsule(payload),
        payload.len() <= MAX_UDP_RELAY_PAYLOAD_SIZE,
    ensures
        event.step(stream_id, Seq::empty()) == (TunnelStep::Forward {
            payloads: seq![payload],
            exit: None,
        }),
        event.left_pending(Seq::empty()) == Seq::<u8>::empty(),
{
    let empty = Seq::<u8>::empty();
    let sent = datagram::datagram_capsule(payload);
    let carried = datagram::in_context_zero(payload);
    datagram::datagram_capsule_round_trip(payload, empty);
    capsule::whole_capsules_finish(Seq::empty());
    assert(sent + empty =~= sent && empty + sent =~= sent);
    assert(seq![carried] + Seq::<Seq<u8>>::empty() =~= seq![carried]);
    reveal_with_fuel(forwarding, 2);
    assert(seq![carried].drop_last() =~= Seq::<Seq<u8>>::empty());
    assert(Seq::<Seq<u8>>::empty().push(payload) =~= seq![payload]);
}

/// A payload from the target is sent to the client whole, in one datagram or one capsule, or
/// not at all; as a datagram wherever the client and the connection take datagrams, and only
/// if it fits.
pub proof fn payloads_are_never_fragmented(
    stream_id: u64,
    payload: Seq<u8>,
    datagrams: bool,
    max_datagram_size: Option<usize>,
)
    requires
        stream_id < varint::VARINT_LIMIT,
        payload.len() <= MAX_UDP_RELAY_PAYLOAD_SIZE,
    ensures
        ({
            let size = datagram::target_datagram(stream_id, payload).len();
            match outgoing(stream_id, payload, datagrams, max_datagram_size) {
                TunnelStep::SendDatagram(bytes) => {
                    &&& datagrams
                    &&& max_datagram_size matches Some(maximum) && size <= maximum
                    &&& bytes == datagram::target_datagram(stream_id, payload)
                },
                TunnelStep::SendCapsule(bytes) => {
                    &&& !datagrams || max_datagram_size is None
                    &&& capsule::datagrams(bytes) == seq![datagram::in_context_zero(payload)]
                    &&& capsule::unfinished(bytes) == Seq::<u8>::empty()
                },
                TunnelStep::Continue => {
                    &&& datagrams
                    &&& max_datagram_size matches Some(maximum) && size > maximum
                },
                _ => false,
            }
        }),
{
    let empty = Seq::<u8>::empty();
    let sent = datagram::datagram_capsule(payload);
    datagram::datagram_capsule_round_trip(payload, empty);
    capsule::whole_capsules_finish(Seq::empty());
    assert(sent + empty =~= sent);
    assert(seq![datagram::in_context_zero(payload)] + Seq::<Seq<u8>>::empty() =~= seq![
        datagram::in_context_zero(payload),
    ]);
}

/// Nothing longer than the relay limit is forwarded to the target.
pub proof fn forwarded_payloads_fit(datagrams: Seq<Seq<u8>>, index: int)
    requires
        0 <= index < forwarding(datagrams).0.len(),
    ensures
        forwarding(datagrams).0[index].len() <= MAX_UDP_RELAY_PAYLOAD_SIZE,
    decreases datagrams.len(),
{
    if datagrams.len() > 0 {
        let payloads = forwarding(datagrams.drop_last()).0;
        if index < payloads.len() {
            forwarded_payloads_fit(datagrams.drop_last(), index);
        }
    }
}

/// A payload that is too long for the socket or for the connection is dropped, and the tunnel
/// goes on.
pub proof fn oversized_payloads_do_not_end_a_tunnel(
    event: TunnelEvent,
    stream_id: u64,
    pending: Seq<u8>,
)
    requires
        event.is_oversized(),
    ensures
        event.step(stream_id, pending) == TunnelStep::Continue,
        event.left_pending(pending) == pending,
{
}

/// When the client finishes its stream, the tunnel ends without a failure, and the stream is
/// reset exactly if a capsule was cut short.
pub proof fn a_truncated_stream_is_reset(event: TunnelEvent, stream_id: u64, received: Seq<u8>)
    requires
        event is StreamEnded,
    ensures
        event.step(stream_id, capsule::unfinished(received)) == TunnelStep::Exit(
            TunnelExit {
                close: if capsule::unfinished(received).len() > 0 {
                    StreamClose::Stop
                } else {
                    StreamClose::Leave
                },
                outcome: TunnelOutcome::Ended,
            },
        ),
{
}

/// The datagrams before the first one that has no context ID.
pub open spec fn sound_front(datagrams: Seq<Seq<u8>>) -> Seq<Seq<u8>>
    decreases datagrams.len(),
{
    if datagrams.len() == 0 || varint::varint_at(datagrams[0]) is None {
        Seq::empty()
    } else {
        seq![datagrams[0]] + sound_front(datagrams.skip(1))
    }
}

/// The payloads of at most 1500 bytes that stand under context zero in `datagrams`, in order.
pub open spec fn relayable(datagrams: Seq<Seq<u8>>) -> Seq<Seq<u8>> {
    datagrams.filter(
        |datagram: Seq<u8>|
            varint::varint_at(datagram) matches Some((context, width)) && context == 0
                && datagram.len() - width <= 1500,
    ).map_values(
        |datagram: Seq<u8>| datagram.skip(varint::varint_at(datagram)->Some_0.1 as int),
    )
}

proof fn lemma_relayable_push(datagrams: Seq<Seq<u8>>, last: Seq<u8>)
    requires
        varint::varint_at(last) is Some,
    ensures
        relayable(datagrams.push(last)) == (match datagram::delivery(last) {
            Delivery::Payload(payload) => relayable(datagrams).push(payload),
            _ => relayable(datagrams),
        }),
{
    reveal(Seq::filter);
    let keep = |datagram: Seq<u8>|
        varint::varint_at(datagram) matches Some((context, width)) && context == 0
            && datagram.len() - width <= 1500;
    let cut = |datagram: Seq<u8>|
        datagram.skip(varint::varint_at(datagram)->Some_0.1 as int);
    varint::varint_is_bounded(last);
    assert(datagrams.push(last).drop_last() =~= datagrams);
    assert(datagrams.push(last).last() == last);
    if keep(last) {
        assert(datagrams.push(last).filter(keep) == datagrams.filter(keep).push(last));
        assert(datagrams.filter(keep).push(last).map_values(cut) =~= datagrams.filter(
            keep,
        ).map_values(cut).push(cut(last)));
    } else {
        assert(datagrams.push(last).filter(keep) == datagrams.filter(keep));
    }
}

proof fn lemma_sound_front(datagrams: Seq<Seq<u8>>)
    ensures
        sound_front(datagrams).len() <= datagrams.len(),
        sound_front(datagrams) == datagrams.take(sound_front(datagrams).len() as int),
        forall|i: int|
            0 <= i < sound_front(datagrams).len() ==> varint::varint_at(
                #[trigger] datagrams[i],
            ) is Some,
        sound_front(datagrams).len() < datagrams.len() ==> varint::varint_at(
            datagrams[sound_front(datagrams).len() as int],
        ) is None,
    decreases datagrams.len(),
{
    if datagrams.len() > 0 && varint::varint_at(datagrams[0]) is Some {
        let rest = datagrams.skip(1);
        let front = sound_front(rest);
        lemma_sound_front(rest);
        assert(sound_front(datagrams) =~= datagrams.take(front.len() as int + 1)) by {
            assert(front == rest.take(front.len() as int));
        }
        assert forall|i: int| 0 <= i < front.len() + 1 implies varint::varint_at(
            #[trigger] datagrams[i],
        ) is Some by {
            if i > 0 {
                assert(rest[i - 1] == datagrams[i]);
            }
        }
    } else {
        assert(datagrams.take(0) =~= Seq::<Seq<u8>>::empty());
    }
}

proof fn lemma_forwarding_of_sound(datagrams: Seq<Seq<u8>>)
    requires
        forall|i: int|
            0 <= i < datagrams.len() ==> varint::varint_at(#[trigger] datagrams[i]) is Some,
    ensures
        forwarding(datagrams) == (relayable(datagrams), false),
    decreases datagrams.len(),
{
    if datagrams.len() == 0 {
        reveal(Seq::filter);
        assert(relayable(datagrams) =~= Seq::<Seq<u8>>::empty());
    } else {
        let rest = datagrams.drop_last();
        assert forall|i: int| 0 <= i < rest.len() implies varint::varint_at(
            #[trigger] rest[i],
        ) is Some by {
            assert(rest[i] == datagrams[i]);
        }
        lemma_forwarding_of_sound(rest);
        assert(varint::varint_at(datagrams[datagrams.len() - 1]) is Some);
        lemma_relayable_push(rest, datagrams.last());
        assert(rest.push(datagrams.last()) =~= datagrams);
    }
}

proof fn lemma_forwarding(datagrams: Seq<Seq<u8>>)
    ensures
        forwarding(datagrams) == (
            relayable(sound_front(datagrams)),
            sound_front(datagrams).len() < datagrams.len(),
        ),
{
    let front = sound_front(datagrams);
    let count = front.len() as int;
    lemma_sound_front(datagrams);
    assert forall|i: int| 0 <= i < front.len() implies varint::varint_at(
        #[trigger] front[i],
    ) is Some by {
        assert(front[i] == datagrams[i]);
    }
    lemma_forwarding_of_sound(front);
    if count < datagrams.len() {
        let more = datagrams.take(count + 1);
        assert(more.drop_last() =~= front);
        assert(more.last() == datagrams[count]);
        lemma_malformed_stays(datagrams, count + 1);
    } else {
        assert(front =~= datagrams);
    }
}

/// What is done about bytes on the request stream, whatever was pending: of the datagrams in
/// the capsules that are now complete, the payloads under context zero are forwarded, each
/// whole and in order, up to the first datagram that has no context ID, which ends the tunnel.
/// What follows the last complete capsule is pending then.
pub proof fn stream_bytes_are_forwarded(
    event: TunnelEvent,
    stream_id: u64,
    pending: Seq<u8>,
    action: TunnelAction,
)
    requires
        event is StreamData,
        action@ == event.step(stream_id, pending),
    ensures
        ({
            let received = pending + event->StreamData_0@;
            let found = capsule::datagrams(received);
            let expected = relayable(sound_front(found));
            &&& action matches TunnelAction::Forward { payloads, exit }
            &&& payloads@.len() == expected.len()
            &&& forall|i: int| 0 <= i < expected.len() ==> (#[trigger] payloads@[i])@ == expected[i]
            &&& exit == (if sound_front(found).len() < found.len() {
                Some(
                    TunnelExit {
                        close: StreamClose::Stop,
                        outcome: TunnelOutcome::Violation(ProtocolError::MissingContextId),
                    },
                )
            } else {
                None
            })
            &&& event.left_pending(pending) == capsule::unfinished(received)
        }),
{
    lemma_forwarding(capsule::datagrams(pending + event->StreamData_0@));
    if let TunnelAction::Forward { payloads, exit } = action {
        let expected = forwarding(capsule::datagrams(pending + event->StreamData_0@)).0;
        assert(buffer::byte_strings(payloads@) == expected);
        assert forall|i: int| 0 <= i < expected.len() implies (#[trigger] payloads@[i])@
            == expected[i] by {
            assert(buffer::byte_strings(payloads@)[i] == expected[i]);
        }
    }
}

/// The capsules around payloads, one after another.
pub open spec fn capsules_around(payloads: Seq<Seq<u8>>) -> Seq<u8>
    decreases payloads.len(),
{
    if payloads.len() == 0 {
        Seq::empty()
    } else {
        capsules_around(payloads.drop_last()) + seq![0u8] + varint::varint_bytes(
            payloads.last().len() + 1,
        ) + seq![0u8] + payloads.last()
    }
}

proof fn lemma_capsules_around(payloads: Seq<Seq<u8>>)
    requires
        forall|i: int| 0 <= i < payloads.len() ==> (#[trigger] payloads[i]).len() <= 1500,
    ensures
        forwarding(capsule::datagrams(capsules_around(payloads))) == (payloads, false),
        capsule::unfinished(capsules_around(payloads)) == Seq::<u8>::empty(),
    decreases payloads.len(),
{
    let empty = Seq::<u8>::empty();
    capsule::whole_capsules_finish(Seq::empty());
    if payloads.len() > 0 {
        let before = payloads.drop_last();
        let last = payloads.last();
        assert forall|i: int| 0 <= i < before.len() implies (#[trigger] before[i]).len()
            <= 1500 by {
            assert(before[i] == payloads[i]);
        }
        assert(payloads[payloads.len() - 1].len() <= 1500);
        lemma_capsules_around(before);
        let sent = capsules_around(before);
        let one = datagram::datagram_capsule(last);
        assert(capsules_around(payloads) =~= sent + one);
        datagram::datagram_capsule_round_trip(last, empty);
        assert(one + empty =~= one);
        assert(empty + one =~= one && empty + sent =~= sent);
        assert(empty + (sent + one) =~= sent + one);
        capsule::fragmentation_is_invisible(empty, sent, one);
        let carried = datagram::in_context_zero(last);
        let found = capsule::datagrams(sent);
        assert(seq![carried] + Seq::<Seq<u8>>::empty() =~= seq![carried]);
        assert(found + seq![carried] =~= found.push(carried));
        assert(found.push(carried).drop_last() =~= found);
        assert(before.push(last) =~= payloads);
    } else {
        assert(payloads =~= Seq::<Seq<u8>>::empty());
    }
}

/// Any number of payloads of up to 1500 bytes, sent in capsules one after another, reach the
/// target all, as they are and in order, and nothing stays pending.
pub proof fn every_payload_reaches_the_target(
    event: TunnelEvent,
    stream_id: u64,
    payloads: Seq<Seq<u8>>,
    action: TunnelAction,
)
    requires
        event matches TunnelEvent::StreamData(data) && data@ == capsules_around(payloads),
        forall|i: int| 0 <= i < payloads.len() ==> (#[trigger] payloads[i]).len() <= 1500,
        action@ == event.step(stream_id, Seq::empty()),
    ensures
        action matches TunnelAction::Forward { payloads: sent, exit } && exit is None && sent@.len()
            == payloads.len() && forall|i: int|
            0 <= i < payloads.len() ==> (#[trigger] sent@[i])@ == payloads[i],
        event.left_pending(Seq::empty()) == Seq::<u8>::empty(),
{
    lemma_capsules_around(payloads);
    assert(Seq::<u8>::empty() + capsules_around(payloads) =~= capsules_around(payloads));
    if let TunnelAction::Forward { payloads: sent, exit } = action {
        assert(buffer::byte_strings(sent@) == payloads);
        assert forall|i: int| 0 <= i < payloads.len() implies (#[trigger] sent@[i])@
            == payloads[i] by {
            assert(buffer::byte_strings(sent@)[i] == payloads[i]);
        }
    }
}

/// The pieces of a request stream, joined up.
pub open spec fn stream_of(pieces: Seq<&[u8]>) -> Seq<u8>
    decreases pieces.len(),
{
    if pieces.len() == 0 {
        Seq::empty()
    } else {
        stream_of(pieces.drop_last()) + pieces.last()@
    }
}

/// What a tunnel forwards of pieces that arrive one after another, as far as it does not end,
/// whether it has ended, and what is pending then; by the steps that it takes.
pub open spec fn steps_taken(stream_id: u64, pieces: Seq<&[u8]>) -> (Seq<Seq<u8>>, bool, Seq<u8>)
    decreases pieces.len(),
{
    if pieces.len() == 0 {
        (Seq::empty(), false, Seq::empty())
    } else {
        let (sent, ended, pending) = steps_taken(stream_id, pieces.drop_last());
        let event = TunnelEvent::StreamData(pieces.last());
        if ended {
            (sent, true, pending)
        } else {
            match event.step(stream_id, pending) {
                TunnelStep::Forward { payloads, exit } => (
                    sent + payloads,
                    exit is Some,
                    event.left_pending(pending),
                ),
                _ => (sent, true, pending),
            }
        }
    }
}

/// However many pieces the client's bytes arrive in, the steps that a tunnel takes forward,
/// all in all, the payloads under context zero in the whole stream, in order, up to the first
/// datagram that has no context ID; and as long as there is none, what follows the last
/// complete capsule of the whole stream is pending.
pub proof fn steps_forward_the_whole_stream(stream_id: u64, pieces: Seq<&[u8]>)
    ensures
        ({
            let found = capsule::datagrams(stream_of(pieces));
            let (sent, ended, pending) = steps_taken(stream_id, pieces);
            &&& sent == relayable(sound_front(found))
            &&& ended == (sound_front(found).len() < found.len())
            &&& !ended ==> pending == capsule::unfinished(stream_of(pieces))
        }),
    decreases pieces.len(),
{
    let empty = Seq::<u8>::empty();
    lemma_forwarding(capsule::datagrams(stream_of(pieces)));
    if pieces.len() == 0 {
        capsule::whole_capsules_finish(Seq::empty());
        assert(forwarding(Seq::empty()) == (Seq::<Seq<u8>>::empty(), false));
    } else {
        let before = stream_of(pieces.drop_last());
        let last = pieces.last()@;
        steps_forward_the_whole_stream(stream_id, pieces.drop_last());
        lemma_forwarding(capsule::datagrams(before));
        pieces_are_forwarded_alike(empty, before, last);
        capsule::fragmentation_is_invisible(empty, before, last);
        assert(empty + before =~= before);
        assert(empty + (before + last) =~= before + last);
    }
}

/// What is done about a payload of up to 1500 bytes from the target: the received bytes are
/// sent to the client, all of them and no others, behind the stream's name and context zero as
/// a datagram, or behind context zero as the one capsule; nothing is sent only where the
/// datagram, taken whole, is longer than the connection takes.
pub proof fn received_payloads_are_sent_whole(
    event: TunnelEvent,
    stream_id: u64,
    pending: Seq<u8>,
    action: TunnelAction,
)
    requires
        event matches TunnelEvent::SocketReceived { buffer, length, .. } && length <= 1500
            && length <= buffer@.len(),
        stream_id < 4611686018427387904,
        action@ == event.step(stream_id, pending),
    ensures
        event.is_sound(),
        event.left_pending(pending) == pending,
        ({
            let received = event->SocketReceived_buffer@.take(
                event->SocketReceived_length as int,
            );
            let datagrams = event->SocketReceived_datagrams;
            let maximum = event->SocketReceived_max_datagram_size;
            let name = varint::varint_bytes((stream_id / 4) as nat);
            let length = varint::varint_bytes(received.len() + 1);
            match action {
                TunnelAction::SendDatagram(sent) => {
                    &&& datagrams && maximum is Some
                    &&& name.len() + 1 + received.len() <= maximum->Some_0
                    &&& buffer::bytes_content(sent) == name + seq![0u8] + received
                },
                TunnelAction::SendCapsule(sent) => {
                    &&& !datagrams || maximum is None
                    &&& buffer::bytes_content(sent) == seq![0u8] + length + seq![0u8] + received
                },
                TunnelAction::Continue => {
                    &&& datagrams && maximum is Some
                    &&& name.len() + 1 + received.len() > maximum->Some_0
                },
                _ => false,
            }
        }),
{
    let received = event->SocketReceived_buffer@.take(event->SocketReceived_length as int);
    let name = varint::varint_bytes((stream_id / 4) as nat);
    let length = varint::varint_bytes(received.len() + 1);
    assert(name + (seq![0u8] + received) =~= name + seq![0u8] + received);
    assert(seq![0u8] + length + (seq![0u8] + received) =~= seq![0u8] + length + seq![0u8]
        + received);
}

/// What is done about every event that is not about bytes to relay: a tunnel goes on only past
/// payloads that are too long, and how its stream is left is told by the event.
pub proof fn other_events_end_a_tunnel(
    event: TunnelEvent,
    stream_id: u64,
    pending: Seq<u8>,
    action: TunnelAction,
)
    requires
        action@ == event.step(stream_id, pending),
    ensures
        ({
            let ends = |close: StreamClose, outcome: TunnelOutcome|
                action == TunnelAction::Exit(TunnelExit { close, outcome });
            match event {
                TunnelEvent::Shutdown => ends(StreamClose::Finish, TunnelOutcome::Ended),
                TunnelEvent::Signal(signal) => if signal == Some(TunnelSignal::DatagramError) {
                    ends(StreamClose::Stop, TunnelOutcome::Ended)
                } else {
                    ends(StreamClose::Finish, TunnelOutcome::Ended)
                },
                TunnelEvent::StreamEnded => if pending.len() > 0 {
                    ends(StreamClose::Stop, TunnelOutcome::Ended)
                } else {
                    ends(StreamClose::Leave, TunnelOutcome::Ended)
                },
                TunnelEvent::StreamFailed => ends(StreamClose::Leave, TunnelOutcome::Failed),
                TunnelEvent::ReceiveFailed { oversized } => if oversized {
                    action is Continue
                } else {
                    ends(StreamClose::Finish, TunnelOutcome::Failed)
                },
                TunnelEvent::ForwardFailed { oversized, error } => if oversized {
                    action is Continue
                } else if outside::io_error_kind(*error) == IoErrorKind::InvalidData {
                    ends(StreamClose::Stop, TunnelOutcome::Failed)
                } else {
                    ends(StreamClose::Leave, TunnelOutcome::Failed)
                },
                TunnelEvent::DatagramFailed { too_large } => if too_large {
                    action is Continue
                } else {
                    ends(StreamClose::Leave, TunnelOutcome::Failed)
                },
                TunnelEvent::SocketReceived { length, .. } => if length > 1500 {
                    action is Continue
                } else {
                    stream_id >= 4611686018427387904 ==> ends(
                        StreamClose::Leave,
                        TunnelOutcome::Violation(ProtocolError::InvalidStreamId),
                    )
                },
                TunnelEvent::StreamData(_) => true,
            }
        }),
        !(event is StreamData) ==> event.left_pending(pending) == pending,
        !(event is SocketReceived) ==> event.is_sound(),
        event matches TunnelEvent::SocketReceived { length, .. } && length > 1500
            ==> event.is_sound(),
{
}

} // verus!
