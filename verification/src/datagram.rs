//! UDP payloads on their way through a tunnel: as HTTP datagrams and as capsules.
//!
//! In both forms a payload is preceded by a context ID; context zero is the payload of the
//! UDP flow itself, and no other context is in use.

use crate::buffer::{put_quic_integer, quic_integer_size, stream_index, Content};
use crate::capsule::{DATAGRAM_CAPSULE_TYPE, MAX_UDP_RELAY_PAYLOAD_SIZE};
use crate::error::ProtocolError;
use crate::varint::decode_varint;
use crate::{capsule, varint};
use bytes::{Bytes, BytesMut};
use vstd::prelude::*;

verus! {

/// A payload under context zero.
pub open spec fn in_context_zero(payload: Seq<u8>) -> Seq<u8> {
    seq![0u8] + payload
}

/// The HTTP datagram that carries `payload` on the request stream `stream_id`: a quarter of
/// the stream's ID, the context, the payload.
pub open spec fn target_datagram(stream_id: u64, payload: Seq<u8>) -> Seq<u8> {
    varint::varint_bytes((stream_id / 4) as nat) + in_context_zero(payload)
}

/// The capsule that carries `payload`: type zero, the length of what follows, the context,
/// the payload.
pub open spec fn datagram_capsule(payload: Seq<u8>) -> Seq<u8> {
    seq![0u8] + varint::varint_bytes(payload.len() + 1) + in_context_zero(payload)
}

/// What a datagram from the client asks for.
pub enum Delivery {
    /// There is no context ID.
    Malformed,
    /// The context is not in use or the payload is too long to be relayed.
    Ignored,
    /// The payload goes to the target.
    Payload(Seq<u8>),
}

/// What a datagram from the client asks for.
pub open spec fn delivery(datagram: Seq<u8>) -> Delivery {
    match varint::varint_at(datagram) {
        None => Delivery::Malformed,
        Some((context, width)) => {
            let payload = datagram.skip(width as int);
            if context != 0 || payload.len() > MAX_UDP_RELAY_PAYLOAD_SIZE {
                Delivery::Ignored
            } else {
                Delivery::Payload(payload)
            }
        },
    }
}

/// Wraps a payload from the target into a capsule.
pub fn encode_datagram_capsule(payload: &[u8]) -> (res: Result<Bytes, ProtocolError>)
    requires
        payload@.len() <= isize::MAX,
        payload@.len() + 1 < varint::VARINT_LIMIT ==> datagram_capsule(payload@).len()
            <= isize::MAX,
    ensures
        payload@.len() + 1 < varint::VARINT_LIMIT ==> (res matches Ok(capsule)
            && capsule.content() == datagram_capsule(payload@)),
        payload@.len() + 1 >= varint::VARINT_LIMIT ==> res == Err::<Bytes, ProtocolError>(
            ProtocolError::CapsuleTooLarge,
        ),
{
    let capsule_length: u64 = (1 + payload.len()) as u64;
    match quic_integer_size(capsule_length) {
        None => Err(ProtocolError::CapsuleTooLarge),
        Some(size) => {
            proof {
                varint::varint_bytes_size(capsule_length as nat);
            }
            let mut capsule = BytesMut::with_capacity(1 + size + 1 + payload.len());
            capsule.extend_from_slice(&[DATAGRAM_CAPSULE_TYPE as u8]);
            put_quic_integer(capsule_length, &mut capsule);
            capsule.extend_from_slice(&[0]);
            capsule.extend_from_slice(payload);
            assert(capsule.content() =~= datagram_capsule(payload@));
            Ok(capsule.freeze())
        },
    }
}

/// Wraps a payload from the target into an HTTP datagram.
pub fn encode_target_datagram(stream_id: u64, payload: &[u8]) -> (res: Result<
    Bytes,
    ProtocolError,
>)
    requires
        stream_id < varint::VARINT_LIMIT ==> target_datagram(stream_id, payload@).len()
            <= isize::MAX,
    ensures
        stream_id < varint::VARINT_LIMIT ==> (res matches Ok(datagram) && datagram.content()
            == target_datagram(stream_id, payload@)),
        stream_id >= varint::VARINT_LIMIT ==> res == Err::<Bytes, ProtocolError>(
            ProtocolError::InvalidStreamId,
        ),
{
    let quarter_stream_id: u64 = match stream_index(stream_id) {
        None => {
            return Err(ProtocolError::InvalidStreamId);
        },
        Some(index) => index,
    };
    match quic_integer_size(quarter_stream_id) {
        None => Err(ProtocolError::InvalidStreamId),
        Some(size) => {
            proof {
                varint::varint_bytes_size(quarter_stream_id as nat);
            }
            let mut datagram = BytesMut::with_capacity(size + 1 + payload.len());
            put_quic_integer(quarter_stream_id, &mut datagram);
            datagram.extend_from_slice(&[0]);
            datagram.extend_from_slice(payload);
            assert(datagram.content() =~= target_datagram(stream_id, payload@));
            Ok(datagram.freeze())
        },
    }
}

/// The `length` bytes that were received into `payload`, unless they are more than is
/// relayed.
pub fn usable_udp_payload(payload: &[u8], length: usize) -> (res: Option<&[u8]>)
    requires
        length <= MAX_UDP_RELAY_PAYLOAD_SIZE ==> length <= payload@.len(),
    ensures
        res is Some <==> length <= MAX_UDP_RELAY_PAYLOAD_SIZE,
        res matches Some(usable) ==> usable@ == payload@.take(length as int),
{
    if length <= MAX_UDP_RELAY_PAYLOAD_SIZE {
        let usable = vstd::slice::slice_subrange(payload, 0, length);
        assert(usable@ =~= payload@.take(length as int));
        Some(usable)
    } else {
        None
    }
}

/// The payload that a datagram capsule asks to forward, if any.
pub fn forward_capsule_datagram(datagram: &[u8]) -> (res: Result<Option<&[u8]>, ProtocolError>)
    ensures
        match delivery(datagram@) {
            Delivery::Malformed => res == Err::<Option<&[u8]>, ProtocolError>(
                ProtocolError::MissingContextId,
            ),
            Delivery::Ignored => res matches Ok(None),
            Delivery::Payload(payload) => res matches Ok(Some(forwarded)) && forwarded@ == payload,
        },
{
    match decode_varint(datagram) {
        None => Err(ProtocolError::MissingContextId),
        Some((context_id, payload)) => {
            if context_id != 0 || payload.len() > MAX_UDP_RELAY_PAYLOAD_SIZE {
                Ok(None)
            } else {
                Ok(Some(payload))
            }
        },
    }
}

/// A payload under context zero asks to be forwarded as it is, up to the size that is relayed.
pub proof fn context_zero_is_forwarded(payload: Seq<u8>)
    ensures
        delivery(in_context_zero(payload)) == (if payload.len() <= MAX_UDP_RELAY_PAYLOAD_SIZE {
            Delivery::Payload(payload)
        } else {
            Delivery::Ignored
        }),
{
    lemma_zero_byte();
    varint::varint_round_trip(0, payload);
}

proof fn lemma_zero_byte()
    ensures
        varint::varint_bytes(0) == seq![0u8],
        varint::varint_size(0) == 1,
{
    reveal_with_fuel(varint::be_bytes, 2);
    assert(varint::be_bytes(0, 0) =~= Seq::<u8>::empty());
    assert(varint::varint_bytes(0) =~= seq![0u8]);
}

/// Only payloads that fit the relay limit are ever forwarded, and only under context zero.
pub proof fn forwarded_payloads_are_bounded(datagram: Seq<u8>)
    ensures
        delivery(datagram) matches Delivery::Payload(payload) ==> payload.len()
            <= MAX_UDP_RELAY_PAYLOAD_SIZE && varint::varint_at(datagram)->Some_0.0 == 0,
{
}

/// A datagram for the client names the request stream by a quarter of its ID in the shortest
/// form. What follows the name is context zero, and what follows that is the payload; a client
/// that relays likewise forwards it.
pub proof fn target_datagram_round_trip(stream_id: u64, payload: Seq<u8>)
    requires
        stream_id < varint::VARINT_LIMIT,
    ensures
        varint::varint_at(target_datagram(stream_id, payload)) matches Some((index, width))
            && index == stream_id / 4 && width == varint::varint_size((stream_id / 4) as nat)
            && target_datagram(stream_id, payload).skip(width as int) == in_context_zero(payload),
        varint::varint_at(in_context_zero(payload)) == Some((0nat, 1nat)),
        in_context_zero(payload).skip(1) == payload,
        payload.len() <= MAX_UDP_RELAY_PAYLOAD_SIZE ==> delivery(in_context_zero(payload))
            == Delivery::Payload(payload),
{
    varint::varint_round_trip((stream_id / 4) as nat, in_context_zero(payload));
    context_zero_is_forwarded(payload);
    lemma_zero_byte();
    varint::varint_round_trip(0, payload);
}

/// The capsule around a payload that is relayed reads back as that payload, whatever capsules
/// follow it.
pub proof fn datagram_capsule_round_trip(payload: Seq<u8>, rest: Seq<u8>)
    requires
        payload.len() <= MAX_UDP_RELAY_PAYLOAD_SIZE,
    ensures
        capsule::datagrams(datagram_capsule(payload) + rest) == seq![in_context_zero(payload)]
            + capsule::datagrams(rest),
        capsule::unfinished(datagram_capsule(payload) + rest) == capsule::unfinished(rest),
        delivery(in_context_zero(payload)) == Delivery::Payload(payload),
{
    lemma_zero_byte();
    context_zero_is_forwarded(payload);
    capsule::capsule_round_trip(0, in_context_zero(payload), rest);
}

/// A context ID in any form, and then a payload: the payload is asked to be forwarded, all of
/// it, if the context is zero and the payload is at most 1500 bytes long, and is ignored
/// otherwise. Without a context ID nothing can be told.
pub proof fn payloads_follow_their_context(context: Seq<u8>, payload: Seq<u8>, cut_short: Seq<u8>)
    requires
        varint::varint_at(context) matches Some((_, width)) && width == context.len(),
        varint::varint_at(cut_short) is None,
    ensures
        delivery(context + payload) == (if varint::varint_at(context)->Some_0.0 == 0
            && payload.len() <= 1500 {
            Delivery::Payload(payload)
        } else {
            Delivery::Ignored
        }),
        delivery(cut_short) == Delivery::Malformed,
{
    varint::varint_ignores_what_follows(context, payload);
    assert((context + payload).skip(context.len() as int) =~= payload);
}

/// What is returned for a datagram, by its context ID and what follows it.
pub proof fn datagrams_are_forwarded_by_their_context(
    datagram: Seq<u8>,
    res: Result<Option<&[u8]>, ProtocolError>,
)
    requires
        match delivery(datagram) {
            Delivery::Malformed => res == Err::<Option<&[u8]>, ProtocolError>(
                ProtocolError::MissingContextId,
            ),
            Delivery::Ignored => res matches Ok(None),
            Delivery::Payload(payload) => res matches Ok(Some(forwarded)) && forwarded@ == payload,
        },
    ensures
        match varint::varint_at(datagram) {
            None => res == Err::<Option<&[u8]>, ProtocolError>(ProtocolError::MissingContextId),
            Some((context, width)) => if context == 0 && datagram.len() - width <= 1500 {
                res matches Ok(Some(forwarded)) && datagram == datagram.take(width as int)
                    + forwarded@
            } else {
                res matches Ok(None)
            },
        },
{
    if varint::varint_at(datagram) is Some {
        varint::varint_is_bounded(datagram);
        let width = varint::varint_at(datagram)->Some_0.1 as int;
        assert(datagram =~= datagram.take(width) + datagram.skip(width));
    }
}

/// What is written for a payload, byte for byte: as a datagram a quarter of the stream's ID,
/// a zero and the payload; as a capsule a zero, the length of what follows, a zero and the
/// payload.
pub proof fn payloads_are_written_whole(stream_id: u64, payload: Seq<u8>)
    requires
        stream_id < 4611686018427387904,
        payload.len() + 1 < 4611686018427387904,
    ensures
        ({
            let name = varint::varint_bytes((stream_id / 4) as nat);
            let sent = target_datagram(stream_id, payload);
            &&& sent.len() == name.len() + 1 + payload.len()
            &&& sent.take(name.len() as int) == name
            &&& sent[name.len() as int] == 0
            &&& sent.skip(name.len() as int + 1) == payload
        }),
        ({
            let length = varint::varint_bytes(payload.len() + 1);
            let sent = datagram_capsule(payload);
            &&& sent.len() == length.len() + 2 + payload.len()
            &&& sent[0] == 0
            &&& sent.subrange(1, 1 + length.len() as int) == length
            &&& sent[1 + length.len() as int] == 0
            &&& sent.skip(2 + length.len() as int) == payload
        }),
{
    let name = varint::varint_bytes((stream_id / 4) as nat);
    let sent = target_datagram(stream_id, payload);
    assert(sent.take(name.len() as int) =~= name);
    assert(sent.skip(name.len() as int + 1) =~= payload);
    let length = varint::varint_bytes(payload.len() + 1);
    let boxed = datagram_capsule(payload);
    assert(boxed.subrange(1, 1 + length.len() as int) =~= length);
    assert(boxed.skip(2 + length.len() as int) =~= payload);
}

} // verus!
