//! The capsule protocol: a byte stream cut into typed, length-prefixed capsules.
//!
//! A capsule is its type and the length of its payload, both variable-length integers, and
//! then the payload. Capsules of type zero carry one HTTP datagram each; all others are
//! skipped, and so are datagrams that no tunnel could forward.

use crate::buffer::Content;
use crate::error::ProtocolError;
use crate::varint::decode_varint_length;
use crate::{buffer, varint};
use bytes::{Bytes, BytesMut};
use vstd::prelude::*;

verus! {

/// The largest UDP payload that is relayed.
pub const MAX_UDP_RELAY_PAYLOAD_SIZE: usize = 1500;

/// The capsule type that carries an HTTP datagram.
pub const DATAGRAM_CAPSULE_TYPE: u64 = 0;

/// The largest datagram capsule that is buffered: a relayed payload and a context ID.
pub const MAX_CAPSULE_DATAGRAM_SIZE: usize = MAX_UDP_RELAY_PAYLOAD_SIZE + 8;

/// The longest possible capsule header.
pub const MAX_CAPSULE_HEADER_SIZE: usize = 16;

/// The header at the front of `data`, if it is all there: the capsule's type, the length of
/// its payload, and the length of the header itself.
pub open spec fn header_at(data: Seq<u8>) -> Option<(nat, nat, nat)> {
    match varint::varint_at(data) {
        None => None,
        Some((capsule_type, type_width)) => match varint::varint_at(
            data.skip(type_width as int),
        ) {
            None => None,
            Some((length, length_width)) => Some((capsule_type, length, type_width + length_width)),
        },
    }
}

/// The capsule at the front of `data`, if it is all there: its type, its payload and the
/// number of bytes that it takes up.
#[verifier::opaque]
pub open spec fn capsule_at(data: Seq<u8>) -> Option<(nat, Seq<u8>, nat)> {
    match header_at(data) {
        None => None,
        Some((capsule_type, length, header)) => if data.len() < header + length {
            None
        } else {
            Some(
                (
                    capsule_type,
                    data.subrange(header as int, (header + length) as int),
                    header + length,
                ),
            )
        },
    }
}

/// Whether a capsule of this type and length is handed on.
pub open spec fn carries_datagram(capsule_type: nat, length: nat) -> bool {
    capsule_type == DATAGRAM_CAPSULE_TYPE && length <= MAX_CAPSULE_DATAGRAM_SIZE
}

/// What one capsule contributes to the datagrams of a stream.
pub open spec fn datagram_of(capsule_type: nat, payload: Seq<u8>) -> Seq<Seq<u8>> {
    if carries_datagram(capsule_type, payload.len()) {
        seq![payload]
    } else {
        Seq::empty()
    }
}

/// The datagrams in the complete capsules of `data`, in order.
pub open spec fn datagrams(data: Seq<u8>) -> Seq<Seq<u8>>
    decreases data.len(),
    via datagrams_decreases
{
    match capsule_at(data) {
        None => Seq::empty(),
        Some((capsule_type, payload, size)) => datagram_of(capsule_type, payload) + datagrams(
            data.skip(size as int),
        ),
    }
}

/// What follows the last complete capsule of `data`.
pub open spec fn unfinished(data: Seq<u8>) -> Seq<u8>
    decreases data.len(),
    via unfinished_decreases
{
    match capsule_at(data) {
        None => data,
        Some((_, _, size)) => unfinished(data.skip(size as int)),
    }
}

#[via_fn]
proof fn datagrams_decreases(data: Seq<u8>) {
    reveal(capsule_at);
    lemma_header_bounds(data);
}

#[via_fn]
proof fn unfinished_decreases(data: Seq<u8>) {
    reveal(capsule_at);
    lemma_header_bounds(data);
}

/// A header is two to sixteen bytes long and lies within the data.
proof fn lemma_header_bounds(data: Seq<u8>)
    ensures
        header_at(data) matches Some((capsule_type, length, header)) ==> 2 <= header <= 16
            && header <= data.len() && capsule_type < varint::VARINT_LIMIT && length
            < varint::VARINT_LIMIT,
{
    if varint::varint_at(data) is Some {
        varint::varint_is_bounded(data);
        let rest = data.skip(varint::varint_at(data)->Some_0.1 as int);
        if varint::varint_at(rest) is Some {
            varint::varint_is_bounded(rest);
        }
    }
}

/// Sixteen bytes always hold a header.
proof fn lemma_header_complete(data: Seq<u8>)
    requires
        data.len() >= 16,
    ensures
        header_at(data) is Some,
{
    varint::varint_is_bounded(data);
}

/// A header does not depend on what follows it.
proof fn lemma_header_ignores_what_follows(data: Seq<u8>, rest: Seq<u8>)
    requires
        header_at(data) is Some,
    ensures
        header_at(data + rest) == header_at(data),
{
    varint::varint_ignores_what_follows(data, rest);
    varint::varint_is_bounded(data);
    let width = varint::varint_at(data)->Some_0.1 as int;
    assert((data + rest).skip(width) =~= data.skip(width) + rest);
    varint::varint_ignores_what_follows(data.skip(width), rest);
}

/// A header does not depend on more than its own bytes.
proof fn lemma_header_stands_alone(data: Seq<u8>, count: int)
    requires
        header_at(data) matches Some((_, _, header)) && header <= count <= data.len(),
    ensures
        header_at(data.take(count)) == header_at(data),
{
    varint::varint_is_bounded(data);
    let width = varint::varint_at(data)->Some_0.1 as int;
    varint::varint_is_bounded(data.skip(width));
    assert(data.take(count).take(width) =~= data.take(width));
    let rest = data.skip(width);
    let next = varint::varint_at(rest)->Some_0.1 as int;
    assert(data.take(count).skip(width) =~= rest.take(count - width));
    assert(rest.take(count - width).take(next) =~= rest.take(next));
}

/// A stream that starts with one exact capsule.
proof fn lemma_capsule_ends(capsule: Seq<u8>, rest: Seq<u8>)
    requires
        header_at(capsule) matches Some((_, length, header)) && capsule.len() == header + length,
    ensures
        datagrams(capsule + rest) == datagram_of(
            header_at(capsule)->Some_0.0,
            capsule.skip(header_at(capsule)->Some_0.2 as int),
        ) + datagrams(rest),
        unfinished(capsule + rest) == unfinished(rest),
{
    reveal(capsule_at);
    lemma_header_ignores_what_follows(capsule, rest);
    let header = header_at(capsule)->Some_0.2 as int;
    assert((capsule + rest).subrange(header, capsule.len() as int) =~= capsule.skip(header));
    assert((capsule + rest).skip(capsule.len() as int) =~= rest);
}

/// Reads a capsule header: the capsule's type and the length of its payload.
pub fn decode_capsule_header(data: &[u8]) -> (res: Option<(u64, u64)>)
    ensures
        res is Some <==> header_at(data@) is Some,
        res matches Some((capsule_type, length)) ==> header_at(data@)->Some_0.0 == capsule_type
            && header_at(data@)->Some_0.1 == length,
{
    match decode_varint_length(data) {
        None => None,
        Some((capsule_type, type_length)) => {
            let rest = vstd::slice::slice_subrange(data, type_length, data.len());
            match decode_varint_length(rest) {
                None => None,
                Some((capsule_length, _)) => Some((capsule_type, capsule_length)),
            }
        },
    }
}

enum CapsuleState {
    Header { bytes: [u8; 16], length: usize },
    Payload { capsule_type: u64, remaining: u64, datagram: Option<BytesMut> },
}

/// Cuts a stream that arrives in pieces into capsules.
pub struct CapsuleDecoder {
    state: CapsuleState,
    pending: Ghost<Seq<u8>>,
}

impl CapsuleState {
    /// Whether the state is what is kept of `pending`, the bytes since the last complete
    /// capsule.
    #[verifier::opaque]
    spec fn keeps(self, pending: Seq<u8>) -> bool {
        match self {
            CapsuleState::Header { bytes, length } => {
                &&& length < 16
                &&& pending == bytes@.take(length as int)
                &&& header_at(pending) is None
            },
            CapsuleState::Payload { capsule_type, remaining, datagram } => {
                &&& header_at(pending) matches Some((kind, length, header))
                &&& kind == capsule_type
                &&& remaining > 0
                &&& remaining + pending.len() == header + length
                &&& datagram is Some <==> carries_datagram(kind, length)
                &&& datagram matches Some(held) ==> held.content() == pending.skip(header as int)
            },
        }
    }

    fn default_header() -> (res: Self)
        ensures
            res.keeps(Seq::empty()),
    {
        reveal(CapsuleState::keeps);
        let res = CapsuleState::Header { bytes: [0; 16], length: 0 };
        assert(res->bytes@.take(0) =~= Seq::<u8>::empty());
        res
    }
}

impl View for CapsuleDecoder {
    type V = Seq<u8>;

    /// The bytes that arrived since the last complete capsule.
    closed spec fn view(&self) -> Seq<u8> {
        self.pending@
    }
}

impl Default for CapsuleDecoder {
    /// A decoder at the start of a stream.
    fn default() -> (res: Self)
        ensures
            res.wf(),
            res@ == Seq::<u8>::empty(),
    {
        CapsuleDecoder { state: CapsuleState::default_header(), pending: Ghost(Seq::empty()) }
    }
}

impl CapsuleDecoder {
    /// Whether what the decoder keeps is what arrived since the last complete capsule.
    pub closed spec fn wf(&self) -> bool {
        self.state.keeps(self.pending@)
    }

    /// Succeeds if the stream may end here: nothing is pending.
    pub fn finish(&self) -> (res: Result<(), ProtocolError>)
        requires
            self.wf(),
        ensures
            res == (if self@.len() == 0 {
                Ok::<(), ProtocolError>(())
            } else {
                Err(ProtocolError::TruncatedCapsule)
            }),
    {
        proof {
            reveal(CapsuleState::keeps);
            lemma_header_bounds(self.pending@);
        }
        match &self.state {
            CapsuleState::Header { length: 0, .. } => Ok(()),
            _ => Err(ProtocolError::TruncatedCapsule),
        }
    }

    /// Takes in the next byte of a header, and returns the datagram if that makes it a
    /// complete capsule.
    fn header_byte(&mut self, byte: u8) -> (res: Result<Option<Bytes>, ProtocolError>)
        requires
            old(self).wf(),
            old(self).state is Header,
        ensures
            final(self).wf(),
            res matches Ok(datagram) && follows(old(self)@.push(byte), final(self)@, datagram),
    {
        reveal(follows);
        let ghost now = self.pending@.push(byte);
        proof {
            reveal(CapsuleState::keeps);
            assert(now.take(self.pending@.len() as int) =~= self.pending@);
            lemma_header_bounds(now);
            if header_at(now) is Some && header_at(now)->Some_0.2 < now.len() {
                lemma_header_stands_alone(now, self.pending@.len() as int);
            }
            assert(now.skip(now.len() as int) =~= Seq::<u8>::empty());
        }
        if let CapsuleState::Header { bytes, length } = &mut self.state {
            bytes[*length] = byte;
            *length = *length + 1;
            assert(bytes@.take(*length as int) =~= now);
            let front = vstd::slice::slice_subrange(bytes.as_slice(), 0, *length);
            if let Some((capsule_type, capsule_length)) = decode_capsule_header(front) {
                if capsule_length == 0 {
                    self.state = CapsuleState::default_header();
                    self.pending = Ghost(Seq::empty());
                    if capsule_type == DATAGRAM_CAPSULE_TYPE {
                        return Ok(Some(Bytes::new()));
                    }
                    return Ok(None);
                }
                let datagram = if capsule_type == DATAGRAM_CAPSULE_TYPE && capsule_length
                    <= MAX_CAPSULE_DATAGRAM_SIZE as u64 {
                    Some(BytesMut::with_capacity(capsule_length as usize))
                } else {
                    None
                };
                self.state =
                CapsuleState::Payload { capsule_type, remaining: capsule_length, datagram };
            } else {
                proof {
                    if now.len() >= 16 {
                        lemma_header_complete(now);
                    }
                }
                if *length == MAX_CAPSULE_HEADER_SIZE {
                    return Err(ProtocolError::InvalidCapsuleHeader);
                }
            }
        }
        self.pending = Ghost(now);
        Ok(None)
    }

    /// Takes in the next piece of a payload, at most up to its end, and returns the datagram
    /// if that completes the capsule.
    fn payload_piece(&mut self, piece: &[u8]) -> (res: Option<Bytes>)
        requires
            old(self).wf(),
            old(self).state matches CapsuleState::Payload { remaining, .. } && piece@.len()
                <= remaining,
        ensures
            final(self).wf(),
            follows(old(self)@ + piece@, final(self)@, res),
    {
        reveal(follows);
        let ghost before = self.pending@;
        let ghost now = before + piece@;
        let ghost header = header_at(before)->Some_0.2 as int;
        proof {
            reveal(CapsuleState::keeps);
            lemma_header_bounds(before);
            lemma_header_ignores_what_follows(before, piece@);
            assert(before.skip(header) + piece@ =~= now.skip(header));
        }
        if let CapsuleState::Payload { capsule_type, remaining, datagram } = &mut self.state {
            if let Some(held) = datagram {
                held.extend_from_slice(piece);
            }
            *remaining = *remaining - piece.len() as u64;
            if *remaining == 0 {
                let datagram = if *capsule_type == DATAGRAM_CAPSULE_TYPE {
                    datagram.take()
                } else {
                    None
                };
                self.state = CapsuleState::default_header();
                self.pending = Ghost(Seq::empty());
                return match datagram {
                    Some(held) => Some(held.freeze()),
                    None => None,
                };
            }
        }
        self.pending = Ghost(now);
        None
    }

    /// Takes in the next piece of the stream and returns the datagrams that it completes.
    pub fn push(&mut self, input: &[u8]) -> (res: Result<Vec<Bytes>, ProtocolError>)
        requires
            old(self).wf(),
        ensures
            final(self).wf(),
            final(self)@ == unfinished(old(self)@ + input@),
            res matches Ok(list) && buffer::contents(list@) == datagrams(old(self)@ + input@),
    {
        let mut list: Vec<Bytes> = Vec::new();
        let mut offset: usize = 0;
        let ghost total = self@ + input@;
        proof {
            assert(input@.skip(0) =~= input@);
            assert(buffer::contents(list@) + datagrams(total) =~= datagrams(total));
        }
        while offset < input.len()
            invariant
                offset <= input@.len(),
                self.wf(),
                datagrams(total) == buffer::contents(list@) + datagrams(
                    self@ + input@.skip(offset as int),
                ),
                unfinished(total) == unfinished(self@ + input@.skip(offset as int)),
            decreases input@.len() - offset,
        {
            let ghost before = self@;
            let ghost listed = list@;
            let ghost left = input@.skip(offset as int);
            let amount: usize = match &self.state {
                CapsuleState::Header { .. } => 1,
                CapsuleState::Payload { remaining, .. } => {
                    let available: usize = input.len() - offset;
                    assert(*remaining > 0) by {
                        reveal(CapsuleState::keeps);
                    }
                    if *remaining < available as u64 {
                        *remaining as usize
                    } else {
                        available
                    }
                },
            };
            let piece = vstd::slice::slice_subrange(input, offset, offset + amount);
            let completed = match &self.state {
                CapsuleState::Header { .. } => {
                    assert(before + piece@ =~= before.push(piece@[0]));
                    match self.header_byte(piece[0]) {
                        Ok(datagram) => datagram,
                        Err(error) => {
                            return Err(error);
                        },
                    }
                },
                CapsuleState::Payload { .. } => self.payload_piece(piece),
            };
            offset = offset + amount;
            proof {
                let rest = input@.skip(offset as int);
                lemma_follows(before + piece@, self@, completed, rest);
                assert(before + left =~= before + piece@ + rest);
            }
            if let Some(datagram) = completed {
                list.push(datagram);
            }
            assert(buffer::contents(list@) =~= buffer::contents(listed) + completed_datagram(
                completed,
            ));
            assert(buffer::contents(listed) + (completed_datagram(completed) + datagrams(
                self@ + input@.skip(offset as int),
            )) =~= buffer::contents(list@) + datagrams(self@ + input@.skip(offset as int)));
        }
        proof {
            self.pending_holds_no_capsule();
            assert(self@ + input@.skip(offset as int) =~= self@);
            assert(buffer::contents(list@) + datagrams(self@) =~= buffer::contents(list@));
        }
        Ok(list)
    }

    /// What is pending holds no complete capsule.
    pub proof fn pending_holds_no_capsule(&self)
        requires
            self.wf(),
        ensures
            capsule_at(self@) is None,
            datagrams(self@) == Seq::<Seq<u8>>::empty(),
            unfinished(self@) == self@,
    {
        reveal(capsule_at);
        reveal(CapsuleState::keeps);
    }
}

/// The datagram that a step completed, as a list.
spec fn completed_datagram(datagram: Option<Bytes>) -> Seq<Seq<u8>> {
    match datagram {
        None => Seq::empty(),
        Some(bytes) => seq![bytes.content()],
    }
}

/// How a step leaves the decoder when `pending` and the bytes of the step are `from`: either
/// they are all still pending, or they are one exact capsule.
#[verifier::opaque]
spec fn follows(from: Seq<u8>, to: Seq<u8>, datagram: Option<Bytes>) -> bool {
    ||| to == from && datagram is None
    ||| {
        &&& header_at(from) matches Some((capsule_type, length, header))
        &&& from.len() == header + length
        &&& to == Seq::<u8>::empty()
        &&& completed_datagram(datagram) == datagram_of(capsule_type, from.skip(header as int))
    }
}

proof fn lemma_follows(from: Seq<u8>, to: Seq<u8>, datagram: Option<Bytes>, rest: Seq<u8>)
    requires
        follows(from, to, datagram),
    ensures
        datagrams(from + rest) == completed_datagram(datagram) + datagrams(to + rest),
        unfinished(from + rest) == unfinished(to + rest),
{
    reveal(follows);
    if to == from && datagram is None {
        assert(completed_datagram(datagram) + datagrams(to + rest) =~= datagrams(to + rest));
    } else {
        lemma_capsule_ends(from, rest);
        assert(to + rest =~= rest);
    }
}

/// The capsule of type `capsule_type` around `payload`, with its header in the shortest form.
pub open spec fn encoded_capsule(capsule_type: nat, payload: Seq<u8>) -> Seq<u8> {
    varint::varint_bytes(capsule_type) + varint::varint_bytes(payload.len()) + payload
}

/// Whether a capsule of this type and payload can be encoded.
pub open spec fn encodable(capsule_type: nat, payload: Seq<u8>) -> bool {
    capsule_type < varint::VARINT_LIMIT && payload.len() < varint::VARINT_LIMIT
}

/// Capsules one after another.
pub open spec fn encoded_stream(capsules: Seq<(nat, Seq<u8>)>) -> Seq<u8>
    decreases capsules.len(),
{
    if capsules.len() == 0 {
        Seq::empty()
    } else {
        encoded_capsule(capsules[0].0, capsules[0].1) + encoded_stream(capsules.drop_first())
    }
}

/// The datagrams among capsules.
pub open spec fn carried_datagrams(capsules: Seq<(nat, Seq<u8>)>) -> Seq<Seq<u8>>
    decreases capsules.len(),
{
    if capsules.len() == 0 {
        Seq::empty()
    } else {
        datagram_of(capsules[0].0, capsules[0].1) + carried_datagrams(capsules.drop_first())
    }
}

proof fn lemma_encoded_header(capsule_type: nat, payload: Seq<u8>)
    requires
        encodable(capsule_type, payload),
    ensures
        header_at(encoded_capsule(capsule_type, payload)) == Some(
            (
                capsule_type,
                payload.len(),
                varint::varint_size(capsule_type) + varint::varint_size(payload.len()),
            ),
        ),
        encoded_capsule(capsule_type, payload).len() == varint::varint_size(capsule_type)
            + varint::varint_size(payload.len()) + payload.len(),
        encoded_capsule(capsule_type, payload).skip(
            (varint::varint_size(capsule_type) + varint::varint_size(payload.len())) as int,
        ) == payload,
{
    let length = varint::varint_bytes(payload.len());
    varint::varint_round_trip(capsule_type, length + payload);
    varint::varint_round_trip(payload.len(), payload);
    varint::varint_bytes_size(capsule_type);
    varint::varint_bytes_size(payload.len());
    assert(encoded_capsule(capsule_type, payload) =~= varint::varint_bytes(capsule_type) + (length
        + payload));
    assert(encoded_capsule(capsule_type, payload).skip(
        (varint::varint_size(capsule_type) + varint::varint_size(payload.len())) as int,
    ) =~= payload);
}

/// A stream that starts with a capsule yields that capsule's datagram, if it carries one, and
/// then what the rest of the stream yields.
pub proof fn capsule_round_trip(capsule_type: nat, payload: Seq<u8>, rest: Seq<u8>)
    requires
        encodable(capsule_type, payload),
    ensures
        datagrams(encoded_capsule(capsule_type, payload) + rest) == datagram_of(
            capsule_type,
            payload,
        ) + datagrams(rest),
        unfinished(encoded_capsule(capsule_type, payload) + rest) == unfinished(rest),
{
    lemma_encoded_header(capsule_type, payload);
    lemma_capsule_ends(encoded_capsule(capsule_type, payload), rest);
}

/// A capsule of an unknown type, or one too large to be relayed, is passed over.
pub proof fn other_capsules_are_skipped(capsule_type: nat, payload: Seq<u8>, rest: Seq<u8>)
    requires
        encodable(capsule_type, payload),
        capsule_type != DATAGRAM_CAPSULE_TYPE || payload.len() > MAX_CAPSULE_DATAGRAM_SIZE,
    ensures
        datagrams(encoded_capsule(capsule_type, payload) + rest) == datagrams(rest),
        unfinished(encoded_capsule(capsule_type, payload) + rest) == unfinished(rest),
{
    capsule_round_trip(capsule_type, payload, rest);
    assert(datagram_of(capsule_type, payload) + datagrams(rest) =~= datagrams(rest));
}

/// A stream of whole capsules yields exactly the datagrams among them and may end there.
pub proof fn whole_capsules_finish(capsules: Seq<(nat, Seq<u8>)>)
    requires
        forall|i: int|
            0 <= i < capsules.len() ==> encodable((#[trigger] capsules[i]).0, capsules[i].1),
    ensures
        datagrams(encoded_stream(capsules)) == carried_datagrams(capsules),
        unfinished(encoded_stream(capsules)) == Seq::<u8>::empty(),
    decreases capsules.len(),
{
    if capsules.len() == 0 {
        lemma_nothing_in_nothing();
    } else {
        let rest = capsules.drop_first();
        assert forall|i: int| 0 <= i < rest.len() implies encodable(
            (#[trigger] rest[i]).0,
            rest[i].1,
        ) by {
            assert(rest[i] == capsules[i + 1]);
        }
        whole_capsules_finish(rest);
        capsule_round_trip(capsules[0].0, capsules[0].1, encoded_stream(rest));
    }
}

proof fn lemma_nothing_in_nothing()
    ensures
        capsule_at(Seq::empty()) is None,
        datagrams(Seq::empty()) == Seq::<Seq<u8>>::empty(),
        unfinished(Seq::empty()) == Seq::<u8>::empty(),
{
    reveal(capsule_at);
}

/// A capsule that is cut short yields nothing and stays pending, so that the stream may not
/// end there.
pub proof fn truncated_capsule_stays_pending(capsule_type: nat, payload: Seq<u8>, count: int)
    requires
        encodable(capsule_type, payload),
        0 < count < encoded_capsule(capsule_type, payload).len(),
    ensures
        datagrams(encoded_capsule(capsule_type, payload).take(count)) == Seq::<Seq<u8>>::empty(),
        unfinished(encoded_capsule(capsule_type, payload).take(count)) == encoded_capsule(
            capsule_type,
            payload,
        ).take(count),
{
    reveal(capsule_at);
    let whole = encoded_capsule(capsule_type, payload);
    let part = whole.take(count);
    lemma_encoded_header(capsule_type, payload);
    if header_at(part) is Some {
        lemma_header_ignores_what_follows(part, whole.skip(count));
        assert(part + whole.skip(count) =~= whole);
    }
}

/// How a stream is cut into pieces makes no difference: taking in `first` and then `second`
/// yields the same datagrams and leaves the same bytes pending as taking in both at once.
pub proof fn fragmentation_is_invisible(pending: Seq<u8>, first: Seq<u8>, second: Seq<u8>)
    ensures
        datagrams(pending + (first + second)) == datagrams(pending + first) + datagrams(
            unfinished(pending + first) + second,
        ),
        unfinished(pending + (first + second)) == unfinished(unfinished(pending + first) + second),
{
    assert(pending + (first + second) =~= (pending + first) + second);
    lemma_fragments(pending + first, second);
}

proof fn lemma_fragments(first: Seq<u8>, second: Seq<u8>)
    ensures
        datagrams(first + second) == datagrams(first) + datagrams(unfinished(first) + second),
        unfinished(first + second) == unfinished(unfinished(first) + second),
    decreases first.len(),
{
    match capsule_at(first) {
        None => {
            assert(datagrams(first) + datagrams(first + second) =~= datagrams(first + second));
        },
        Some((capsule_type, payload, size)) => {
            reveal(capsule_at);
            lemma_header_bounds(first);
            lemma_header_ignores_what_follows(first, second);
            let header = header_at(first)->Some_0.2 as int;
            let rest = first.skip(size as int);
            assert((first + second).subrange(header, size as int) =~= first.subrange(
                header,
                size as int,
            ));
            assert((first + second).skip(size as int) =~= rest + second);
            lemma_fragments(rest, second);
            assert(datagram_of(capsule_type, payload) + (datagrams(rest) + datagrams(
                unfinished(rest) + second,
            )) =~= datagram_of(capsule_type, payload) + datagrams(rest) + datagrams(
                unfinished(rest) + second,
            ));
        },
    }
}

/// The pieces of a stream, joined up.
pub open spec fn joined(pieces: Seq<Seq<u8>>) -> Seq<u8>
    decreases pieces.len(),
{
    if pieces.len() == 0 {
        Seq::empty()
    } else {
        joined(pieces.drop_last()) + pieces.last()
    }
}

/// The datagrams that a decoder returns while it takes in `pieces` one after another, and the
/// bytes that it leaves pending.
pub open spec fn taken_in(pieces: Seq<Seq<u8>>) -> (Seq<Seq<u8>>, Seq<u8>)
    decreases pieces.len(),
{
    if pieces.len() == 0 {
        (Seq::empty(), Seq::empty())
    } else {
        let (list, pending) = taken_in(pieces.drop_last());
        (list + datagrams(pending + pieces.last()), unfinished(pending + pieces.last()))
    }
}

/// However many pieces a stream arrives in, they yield what the whole stream yields.
pub proof fn pieces_yield_the_whole(pieces: Seq<Seq<u8>>)
    ensures
        taken_in(pieces) == (datagrams(joined(pieces)), unfinished(joined(pieces))),
    decreases pieces.len(),
{
    if pieces.len() == 0 {
        lemma_nothing_in_nothing();
    } else {
        pieces_yield_the_whole(pieces.drop_last());
        lemma_fragments(joined(pieces.drop_last()), pieces.last());
    }
}

/// A datagram that a stream yields is never longer than what is buffered for one.
pub proof fn datagrams_are_bounded(data: Seq<u8>, index: int)
    requires
        0 <= index < datagrams(data).len(),
    ensures
        datagrams(data)[index].len() <= MAX_CAPSULE_DATAGRAM_SIZE,
    decreases data.len(),
{
    if let Some((capsule_type, payload, size)) = capsule_at(data) {
        let head = datagram_of(capsule_type, payload);
        if index >= head.len() {
            assert(size > 0 && size <= data.len()) by {
                reveal(capsule_at);
                lemma_header_bounds(data);
            }
            datagrams_are_bounded(data.skip(size as int), index - head.len());
        }
    }
}

/// The limits by number.
pub proof fn sizes_are_limited()
    ensures
        MAX_UDP_RELAY_PAYLOAD_SIZE == 1500,
        MAX_CAPSULE_DATAGRAM_SIZE == 1508,
        DATAGRAM_CAPSULE_TYPE == 0,
        MAX_CAPSULE_HEADER_SIZE == 16,
{
}

/// A type and a length in any form, as many bytes as the length says, and then the rest: if
/// the type is zero and the length is at most 1508, these bytes are the first datagram of the
/// stream, all of them; otherwise they are passed over. Either way the rest counts like a
/// stream of its own.
pub proof fn capsules_are_cut_by_their_length(
    kind: Seq<u8>,
    length: Seq<u8>,
    payload: Seq<u8>,
    rest: Seq<u8>,
)
    requires
        varint::varint_at(kind) matches Some((_, width)) && width == kind.len(),
        varint::varint_at(length) == Some((payload.len(), length.len())),
    ensures
        datagrams(kind + length + payload + rest) == (if varint::varint_at(kind)->Some_0.0 == 0
            && payload.len() <= 1508 {
            seq![payload] + datagrams(rest)
        } else {
            datagrams(rest)
        }),
        unfinished(kind + length + payload + rest) == unfinished(rest),
{
    let whole = kind + length + payload;
    let behind = length + payload;
    varint::varint_ignores_what_follows(kind, behind);
    varint::varint_ignores_what_follows(length, payload);
    assert(whole =~= kind + behind);
    assert(whole.skip(kind.len() as int) =~= behind);
    lemma_capsule_ends(whole, rest);
    assert(whole.skip((kind.len() + length.len()) as int) =~= payload);
    assert(Seq::<Seq<u8>>::empty() + datagrams(rest) =~= datagrams(rest));
}

/// A stream whose first capsule is not all there, because its type, its length or its payload
/// is cut short, yields nothing and stays pending as it is.
pub proof fn incomplete_capsules_stay_pending(data: Seq<u8>)
    requires
        match varint::varint_at(data) {
            None => true,
            Some((_, kind_width)) => match varint::varint_at(data.skip(kind_width as int)) {
                None => true,
                Some((length, length_width)) => data.len() < kind_width + length_width + length,
            },
        },
    ensures
        datagrams(data) == Seq::<Seq<u8>>::empty(),
        unfinished(data) == data,
{
    reveal(capsule_at);
}

} // verus!
