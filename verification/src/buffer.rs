//! Byte buffers of the `bytes` crate and the QUIC integers of the `h3` crate.
//!
//! What is stated here of those crates is taken on trust; everything else in the library is
//! proved from it.

use crate::varint;
use bytes::{Bytes, BytesMut};
use h3::proto::stream::StreamId;
use h3::proto::varint::VarInt;
use vstd::prelude::*;

verus! {

#[verifier::external_type_specification]
#[verifier::external_body]
pub struct ExBytes(bytes::Bytes);

#[verifier::external_type_specification]
#[verifier::external_body]
pub struct ExBytesMut(bytes::BytesMut);

/// The bytes that a `bytes::Bytes` holds, in order.
pub uninterp spec fn bytes_content(bytes: bytes::Bytes) -> Seq<u8>;

/// The bytes that a `bytes::BytesMut` holds, in order.
pub uninterp spec fn bytes_mut_content(bytes: bytes::BytesMut) -> Seq<u8>;

/// Access to what a buffer holds.
pub trait Content {
    spec fn content(&self) -> Seq<u8>;
}

impl Content for Bytes {
    open spec fn content(&self) -> Seq<u8> {
        bytes_content(*self)
    }
}

impl Content for BytesMut {
    open spec fn content(&self) -> Seq<u8> {
        bytes_mut_content(*self)
    }
}

/// What each buffer of a list holds.
pub open spec fn contents(buffers: Seq<Bytes>) -> Seq<Seq<u8>> {
    Seq::new(buffers.len(), |i: int| buffers[i].content())
}

/// What each byte string of a list holds.
pub open spec fn byte_strings(list: Seq<Vec<u8>>) -> Seq<Seq<u8>> {
    Seq::new(list.len(), |i: int| list[i]@)
}

/// `Bytes::new` makes an empty buffer.
pub assume_specification[ bytes::Bytes::new ]() -> (res: bytes::Bytes)
    ensures
        bytes_content(res) == Seq::<u8>::empty(),
;

/// `BytesMut::with_capacity` makes an empty buffer, whatever the capacity.
pub assume_specification[ bytes::BytesMut::with_capacity ](capacity: usize) -> (res:
    bytes::BytesMut)
    requires
        capacity <= isize::MAX,
    ensures
        bytes_mut_content(res) == Seq::<u8>::empty(),
;

/// `BytesMut::extend_from_slice` appends `extend` to what the buffer holds.
pub assume_specification[ bytes::BytesMut::extend_from_slice ](
    bytes: &mut bytes::BytesMut,
    extend: &[u8],
)
    requires
        bytes_mut_content(*old(bytes)).len() + extend@.len() <= isize::MAX,
    ensures
        bytes_mut_content(*final(bytes)) == bytes_mut_content(*old(bytes)) + extend@,
;

/// `BytesMut::freeze` hands the bytes over unchanged.
pub assume_specification[ bytes::BytesMut::freeze ](bytes: bytes::BytesMut) -> (res: bytes::Bytes)
    ensures
        bytes_content(res) == bytes_mut_content(bytes),
;

/// Dereferencing a `Bytes` borrows all the bytes it holds.
#[verifier::external_body]
pub(crate) fn bytes_as_slice(bytes: &Bytes) -> (res: &[u8])
    ensures
        res@ == bytes_content(*bytes),
{
    bytes
}

/// `VarInt::from_u64` takes every value below 2^62 and no other, and `VarInt::size` is the
/// number of bytes in the shortest encoding of the value.
#[verifier::external_body]
pub(crate) fn quic_integer_size(value: u64) -> (res: Option<usize>)
    ensures
        res is Some <==> value < varint::VARINT_LIMIT,
        res matches Some(size) ==> size == varint::varint_size(value as nat),
{
    match VarInt::from_u64(value) {
        Ok(integer) => Some(integer.size()),
        Err(_) => None,
    }
}

/// `VarInt::encode` appends the shortest encoding of the value to the buffer.
#[verifier::external_body]
pub(crate) fn put_quic_integer(value: u64, bytes: &mut BytesMut)
    requires
        value < varint::VARINT_LIMIT,
        bytes_mut_content(*old(bytes)).len() + 8 <= isize::MAX,
    ensures
        bytes_mut_content(*final(bytes)) == bytes_mut_content(*old(bytes)) + varint::varint_bytes(
            value as nat,
        ),
{
    VarInt::from_u64(value).unwrap().encode(bytes);
}

/// `StreamId::try_from` takes every value below 2^62 and no other, and `StreamId::index`
/// drops the two low bits, which tell the stream's direction and initiator.
#[verifier::external_body]
pub(crate) fn stream_index(stream_id: u64) -> (res: Option<u64>)
    ensures
        res == (if stream_id < varint::VARINT_LIMIT {
            Some((stream_id / 4) as u64)
        } else {
            None
        }),
{
    match StreamId::try_from(stream_id) {
        Ok(id) => Some(id.index()),
        Err(_) => None,
    }
}

/// A list holds what its members hold, one for one and in order.
pub proof fn lists_hold_their_members(buffers: Seq<Bytes>, list: Seq<Vec<u8>>)
    ensures
        contents(buffers).len() == buffers.len(),
        forall|i: int|
            0 <= i < buffers.len() ==> #[trigger] contents(buffers)[i] == bytes_content(buffers[i]),
        byte_strings(list).len() == list.len(),
        forall|i: int| 0 <= i < list.len() ==> #[trigger] byte_strings(list)[i] == list[i]@,
{
}

/// What a buffer holds is what its crate says.
pub proof fn buffers_hold_their_bytes(bytes: Bytes, growing: BytesMut)
    ensures
        bytes.content() == bytes_content(bytes),
        growing.content() == bytes_mut_content(growing),
{
}

} // verus!
