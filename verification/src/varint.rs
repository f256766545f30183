//! QUIC variable-length integers.
//!
//! The two high bits of the first byte give the width of the encoding, one, two, four or
//! eight bytes; the other bits are the value in network byte order.

use vstd::arithmetic::power::*;
use vstd::prelude::*;

verus! {

/// One more than the largest value that has an encoding.
pub const VARINT_LIMIT: u64 = 0x4000_0000_0000_0000;

/// The unsigned integer that `bytes` spells in network byte order.
pub open spec fn be_value(bytes: Seq<u8>) -> nat
    decreases bytes.len(),
{
    if bytes.len() == 0 {
        0
    } else {
        be_value(bytes.drop_last()) * 256 + bytes.last() as nat
    }
}

/// The `width` low bytes of `value` in network byte order.
pub open spec fn be_bytes(value: nat, width: nat) -> Seq<u8>
    decreases width,
{
    if width == 0 {
        Seq::empty()
    } else {
        be_bytes(value / 256, (width - 1) as nat).push((value % 256) as u8)
    }
}

/// The width of the encoding that starts with `first`.
pub open spec fn varint_width(first: u8) -> nat {
    if first < 0x40 {
        1
    } else if first < 0x80 {
        2
    } else if first < 0xc0 {
        4
    } else {
        8
    }
}

/// The value and the width of the encoding at the front of `data`, if it is all there.
pub open spec fn varint_at(data: Seq<u8>) -> Option<(nat, nat)> {
    if data.len() == 0 || data.len() < varint_width(data[0]) {
        None
    } else {
        let width = varint_width(data[0]);
        Some((be_value(data.take(width as int).update(0, data[0] % 64)), width))
    }
}

/// The number of bytes in the shortest encoding of `value`.
pub open spec fn varint_size(value: nat) -> nat {
    if value < 0x40 {
        1
    } else if value < 0x4000 {
        2
    } else if value < 0x4000_0000 {
        4
    } else {
        8
    }
}

/// The shortest encoding of `value`, which lies below [`VARINT_LIMIT`].
pub open spec fn varint_bytes(value: nat) -> Seq<u8> {
    if value < 0x40 {
        be_bytes(value, 1)
    } else if value < 0x4000 {
        be_bytes(value + 0x4000, 2)
    } else if value < 0x4000_0000 {
        be_bytes(value + 0x8000_0000, 4)
    } else {
        be_bytes(value + 0xc000_0000_0000_0000, 8)
    }
}

/// The bound on what the first `count` bytes of an encoding spell.
spec fn partial_limit(count: nat) -> nat
    decreases count,
{
    if count <= 1 {
        0x40
    } else {
        256 * partial_limit((count - 1) as nat)
    }
}

proof fn lemma_partial_limits()
    ensures
        partial_limit(1) == 0x40,
        partial_limit(2) == 0x4000,
        partial_limit(3) == 0x40_0000,
        partial_limit(4) == 0x4000_0000,
        partial_limit(5) == 0x40_0000_0000,
        partial_limit(6) == 0x4000_0000_0000,
        partial_limit(7) == 0x40_0000_0000_0000,
        partial_limit(8) == 0x4000_0000_0000_0000,
{
    reveal_with_fuel(partial_limit, 9);
}

/// Reads the encoding at the front of `data`: its value and its width. A front that is
/// cut short yields `None`; so does no data at all.
pub fn decode_varint_length(data: &[u8]) -> (res: Option<(u64, usize)>)
    ensures
        res is Some <==> varint_at(data@) is Some,
        res matches Some((value, length)) ==> varint_at(data@) == Some(
            (value as nat, length as nat),
        ) && value < VARINT_LIMIT && length <= data@.len(),
{
    if data.len() == 0 {
        return None;
    }
    let first: u8 = data[0];
    let shift: u8 = first >> 6;
    assert(shift <= 3 && (shift == 0 <==> first < 0x40) && (shift == 1 <==> 0x40 <= first < 0x80)
        && (shift == 2 <==> 0x80 <= first < 0xc0)) by (bit_vector)
        requires
            shift == first >> 6,
    ;
    assert(1usize << 0u8 == 1usize && 1usize << 1u8 == 2usize && 1usize << 2u8 == 4usize && 1usize
        << 3u8 == 8usize) by (bit_vector);
    let length: usize = 1usize << shift;
    assert(length == varint_width(first));
    if data.len() < length {
        return None;
    }
    let low: u8 = first & 0x3f;
    assert(low == first % 64 && low < 64) by (bit_vector)
        requires
            low == first & 0x3f,
    ;
    let mut value: u64 = low as u64;
    let ghost masked = data@.take(length as int).update(0, first % 64);
    let mut index: usize = 1;
    proof {
        lemma_partial_limits();
        assert(masked.take(1) =~= seq![low]);
        assert(masked.take(1).drop_last() =~= Seq::<u8>::empty());
        reveal_with_fuel(be_value, 2);
    }
    while index < length
        invariant
            1 <= index <= length <= 8,
            length <= data@.len(),
            masked == data@.take(length as int).update(0, first % 64),
            value == be_value(masked.take(index as int)),
            value < partial_limit(index as nat),
        decreases length - index,
    {
        let byte: u8 = data[index];
        proof {
            lemma_partial_limits();
            assert(masked.take(index + 1).drop_last() =~= masked.take(index as int));
            assert(masked.take(index + 1).last() == byte);
            assert((value << 8) | (byte as u64) == value * 256 + byte) by (bit_vector)
                requires
                    value < 0x40_0000_0000_0000,
            ;
        }
        value = (value << 8) | (byte as u64);
        index = index + 1;
    }
    proof {
        lemma_partial_limits();
        assert(masked.take(length as int) =~= masked);
    }
    Some((value, length))
}

/// Splits the encoding at the front of `data` from what follows it.
pub fn decode_varint(data: &[u8]) -> (res: Option<(u64, &[u8])>)
    ensures
        res is Some <==> varint_at(data@) is Some,
        res matches Some((value, rest)) ==> varint_at(data@) == Some(
            (value as nat, (data@.len() - rest@.len()) as nat),
        ) && value < VARINT_LIMIT && rest@ == data@.skip(varint_at(data@)->Some_0.1 as int),
{
    match decode_varint_length(data) {
        None => None,
        Some((value, length)) => Some(
            (value, vstd::slice::slice_subrange(data, length, data.len())),
        ),
    }
}

/// What an encoding spells does not depend on what follows it.
pub proof fn varint_ignores_what_follows(data: Seq<u8>, rest: Seq<u8>)
    requires
        varint_at(data) is Some,
    ensures
        varint_at(data + rest) == varint_at(data),
{
    let width = varint_width(data[0]) as int;
    assert((data + rest).take(width) =~= data.take(width));
}

/// An encoding is between one and eight bytes long and spells a value below
/// [`VARINT_LIMIT`].
pub proof fn varint_is_bounded(data: Seq<u8>)
    requires
        varint_at(data) is Some,
    ensures
        1 <= varint_at(data)->Some_0.1 <= 8,
        varint_at(data)->Some_0.1 <= data.len(),
        varint_at(data)->Some_0.0 < VARINT_LIMIT,
{
    let width = varint_width(data[0]);
    let masked = data.take(width as int).update(0, data[0] % 64);
    lemma_partial_value(masked);
    lemma_partial_limits();
}

/// A sequence whose first byte has its two high bits clear spells less than the bound.
proof fn lemma_partial_value(bytes: Seq<u8>)
    requires
        bytes.len() > 0,
        bytes[0] < 64,
    ensures
        be_value(bytes) < partial_limit(bytes.len()),
    decreases bytes.len(),
{
    if bytes.len() == 1 {
        reveal_with_fuel(be_value, 2);
        reveal_with_fuel(partial_limit, 2);
    } else {
        lemma_partial_value(bytes.drop_last());
    }
}

proof fn lemma_be_bytes_len(value: nat, width: nat)
    ensures
        be_bytes(value, width).len() == width,
    decreases width,
{
    if width > 0 {
        lemma_be_bytes_len(value / 256, (width - 1) as nat);
    }
}

/// Spelling and reading are inverse up to `width` bytes.
proof fn lemma_be_round_trip(value: nat, width: nat)
    requires
        width > 0,
        value < partial_limit(width),
    ensures
        be_value(be_bytes(value, width)) == value,
        be_bytes(value, width)[0] < 64,
    decreases width,
{
    let head = be_bytes(value / 256, (width - 1) as nat);
    lemma_be_bytes_len(value / 256, (width - 1) as nat);
    assert(be_bytes(value, width).drop_last() =~= head);
    reveal_with_fuel(be_value, 2);
    if width == 1 {
        assert(head =~= Seq::<u8>::empty());
        reveal_with_fuel(partial_limit, 2);
    } else {
        assert(value / 256 < partial_limit((width - 1) as nat));
        lemma_be_round_trip(value / 256, (width - 1) as nat);
    }
}

/// Adding a multiple of the top byte's weight changes the top byte alone.
proof fn lemma_be_bytes_top(value: nat, width: nat, top: nat)
    requires
        width > 0,
        value < partial_limit(width),
        top <= 192,
    ensures
        be_bytes((value + top * pow(256, (width - 1) as nat)) as nat, width) == be_bytes(
            value,
            width,
        ).update(0, (be_bytes(value, width)[0] + top) as u8),
    decreases width,
{
    lemma_be_round_trip(value, width);
    lemma_be_bytes_len(value, width);
    let weight = pow(256, (width - 1) as nat);
    let raised = (value + top * weight) as nat;
    if width == 1 {
        lemma_pow0(256);
        reveal_with_fuel(partial_limit, 2);
        reveal_with_fuel(be_bytes, 2);
        assert(be_bytes(raised, width) =~= be_bytes(value, width).update(
            0,
            (be_bytes(value, width)[0] + top) as u8,
        ));
    } else {
        let less = (width - 1) as nat;
        let lower = pow(256, (less - 1) as nat);
        reveal(pow);
        assert(weight == 256 * lower);
        lemma_pow_positive(256, (less - 1) as nat);
        assert(top * weight == 256 * (top * lower) && top * lower >= 0) by (nonlinear_arith)
            requires
                weight == 256 * lower,
                lower > 0,
        ;
        assert(raised == value + 256 * (top * lower));
        assert(raised / 256 == value / 256 + top * lower && raised % 256 == value % 256)
            by (nonlinear_arith)
            requires
                raised == value + 256 * (top * lower),
        ;
        lemma_be_bytes_top(value / 256, less, top);
        lemma_be_bytes_len(value / 256, less);
        assert(be_bytes(raised, width) =~= be_bytes(value, width).update(
            0,
            (be_bytes(value, width)[0] + top) as u8,
        ));
    }
}

proof fn lemma_weights()
    ensures
        pow(256, 0) == 1,
        pow(256, 1) == 0x100,
        pow(256, 3) == 0x100_0000,
        pow(256, 7) == 0x100_0000_0000_0000,
{
    reveal(pow);
    lemma_pow0(256);
    lemma_pow1(256);
    assert(pow(256, 2) == 0x1_0000);
    assert(pow(256, 3) == 0x100_0000);
    assert(pow(256, 4) == 0x1_0000_0000);
    assert(pow(256, 5) == 0x100_0000_0000);
    assert(pow(256, 6) == 0x1_0000_0000_0000);
}

/// The shortest encoding of a value is its plain spelling with the width in the two high
/// bits of the first byte.
proof fn lemma_varint_bytes(value: nat)
    requires
        value < VARINT_LIMIT,
    ensures
        varint_bytes(value).len() == varint_size(value),
        varint_width(varint_bytes(value)[0]) == varint_size(value),
        varint_bytes(value).update(0, varint_bytes(value)[0] % 64) == be_bytes(
            value,
            varint_size(value),
        ),
        value < partial_limit(varint_size(value)),
{
    lemma_weights();
    lemma_partial_limits();
    let width = varint_size(value);
    let top: nat = if width == 1 {
        0
    } else if width == 2 {
        64
    } else if width == 4 {
        128
    } else {
        192
    };
    let plain = be_bytes(value, width);
    lemma_be_bytes_len(value, width);
    lemma_be_round_trip(value, width);
    lemma_be_bytes_top(value, width, top);
    assert(varint_bytes(value) == plain.update(0, (plain[0] + top) as u8));
    assert(varint_bytes(value).update(0, varint_bytes(value)[0] % 64) =~= plain);
}

/// The shortest encoding has the size it is said to have.
pub proof fn varint_bytes_size(value: nat)
    requires
        value < VARINT_LIMIT,
    ensures
        varint_bytes(value).len() == varint_size(value),
{
    lemma_varint_bytes(value);
}

/// Reading gives back what encoding wrote, whatever follows it.
pub proof fn varint_round_trip(value: nat, rest: Seq<u8>)
    requires
        value < VARINT_LIMIT,
    ensures
        varint_at(varint_bytes(value) + rest) == Some((value, varint_size(value))),
        (varint_bytes(value) + rest).skip(varint_size(value) as int) == rest,
{
    lemma_varint_bytes(value);
    let bytes = varint_bytes(value);
    let width = varint_size(value);
    lemma_be_round_trip(value, width);
    assert((bytes + rest).take(width as int).update(0, (bytes + rest)[0] % 64) =~= be_bytes(
        value,
        width,
    ));
    assert((bytes + rest).skip(width as int) =~= rest);
}

/// An encoding that is cut short anywhere reads as nothing.
pub proof fn truncated_varint_is_refused(value: nat, count: int)
    requires
        value < VARINT_LIMIT,
        0 <= count < varint_size(value),
    ensures
        varint_at(varint_bytes(value).take(count)) is None,
{
    lemma_varint_bytes(value);
}

/// The value of an integer by the bytes that spell it: the two high bits of the first byte are
/// the width, and each byte counts 256 times the next. An integer that is cut short, or missing,
/// is not read.
pub proof fn integers_are_read_by_place(data: Seq<u8>)
    ensures
        VARINT_LIMIT == 4611686018427387904,
        data.len() == 0 ==> varint_at(data) is None,
        data.len() > 0 && data[0] < 64 ==> varint_at(data) == Some((data[0] as nat, 1nat)),
        data.len() > 0 && 64 <= data[0] < 128 ==> varint_at(data) == (if data.len() >= 2 {
            Some((((data[0] - 64) * 256 + data[1]) as nat, 2nat))
        } else {
            None
        }),
        data.len() > 0 && 128 <= data[0] < 192 ==> varint_at(data) == (if data.len() >= 4 {
            Some(
                (
                    ((((data[0] - 128) * 256 + data[1]) * 256 + data[2]) * 256 + data[3]) as nat,
                    4nat,
                ),
            )
        } else {
            None
        }),
        data.len() > 0 && 192 <= data[0] ==> varint_at(data) == (if data.len() >= 8 {
            Some(
                (
                    ((((((((data[0] - 192) * 256 + data[1]) * 256 + data[2]) * 256 + data[3]) * 256
                        + data[4]) * 256 + data[5]) * 256 + data[6]) * 256 + data[7]) as nat,
                    8nat,
                ),
            )
        } else {
            None
        }),
{
    if data.len() > 0 {
        let width = varint_width(data[0]) as int;
        if data.len() >= width {
            let masked = data.take(width).update(0, data[0] % 64);
            lemma_value_by_place(masked);
        }
    }
}

proof fn lemma_value_by_place(bytes: Seq<u8>)
    ensures
        bytes.len() == 1 ==> be_value(bytes) == bytes[0],
        bytes.len() == 2 ==> be_value(bytes) == bytes[0] * 256 + bytes[1],
        bytes.len() == 4 ==> be_value(bytes) == ((bytes[0] * 256 + bytes[1]) * 256 + bytes[2]) * 256
            + bytes[3],
        bytes.len() == 8 ==> be_value(bytes) == ((((((bytes[0] * 256 + bytes[1]) * 256 + bytes[2])
            * 256 + bytes[3]) * 256 + bytes[4]) * 256 + bytes[5]) * 256 + bytes[6]) * 256
            + bytes[7],
{
    reveal_with_fuel(be_value, 9);
    if bytes.len() == 1 || bytes.len() == 2 || bytes.len() == 4 || bytes.len() == 8 {
        lemma_value_of_fronts(bytes);
    }
}

proof fn lemma_value_of_fronts(bytes: Seq<u8>)
    ensures
        forall|count: int|
            0 < count <= bytes.len() ==> #[trigger] be_value(bytes.take(count)) == be_value(
                bytes.take(count - 1),
            ) * 256 + bytes[count - 1],
        be_value(bytes.take(0)) == 0,
        bytes.take(bytes.len() as int) == bytes,
{
    assert forall|count: int| 0 < count <= bytes.len() implies #[trigger] be_value(
        bytes.take(count),
    ) == be_value(bytes.take(count - 1)) * 256 + bytes[count - 1] by {
        assert(bytes.take(count).drop_last() =~= bytes.take(count - 1));
    }
    assert(bytes.take(bytes.len() as int) =~= bytes);
}

/// The bytes of the shortest encoding: the width in the two high bits of the first byte, and
/// each byte counts 256 times the next.
pub proof fn integers_are_written_by_place(value: nat)
    ensures
        value < 64 ==> varint_bytes(value) == seq![value as u8],
        64 <= value < 16384 ==> varint_bytes(value) == seq![
            (64 + value / 256) as u8,
            (value % 256) as u8,
        ],
        16384 <= value < 1073741824 ==> varint_bytes(value).len() == 4,
        1073741824 <= value < VARINT_LIMIT ==> varint_bytes(value).len() == 8,
        value < VARINT_LIMIT ==> varint_at(varint_bytes(value)) == Some(
            (value, varint_bytes(value).len()),
        ),
{
    reveal_with_fuel(be_bytes, 3);
    if value < 64 {
        assert(be_bytes(value / 256, 0) =~= Seq::<u8>::empty());
        assert(varint_bytes(value) =~= seq![value as u8]);
    } else if value < 16384 {
        let raised = value + 0x4000;
        assert(raised % 256 == value % 256 && (raised / 256) % 256 == 64 + value / 256);
        assert(varint_bytes(value) =~= seq![(64 + value / 256) as u8, (value % 256) as u8]);
    }
    if value < VARINT_LIMIT {
        varint_bytes_size(value);
        varint_round_trip(value, Seq::empty());
        assert(varint_bytes(value) + Seq::<u8>::empty() =~= varint_bytes(value));
    }
}

} // verus!
