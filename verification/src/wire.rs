//! The byte format of video packets.
//!
//! A packet body is four fields one after the other: sequence number, timestamp,
//! keyframe flag and payload.  Integers have a variable length, the flag is one
//! byte and the payload is preceded by its length.

use vstd::prelude::*;

verus! {

/// The `count` low bytes of `value`, least significant first.
pub open spec fn le_bytes(value: nat, count: nat) -> Seq<u8>
    decreases count,
{
    if count == 0 {
        Seq::empty()
    } else {
        seq![(value % 256) as u8] + le_bytes(value / 256, (count - 1) as nat)
    }
}

/// The number whose little-endian digits in base 256 are `bytes`.
pub open spec fn le_value(bytes: Seq<u8>) -> nat
    decreases bytes.len(),
{
    if bytes.len() == 0 {
        0
    } else {
        bytes[0] as nat + 256 * le_value(bytes.skip(1))
    }
}

/// `256` to the power `count`: the first number that `count` bytes cannot hold.
pub open spec fn byte_range(count: nat) -> nat
    decreases count,
{
    if count == 0 {
        1
    } else {
        256 * byte_range((count - 1) as nat)
    }
}

/// A variable-length integer: one byte below 251, otherwise a marker byte and a
/// little-endian number of two, four or eight bytes.
pub open spec fn varint(value: u64) -> Seq<u8> {
    if value < 251 {
        seq![value as u8]
    } else if value < 0x1_0000 {
        seq![251u8] + le_bytes(value as nat, 2)
    } else if value < 0x1_0000_0000 {
        seq![252u8] + le_bytes(value as nat, 4)
    } else {
        seq![253u8] + le_bytes(value as nat, 8)
    }
}

/// How many bytes follow the marker byte `first`, if it starts an integer.
pub open spec fn varint_tail(first: u8) -> Option<nat> {
    if first < 251 {
        Some(0)
    } else if first == 251 {
        Some(2)
    } else if first == 252 {
        Some(4)
    } else if first == 253 {
        Some(8)
    } else {
        None
    }
}

/// Reads one variable-length integer: its value and the bytes after it.
pub open spec fn read_varint(bytes: Seq<u8>) -> Option<(u64, Seq<u8>)> {
    if bytes.len() == 0 {
        None
    } else {
        match varint_tail(bytes[0]) {
            None => None,
            Some(tail) => if bytes.len() < 1 + tail {
                None
            } else if tail == 0 {
                Some((bytes[0] as u64, bytes.skip(1)))
            } else {
                Some((le_value(bytes.subrange(1, 1 + tail as int)) as u64, bytes.skip(1 + tail as int)))
            },
        }
    }
}

/// The fields of a packet, as they travel.
pub struct Fields {
    pub seq: u64,
    pub timestamp: u64,
    pub keyframe: bool,
    pub payload: Seq<u8>,
}

/// A packet made of its four fields.
pub open spec fn fields(seq: u64, timestamp: u64, keyframe: bool, payload: Seq<u8>) -> Fields {
    Fields { seq, timestamp, keyframe, payload }
}

/// A flag as one byte.
pub open spec fn flag_byte(flag: bool) -> Seq<u8> {
    seq![
        if flag {
            1u8
        } else {
            0u8
        },
    ]
}

/// The body of a packet.
pub open spec fn body(packet: Fields) -> Seq<u8> {
    varint(packet.seq) + varint(packet.timestamp) + flag_byte(packet.keyframe) + varint(
        packet.payload.len() as u64,
    ) + packet.payload
}

/// Reads a flag byte and the bytes after it.
pub open spec fn read_flag(bytes: Seq<u8>) -> Option<(bool, Seq<u8>)> {
    if bytes.len() == 0 || bytes[0] > 1 {
        None
    } else {
        Some((bytes[0] == 1, bytes.skip(1)))
    }
}

/// Reads a length and that many bytes; what follows them is ignored.  Of a length
/// beyond the machine's word the low part counts.
pub open spec fn read_payload(bytes: Seq<u8>) -> Option<Seq<u8>> {
    match read_varint(bytes) {
        None => None,
        Some((length, rest)) => if rest.len() < length as usize {
            None
        } else {
            Some(rest.take(length as usize as int))
        },
    }
}

/// Reads the four fields of a packet body; what follows them is ignored.
pub open spec fn read_body(bytes: Seq<u8>) -> Option<Fields> {
    match read_varint(bytes) {
        None => None,
        Some((seq, after_seq)) => match read_varint(after_seq) {
            None => None,
            Some((timestamp, after_timestamp)) => match read_flag(after_timestamp) {
                None => None,
                Some((keyframe, after_flag)) => match read_payload(after_flag) {
                    None => None,
                    Some(payload) => Some(Fields { seq, timestamp, keyframe, payload }),
                },
            },
        },
    }
}

/// `le_bytes` writes exactly `count` bytes.
pub proof fn lemma_le_bytes_len(value: nat, count: nat)
    ensures
        le_bytes(value, count).len() == count,
    decreases count,
{
    if count > 0 {
        lemma_le_bytes_len(value / 256, (count - 1) as nat);
    }
}

/// A number that fits in `count` bytes is read back from its little-endian bytes.
pub proof fn lemma_le_round_trip(value: nat, count: nat)
    requires
        value < byte_range(count),
    ensures
        le_value(le_bytes(value, count)) == value,
    decreases count,
{
    lemma_le_bytes_len(value, count);
    if count > 0 {
        let rest = le_bytes(value / 256, (count - 1) as nat);
        lemma_le_round_trip(value / 256, (count - 1) as nat);
        assert(le_bytes(value, count).skip(1) =~= rest);
    }
}

/// The range of the integer widths that the format uses.
proof fn lemma_byte_ranges()
    ensures
        byte_range(2) == 0x1_0000,
        byte_range(4) == 0x1_0000_0000,
        byte_range(8) == 0x1_0000_0000_0000_0000,
{
    reveal_with_fuel(byte_range, 9);
}

/// A variable-length integer takes between one and nine bytes.
pub proof fn lemma_varint_len(value: u64)
    ensures
        1 <= varint(value).len() <= 9,
{
    lemma_le_bytes_len(value as nat, 2);
    lemma_le_bytes_len(value as nat, 4);
    lemma_le_bytes_len(value as nat, 8);
}

/// Every integer is read back from its encoding, whatever follows it.
pub proof fn lemma_varint_round_trip(value: u64, rest: Seq<u8>)
    ensures
        read_varint(varint(value) + rest) == Some((value, rest)),
{
    let bytes = varint(value) + rest;
    if value < 251 {
        assert(bytes.skip(1) =~= rest);
    } else {
        let count: nat = if value < 0x1_0000 {
            2
        } else if value < 0x1_0000_0000 {
            4
        } else {
            8
        };
        lemma_byte_ranges();
        lemma_le_bytes_len(value as nat, count);
        lemma_le_round_trip(value as nat, count);
        assert(bytes.subrange(1, 1 + count as int) =~= le_bytes(value as nat, count));
        assert(bytes.skip(1 + count as int) =~= rest);
    }
}

/// Appending `rest` to five parts appends it to the last of them.
proof fn lemma_five_parts(
    a: Seq<u8>,
    b: Seq<u8>,
    c: Seq<u8>,
    d: Seq<u8>,
    e: Seq<u8>,
    rest: Seq<u8>,
)
    ensures
        a + b + c + d + e + rest == a + (b + (c + (d + (e + rest)))),
{
    assert(a + b + c + d + e + rest =~= a + (b + (c + (d + (e + rest)))));
}

/// A payload is read back from its length and bytes, whatever follows it.
proof fn lemma_payload_round_trip(payload: Seq<u8>, rest: Seq<u8>)
    requires
        payload.len() <= usize::MAX,
    ensures
        read_payload(varint(payload.len() as u64) + (payload + rest)) == Some(payload),
{
    lemma_varint_round_trip(payload.len() as u64, payload + rest);
    assert((payload + rest).take(payload.len() as int) =~= payload);
}

/// A flag is read back from its byte, whatever follows it.
proof fn lemma_flag_round_trip(flag: bool, rest: Seq<u8>)
    ensures
        read_flag(flag_byte(flag) + rest) == Some((flag, rest)),
{
    assert((flag_byte(flag) + rest).skip(1) =~= rest);
}

/// Every packet is read back from its body, whatever follows it.
pub proof fn lemma_body_round_trip(packet: Fields, rest: Seq<u8>)
    requires
        packet.payload.len() <= usize::MAX,
    ensures
        read_body(body(packet) + rest) == Some(packet),
{
    let seq = varint(packet.seq);
    let timestamp = varint(packet.timestamp);
    let flag = flag_byte(packet.keyframe);
    let length = varint(packet.payload.len() as u64);
    lemma_five_parts(seq, timestamp, flag, length, packet.payload, rest);
    let after_flag = length + (packet.payload + rest);
    let after_timestamp = flag + after_flag;
    let after_seq = timestamp + after_timestamp;
    lemma_varint_round_trip(packet.seq, after_seq);
    lemma_varint_round_trip(packet.timestamp, after_timestamp);
    lemma_flag_round_trip(packet.keyframe, after_flag);
    lemma_payload_round_trip(packet.payload, rest);
}

/// Different packets have different bodies.
pub proof fn lemma_body_injective(a: Fields, b: Fields)
    requires
        a.payload.len() <= usize::MAX,
        b.payload.len() <= usize::MAX,
        body(a) == body(b),
    ensures
        a == b,
{
    lemma_body_round_trip(a, Seq::empty());
    lemma_body_round_trip(b, Seq::empty());
    assert(body(a) + Seq::empty() =~= body(a));
    assert(body(b) + Seq::empty() =~= body(b));
}

/// The fields around a payload add between four and twenty-eight bytes.
pub proof fn lemma_body_len(packet: Fields)
    ensures
        packet.payload.len() + 4 <= body(packet).len() <= packet.payload.len() + 28,
{
    lemma_varint_len(packet.seq);
    lemma_varint_len(packet.timestamp);
    lemma_varint_len(packet.payload.len() as u64);
}

} // verus!
