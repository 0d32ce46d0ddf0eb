//! The wire formats of the data channel and of the forward channel: records
//! of eight bytes that hold a double-precision number, and records of four
//! bytes that hold that number cut down to a 32-bit integer.

use vstd::arithmetic::power2::pow2;
use vstd::bits::lemma_u64_shr_is_div;
use vstd::prelude::*;

verus! {

/// The number of bytes of one record on the data channel.
pub const RECORD_SIZE: usize = 8;

/// The order in which a machine stores the bytes of a number.
#[derive(Clone, Copy, Debug, PartialEq, Eq, Structural)]
pub enum ByteOrder {
    /// The least significant byte comes first.
    Little,
    /// The most significant byte comes first.
    Big,
}

/// The record that the intercepted call sets: a double-precision value,
/// held here by its bit pattern, and two further fields that complete its
/// layout of sixteen bytes.
#[derive(Clone, Copy, Debug, PartialEq, Eq, Structural)]
pub struct ObservedRecord {
    pub value_bits: u64,
    pub field_8: i32,
    pub field_c: i32,
}

/// The number that eight bytes hold when the least significant comes first.
pub open spec fn little_endian_word(bytes: Seq<u8>) -> int
    recommends
        bytes.len() == 8,
{
    bytes[0] as int + bytes[1] as int * 0x100 + bytes[2] as int * 0x1_0000 + bytes[3] as int
        * 0x100_0000 + bytes[4] as int * 0x1_0000_0000 + bytes[5] as int * 0x100_0000_0000
        + bytes[6] as int * 0x1_0000_0000_0000 + bytes[7] as int * 0x100_0000_0000_0000
}

/// Eight bytes with the least significant first, whatever order they came in.
pub open spec fn least_first(bytes: Seq<u8>, order: ByteOrder) -> Seq<u8>
    recommends
        bytes.len() == 8,
{
    match order {
        ByteOrder::Little => bytes,
        ByteOrder::Big => seq![
            bytes[7],
            bytes[6],
            bytes[5],
            bytes[4],
            bytes[3],
            bytes[2],
            bytes[1],
            bytes[0],
        ],
    }
}

/// The 64-bit pattern that a record of eight bytes holds.
pub open spec fn record_bits(bytes: Seq<u8>, order: ByteOrder) -> int
    recommends
        bytes.len() == 8,
{
    little_endian_word(least_first(bytes, order))
}

/// The byte of `bits` with significance `place`, counted from the least significant.
pub open spec fn byte_at(bits: int, place: nat) -> u8 {
    ((bits / pow256(place)) % 0x100) as u8
}

/// 256 to the power `place`, for the eight places of a 64-bit number.
pub open spec fn pow256(place: nat) -> int {
    if place == 0 {
        1
    } else if place == 1 {
        0x100
    } else if place == 2 {
        0x1_0000
    } else if place == 3 {
        0x100_0000
    } else if place == 4 {
        0x1_0000_0000
    } else if place == 5 {
        0x100_0000_0000
    } else if place == 6 {
        0x1_0000_0000_0000
    } else {
        0x100_0000_0000_0000
    }
}

/// The eight bytes that hold a 64-bit pattern in the given order.
pub open spec fn bits_record(bits: u64, order: ByteOrder) -> Seq<u8> {
    let b = bits as int;
    match order {
        ByteOrder::Little => seq![
            byte_at(b, 0),
            byte_at(b, 1),
            byte_at(b, 2),
            byte_at(b, 3),
            byte_at(b, 4),
            byte_at(b, 5),
            byte_at(b, 6),
            byte_at(b, 7),
        ],
        ByteOrder::Big => seq![
            byte_at(b, 7),
            byte_at(b, 6),
            byte_at(b, 5),
            byte_at(b, 4),
            byte_at(b, 3),
            byte_at(b, 2),
            byte_at(b, 1),
            byte_at(b, 0),
        ],
    }
}

/// The four bytes that hold a signed 32-bit integer, in two's complement, in
/// the given order.
pub open spec fn integer_record(value: i32, order: ByteOrder) -> Seq<u8> {
    let unsigned = if value < 0 {
        value as int + 0x1_0000_0000
    } else {
        value as int
    };
    match order {
        ByteOrder::Little => seq![
            byte_at(unsigned, 0),
            byte_at(unsigned, 1),
            byte_at(unsigned, 2),
            byte_at(unsigned, 3),
        ],
        ByteOrder::Big => seq![
            byte_at(unsigned, 3),
            byte_at(unsigned, 2),
            byte_at(unsigned, 1),
            byte_at(unsigned, 0),
        ],
    }
}

/// Whether the pattern is that of a negative number.
pub open spec fn sign_of(bits: u64) -> bool {
    bits >= 0x8000_0000_0000_0000
}

/// The biased exponent of the pattern: its eleven bits below the sign.
pub open spec fn exponent_of(bits: u64) -> int {
    (bits as int / 0x10_0000_0000_0000) % 0x800
}

/// The fraction of the pattern: its low 52 bits.
pub open spec fn fraction_of(bits: u64) -> int {
    bits as int % 0x10_0000_0000_0000
}

/// The 32-bit integer that a double-precision number is cut down to, from
/// its bit pattern: the number without its fractional part. What is not a
/// number gives zero, and a number whose magnitude is two to the power 31
/// or more gives the least or the greatest 32-bit integer, by its sign.
pub open spec fn truncated(bits: u64) -> int {
    let exponent = exponent_of(bits);
    if exponent == 0x7ff && fraction_of(bits) != 0 {
        0
    } else if exponent < 1023 {
        0
    } else if exponent >= 1054 {
        if sign_of(bits) {
            i32::MIN as int
        } else {
            i32::MAX as int
        }
    } else {
        let magnitude = (0x10_0000_0000_0000 + fraction_of(bits)) / (pow2((1075 - exponent) as nat) as int);
        if sign_of(bits) {
            -magnitude
        } else {
            magnitude
        }
    }
}

/// The events that a run of received bytes holds: one for each full record
/// of eight bytes, in order. Bytes after the last full record give none.
pub open spec fn events_of(bytes: Seq<u8>, order: ByteOrder) -> Seq<int> {
    Seq::new(
        (bytes.len() / 8) as nat,
        |i: int| truncated(record_bits(bytes.subrange(8 * i, 8 * i + 8), order) as u64),
    )
}

/// The number that eight bytes hold, the first being the least significant.
fn assemble(b0: u8, b1: u8, b2: u8, b3: u8, b4: u8, b5: u8, b6: u8, b7: u8) -> (word: u64)
    ensures
        word as int == little_endian_word(seq![b0, b1, b2, b3, b4, b5, b6, b7]),
{
    (b0 as u64) + (b1 as u64) * 0x100 + (b2 as u64) * 0x1_0000 + (b3 as u64) * 0x100_0000 + (b4 as u64)
        * 0x1_0000_0000 + (b5 as u64) * 0x100_0000_0000 + (b6 as u64) * 0x1_0000_0000_0000 + (b7 as u64)
        * 0x100_0000_0000_0000
}

/// One byte of a number: the quotient by a power of 256, modulo 256.
fn digit(bits: u64, weight: u64) -> (byte: u8)
    requires
        weight > 0,
    ensures
        byte as int == (bits as int / weight as int) % 0x100,
{
    ((bits / weight) % 0x100) as u8
}

/// Reads the 64-bit pattern that a record of the data channel holds.
pub fn decode_record(bytes: &[u8; 8], order: ByteOrder) -> (bits: u64)
    ensures
        bits as int == record_bits(bytes@, order),
{
    match order {
        ByteOrder::Little => {
            let word = assemble(
                bytes[0],
                bytes[1],
                bytes[2],
                bytes[3],
                bytes[4],
                bytes[5],
                bytes[6],
                bytes[7],
            );
            proof {
                assert(bytes@ =~= seq![
                    bytes[0],
                    bytes[1],
                    bytes[2],
                    bytes[3],
                    bytes[4],
                    bytes[5],
                    bytes[6],
                    bytes[7],
                ]);
            }
            word
        },
        ByteOrder::Big => assemble(
            bytes[7],
            bytes[6],
            bytes[5],
            bytes[4],
            bytes[3],
            bytes[2],
            bytes[1],
            bytes[0],
        ),
    }
}

/// Writes a 64-bit pattern as a record of the data channel.
pub fn encode_record(bits: u64, order: ByteOrder) -> (bytes: [u8; 8])
    ensures
        bytes@ == bits_record(bits, order),
{
    let b0 = digit(bits, 1);
    let b1 = digit(bits, 0x100);
    let b2 = digit(bits, 0x1_0000);
    let b3 = digit(bits, 0x100_0000);
    let b4 = digit(bits, 0x1_0000_0000);
    let b5 = digit(bits, 0x100_0000_0000);
    let b6 = digit(bits, 0x1_0000_0000_0000);
    let b7 = digit(bits, 0x100_0000_0000_0000);
    let bytes = match order {
        ByteOrder::Little => [b0, b1, b2, b3, b4, b5, b6, b7],
        ByteOrder::Big => [b7, b6, b5, b4, b3, b2, b1, b0],
    };
    proof {
        assert(bytes@ =~= bits_record(bits, order));
    }
    bytes
}

/// Cuts a double-precision number, given by its bit pattern, down to a
/// 32-bit integer: the fractional part is dropped, what is not a number
/// gives zero, and a number too large in magnitude gives the nearest 32-bit
/// integer.
pub fn truncate(bits: u64) -> (value: i32)
    ensures
        value as int == truncated(bits),
{
    let exponent: u64 = (bits / 0x10_0000_0000_0000) % 0x800;
    let fraction: u64 = bits % 0x10_0000_0000_0000;
    let negative = bits >= 0x8000_0000_0000_0000;
    if exponent == 0x7ff && fraction != 0 {
        0
    } else if exponent < 1023 {
        0
    } else if exponent >= 1054 {
        if negative {
            i32::MIN
        } else {
            i32::MAX
        }
    } else {
        let shift: u64 = 1075 - exponent;
        let significand: u64 = 0x10_0000_0000_0000 + fraction;
        let magnitude: u64 = significand >> shift;
        proof {
            lemma_u64_shr_is_div(significand, shift);
            assert(magnitude < 0x8000_0000) by (bit_vector)
                requires
                    magnitude == significand >> shift,
                    significand < 0x20_0000_0000_0000,
                    22 <= shift <= 52,
            ;
        }
        if negative {
            (0 - (magnitude as i64)) as i32
        } else {
            magnitude as i32
        }
    }
}

/// The event that one record of the data channel stands for.
pub fn decode_event(bytes: &[u8; 8], order: ByteOrder) -> (payload: i32)
    ensures
        payload as int == truncated(record_bits(bytes@, order) as u64),
{
    truncate(decode_record(bytes, order))
}

/// The record that the agent writes to the data channel for an observed value.
pub fn emit_record(record: &ObservedRecord, order: ByteOrder) -> (bytes: [u8; 8])
    ensures
        bytes@ == bits_record(record.value_bits, order),
{
    encode_record(record.value_bits, order)
}

/// Decodes what was received on the data channel: one event for each full
/// record of eight bytes, in the order of arrival.
pub fn read_data(received: &[u8], order: ByteOrder) -> (events: Vec<i32>)
    ensures
        events@.len() == received@.len() / 8,
        forall|i: int| 0 <= i < events@.len() ==> events@[i] as int == events_of(received@, order)[i],
{
    let count: usize = received.len() / 8;
    let mut events: Vec<i32> = Vec::new();
    let mut done: usize = 0;
    while done < count
        invariant
            count == received@.len() / 8,
            count * 8 <= received@.len() <= usize::MAX,
            done <= count,
            events@.len() == done,
            forall|i: int| 0 <= i < done ==> events@[i] as int == events_of(received@, order)[i],
        decreases count - done,
    {
        let at: usize = done * 8;
        let record: [u8; 8] = [
            received[at],
            received[at + 1],
            received[at + 2],
            received[at + 3],
            received[at + 4],
            received[at + 5],
            received[at + 6],
            received[at + 7],
        ];
        proof {
            assert(record@ =~= received@.subrange(8 * done as int, 8 * done as int + 8));
        }
        events.push(decode_event(&record, order));
        done = done + 1;
    }
    events
}

/// The record that the host writes to the forward channel for one event:
/// the integer as four bytes in the given order.
pub fn send_data_ipc(player_won: i32, order: ByteOrder) -> (bytes: [u8; 4])
    ensures
        bytes@ == integer_record(player_won, order),
{
    let wide: i64 = player_won as i64;
    let unsigned: u64 = if wide < 0 {
        (wide + 0x1_0000_0000) as u64
    } else {
        wide as u64
    };
    let b0 = digit(unsigned, 1);
    let b1 = digit(unsigned, 0x100);
    let b2 = digit(unsigned, 0x1_0000);
    let b3 = digit(unsigned, 0x100_0000);
    let bytes = match order {
        ByteOrder::Little => [b0, b1, b2, b3],
        ByteOrder::Big => [b3, b2, b1, b0],
    };
    proof {
        assert(bytes@ =~= integer_record(player_won, order));
    }
    bytes
}

/// What the host writes to the forward channel for a run of events: with
/// forwarding on, the four bytes of each event in order; else nothing.
pub open spec fn forwarded(events: Seq<i32>, forwarding: bool, order: ByteOrder) -> Seq<u8>
    decreases events.len(),
{
    if !forwarding || events.len() == 0 {
        Seq::empty()
    } else {
        forwarded(events.drop_last(), forwarding, order) + integer_record(events.last(), order)
    }
}

/// The bytes for the forward channel that a run of events gives. Without a
/// forward connection nothing is written.
pub fn forward_data(events: &[i32], forwarding: bool, order: ByteOrder) -> (bytes: Vec<u8>)
    ensures
        bytes@ == forwarded(events@, forwarding, order),
{
    let mut bytes: Vec<u8> = Vec::new();
    if !forwarding {
        return bytes;
    }
    let mut done: usize = 0;
    proof {
        assert(events@.subrange(0, 0).len() == 0);
    }
    while done < events.len()
        invariant
            forwarding,
            done <= events@.len(),
            bytes@ == forwarded(events@.subrange(0, done as int), forwarding, order),
        decreases events@.len() - done,
    {
        let record = send_data_ipc(events[done], order);
        proof {
            let longer = events@.subrange(0, done + 1);
            assert(longer.drop_last() == events@.subrange(0, done as int));
            assert(longer.last() == events@[done as int]);
            assert(record@.len() == 4);
            assert(bytes@ + record@ == bytes@.push(record@[0]).push(record@[1]).push(record@[2]).push(
                record@[3],
            ));
        }
        bytes.push(record[0]);
        bytes.push(record[1]);
        bytes.push(record[2]);
        bytes.push(record[3]);
        done = done + 1;
    }
    proof {
        assert(events@.subrange(0, done as int) == events@);
    }
    bytes
}

/// A 64-bit number is the sum of its eight bytes, each at its place.
proof fn lemma_digits_sum(b: u64)
    by (bit_vector)
    ensures
        b == (b % 0x100) + ((b / 0x100) % 0x100) * 0x100 + ((b / 0x1_0000) % 0x100) * 0x1_0000 + ((b
            / 0x100_0000) % 0x100) * 0x100_0000 + ((b / 0x1_0000_0000) % 0x100) * 0x1_0000_0000 + ((b
            / 0x100_0000_0000) % 0x100) * 0x100_0000_0000 + ((b / 0x1_0000_0000_0000) % 0x100)
            * 0x1_0000_0000_0000 + ((b / 0x100_0000_0000_0000) % 0x100) * 0x100_0000_0000_0000,
{
}

/// Each byte of a sum of eight bytes at their places is the byte that was put there.
proof fn lemma_sum_digits(b0: u8, b1: u8, b2: u8, b3: u8, b4: u8, b5: u8, b6: u8, b7: u8, w: u64)
    by (bit_vector)
    requires
        w == (b0 as u64) + (b1 as u64) * 0x100 + (b2 as u64) * 0x1_0000 + (b3 as u64) * 0x100_0000 + (
        b4 as u64) * 0x1_0000_0000 + (b5 as u64) * 0x100_0000_0000 + (b6 as u64) * 0x1_0000_0000_0000
            + (b7 as u64) * 0x100_0000_0000_0000,
    ensures
        w % 0x100 == b0 as u64,
        (w / 0x100) % 0x100 == b1 as u64,
        (w / 0x1_0000) % 0x100 == b2 as u64,
        (w / 0x100_0000) % 0x100 == b3 as u64,
        (w / 0x1_0000_0000) % 0x100 == b4 as u64,
        (w / 0x100_0000_0000) % 0x100 == b5 as u64,
        (w / 0x1_0000_0000_0000) % 0x100 == b6 as u64,
        (w / 0x100_0000_0000_0000) % 0x100 == b7 as u64,
{
}

/// A pattern written as a record and read back in the same order is the
/// pattern itself.
pub proof fn lemma_record_round_trip(bits: u64, order: ByteOrder)
    ensures
        bits_record(bits, order).len() == 8,
        record_bits(bits_record(bits, order), order) == bits as int,
{
    lemma_digits_sum(bits);
}

/// A record read as a pattern and written back in the same order is the
/// record itself.
pub proof fn lemma_bytes_round_trip(bytes: Seq<u8>, order: ByteOrder)
    requires
        bytes.len() == 8,
    ensures
        0 <= record_bits(bytes, order) <= u64::MAX,
        bits_record(record_bits(bytes, order) as u64, order) == bytes,
{
    let low = least_first(bytes, order);
    let w = little_endian_word(low) as u64;
    lemma_sum_digits(low[0], low[1], low[2], low[3], low[4], low[5], low[6], low[7], w);
    assert(bits_record(record_bits(bytes, order) as u64, order) =~= bytes);
}

} // verus!
