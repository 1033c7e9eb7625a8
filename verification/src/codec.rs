//! Byte encoding of the command protocol.  Every message is framed as a
//! 4-byte big-endian length followed by a tagged payload; the payload
//! grammar is fixed here once and shared by host and device.  Encoding and
//! decoding are exact inverses on well-formed data; the round-trip lemmas
//! in this module say so.

use vstd::prelude::*;
use vstd::utf8::encode_utf8;
use vstd::utf8::decode_utf8;
use vstd::utf8::valid_utf8;
use crate::protocol::Command;
use crate::protocol::CommandModel;
use crate::protocol::Response;
use crate::protocol::ResponseModel;
use crate::protocol::TransitionData;
use crate::protocol::spec_mode_byte;
use crate::protocol::spec_mode_from_byte;
use crate::protocol::spec_system_byte;
use crate::protocol::spec_system_from_byte;
use crate::protocol::mode_byte;
use crate::protocol::mode_from_byte;
use crate::protocol::system_byte;
use crate::protocol::system_from_byte;

verus! {

// ---------------------------------------------------------------------
// Big-endian integers
// ---------------------------------------------------------------------
/// The two big-endian bytes of a 16-bit value.
pub open spec fn spec_be16(x: u16) -> Seq<u8> {
    seq![(x >> 8) as u8, x as u8]
}

/// The four big-endian bytes of a 32-bit value.
pub open spec fn spec_be32(x: u32) -> Seq<u8> {
    seq![(x >> 24) as u8, (x >> 16) as u8, (x >> 8) as u8, x as u8]
}

/// The eight big-endian bytes of a 64-bit value.
pub open spec fn spec_be64(x: u64) -> Seq<u8> {
    seq![
        (x >> 56) as u8,
        (x >> 48) as u8,
        (x >> 40) as u8,
        (x >> 32) as u8,
        (x >> 24) as u8,
        (x >> 16) as u8,
        (x >> 8) as u8,
        x as u8,
    ]
}

/// The value of two big-endian bytes.
pub open spec fn spec_be16_val(s: Seq<u8>) -> u16
    recommends
        s.len() == 2,
{
    (((s[0] as u16) << 8) | (s[1] as u16)) as u16
}

/// The value of four big-endian bytes.
pub open spec fn spec_be32_val(s: Seq<u8>) -> u32
    recommends
        s.len() == 4,
{
    (((s[0] as u32) << 24) | ((s[1] as u32) << 16) | ((s[2] as u32) << 8) | (s[3] as u32)) as u32
}

/// The value of eight big-endian bytes.
pub open spec fn spec_be64_val(s: Seq<u8>) -> u64
    recommends
        s.len() == 8,
{
    (((s[0] as u64) << 56) | ((s[1] as u64) << 48) | ((s[2] as u64) << 40) | ((s[3] as u64) << 32)
        | ((s[4] as u64) << 24) | ((s[5] as u64) << 16) | ((s[6] as u64) << 8) | (s[7] as u64)) as u64
}

proof fn lemma_be16_bits(b0: u8, b1: u8, x: u16)
    by (bit_vector)
    requires
        x == (((b0 as u16) << 8) | (b1 as u16)) as u16,
    ensures
        (x >> 8) as u8 == b0,
        x as u8 == b1,
{
}

proof fn lemma_be16_bits_val(x: u16)
    by (bit_vector)
    ensures
        ((((x >> 8) as u8 as u16) << 8) | (x as u8 as u16)) as u16 == x,
{
}

proof fn lemma_be32_bits(b0: u8, b1: u8, b2: u8, b3: u8, x: u32)
    by (bit_vector)
    requires
        x == (((b0 as u32) << 24) | ((b1 as u32) << 16) | ((b2 as u32) << 8) | (b3 as u32)) as u32,
    ensures
        (x >> 24) as u8 == b0,
        (x >> 16) as u8 == b1,
        (x >> 8) as u8 == b2,
        x as u8 == b3,
{
}

proof fn lemma_be32_bits_val(x: u32)
    by (bit_vector)
    ensures
        ((((x >> 24) as u8 as u32) << 24) | (((x >> 16) as u8 as u32) << 16) | (((x
            >> 8) as u8 as u32) << 8) | (x as u8 as u32)) as u32 == x,
{
}

proof fn lemma_be64_bits(b0: u8, b1: u8, b2: u8, b3: u8, b4: u8, b5: u8, b6: u8, b7: u8, x: u64)
    by (bit_vector)
    requires
        x == (((b0 as u64) << 56) | ((b1 as u64) << 48) | ((b2 as u64) << 40) | ((b3 as u64) << 32)
            | ((b4 as u64) << 24) | ((b5 as u64) << 16) | ((b6 as u64) << 8) | (b7 as u64)) as u64,
    ensures
        (x >> 56) as u8 == b0,
        (x >> 48) as u8 == b1,
        (x >> 40) as u8 == b2,
        (x >> 32) as u8 == b3,
        (x >> 24) as u8 == b4,
        (x >> 16) as u8 == b5,
        (x >> 8) as u8 == b6,
        x as u8 == b7,
{
}

proof fn lemma_be64_bits_val(x: u64)
    by (bit_vector)
    ensures
        ((((x >> 56) as u8 as u64) << 56) | (((x >> 48) as u8 as u64) << 48) | (((x
            >> 40) as u8 as u64) << 40) | (((x >> 32) as u8 as u64) << 32) | (((x
            >> 24) as u8 as u64) << 24) | (((x >> 16) as u8 as u64) << 16) | (((x
            >> 8) as u8 as u64) << 8) | (x as u8 as u64)) as u64 == x,
{
}

/// Reading back the bytes of a value yields the value.
pub proof fn lemma_be16_val_of_bytes(x: u16)
    ensures
        spec_be16_val(spec_be16(x)) == x,
{
    lemma_be16_bits_val(x);
}

/// Writing back the value of two bytes yields the bytes.
pub proof fn lemma_be16_bytes_of_val(s: Seq<u8>)
    requires
        s.len() == 2,
    ensures
        spec_be16(spec_be16_val(s)) =~= s,
{
    lemma_be16_bits(s[0], s[1], spec_be16_val(s));
}

/// Reading back the bytes of a value yields the value.
pub proof fn lemma_be32_val_of_bytes(x: u32)
    ensures
        spec_be32_val(spec_be32(x)) == x,
{
    lemma_be32_bits_val(x);
}

/// Writing back the value of four bytes yields the bytes.
pub proof fn lemma_be32_bytes_of_val(s: Seq<u8>)
    requires
        s.len() == 4,
    ensures
        spec_be32(spec_be32_val(s)) =~= s,
{
    lemma_be32_bits(s[0], s[1], s[2], s[3], spec_be32_val(s));
}

/// Reading back the bytes of a value yields the value.
pub proof fn lemma_be64_val_of_bytes(x: u64)
    ensures
        spec_be64_val(spec_be64(x)) == x,
{
    lemma_be64_bits_val(x);
}

/// Writing back the value of eight bytes yields the bytes.
pub proof fn lemma_be64_bytes_of_val(s: Seq<u8>)
    requires
        s.len() == 8,
    ensures
        spec_be64(spec_be64_val(s)) =~= s,
{
    lemma_be64_bits(s[0], s[1], s[2], s[3], s[4], s[5], s[6], s[7], spec_be64_val(s));
}

/// Append the two big-endian bytes of `x`.
pub fn push_be16(out: &mut Vec<u8>, x: u16)
    ensures
        final(out)@ =~= old(out)@ + spec_be16(x),
{
    out.push((x >> 8) as u8);
    out.push(x as u8);
}

/// Append the four big-endian bytes of `x`.
pub fn push_be32(out: &mut Vec<u8>, x: u32)
    ensures
        final(out)@ =~= old(out)@ + spec_be32(x),
{
    out.push((x >> 24) as u8);
    out.push((x >> 16) as u8);
    out.push((x >> 8) as u8);
    out.push(x as u8);
}

/// Append the eight big-endian bytes of `x`.
pub fn push_be64(out: &mut Vec<u8>, x: u64)
    ensures
        final(out)@ =~= old(out)@ + spec_be64(x),
{
    out.push((x >> 56) as u8);
    out.push((x >> 48) as u8);
    out.push((x >> 40) as u8);
    out.push((x >> 32) as u8);
    out.push((x >> 24) as u8);
    out.push((x >> 16) as u8);
    out.push((x >> 8) as u8);
    out.push(x as u8);
}

/// Read a 16-bit big-endian value at `off`.
pub fn read_be16(b: &Vec<u8>, off: usize) -> (x: u16)
    requires
        off + 2 <= b@.len(),
    ensures
        x == spec_be16_val(b@.subrange(off as int, off + 2)),
{
    proof {
        broadcast use vstd::std_specs::vec::axiom_spec_len;

        assert(vstd::std_specs::vec::spec_vec_len(b) == b@.len());
    }
    let x: u16 = ((b[off] as u16) << 8) | (b[off + 1] as u16);
    proof {
        let s = b@.subrange(off as int, off + 2);
        assert(s[0] == b@[off as int] && s[1] == b@[off + 1]);
    }
    x
}

/// Read a 32-bit big-endian value at `off`.
pub fn read_be32(b: &Vec<u8>, off: usize) -> (x: u32)
    requires
        off + 4 <= b@.len(),
    ensures
        x == spec_be32_val(b@.subrange(off as int, off + 4)),
{
    proof {
        broadcast use vstd::std_specs::vec::axiom_spec_len;

        assert(vstd::std_specs::vec::spec_vec_len(b) == b@.len());
    }
    let x: u32 = ((b[off] as u32) << 24) | ((b[off + 1] as u32) << 16) | ((b[off + 2] as u32) << 8)
        | (b[off + 3] as u32);
    proof {
        let s = b@.subrange(off as int, off + 4);
        assert(s[0] == b@[off as int]);
        assert(s[1] == b@[off + 1]);
        assert(s[2] == b@[off + 2]);
        assert(s[3] == b@[off + 3]);
    }
    x
}

/// Read a 64-bit big-endian value at `off`.
pub fn read_be64(b: &Vec<u8>, off: usize) -> (x: u64)
    requires
        off + 8 <= b@.len(),
    ensures
        x == spec_be64_val(b@.subrange(off as int, off + 8)),
{
    proof {
        broadcast use vstd::std_specs::vec::axiom_spec_len;

        assert(vstd::std_specs::vec::spec_vec_len(b) == b@.len());
    }
    let x: u64 = ((b[off] as u64) << 56) | ((b[off + 1] as u64) << 48) | ((b[off + 2] as u64) << 40)
        | ((b[off + 3] as u64) << 32) | ((b[off + 4] as u64) << 24) | ((b[off + 5] as u64) << 16)
        | ((b[off + 6] as u64) << 8) | (b[off + 7] as u64);
    proof {
        let s = b@.subrange(off as int, off + 8);
        assert(s[0] == b@[off as int]);
        assert(s[1] == b@[off + 1]);
        assert(s[2] == b@[off + 2]);
        assert(s[3] == b@[off + 3]);
        assert(s[4] == b@[off + 4]);
        assert(s[5] == b@[off + 5]);
        assert(s[6] == b@[off + 6]);
        assert(s[7] == b@[off + 7]);
    }
    x
}

// ---------------------------------------------------------------------
// Payload grammar
// ---------------------------------------------------------------------
/// Ten wire bytes of one transition record.
pub open spec fn spec_encode_transition(t: TransitionData) -> Seq<u8> {
    spec_be64(t.index) + seq![t.index_kind, t.transition_kind]
}

/// The concatenated records of a transition list.
pub open spec fn spec_encode_transitions(ts: Seq<TransitionData>) -> Seq<u8>
    decreases ts.len(),
{
    if ts.len() == 0 {
        Seq::empty()
    } else {
        spec_encode_transition(ts.first()) + spec_encode_transitions(ts.drop_first())
    }
}

/// The transition record written in ten wire bytes.
pub open spec fn spec_decode_transition(s: Seq<u8>) -> TransitionData
    recommends
        s.len() == 10,
{
    TransitionData {
        index: spec_be64_val(s.subrange(0, 8)),
        index_kind: s[8],
        transition_kind: s[9],
    }
}

/// The first `n` transition records written in a byte string.
pub open spec fn spec_decode_transitions(s: Seq<u8>, n: nat) -> Seq<TransitionData>
    decreases n,
{
    if n == 0 {
        Seq::empty()
    } else {
        seq![spec_decode_transition(s.take(10))] + spec_decode_transitions(
            s.skip(10),
            (n - 1) as nat,
        )
    }
}

/// Encodable commands: a transition list must fit its 32-bit count field.
pub open spec fn wf_command(c: CommandModel) -> bool {
    match c {
        CommandModel::ProvideTransitions(ts) => ts.len() <= 0xFFFF_FFFF,
        _ => true,
    }
}

/// The payload bytes of a command.
pub open spec fn spec_encode_command(c: CommandModel) -> Seq<u8> {
    match c {
        CommandModel::ProvideInput(s, p) => seq![0x00u8, spec_system_byte(s)] + p,
        CommandModel::ProvideTransitions(ts) => seq![0x01u8] + spec_be32(ts.len() as u32)
            + spec_encode_transitions(ts),
        CommandModel::SetReplayMode(m) => seq![0x02u8, spec_mode_byte(m)],
        CommandModel::SetReplayLength(n) => seq![0x03u8] + spec_be64(n),
        CommandModel::SetLatchFilter(us) => seq![0x04u8] + spec_be32(us),
        CommandModel::UseInitialReset(f) => seq![
            0x05u8,
            if f {
                1u8
            } else {
                0u8
            },
        ],
        CommandModel::GetStatus => seq![0x06u8],
        CommandModel::Ping => seq![0x07u8],
    }
}

/// The command written in a payload, if it is well-formed: the unique
/// command whose encoding is exactly these bytes.
pub open spec fn spec_decode_command(b: Seq<u8>) -> Option<CommandModel> {
    if b.len() < 1 {
        None
    } else if b[0] == 0x00 {
        if b.len() >= 2 {
            match spec_system_from_byte(b[1]) {
                Some(s) => Some(CommandModel::ProvideInput(s, b.skip(2))),
                None => None,
            }
        } else {
            None
        }
    } else if b[0] == 0x01 {
        if b.len() >= 5 {
            let n = spec_be32_val(b.subrange(1, 5));
            if b.len() == 5 + n * 10 {
                Some(CommandModel::ProvideTransitions(spec_decode_transitions(b.skip(5), n as nat)))
            } else {
                None
            }
        } else {
            None
        }
    } else if b[0] == 0x02 {
        if b.len() == 2 {
            match spec_mode_from_byte(b[1]) {
                Some(m) => Some(CommandModel::SetReplayMode(m)),
                None => None,
            }
        } else {
            None
        }
    } else if b[0] == 0x03 {
        if b.len() == 9 {
            Some(CommandModel::SetReplayLength(spec_be64_val(b.subrange(1, 9))))
        } else {
            None
        }
    } else if b[0] == 0x04 {
        if b.len() == 5 {
            Some(CommandModel::SetLatchFilter(spec_be32_val(b.subrange(1, 5))))
        } else {
            None
        }
    } else if b[0] == 0x05 {
        if b.len() == 2 && (b[1] == 0 || b[1] == 1) {
            Some(CommandModel::UseInitialReset(b[1] == 1))
        } else {
            None
        }
    } else if b[0] == 0x06 {
        if b.len() == 1 {
            Some(CommandModel::GetStatus)
        } else {
            None
        }
    } else if b[0] == 0x07 {
        if b.len() == 1 {
            Some(CommandModel::Ping)
        } else {
            None
        }
    } else {
        None
    }
}

/// Encodable responses: a status string must fit its 32-bit length field.
pub open spec fn wf_response(r: ResponseModel) -> bool {
    match r {
        ResponseModel::DeviceStatus(s) => encode_utf8(s).len() <= 0xFFFF_FFFF,
        _ => true,
    }
}

/// The payload bytes of a response.
pub open spec fn spec_encode_response(r: ResponseModel) -> Seq<u8> {
    match r {
        ResponseModel::Okay => seq![0x00u8],
        ResponseModel::DeviceStatus(s) => seq![0x01u8] + spec_be32(
            encode_utf8(s).len() as u32,
        ) + encode_utf8(s),
        ResponseModel::BufferStatus { written, remaining_space } => seq![0x02u8] + spec_be16(
            written,
        ) + spec_be16(remaining_space),
        ResponseModel::Pong => seq![0x03u8],
        ResponseModel::Error => seq![0x04u8],
    }
}

/// The response written in a payload, if it is well-formed.
pub open spec fn spec_decode_response(b: Seq<u8>) -> Option<ResponseModel> {
    if b.len() < 1 {
        None
    } else if b[0] == 0x00 {
        if b.len() == 1 {
            Some(ResponseModel::Okay)
        } else {
            None
        }
    } else if b[0] == 0x01 {
        if b.len() >= 5 {
            let n = spec_be32_val(b.subrange(1, 5));
            if b.len() == 5 + n && valid_utf8(b.skip(5)) {
                Some(ResponseModel::DeviceStatus(decode_utf8(b.skip(5))))
            } else {
                None
            }
        } else {
            None
        }
    } else if b[0] == 0x02 {
        if b.len() == 5 {
            Some(
                ResponseModel::BufferStatus {
                    written: spec_be16_val(b.subrange(1, 3)),
                    remaining_space: spec_be16_val(b.subrange(3, 5)),
                },
            )
        } else {
            None
        }
    } else if b[0] == 0x03 {
        if b.len() == 1 {
            Some(ResponseModel::Pong)
        } else {
            None
        }
    } else if b[0] == 0x04 {
        if b.len() == 1 {
            Some(ResponseModel::Error)
        } else {
            None
        }
    } else {
        None
    }
}

// ---------------------------------------------------------------------
// Message framing
// ---------------------------------------------------------------------
/// A payload framed for the wire: 4-byte big-endian length, then payload.
pub open spec fn spec_frame(p: Seq<u8>) -> Seq<u8> {
    spec_be32(p.len() as u32) + p
}

/// The payload of a complete, exactly-sized frame.
pub open spec fn spec_unframe(b: Seq<u8>) -> Option<Seq<u8>> {
    if b.len() >= 4 && b.len() == 4 + spec_be32_val(b.subrange(0, 4)) {
        Some(b.skip(4))
    } else {
        None
    }
}


// ---------------------------------------------------------------------
// Round trips: decoding inverts encoding and encoding inverts decoding
// ---------------------------------------------------------------------
/// Each transition record occupies exactly ten bytes.
pub proof fn lemma_encode_transitions_len(ts: Seq<TransitionData>)
    ensures
        spec_encode_transitions(ts).len() == 10 * ts.len(),
    decreases ts.len(),
{
    if ts.len() > 0 {
        lemma_encode_transitions_len(ts.drop_first());
    }
}

/// Decoding `n` records yields `n` records.
pub proof fn lemma_decode_transitions_len(s: Seq<u8>, n: nat)
    ensures
        spec_decode_transitions(s, n).len() == n,
    decreases n,
{
    if n > 0 {
        lemma_decode_transitions_len(s.skip(10), (n - 1) as nat);
    }
}

/// One record survives an encode/decode round trip.
proof fn lemma_transition_decode_encode(t: TransitionData)
    ensures
        spec_decode_transition(spec_encode_transition(t)) == t,
{
    let b = spec_encode_transition(t);
    assert(b.subrange(0, 8) =~= spec_be64(t.index));
    lemma_be64_val_of_bytes(t.index);
}

/// Ten bytes survive a decode/encode round trip.
proof fn lemma_transition_encode_decode(s: Seq<u8>)
    requires
        s.len() == 10,
    ensures
        spec_encode_transition(spec_decode_transition(s)) =~= s,
{
    lemma_be64_bytes_of_val(s.subrange(0, 8));
}

/// A transition list survives an encode/decode round trip.
pub proof fn lemma_transitions_decode_encode(ts: Seq<TransitionData>)
    ensures
        spec_decode_transitions(spec_encode_transitions(ts), ts.len()) =~= ts,
    decreases ts.len(),
{
    if ts.len() > 0 {
        let b = spec_encode_transitions(ts);
        assert(b.take(10) =~= spec_encode_transition(ts.first()));
        assert(b.skip(10) =~= spec_encode_transitions(ts.drop_first()));
        lemma_transition_decode_encode(ts.first());
        lemma_transitions_decode_encode(ts.drop_first());
        assert(spec_decode_transitions(b, ts.len()) =~= seq![ts.first()] + ts.drop_first());
        assert(seq![ts.first()] + ts.drop_first() =~= ts);
    }
}

/// A whole number of records' worth of bytes survives a decode/encode
/// round trip.
pub proof fn lemma_transitions_encode_decode(s: Seq<u8>, n: nat)
    requires
        s.len() == 10 * n,
    ensures
        spec_encode_transitions(spec_decode_transitions(s, n)) =~= s,
    decreases n,
{
    if n > 0 {
        lemma_transition_encode_decode(s.take(10));
        lemma_transitions_encode_decode(s.skip(10), (n - 1) as nat);
        assert(spec_decode_transitions(s, n).first() == spec_decode_transition(s.take(10)));
        assert(spec_decode_transitions(s, n).drop_first() =~= spec_decode_transitions(
            s.skip(10),
            (n - 1) as nat,
        ));
        assert(spec_encode_transitions(spec_decode_transitions(s, n))
            =~= spec_encode_transition(spec_decode_transition(s.take(10)))
            + spec_encode_transitions(spec_decode_transitions(s.skip(10), (n - 1) as nat)));
        assert(s.take(10) + s.skip(10) =~= s);
    }
}

/// Appending transition lists appends their encodings.
pub proof fn lemma_encode_transitions_app(a: Seq<TransitionData>, b: Seq<TransitionData>)
    ensures
        spec_encode_transitions(a + b) =~= spec_encode_transitions(a) + spec_encode_transitions(b),
    decreases a.len(),
{
    if a.len() == 0 {
        assert(a + b =~= b);
    } else {
        assert((a + b).first() == a.first());
        assert((a + b).drop_first() =~= a.drop_first() + b);
        lemma_encode_transitions_app(a.drop_first(), b);
        assert(spec_encode_transitions(a + b) =~= spec_encode_transition(a.first())
            + (spec_encode_transitions(a.drop_first()) + spec_encode_transitions(b)));
        assert(spec_encode_transition(a.first()) + (spec_encode_transitions(a.drop_first())
            + spec_encode_transitions(b)) =~= spec_encode_transitions(a)
            + spec_encode_transitions(b));
    }
}

/// Each record decoded is the record written at its offset.
pub proof fn lemma_decode_transitions_step(s: Seq<u8>, i: nat)
    requires
        s.len() >= 10 * (i + 1),
    ensures
        spec_decode_transitions(s, i + 1) =~= spec_decode_transitions(s, i) + seq![
            spec_decode_transition(s.skip(10 * i as int).take(10)),
        ],
    decreases i,
{
    if i == 0 {
        assert(s.skip(0) =~= s);
        assert(spec_decode_transitions(s, 1) == seq![spec_decode_transition(s.take(10))]
            + spec_decode_transitions(s.skip(10), 0));
        assert(spec_decode_transitions(s, i + 1) =~= spec_decode_transitions(s, i) + seq![
            spec_decode_transition(s.skip(10 * i as int).take(10)),
        ]);
    } else {
        lemma_decode_transitions_step(s.skip(10), (i - 1) as nat);
        assert(s.skip(10).skip(10 * (i - 1) as int) =~= s.skip(10 * i as int));
        let head = seq![spec_decode_transition(s.take(10))];
        let mid = spec_decode_transitions(s.skip(10), (i - 1) as nat);
        let last = seq![spec_decode_transition(s.skip(10 * i as int).take(10))];
        assert(spec_decode_transitions(s.skip(10), i) == mid + last);
        assert(spec_decode_transitions(s, i + 1) == head + (mid + last));
        assert(spec_decode_transitions(s, i) == head + mid);
        assert(head + (mid + last) =~= (head + mid) + last);
        assert(spec_decode_transitions(s, i + 1) =~= spec_decode_transitions(s, i) + seq![
            spec_decode_transition(s.skip(10 * i as int).take(10)),
        ]);
    }
}

/// A command payload decoded successfully re-encodes to exactly the bytes
/// it was decoded from, and the command is well-formed.
pub proof fn lemma_command_decode_encode(b: Seq<u8>)
    requires
        spec_decode_command(b) is Some,
    ensures
        wf_command(spec_decode_command(b).unwrap()),
        spec_encode_command(spec_decode_command(b).unwrap()) =~= b,
{
    let c = spec_decode_command(b).unwrap();
    if b[0] == 0x00 {
        let sys = spec_system_from_byte(b[1]).unwrap();
        assert(spec_system_byte(sys) == b[1]);
        assert(spec_encode_command(c) =~= b);
    } else if b[0] == 0x01 {
        let n = spec_be32_val(b.subrange(1, 5));
        let ts = spec_decode_transitions(b.skip(5), n as nat);
        lemma_decode_transitions_len(b.skip(5), n as nat);
        lemma_transitions_encode_decode(b.skip(5), n as nat);
        lemma_be32_bytes_of_val(b.subrange(1, 5));
        assert(spec_be32(ts.len() as u32) =~= b.subrange(1, 5));
        assert(spec_encode_command(c) =~= b);
    } else if b[0] == 0x02 {
        let m = spec_mode_from_byte(b[1]).unwrap();
        assert(spec_mode_byte(m) == b[1]);
        assert(spec_encode_command(c) =~= b);
    } else if b[0] == 0x03 {
        lemma_be64_bytes_of_val(b.subrange(1, 9));
        assert(spec_encode_command(c) =~= b);
    } else if b[0] == 0x04 {
        lemma_be32_bytes_of_val(b.subrange(1, 5));
        assert(spec_encode_command(c) =~= b);
    } else if b[0] == 0x05 {
        assert(spec_encode_command(c) =~= b);
    } else if b[0] == 0x06 {
        assert(spec_encode_command(c) =~= b);
    } else {
        assert(b[0] == 0x07);
        assert(spec_encode_command(c) =~= b);
    }
}

/// A well-formed command decodes back from its own encoding.
pub proof fn lemma_command_encode_decode(c: CommandModel)
    requires
        wf_command(c),
    ensures
        spec_decode_command(spec_encode_command(c)) == Some(c),
{
    let b = spec_encode_command(c);
    match c {
        CommandModel::ProvideInput(sys, p) => {
            assert(spec_system_from_byte(spec_system_byte(sys)) == Some(sys));
            assert(b.skip(2) =~= p);
        },
        CommandModel::ProvideTransitions(ts) => {
            lemma_encode_transitions_len(ts);
            assert(b.subrange(1, 5) =~= spec_be32(ts.len() as u32));
            lemma_be32_val_of_bytes(ts.len() as u32);
            assert(b.skip(5) =~= spec_encode_transitions(ts));
            lemma_transitions_decode_encode(ts);
            assert(spec_decode_command(b) == Some(
                CommandModel::ProvideTransitions(
                    spec_decode_transitions(spec_encode_transitions(ts), ts.len()),
                ),
            ));
        },
        CommandModel::SetReplayMode(m) => {
            assert(spec_mode_from_byte(spec_mode_byte(m)) == Some(m));
        },
        CommandModel::SetReplayLength(n) => {
            assert(b.subrange(1, 9) =~= spec_be64(n));
            lemma_be64_val_of_bytes(n);
        },
        CommandModel::SetLatchFilter(us) => {
            assert(b.subrange(1, 5) =~= spec_be32(us));
            lemma_be32_val_of_bytes(us);
        },
        CommandModel::UseInitialReset(f) => {
        },
        CommandModel::GetStatus => {
        },
        CommandModel::Ping => {
        },
    }
}

/// A response payload decoded successfully re-encodes to exactly the bytes
/// it was decoded from, and the response is well-formed.
pub proof fn lemma_response_decode_encode(b: Seq<u8>)
    requires
        spec_decode_response(b) is Some,
    ensures
        wf_response(spec_decode_response(b).unwrap()),
        spec_encode_response(spec_decode_response(b).unwrap()) =~= b,
{
    let r = spec_decode_response(b).unwrap();
    if b[0] == 0x00 {
        assert(spec_encode_response(r) =~= b);
    } else if b[0] == 0x01 {
        let n = spec_be32_val(b.subrange(1, 5));
        vstd::utf8::decode_utf8_encode_utf8(b.skip(5));
        assert(encode_utf8(decode_utf8(b.skip(5))) == b.skip(5));
        lemma_be32_bytes_of_val(b.subrange(1, 5));
        assert(spec_be32(encode_utf8(decode_utf8(b.skip(5))).len() as u32) =~= b.subrange(1, 5));
        assert(spec_encode_response(r) =~= b);
    } else if b[0] == 0x02 {
        lemma_be16_bytes_of_val(b.subrange(1, 3));
        lemma_be16_bytes_of_val(b.subrange(3, 5));
        assert(spec_encode_response(r) =~= b);
    } else if b[0] == 0x03 {
        assert(spec_encode_response(r) =~= b);
    } else {
        assert(b[0] == 0x04);
        assert(spec_encode_response(r) =~= b);
    }
}

/// A well-formed response decodes back from its own encoding.
pub proof fn lemma_response_encode_decode(r: ResponseModel)
    requires
        wf_response(r),
    ensures
        spec_decode_response(spec_encode_response(r)) == Some(r),
{
    let b = spec_encode_response(r);
    match r {
        ResponseModel::Okay => {
        },
        ResponseModel::DeviceStatus(s) => {
            let payload = encode_utf8(s);
            assert(b.subrange(1, 5) =~= spec_be32(payload.len() as u32));
            lemma_be32_val_of_bytes(payload.len() as u32);
            assert(b.skip(5) =~= payload);
            vstd::utf8::encode_utf8_valid_utf8(s);
            vstd::utf8::encode_utf8_decode_utf8(s);
        },
        ResponseModel::BufferStatus { written, remaining_space } => {
            assert(b.subrange(1, 3) =~= spec_be16(written));
            assert(b.subrange(3, 5) =~= spec_be16(remaining_space));
            lemma_be16_val_of_bytes(written);
            lemma_be16_val_of_bytes(remaining_space);
        },
        ResponseModel::Pong => {
        },
        ResponseModel::Error => {
        },
    }
}

/// A payload that fits the length field survives framing and unframing.
pub proof fn lemma_frame_unframe(p: Seq<u8>)
    requires
        p.len() <= 0xFFFF_FFFF,
    ensures
        spec_unframe(spec_frame(p)) == Some(p),
{
    let b = spec_frame(p);
    assert(b.subrange(0, 4) =~= spec_be32(p.len() as u32));
    lemma_be32_val_of_bytes(p.len() as u32);
    assert(b.skip(4) =~= p);
}

/// A complete frame is exactly the framing of its payload.
pub proof fn lemma_unframe_frame(b: Seq<u8>)
    requires
        spec_unframe(b) is Some,
    ensures
        spec_frame(spec_unframe(b).unwrap()) =~= b,
{
    lemma_be32_bytes_of_val(b.subrange(0, 4));
}


// ---------------------------------------------------------------------
// Executable encoding and decoding
// ---------------------------------------------------------------------
/// Append a whole vector of bytes.
pub fn push_bytes(out: &mut Vec<u8>, src: &Vec<u8>)
    ensures
        final(out)@ == old(out)@ + src@,
{
    let mut i: usize = 0;
    while i < src.len()
        invariant
            i <= src@.len(),
            out@ == old(out)@ + src@.take(i as int),
        decreases src@.len() - i,
    {
        out.push(src[i]);
        proof {
            assert(old(out)@ + src@.take(i as int) + seq![src@[i as int]] =~= old(out)@
                + src@.take(i + 1));
        }
        i = i + 1;
    }
    proof {
        assert(src@.take(src@.len() as int) =~= src@);
    }
}

/// Append a whole slice of bytes.
pub fn push_slice(out: &mut Vec<u8>, src: &[u8])
    ensures
        final(out)@ == old(out)@ + src@,
{
    let mut i: usize = 0;
    while i < src.len()
        invariant
            i <= src@.len(),
            out@ == old(out)@ + src@.take(i as int),
        decreases src@.len() - i,
    {
        out.push(src[i]);
        proof {
            assert(old(out)@ + src@.take(i as int) + seq![src@[i as int]] =~= old(out)@
                + src@.take(i + 1));
        }
        i = i + 1;
    }
    proof {
        assert(src@.take(src@.len() as int) =~= src@);
    }
}

/// Copy the bytes of `b` from `from` (inclusive) to `to` (exclusive).
pub fn copy_range(b: &Vec<u8>, from: usize, to: usize) -> (r: Vec<u8>)
    requires
        from <= to <= b@.len(),
    ensures
        r@ == b@.subrange(from as int, to as int),
{
    let mut out: Vec<u8> = Vec::new();
    let mut i: usize = from;
    while i < to
        invariant
            from <= i <= to <= b@.len(),
            out@ == b@.subrange(from as int, i as int),
        decreases to - i,
    {
        out.push(b[i]);
        proof {
            assert(b@.subrange(from as int, i as int) + seq![b@[i as int]] =~= b@.subrange(
                from as int,
                i + 1,
            ));
        }
        i = i + 1;
    }
    out
}

/// Relies on `String::from_utf8`: succeeds exactly on valid UTF-8 and
/// returns the string whose bytes are exactly the input.
#[verifier::external_body]
fn string_from_utf8(v: Vec<u8>) -> (r: Option<String>)
    ensures
        r is Some <==> valid_utf8(v@),
        r matches Some(s) ==> encode_utf8(s@) == v@,
{
    String::from_utf8(v).ok()
}

/// Encode a command into payload bytes.
pub fn encode_command(c: &Command) -> (r: Vec<u8>)
    requires
        wf_command(c@),
    ensures
        r@ == spec_encode_command(c@),
{
    let mut out: Vec<u8> = Vec::new();
    match c {
        Command::ProvideInput(sys, p) => {
            out.push(0x00);
            out.push(system_byte(*sys));
            proof {
                assert(out@ =~= seq![0x00u8, spec_system_byte(*sys)]);
            }
            push_bytes(&mut out, p);
        },
        Command::ProvideTransitions(ts) => {
            out.push(0x01);
            push_be32(&mut out, ts.len() as u32);
            proof {
                assert(out@ =~= seq![0x01u8] + spec_be32(ts@.len() as u32));
            }
            let ghost prefix = out@;
            let mut i: usize = 0;
            while i < ts.len()
                invariant
                    i <= ts@.len(),
                    out@ == prefix + spec_encode_transitions(ts@.take(i as int)),
                decreases ts@.len() - i,
            {
                let t = ts[i];
                push_be64(&mut out, t.index);
                out.push(t.index_kind);
                out.push(t.transition_kind);
                proof {
                    lemma_encode_transitions_app(ts@.take(i as int), seq![ts@[i as int]]);
                    assert(ts@.take(i as int) + seq![ts@[i as int]] =~= ts@.take(i + 1));
                    assert(seq![ts@[i as int]].drop_first() =~= Seq::<TransitionData>::empty());
                    assert(spec_encode_transitions(seq![ts@[i as int]])
                        == spec_encode_transition(ts@[i as int]) + spec_encode_transitions(
                        Seq::<TransitionData>::empty(),
                    ));
                    assert(spec_encode_transition(ts@[i as int]) + Seq::<u8>::empty()
                        =~= spec_encode_transition(ts@[i as int]));
                    assert(out@ =~= prefix + spec_encode_transitions(ts@.take(i as int))
                        + spec_encode_transition(ts@[i as int]));
                    assert(prefix + spec_encode_transitions(ts@.take(i as int))
                        + spec_encode_transition(ts@[i as int]) =~= prefix
                        + spec_encode_transitions(ts@.take(i + 1)));
                }
                i = i + 1;
            }
            proof {
                assert(ts@.take(ts@.len() as int) =~= ts@);
            }
        },
        Command::SetReplayMode(m) => {
            out.push(0x02);
            out.push(mode_byte(*m));
            proof {
                assert(out@ =~= seq![0x02u8, spec_mode_byte(*m)]);
            }
        },
        Command::SetReplayLength(n) => {
            out.push(0x03);
            push_be64(&mut out, *n);
            proof {
                assert(out@ =~= seq![0x03u8] + spec_be64(*n));
            }
        },
        Command::SetLatchFilter(us) => {
            out.push(0x04);
            push_be32(&mut out, *us);
            proof {
                assert(out@ =~= seq![0x04u8] + spec_be32(*us));
            }
        },
        Command::UseInitialReset(f) => {
            out.push(0x05);
            if *f {
                out.push(1);
            } else {
                out.push(0);
            }
            proof {
                assert(out@ =~= spec_encode_command(c@));
            }
        },
        Command::GetStatus => {
            out.push(0x06);
            proof {
                assert(out@ =~= seq![0x06u8]);
            }
        },
        Command::Ping => {
            out.push(0x07);
            proof {
                assert(out@ =~= seq![0x07u8]);
            }
        },
    }
    out
}

/// Decode a command payload: returns exactly the command the payload
/// spells, and nothing for any byte string outside the grammar.
pub fn decode_command(b: &Vec<u8>) -> (r: Option<Command>)
    ensures
        match r {
            Some(c) => spec_decode_command(b@) == Some(c@),
            None => spec_decode_command(b@) is None,
        },
{
    let blen: usize = b.len();
    if blen < 1 {
        return None;
    }
    let tag = b[0];
    if tag == 0x00 {
        if blen < 2 {
            return None;
        }
        match system_from_byte(b[1]) {
            Some(sys) => {
                let payload = copy_range(b, 2, blen);
                proof {
                    assert(b@.subrange(2, blen as int) =~= b@.skip(2));
                }
                Some(Command::ProvideInput(sys, payload))
            },
            None => None,
        }
    } else if tag == 0x01 {
        if blen < 5 {
            return None;
        }
        let count32 = read_be32(b, 1);
        let count: usize = count32 as usize;
        if (blen as u64) - 5 != (count32 as u64) * 10 {
            return None;
        }
        let mut v: Vec<TransitionData> = Vec::new();
        let mut i: usize = 0;
        while i < count
            invariant
                i <= count,
                count == count32 as int,
                b@.len() == blen,
                b@.len() == 5 + 10 * count,
                v@ == spec_decode_transitions(b@.skip(5), i as nat),
            decreases count - i,
        {
            let off: usize = 5 + 10 * i;
            let index = read_be64(b, off);
            let index_kind = b[off + 8];
            let transition_kind = b[off + 9];
            v.push(TransitionData { index, index_kind, transition_kind });
            proof {
                lemma_decode_transitions_step(b@.skip(5), i as nat);
                let record = b@.skip(5).skip(10 * i as int).take(10);
                assert(record =~= b@.subrange(off as int, off + 10));
                assert(record.subrange(0, 8) =~= b@.subrange(off as int, off + 8));
                assert(record[8] == b@[off + 8] && record[9] == b@[off + 9]);
                assert(spec_decode_transition(record) == TransitionData {
                    index: spec_be64_val(b@.subrange(off as int, off + 8)),
                    index_kind: b@[off + 8],
                    transition_kind: b@[off + 9],
                });
                assert(v@ =~= spec_decode_transitions(b@.skip(5), (i + 1) as nat));
            }
            i = i + 1;
        }
        Some(Command::ProvideTransitions(v))
    } else if tag == 0x02 {
        if blen != 2 {
            return None;
        }
        match mode_from_byte(b[1]) {
            Some(m) => Some(Command::SetReplayMode(m)),
            None => None,
        }
    } else if tag == 0x03 {
        if blen != 9 {
            return None;
        }
        Some(Command::SetReplayLength(read_be64(b, 1)))
    } else if tag == 0x04 {
        if blen != 5 {
            return None;
        }
        Some(Command::SetLatchFilter(read_be32(b, 1)))
    } else if tag == 0x05 {
        if blen != 2 {
            return None;
        }
        if b[1] == 0 {
            Some(Command::UseInitialReset(false))
        } else if b[1] == 1 {
            Some(Command::UseInitialReset(true))
        } else {
            None
        }
    } else if tag == 0x06 {
        if blen != 1 {
            return None;
        }
        Some(Command::GetStatus)
    } else if tag == 0x07 {
        if blen != 1 {
            return None;
        }
        Some(Command::Ping)
    } else {
        None
    }
}

/// Encode a response into payload bytes.
pub fn encode_response(r: &Response) -> (out: Vec<u8>)
    requires
        wf_response(r@),
    ensures
        out@ == spec_encode_response(r@),
{
    let mut out: Vec<u8> = Vec::new();
    match r {
        Response::Okay => {
            out.push(0x00);
            proof {
                assert(out@ =~= seq![0x00u8]);
            }
        },
        Response::DeviceStatus(s) => {
            let bytes: &[u8] = s.as_str().as_bytes();
            out.push(0x01);
            push_be32(&mut out, bytes.len() as u32);
            push_slice(&mut out, bytes);
            proof {
                assert(out@ =~= spec_encode_response(r@));
            }
        },
        Response::BufferStatus { written, remaining_space } => {
            out.push(0x02);
            push_be16(&mut out, *written);
            push_be16(&mut out, *remaining_space);
            proof {
                assert(out@ =~= spec_encode_response(r@));
            }
        },
        Response::Pong => {
            out.push(0x03);
            proof {
                assert(out@ =~= seq![0x03u8]);
            }
        },
        Response::Error => {
            out.push(0x04);
            proof {
                assert(out@ =~= seq![0x04u8]);
            }
        },
    }
    out
}

/// Decode a response payload: returns exactly the response the payload
/// spells, and nothing for any byte string outside the grammar.
pub fn decode_response(b: &Vec<u8>) -> (r: Option<Response>)
    ensures
        match r {
            Some(resp) => spec_decode_response(b@) == Some(resp@),
            None => spec_decode_response(b@) is None,
        },
{
    let blen: usize = b.len();
    if blen < 1 {
        return None;
    }
    let tag = b[0];
    if tag == 0x00 {
        if blen != 1 {
            return None;
        }
        Some(Response::Okay)
    } else if tag == 0x01 {
        if blen < 5 {
            return None;
        }
        let count32 = read_be32(b, 1);
        if (blen as u64) - 5 != count32 as u64 {
            return None;
        }
        let bytes = copy_range(b, 5, blen);
        proof {
            assert(b@.subrange(5, blen as int) =~= b@.skip(5));
        }
        match string_from_utf8(bytes) {
            Some(text) => {
                proof {
                    vstd::utf8::encode_utf8_decode_utf8(text@);
                }
                Some(Response::DeviceStatus(text))
            },
            None => None,
        }
    } else if tag == 0x02 {
        if blen != 5 {
            return None;
        }
        let written = read_be16(b, 1);
        let remaining_space = read_be16(b, 3);
        Some(Response::BufferStatus { written, remaining_space })
    } else if tag == 0x03 {
        if blen != 1 {
            return None;
        }
        Some(Response::Pong)
    } else if tag == 0x04 {
        if blen != 1 {
            return None;
        }
        Some(Response::Error)
    } else {
        None
    }
}

/// Put a payload behind its 4-byte big-endian length header.
pub fn frame_payload(p: &Vec<u8>) -> (r: Vec<u8>)
    requires
        p@.len() <= 0xFFFF_FFFF,
    ensures
        r@ == spec_frame(p@),
{
    let mut out: Vec<u8> = Vec::new();
    push_be32(&mut out, p.len() as u32);
    push_bytes(&mut out, p);
    out
}

/// Strip the length header off a complete, exactly-sized frame.
pub fn unframe(b: &Vec<u8>) -> (r: Option<Vec<u8>>)
    ensures
        match r {
            Some(p) => spec_unframe(b@) == Some(p@),
            None => spec_unframe(b@) is None,
        },
{
    let blen: usize = b.len();
    if blen < 4 {
        return None;
    }
    let n = read_be32(b, 0);
    if (blen as u64) - 4 != n as u64 {
        return None;
    }
    let p = copy_range(b, 4, blen);
    proof {
        assert(b@.subrange(4, blen as int) =~= b@.skip(4));
    }
    Some(p)
}

} // verus!
