//! The N64 replay engine.  N64 controllers speak the Joybus serial
//! protocol; a programmable I/O block shifts symbols on and off the data
//! line, and the CPU's only jobs are to match each console command byte
//! and to feed the transmit FIFO with encoded words.  Those decisions are
//! here; the surrounding program moves the words.

use vstd::prelude::*;
use crate::queue::InputQueue;
use crate::queue::spec_dequeue;

verus! {

/// The Joybus cell for one data bit: a long-low symbol for zero, a
/// short-low symbol for one, four PIO ticks per cell.
pub open spec fn spec_joybus_cell(bit_set: bool) -> u32 {
    if bit_set {
        0b0111
    } else {
        0b0001
    }
}

/// The first `n` bits of a byte, most significant first, packed as
/// Joybus cells into the low `4 * n` bits of a word.
pub open spec fn spec_joybus_prefix(data: u8, n: nat) -> u32
    decreases n,
{
    if n == 0 {
        0
    } else {
        (spec_joybus_prefix(data, (n - 1) as nat) << 4) | spec_joybus_cell(
            (data >> ((8 - n) as u8)) & 1 == 1,
        )
    }
}

/// A whole byte as eight Joybus cells, most significant bit first.
pub open spec fn spec_joybus(data: u8) -> u32 {
    spec_joybus_prefix(data, 8)
}

/// The word that ends every controller response: the controller stop bit.
pub const JOYBUS_STOP: u32 = 0x3FFF_FFFF;

/// Encode one byte as eight Joybus cells, most significant bit first:
/// each set bit becomes `0b0111`, each clear bit `0b0001`.
pub fn encode_joybus(data: u8) -> (out: u32)
    ensures
        out == spec_joybus(data),
{
    let mut out: u32 = 0;
    let mut i: usize = 0;
    while i < 8
        invariant
            i <= 8,
            out == spec_joybus_prefix(data, i as nat),
        decreases 8 - i,
    {
        let bit_set: bool = (data >> ((7 - i) as u8)) & 1 == 1;
        let cell: u32 = if bit_set {
            0b0111
        } else {
            0b0001
        };
        out = (out << 4u32) | cell;
        proof {
            let n1 = (i + 1) as nat;
            assert((8 - n1) as u8 == (7 - i) as u8);
            assert(spec_joybus_prefix(data, n1) == (spec_joybus_prefix(data, i as nat) << 4)
                | spec_joybus_cell((data >> ((8 - n1) as u8)) & 1 == 1));
        }
        i = i + 1;
    }
    out
}

/// What the device does in answer to one console command byte.
pub enum N64Action {
    /// Jump the PIO to its write routine and push these words into the
    /// transmit FIFO, then keep the line silent for the trailing
    /// microseconds.
    Respond { words: Vec<u32>, trailing_silence_us: u32 },
    /// Hold off for this many microseconds to respect console timing.
    DelayUs(u32),
    /// Not a command the controller answers.
    Ignore,
}

/// The words of a controller response: each byte as Joybus cells, then
/// the stop bit.
pub open spec fn spec_response_words(bytes: Seq<u8>) -> Seq<u32> {
    Seq::new(bytes.len(), |i: int| spec_joybus(bytes[i])) + seq![JOYBUS_STOP]
}

/// Decide the response to one console command byte, as the controller
/// the device impersonates would:
/// - `0xFF` or `0x01` (status poll): the first four bytes of the next
///   queued frame, encoded, then the stop bit; a drained queue answers
///   with the all-zero frame (sticks centered, nothing pressed).  16
///   microseconds of trailing silence.
/// - `0x00` (identify): the standard-controller identity `[0x05, 0x00,
///   0x02]`, encoded, then the stop bit; 16 microseconds of silence.
/// - `0x02` or `0x03` (pak read/write): no reply, a 150 microsecond hold.
/// - anything else: ignored.
pub fn respond(cmd: u8, queue: &mut InputQueue) -> (action: N64Action)
    requires
        old(queue).wf(),
        old(queue).spec_width() == 16,
    ensures
        final(queue).wf(),
        final(queue).spec_width() == old(queue).spec_width(),
        final(queue).spec_capacity() == old(queue).spec_capacity(),
        cmd == 0xFF || cmd == 0x01 ==> match action {
            N64Action::Respond { words, trailing_silence_us } => {
                &&& trailing_silence_us == 16
                &&& (old(queue).model().len() > 0 ==> words@ == spec_response_words(
                    spec_dequeue(old(queue).model()).0.take(4),
                ) && final(queue).model() == spec_dequeue(old(queue).model()).1)
                &&& (old(queue).model().len() == 0 ==> words@ == spec_response_words(
                    seq![0u8, 0u8, 0u8, 0u8],
                ) && final(queue).model() == old(queue).model())
            },
            _ => false,
        },
        cmd == 0x00 ==> match action {
            N64Action::Respond { words, trailing_silence_us } => words@ == spec_response_words(
                seq![0x05u8, 0x00u8, 0x02u8],
            ) && trailing_silence_us == 16 && final(queue).model() == old(queue).model(),
            _ => false,
        },
        cmd == 0x02 || cmd == 0x03 ==> match action {
            N64Action::DelayUs(us) => us == 150 && final(queue).model() == old(queue).model(),
            _ => false,
        },
        !(cmd == 0xFF || cmd == 0x01 || cmd == 0x00 || cmd == 0x02 || cmd == 0x03) ==> match action {
            N64Action::Ignore => final(queue).model() == old(queue).model(),
            _ => false,
        },
{
    if cmd == 0xFF || cmd == 0x01 {
        let frame: Vec<u8> = match queue.dequeue() {
            Some(f) => f,
            None => {
                let mut zero: Vec<u8> = Vec::new();
                let mut i: usize = 0;
                while i < 16
                    invariant
                        i <= 16,
                        zero@.len() == i,
                        forall|j: int| 0 <= j < i ==> zero@[j] == 0u8,
                    decreases 16 - i,
                {
                    zero.push(0);
                    i = i + 1;
                }
                zero
            },
        };
        let mut words: Vec<u32> = Vec::new();
        words.push(encode_joybus(frame[0]));
        words.push(encode_joybus(frame[1]));
        words.push(encode_joybus(frame[2]));
        words.push(encode_joybus(frame[3]));
        words.push(JOYBUS_STOP);
        proof {
            if old(queue).model().len() > 0 {
                assert(words@ =~= spec_response_words(
                    spec_dequeue(old(queue).model()).0.take(4),
                ));
            } else {
                assert(frame@ =~= Seq::new(16, |j: int| 0u8));
                assert(words@ =~= spec_response_words(seq![0u8, 0u8, 0u8, 0u8]));
            }
        }
        N64Action::Respond { words, trailing_silence_us: 16 }
    } else if cmd == 0x00 {
        let mut words: Vec<u32> = Vec::new();
        words.push(encode_joybus(0x05));
        words.push(encode_joybus(0x00));
        words.push(encode_joybus(0x02));
        words.push(JOYBUS_STOP);
        proof {
            assert(words@ =~= spec_response_words(seq![0x05u8, 0x00u8, 0x02u8]));
        }
        N64Action::Respond { words, trailing_silence_us: 16 }
    } else if cmd == 0x02 || cmd == 0x03 {
        N64Action::DelayUs(150)
    } else {
        N64Action::Ignore
    }
}

} // verus!
