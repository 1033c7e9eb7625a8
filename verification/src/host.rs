//! The host driver's decisions: how a movie's bytes are cut into chunks
//! sized to the device's reported free space, when replay is started, and
//! when to back off; plus the fixed key-to-frame tables for manual play
//! and the byte-level reshaping of movie input for the wire.  The
//! surrounding program does the serial talking and the sleeping.

use vstd::prelude::*;
use crate::protocol::TransitionData;

verus! {

/// The chunk the driver sends next: at least one frame, at most the
/// device's last reported free space, and never more than the probe size
/// of 16 bytes (so the first reply reveals the true capacity cheaply) nor
/// more than what remains.
pub open spec fn spec_chunk_len(width: nat, prev_empty: nat, remaining: nat) -> nat {
    let probe: nat = if remaining < 16 {
        remaining
    } else {
        16
    };
    let lim: nat = if prev_empty < probe {
        prev_empty
    } else {
        probe
    };
    if lim < width {
        width
    } else {
        lim
    }
}

/// Flow-control state of one streaming session.
pub struct PrefillState {
    /// Frame width in bytes of the console being fed.
    pub width: usize,
    /// Bytes of the movie already accepted by the device.
    pub cursor: usize,
    /// The device's `remaining_space` from the previous reply; starts at
    /// one frame so the first send is a single-frame probe.
    pub prev_empty: usize,
    /// Whether `SetReplayMode` has been issued (the queue filled once).
    pub has_started: bool,
}

/// What the driver does after a `BufferStatus` reply.
#[derive(Debug, PartialEq, Eq, Structural, Copy, Clone)]
pub enum PrefillAction {
    /// The device queue just filled for the first time: start replay now.
    StartReplay,
    /// The device is draining and nearly full-buffered: sleep before the
    /// next send.
    Throttle,
    /// Keep streaming.
    Continue,
}

impl PrefillState {
    pub open spec fn wf(&self) -> bool {
        1 <= self.width
    }

    pub fn new(width: usize) -> (r: PrefillState)
        requires
            1 <= width,
        ensures
            r.wf(),
            r.width == width,
            r.cursor == 0,
            r.prev_empty == width,
            !r.has_started,
    {
        PrefillState { width, cursor: 0, prev_empty: width, has_started: false }
    }

    /// The half-open byte range of the movie to send next.  The caller
    /// keeps whole frames in the stream, so what remains is a positive
    /// multiple of the frame width and the chunk never runs off the end.
    pub fn next_chunk(&self, total: usize) -> (r: (usize, usize))
        requires
            self.wf(),
            self.cursor < total,
            (total - self.cursor) % (self.width as int) == 0,
        ensures
            r.0 == self.cursor,
            r.1 - r.0 == spec_chunk_len(
                self.width as nat,
                self.prev_empty as nat,
                (total - self.cursor) as nat,
            ),
            r.0 < r.1 <= total,
    {
        let remaining: usize = total - self.cursor;
        let probe: usize = if remaining < 16 {
            remaining
        } else {
            16
        };
        let lim: usize = if self.prev_empty < probe {
            self.prev_empty
        } else {
            probe
        };
        let len: usize = if lim < self.width {
            self.width
        } else {
            lim
        };
        proof {
            assert(remaining >= self.width) by {
                if remaining < self.width {
                    vstd::arithmetic::div_mod::lemma_small_mod(
                        remaining as nat,
                        self.width as nat,
                    );
                }
            }
        }
        (self.cursor, self.cursor + len)
    }

    /// Account for one `BufferStatus` reply: move the cursor past the
    /// bytes the device took, remember the new free space, and decide
    /// what to do next.  Replay starts on the first reply that reports a
    /// full queue; afterwards, free space under 128 bytes means the
    /// device is well-stocked and the driver should pause before the
    /// next send.
    pub fn apply_reply(&mut self, written: u16, remaining_space: u16) -> (action: PrefillAction)
        requires
            old(self).wf(),
            old(self).cursor + written <= usize::MAX,
        ensures
            final(self).wf(),
            final(self).width == old(self).width,
            final(self).cursor == old(self).cursor + written,
            final(self).prev_empty == remaining_space,
            action == PrefillAction::StartReplay <==> remaining_space == 0 && !old(
                self,
            ).has_started,
            action == PrefillAction::Throttle <==> remaining_space < 128 && old(self).has_started,
            final(self).has_started == (old(self).has_started || remaining_space == 0),
    {
        self.cursor = self.cursor + written as usize;
        self.prev_empty = remaining_space as usize;
        if remaining_space == 0 && !self.has_started {
            self.has_started = true;
            PrefillAction::StartReplay
        } else if remaining_space < 128 && self.has_started {
            PrefillAction::Throttle
        } else {
            if remaining_space == 0 {
                self.has_started = true;
            }
            PrefillAction::Continue
        }
    }

    /// Whether the whole movie has been accepted.
    pub fn done(&self, total: usize) -> (r: bool)
        ensures
            r == (self.cursor >= total),
    {
        self.cursor >= total
    }
}

/// Frame `j` of an interleaved Genesis stream is laid out correctly:
/// byte `j` of port 0, the reserved extended byte `0xFF`, byte `j` of
/// port 1 (the neutral mask `0xFF` where port 1 is shorter), and the
/// reserved byte again.
pub open spec fn spec_gen_frame_ok(out: Seq<u8>, p0: Seq<u8>, p1: Seq<u8>, j: int) -> bool {
    &&& out[4 * j] == p0[j]
    &&& out[4 * j + 1] == 0xFFu8
    &&& out[4 * j + 2] == (if j < p1.len() {
        p1[j]
    } else {
        0xFFu8
    })
    &&& out[4 * j + 3] == 0xFFu8
}

/// Interleave two Genesis port streams into 4-byte wire frames: byte `i`
/// of port 0, the reserved extended byte `0xFF`, byte `i` of port 1
/// (padded with the neutral mask `0xFF` where port 1 is shorter), and
/// the reserved byte again.
pub fn interleave_genesis(port0: &Vec<u8>, port1: &Vec<u8>) -> (r: Vec<u8>)
    requires
        port0@.len() * 4 <= usize::MAX,
    ensures
        r@.len() == 4 * port0@.len(),
        forall|i: int|
            0 <= i < port0@.len() ==> #[trigger] spec_gen_frame_ok(r@, port0@, port1@, i),
{
    let mut out: Vec<u8> = Vec::new();
    let mut i: usize = 0;
    while i < port0.len()
        invariant
            i <= port0@.len(),
            port0@.len() * 4 <= usize::MAX,
            out@.len() == 4 * i,
            forall|j: int| 0 <= j < i ==> #[trigger] spec_gen_frame_ok(out@, port0@, port1@, j),
        decreases port0@.len() - i,
    {
        proof {
            assert((i + 1) * 4 <= port0@.len() * 4) by (nonlinear_arith)
                requires
                    i + 1 <= port0@.len(),
            ;
        }
        let ghost prev = out@;
        out.push(port0[i]);
        out.push(0xFF);
        if i < port1.len() {
            out.push(port1[i]);
        } else {
            out.push(0xFF);
        }
        out.push(0xFF);
        proof {
            assert(out@.len() == 4 * i + 4);
            assert forall|j: int|
                0 <= j < i + 1 implies #[trigger] spec_gen_frame_ok(out@, port0@, port1@, j) by {
                if j < i {
                    assert(spec_gen_frame_ok(prev, port0@, port1@, j));
                    assert(out@[4 * j] == prev[4 * j]);
                    assert(out@[4 * j + 1] == prev[4 * j + 1]);
                    assert(out@[4 * j + 2] == prev[4 * j + 2]);
                    assert(out@[4 * j + 3] == prev[4 * j + 3]);
                } else {
                    assert(4 * j == prev.len());
                    assert(out@[4 * j] == port0@[j]);
                    assert(out@[4 * j + 1] == 0xFFu8);
                    assert(out@[4 * j + 2] == (if j < port1@.len() {
                        port1@[j]
                    } else {
                        0xFFu8
                    }));
                    assert(out@[4 * j + 3] == 0xFFu8);
                }
            }
        }
        i = i + 1;
    }
    out
}

/// Halve every transition's frame index.  The movie container counts NES
/// input bytes rather than 2-byte frames, so its indices arrive doubled.
pub fn halve_transition_indices(ts: &Vec<TransitionData>) -> (r: Vec<TransitionData>)
    ensures
        r@.len() == ts@.len(),
        forall|i: int|
            0 <= i < ts@.len() ==> #[trigger] r@[i] == (TransitionData {
                index: ((#[trigger] ts@[i]).index / 2) as u64,
                ..ts@[i]
            }),
{
    let mut out: Vec<TransitionData> = Vec::new();
    let mut i: usize = 0;
    while i < ts.len()
        invariant
            i <= ts@.len(),
            out@.len() == i,
            forall|j: int|
                0 <= j < i ==> #[trigger] out@[j] == (TransitionData {
                    index: ((#[trigger] ts@[j]).index / 2) as u64,
                    ..ts@[j]
                }),
        decreases ts@.len() - i,
    {
        let t = ts[i];
        out.push(TransitionData { index: t.index / 2, index_kind: t.index_kind, transition_kind: t.transition_kind });
        i = i + 1;
    }
    out
}

/// A key pressed at the terminal during manual play.
#[derive(Debug, PartialEq, Eq, Structural, Copy, Clone)]
pub enum ManualKey {
    Letter(char),
    Enter,
    ArrowUp,
    ArrowDown,
    ArrowLeft,
    ArrowRight,
}

/// The NES frame a manual key maps to, active-low: `z` presses A, `x`
/// presses B, space Select, Enter Start, arrows the directions.  Keys
/// outside the table (including `q`, which ends the session) map to
/// nothing.
pub fn nes_manual_frame(key: ManualKey) -> (r: Option<(u8, u8)>)
    ensures
        r == match key {
            ManualKey::Letter('z') => Some((0x7Fu8, 0xFFu8)),
            ManualKey::Letter('x') => Some((0xBFu8, 0xFFu8)),
            ManualKey::Letter(' ') => Some((0xDFu8, 0xFFu8)),
            ManualKey::Enter => Some((0xEFu8, 0xFFu8)),
            ManualKey::ArrowUp => Some((0xF7u8, 0xFFu8)),
            ManualKey::ArrowDown => Some((0xFBu8, 0xFFu8)),
            ManualKey::ArrowLeft => Some((0xFDu8, 0xFFu8)),
            ManualKey::ArrowRight => Some((0xFEu8, 0xFFu8)),
            _ => None,
        },
{
    match key {
        ManualKey::Letter(c) => {
            if c == 'z' {
                Some((0x7F, 0xFF))
            } else if c == 'x' {
                Some((0xBF, 0xFF))
            } else if c == ' ' {
                Some((0xDF, 0xFF))
            } else {
                None
            }
        },
        ManualKey::Enter => Some((0xEF, 0xFF)),
        ManualKey::ArrowUp => Some((0xF7, 0xFF)),
        ManualKey::ArrowDown => Some((0xFB, 0xFF)),
        ManualKey::ArrowLeft => Some((0xFD, 0xFF)),
        ManualKey::ArrowRight => Some((0xFE, 0xFF)),
    }
}

/// The Genesis frame a manual key maps to, active-low on the first port
/// byte: `z`, `x`, `c` press A, B, C; Enter presses START; arrows the
/// directions.  Keys outside the table map to nothing.
pub fn genesis_manual_frame(key: ManualKey) -> (r: Option<(u8, u8, u8, u8)>)
    ensures
        r == match key {
            ManualKey::Letter('z') => Some((0x7Fu8, 0xFFu8, 0xFFu8, 0xFFu8)),
            ManualKey::Letter('x') => Some((0xFDu8, 0xFFu8, 0xFFu8, 0xFFu8)),
            ManualKey::Letter('c') => Some((0xFEu8, 0xFFu8, 0xFFu8, 0xFFu8)),
            ManualKey::Enter => Some((0xBFu8, 0xFFu8, 0xFFu8, 0xFFu8)),
            ManualKey::ArrowUp => Some((0xDFu8, 0xFFu8, 0xFFu8, 0xFFu8)),
            ManualKey::ArrowDown => Some((0xEFu8, 0xFFu8, 0xFFu8, 0xFFu8)),
            ManualKey::ArrowLeft => Some((0xF7u8, 0xFFu8, 0xFFu8, 0xFFu8)),
            ManualKey::ArrowRight => Some((0xFBu8, 0xFFu8, 0xFFu8, 0xFFu8)),
            _ => None,
        },
{
    match key {
        ManualKey::Letter(c) => {
            if c == 'z' {
                Some((0x7F, 0xFF, 0xFF, 0xFF))
            } else if c == 'x' {
                Some((0xFD, 0xFF, 0xFF, 0xFF))
            } else if c == 'c' {
                Some((0xFE, 0xFF, 0xFF, 0xFF))
            } else {
                None
            }
        },
        ManualKey::Enter => Some((0xBF, 0xFF, 0xFF, 0xFF)),
        ManualKey::ArrowUp => Some((0xDF, 0xFF, 0xFF, 0xFF)),
        ManualKey::ArrowDown => Some((0xEF, 0xFF, 0xFF, 0xFF)),
        ManualKey::ArrowLeft => Some((0xF7, 0xFF, 0xFF, 0xFF)),
        ManualKey::ArrowRight => Some((0xFB, 0xFF, 0xFF, 0xFF)),
    }
}

} // verus!
