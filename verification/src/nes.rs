//! The NES replay engine: reacts to console latch and clock edges by
//! shifting controller data out of a working register, and to the
//! debounce alarm by loading the next frame and advancing the replay
//! cursor.  The surrounding program owns the pins and the hardware timer;
//! it calls in here on each edge and carries the returned effects out.

use vstd::prelude::*;
use crate::queue::InputQueue;
use crate::queue::spec_dequeue;
use crate::queue::neutral_frame;
use crate::replay::ReplayState;
use crate::replay::Transition;
use crate::replay::VeritasMode;

verus! {

/// Per-replay state of the NES engine.  `frame_input` is the frame staged
/// for the next latch; `working_input` is the shift register the console
/// clocks bits out of; `ser` is the level driven on each port's serial
/// data output.
pub struct NesEngine {
    pub frame_input: Vec<u8>,
    pub working_input: Vec<u8>,
    /// Whether the one-shot frame-boundary alarm is currently armed.
    pub alarm_armed: bool,
    /// The value shifted in once the console clocks past the eight real
    /// buttons; `1` by convention.
    pub overread: u8,
    pub ser: Vec<bool>,
}

/// Which of the NES interrupt conditions the engine serves first when
/// several are pending at once.
#[derive(Debug, PartialEq, Eq, Structural, Copy, Clone)]
pub enum NesEdge {
    Latch,
    Clock0,
    Clock1,
    NoneDue,
}

/// The priority cascade of the NES edge handler: latch first, then each
/// port's clock, so a coincident latch and clock is resolved as a frame
/// advance rather than a stale shift of the previous frame.
pub fn nes_edge_priority(latch: bool, clock0: bool, clock1: bool) -> (r: NesEdge)
    ensures
        latch ==> r == NesEdge::Latch,
        !latch && clock0 ==> r == NesEdge::Clock0,
        !latch && !clock0 && clock1 ==> r == NesEdge::Clock1,
        !latch && !clock0 && !clock1 ==> r == NesEdge::NoneDue,
{
    if latch {
        NesEdge::Latch
    } else if clock0 {
        NesEdge::Clock0
    } else if clock1 {
        NesEdge::Clock1
    } else {
        NesEdge::NoneDue
    }
}

/// How long the console reset line is held for a soft-reset transition:
/// about as long as a press of the console's physical reset button.  The
/// exact figure awaits calibration against hardware captures.
pub const SOFT_RESET_PULSE_US: u32 = 33_000;

/// How long the reset line is held before streaming begins when the
/// initial reset is enabled.
pub const INITIAL_RESET_HOLD_MS: u32 = 50;

/// The serial line level for the most significant bit of a working byte:
/// these controllers are active-low, so a set bit drives the line high.
pub open spec fn spec_msb_level(b: u8) -> bool {
    b & 0x80 != 0
}

/// One clock edge's effect on a working byte: shift left, letting the
/// overread value in at the bottom.
pub open spec fn spec_shifted(b: u8, overread: u8) -> u8 {
    (b << 1) | overread
}

impl NesEngine {
    pub open spec fn wf(&self) -> bool {
        &&& self.frame_input@.len() == 2
        &&& self.working_input@.len() == 2
        &&& self.ser@.len() == 2
        &&& self.overread == 1
    }

    /// Prepare for replay: stage the first frame out of the queue (the
    /// neutral frame if none is buffered yet), release both serial lines,
    /// and leave the alarm disarmed.
    pub fn new(queue: &mut InputQueue) -> (r: NesEngine)
        requires
            old(queue).wf(),
            old(queue).spec_width() == 2,
        ensures
            final(queue).wf(),
            final(queue).spec_width() == old(queue).spec_width(),
            final(queue).spec_capacity() == old(queue).spec_capacity(),
            r.wf(),
            !r.alarm_armed,
            r.working_input@ == seq![0xFFu8, 0xFFu8],
            r.ser@ == seq![true, true],
            old(queue).model().len() > 0 ==> (r.frame_input@, final(queue).model())
                == spec_dequeue(old(queue).model()),
            old(queue).model().len() == 0 ==> r.frame_input@ == neutral_frame(2)
                && final(queue).model() == old(queue).model(),
    {
        let frame_input = queue.dequeue_or_neutral();
        let mut working_input: Vec<u8> = Vec::new();
        working_input.push(0xFF);
        working_input.push(0xFF);
        let mut ser: Vec<bool> = Vec::new();
        ser.push(true);
        ser.push(true);
        proof {
            assert(working_input@ =~= seq![0xFFu8, 0xFFu8]);
            assert(ser@ =~= seq![true, true]);
        }
        NesEngine { frame_input, working_input, alarm_armed: false, overread: 1, ser }
    }

    /// A rising latch edge: commit the staged frame into the working
    /// registers and drive each port's first bit.  The debounce alarm is
    /// armed only if it is not already running, so any further bounce
    /// edges inside the window reload the outputs without scheduling a
    /// second frame advance.  Returns whether the caller must arm the
    /// hardware alarm (for `latch_filter_us` from now).
    pub fn on_latch(&mut self) -> (arm_alarm: bool)
        requires
            old(self).wf(),
        ensures
            final(self).wf(),
            arm_alarm == !old(self).alarm_armed,
            final(self).alarm_armed,
            final(self).frame_input@ == old(self).frame_input@,
            final(self).working_input@ == old(self).frame_input@,
            final(self).overread == old(self).overread,
            final(self).ser@ == seq![
                spec_msb_level(old(self).frame_input@[0]),
                spec_msb_level(old(self).frame_input@[1]),
            ],
    {
        let arm_alarm = !self.alarm_armed;
        self.alarm_armed = true;
        let mut working: Vec<u8> = Vec::new();
        working.push(self.frame_input[0]);
        working.push(self.frame_input[1]);
        self.working_input = working;
        let mut ser: Vec<bool> = Vec::new();
        ser.push(self.frame_input[0] & 0x80 != 0);
        ser.push(self.frame_input[1] & 0x80 != 0);
        self.ser = ser;
        proof {
            assert(self.working_input@ =~= old(self).frame_input@);
            assert(self.ser@ =~= seq![
                spec_msb_level(old(self).frame_input@[0]),
                spec_msb_level(old(self).frame_input@[1]),
            ]);
        }
        arm_alarm
    }

    /// A falling clock edge on one port: shift that port's working byte
    /// left, let the overread value in, and drive the new top bit.
    pub fn on_clock(&mut self, port: usize)
        requires
            old(self).wf(),
            port < 2,
        ensures
            final(self).wf(),
            final(self).alarm_armed == old(self).alarm_armed,
            final(self).frame_input@ == old(self).frame_input@,
            final(self).overread == old(self).overread,
            final(self).working_input@ == old(self).working_input@.update(
                port as int,
                spec_shifted(old(self).working_input@[port as int], old(self).overread),
            ),
            final(self).ser@ == old(self).ser@.update(
                port as int,
                spec_msb_level(spec_shifted(old(self).working_input@[port as int], old(self).overread)),
            ),
    {
        let shifted: u8 = (self.working_input[port] << 1u8) | self.overread;
        self.working_input.set(port, shifted);
        self.ser.set(port, shifted & 0x80 != 0);
    }

    /// The frame-boundary alarm, fired once per frame `latch_filter_us`
    /// after the first latch edge of the frame: stage the next frame from
    /// the queue (the neutral frame if the queue is empty — the cursor
    /// advances regardless of queue contents), hand out the transition due
    /// at the old cursor if any, and advance.  When the cursor reaches the
    /// movie length the mode flips to `Idle` on this very boundary, so no
    /// further frame is ever loaded.  The caller pulses the console reset
    /// line if a `SoftReset` transition comes back.
    pub fn on_alarm(
        &mut self,
        queue: &mut InputQueue,
        state: &mut ReplayState,
        mode: &mut VeritasMode,
    ) -> (due: Option<Transition>)
        requires
            old(self).wf(),
            old(queue).wf(),
            old(queue).spec_width() == 2,
            old(state).wf(),
            old(state).index_cur < old(state).index_len,
            *old(mode) == VeritasMode::ReplayNes,
        ensures
            final(self).wf(),
            final(queue).wf(),
            final(queue).spec_width() == old(queue).spec_width(),
            final(queue).spec_capacity() == old(queue).spec_capacity(),
            final(state).wf(),
            !final(self).alarm_armed,
            final(self).working_input@ == old(self).working_input@,
            final(self).ser@ == old(self).ser@,
            final(self).overread == old(self).overread,
            // the next frame is staged, neutral when the queue is empty
            old(queue).model().len() > 0 ==> (final(self).frame_input@, final(queue).model())
                == spec_dequeue(old(queue).model()),
            old(queue).model().len() == 0 ==> final(self).frame_input@ == neutral_frame(2)
                && final(queue).model() == old(queue).model(),
            // the cursor advances by exactly one frame
            final(state).index_len == old(state).index_len,
            final(state).index_cur == old(state).index_cur + 1,
            final(state).transitions@ == old(state).transitions@,
            final(state).use_initial_reset == old(state).use_initial_reset,
            // the transition due at the old cursor is handed out, exactly when due
            match due {
                Some(t) => {
                    &&& old(state).traptr < old(state).transitions@.len()
                    &&& old(state).transitions@[old(state).traptr as int].0 == old(state).index_cur
                    &&& t == old(state).transitions@[old(state).traptr as int].1
                    &&& final(state).traptr == old(state).traptr + 1
                },
                None => {
                    &&& final(state).traptr == old(state).traptr
                    &&& (old(state).traptr < old(state).transitions@.len()
                        ==> old(state).transitions@[old(state).traptr as int].0 != old(state).index_cur)
                },
            },
            // replay terminates on the boundary that consumes the last frame
            *final(mode) == if old(state).index_cur + 1 == old(state).index_len {
                VeritasMode::Idle
            } else {
                VeritasMode::ReplayNes
            },
    {
        self.alarm_armed = false;
        self.frame_input = queue.dequeue_or_neutral();
        let due = state.advance();
        if state.index_cur == state.index_len {
            *mode = VeritasMode::Idle;
        }
        due
    }
}

} // verus!
