//! The Genesis replay engine.  Genesis pads multiplex their buttons over
//! a console-driven SELECT line; on every SELECT edge the engine commits
//! a pre-computed pair of set/clear masks to the data pins, counts the
//! step, and pre-computes the masks for the following edge.  A per-port
//! alarm marks the frame boundary; port 0's alarm also stages the next
//! frame from the queue.

use vstd::prelude::*;
use crate::queue::InputQueue;
use crate::queue::spec_dequeue;
use crate::queue::neutral_frame;

verus! {

/// How far past the last SELECT edge a port's frame-boundary alarm is
/// re-armed: longer than any polling burst, shorter than a frame.
pub const EDGE_ALARM_US: u32 = 1500;

/// The pre-computed GPIO masks for one upcoming SELECT edge: which pins
/// to drive high and which to drive low.
#[derive(Debug, PartialEq, Eq, Structural, Copy, Clone)]
pub struct NextPins {
    pub set: u32,
    pub clr: u32,
}

/// `check` routes bit `bit` of an active-low button byte to GPIO `gpio`:
/// a set bit (button released) goes to the set mask, a clear bit (button
/// held) to the clear mask.
pub open spec fn spec_check(np: NextPins, input: u8, bit: nat, gpio: nat) -> NextPins {
    if (input >> bit) & 1 == 1 {
        NextPins { set: np.set | (1u32 << gpio), clr: np.clr }
    } else {
        NextPins { set: np.set, clr: np.clr | (1u32 << gpio) }
    }
}

proof fn lemma_check_bit(input: u8, bit: u8, gpio: u8)
    by (bit_vector)
    requires
        bit < 8,
        gpio < 32,
    ensures
        ((((input >> bit) as u32) & 1) << gpio > 0) == ((input >> bit) & 1 == 1),
{
}

impl NextPins {
    pub fn new() -> (r: NextPins)
        ensures
            r.set == 0,
            r.clr == 0,
    {
        NextPins { set: 0, clr: 0 }
    }

    /// Route bit `bit` of `input` to GPIO `gpio`, accumulating into the
    /// set mask when the bit is one and the clear mask when it is zero.
    pub fn check(&mut self, input: u8, bit: usize, gpio: usize)
        requires
            bit < 8,
            gpio < 32,
        ensures
            *final(self) == spec_check(*old(self), input, bit as nat, gpio as nat),
    {
        proof {
            lemma_check_bit(input, bit as u8, gpio as u8);
        }
        if ((((input >> bit) as u32) & 1) << gpio) > 0 {
            self.set = self.set | (1u32 << (gpio as u32));
        } else {
            self.clr = self.clr | (1u32 << (gpio as u32));
        }
        proof {
            assert((input >> (bit as u8)) == (input >> bit)) by (bit_vector)
                requires
                    bit < 8,
            ;
        }
    }
}

// Controller-port pin numbers, one per port.
pub open spec fn spec_up_pin(port: nat) -> nat {
    if port == 0 {
        13
    } else {
        10
    }
}

pub open spec fn spec_down_pin(port: nat) -> nat {
    if port == 0 {
        15
    } else {
        12
    }
}

pub open spec fn spec_left_pin(port: nat) -> nat {
    if port == 0 {
        17
    } else {
        14
    }
}

pub open spec fn spec_right_pin(port: nat) -> nat {
    if port == 0 {
        19
    } else {
        18
    }
}

pub open spec fn spec_b_a_pin(port: nat) -> nat {
    if port == 0 {
        21
    } else {
        20
    }
}

pub open spec fn spec_c_start_pin(port: nat) -> nat {
    if port == 0 {
        24
    } else {
        22
    }
}

/// The masks for one step of the 3-button polling cycle, from the port's
/// primary button byte.  With SELECT high the six pins carry C/START,
/// B/A, RIGHT, LEFT, DOWN, UP from bits 0-5; with SELECT low, C/START
/// and B/A carry bits 6-7, LEFT and RIGHT are forced low (the console's
/// pad-detect signature), and DOWN and UP repeat bits 4-5.  Steps past
/// the table produce no pin change.
pub open spec fn spec_calc_state(latched: u8, step: nat, edge_high: bool, port: nat) -> NextPins {
    if step <= 20 {
        if edge_high {
            let np0 = spec_check(NextPins { set: 0, clr: 0 }, latched, 0, spec_c_start_pin(port));
            let np1 = spec_check(np0, latched, 1, spec_b_a_pin(port));
            let np2 = spec_check(np1, latched, 2, spec_right_pin(port));
            let np3 = spec_check(np2, latched, 3, spec_left_pin(port));
            let np4 = spec_check(np3, latched, 4, spec_down_pin(port));
            spec_check(np4, latched, 5, spec_up_pin(port))
        } else {
            let np0 = spec_check(NextPins { set: 0, clr: 0 }, latched, 6, spec_c_start_pin(port));
            let np1 = spec_check(np0, latched, 7, spec_b_a_pin(port));
            let np2 = spec_check(np1, 0, 0, spec_right_pin(port));
            let np3 = spec_check(np2, 0, 0, spec_left_pin(port));
            let np4 = spec_check(np3, latched, 4, spec_down_pin(port));
            spec_check(np4, latched, 5, spec_up_pin(port))
        }
    } else {
        NextPins { set: 0, clr: 0 }
    }
}

/// Applying a set/clear mask pair to a bank of pin levels.
pub open spec fn spec_apply_pins(pins: u32, np: NextPins) -> u32 {
    (pins | np.set) & !np.clr
}

/// Per-replay state of the Genesis engine.  `latched_input` is the
/// 4-byte frame being presented; `steps` counts SELECT edges per port
/// since the last frame boundary; `next_pins` holds the masks committed
/// on each port's next SELECT edge; `pins` is the level of every GPIO
/// data pin, one bit per pin.
pub struct GenesisEngine {
    pub latched_input: Vec<u8>,
    pub steps: Vec<u32>,
    pub next_pins: Vec<NextPins>,
    pub pins: u32,
}

/// The primary (first) button byte a port presents.
pub open spec fn spec_port_byte(frame: Seq<u8>, port: nat) -> u8 {
    frame[2 * port as int]
}

impl GenesisEngine {
    pub open spec fn wf(&self) -> bool {
        &&& self.latched_input@.len() == 4
        &&& self.steps@.len() == 2
        &&& self.next_pins@.len() == 2
    }

    /// Compute the masks for a step of a port's polling cycle from the
    /// currently latched frame.
    pub fn calc_state(&self, port: usize, step: u32, edge_high: bool) -> (r: NextPins)
        requires
            self.wf(),
            port < 2,
        ensures
            r == spec_calc_state(
                spec_port_byte(self.latched_input@, port as nat),
                step as nat,
                edge_high,
                port as nat,
            ),
    {
        calc_state_for(self.latched_input[2 * port], port, step, edge_high)
    }
}

/// The masks for one step of one port's polling cycle, from that port's
/// primary button byte alone.
pub fn calc_state_for(latched: u8, port: usize, step: u32, edge_high: bool) -> (r: NextPins)
    requires
        port < 2,
    ensures
        r == spec_calc_state(latched, step as nat, edge_high, port as nat),
{
    {
        let mut next = NextPins::new();
        if step <= 20 {
            if edge_high {
                if port == 0 {
                    next.check(latched, 0, 24);
                    next.check(latched, 1, 21);
                    next.check(latched, 2, 19);
                    next.check(latched, 3, 17);
                    next.check(latched, 4, 15);
                    next.check(latched, 5, 13);
                } else {
                    next.check(latched, 0, 22);
                    next.check(latched, 1, 20);
                    next.check(latched, 2, 18);
                    next.check(latched, 3, 14);
                    next.check(latched, 4, 12);
                    next.check(latched, 5, 10);
                }
            } else {
                if port == 0 {
                    next.check(latched, 6, 24);
                    next.check(latched, 7, 21);
                    next.check(0, 0, 19);
                    next.check(0, 0, 17);
                    next.check(latched, 4, 15);
                    next.check(latched, 5, 13);
                } else {
                    next.check(latched, 6, 22);
                    next.check(latched, 7, 20);
                    next.check(0, 0, 18);
                    next.check(0, 0, 14);
                    next.check(latched, 4, 12);
                    next.check(latched, 5, 10);
                }
            }
        }
        next
    }
}

impl GenesisEngine {
    /// Prepare for replay: stage the first frame (neutral if the queue is
    /// empty), zero the step counters, drive every data pin high, apply
    /// port 0's step-0 SELECT-high state, and pre-compute both ports'
    /// first edges (taken as falling from the initial high level).
    pub fn new(queue: &mut InputQueue) -> (r: GenesisEngine)
        requires
            old(queue).wf(),
            old(queue).spec_width() == 4,
        ensures
            final(queue).wf(),
            final(queue).spec_width() == old(queue).spec_width(),
            final(queue).spec_capacity() == old(queue).spec_capacity(),
            r.wf(),
            r.steps@ == seq![0u32, 0u32],
            old(queue).model().len() > 0 ==> (r.latched_input@, final(queue).model())
                == spec_dequeue(old(queue).model()),
            old(queue).model().len() == 0 ==> r.latched_input@ == neutral_frame(4)
                && final(queue).model() == old(queue).model(),
            r.pins == spec_apply_pins(
                0xFFFF_FFFF,
                spec_calc_state(spec_port_byte(r.latched_input@, 0), 0, true, 0),
            ),
            r.next_pins@ == seq![
                spec_calc_state(spec_port_byte(r.latched_input@, 0), 1, false, 0),
                spec_calc_state(spec_port_byte(r.latched_input@, 1), 1, false, 1),
            ],
    {
        let latched_input = queue.dequeue_or_neutral();
        let mut steps: Vec<u32> = Vec::new();
        steps.push(0);
        steps.push(0);
        let first = calc_state_for(latched_input[0], 0, 0, true);
        let next0 = calc_state_for(latched_input[0], 0, 1, false);
        let next1 = calc_state_for(latched_input[2], 1, 1, false);
        let mut next_pins: Vec<NextPins> = Vec::new();
        next_pins.push(next0);
        next_pins.push(next1);
        let pins: u32 = (0xFFFF_FFFF | first.set) & !first.clr;
        let engine = GenesisEngine { latched_input, steps, next_pins, pins };
        proof {
            assert(engine.steps@ =~= seq![0u32, 0u32]);
            assert(engine.next_pins@ =~= seq![next0, next1]);
        }
        engine
    }

    /// A SELECT edge on one port: commit that port's pre-computed masks
    /// to the pins, count the step, and pre-compute the masks for the
    /// opposite edge.  The caller re-arms that port's frame-boundary
    /// alarm (about 1500 microseconds) and tells us the SELECT level
    /// after this edge.
    pub fn on_select_edge(&mut self, port: usize, level_high: bool)
        requires
            old(self).wf(),
            port < 2,
            old(self).steps@[port as int] < 0xFFFF_FFFE,
        ensures
            final(self).wf(),
            final(self).latched_input@ == old(self).latched_input@,
            final(self).pins == spec_apply_pins(old(self).pins, old(self).next_pins@[port as int]),
            final(self).steps@ == old(self).steps@.update(
                port as int,
                (old(self).steps@[port as int] + 1) as u32,
            ),
            final(self).next_pins@ == old(self).next_pins@.update(
                port as int,
                spec_calc_state(
                    spec_port_byte(old(self).latched_input@, port as nat),
                    (old(self).steps@[port as int] + 2) as nat,
                    !level_high,
                    port as nat,
                ),
            ),
    {
        let np = self.next_pins[port];
        self.pins = (self.pins | np.set) & !np.clr;
        let stepped: u32 = self.steps[port] + 1;
        self.steps.set(port, stepped);
        let next = self.calc_state(port, stepped + 1, !level_high);
        self.next_pins.set(port, next);
        proof {
            assert(self.steps@[port as int] + 1 == old(self).steps@[port as int] + 2);
        }
    }

    /// A port's frame-boundary alarm: reset that port's step counter;
    /// port 0's alarm also stages the next frame from the queue (neutral
    /// when it is empty).  Port 0's step-0 SELECT-high state is applied
    /// to the pins, and the port's next edge is pre-computed from the
    /// SELECT level the caller reads.
    pub fn on_alarm(&mut self, port: usize, level_high: bool, queue: &mut InputQueue)
        requires
            old(self).wf(),
            port < 2,
            old(queue).wf(),
            old(queue).spec_width() == 4,
        ensures
            final(self).wf(),
            final(queue).wf(),
            final(queue).spec_width() == old(queue).spec_width(),
            final(queue).spec_capacity() == old(queue).spec_capacity(),
            final(self).steps@ == old(self).steps@.update(port as int, 0u32),
            port == 0 ==> {
                &&& (old(queue).model().len() > 0 ==> (final(self).latched_input@,
                    final(queue).model()) == spec_dequeue(old(queue).model()))
                &&& (old(queue).model().len() == 0 ==> final(self).latched_input@
                    == neutral_frame(4) && final(queue).model() == old(queue).model())
            },
            port == 1 ==> final(self).latched_input@ == old(self).latched_input@
                && final(queue).model() == old(queue).model(),
            final(self).pins == spec_apply_pins(
                old(self).pins,
                spec_calc_state(spec_port_byte(final(self).latched_input@, 0), 0, true, 0),
            ),
            final(self).next_pins@ == old(self).next_pins@.update(
                port as int,
                spec_calc_state(
                    spec_port_byte(final(self).latched_input@, port as nat),
                    1,
                    !level_high,
                    port as nat,
                ),
            ),
    {
        self.steps.set(port, 0);
        if port == 0 {
            self.latched_input = queue.dequeue_or_neutral();
        }
        let state = self.calc_state(0, 0, true);
        self.pins = (self.pins | state.set) & !state.clr;
        let next = self.calc_state(port, 1, !level_high);
        self.next_pins.set(port, next);
    }
}

} // verus!
