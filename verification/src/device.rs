//! The communications core of the device: one record holding the mode
//! word, the replay state and the per-console input queues, and the
//! handler that answers each decoded command with exactly one response.

use vstd::prelude::*;
use vstd::arithmetic::div_mod::lemma_div_is_ordered;
use vstd::arithmetic::div_mod::lemma_fundamental_div_mod_converse_div;
use crate::protocol::Command;
use crate::protocol::CommandModel;
use crate::protocol::Response;
use crate::protocol::ResponseModel;
use crate::protocol::System;
use crate::protocol::TransitionData;
use crate::protocol::spec_transition_from_byte;
use crate::protocol::transition_from_byte;
use crate::queue::InputQueue;
use crate::replay::ReplayState;
use crate::replay::Transition;
use crate::replay::VeritasMode;

verus! {

/// The first `m` frames of width `w` found at the front of a payload.
pub open spec fn chunk_frames(p: Seq<u8>, m: int, w: nat) -> Seq<Seq<u8>> {
    Seq::new(m as nat, |i: int| p.subrange(i * w, i * w + w))
}

/// Consume as many whole frames from the payload as fit in the queue, in
/// order, stopping when the queue is full or the payload is exhausted.
/// Returns `(written, remaining_space)`: with `w` the frame width, `k` the
/// whole frames in the payload and `s` the free slots beforehand, exactly
/// `min(k, s)` frames are taken, `written == w * min(k, s)` bytes, and
/// `remaining_space == w * (s - min(k, s))` bytes stay free.  Trailing
/// partial-frame bytes are never consumed.
pub fn provide_input(q: &mut InputQueue, payload: &Vec<u8>) -> (r: (u16, u16))
    requires
        old(q).wf(),
    ensures
        final(q).wf(),
        final(q).spec_width() == old(q).spec_width(),
        final(q).spec_capacity() == old(q).spec_capacity(),
        ({
            let w = old(q).spec_width() as int;
            let k = payload@.len() as int / w;
            let s = old(q).spec_capacity() as int - old(q).model().len() as int;
            let m = if k < s {
                k
            } else {
                s
            };
            &&& final(q).model() == old(q).model() + chunk_frames(
                payload@,
                m,
                old(q).spec_width(),
            )
            &&& r.0 == m * w
            &&& r.1 == (s - m) * w
        }),
{
    let w: usize = q.width();
    let plen: usize = payload.len();
    let mut frames_done: usize = 0;
    let mut ptr: usize = 0;
    while !q.is_full() && w <= plen - ptr
        invariant
            q.wf(),
            q.spec_width() == old(q).spec_width(),
            q.spec_capacity() == old(q).spec_capacity(),
            w == q.spec_width(),
            plen == payload@.len(),
            ptr == frames_done * w,
            ptr <= plen,
            q.model().len() == old(q).model().len() + frames_done,
            q.model() == old(q).model() + chunk_frames(
                payload@,
                frames_done as int,
                q.spec_width(),
            ),
        decreases plen - ptr,
    {
        let frame = crate::codec::copy_range(payload, ptr, ptr + w);
        let queued = q.enqueue(frame);
        proof {
            assert(queued);
            let w_n = q.spec_width();
            assert(chunk_frames(payload@, frames_done + 1, w_n) =~= chunk_frames(
                payload@,
                frames_done as int,
                w_n,
            ).push(payload@.subrange(frames_done * w_n, frames_done * w_n + w_n)));
            assert(old(q).model() + chunk_frames(payload@, frames_done + 1, w_n) =~= (old(
                q,
            ).model() + chunk_frames(payload@, frames_done as int, w_n)).push(
                payload@.subrange(frames_done * w_n, frames_done * w_n + w_n),
            ));
        }
        proof {
            let fd = frames_done as int;
            let w_i = w as int;
            assert((fd + 1) * w_i == fd * w_i + w_i) by (nonlinear_arith);
        }
        frames_done = frames_done + 1;
        ptr = ptr + w;
    }
    proof {
        let w_i = old(q).spec_width() as int;
        let k = payload@.len() as int / w_i;
        let s = old(q).spec_capacity() as int - old(q).model().len() as int;
        if q.model().len() == q.spec_capacity() {
            // The queue filled up: every free slot was used, and the
            // payload held at least that many frames.
            assert(frames_done == s);
            lemma_fundamental_div_mod_converse_div(frames_done * w_i, w_i, frames_done as int, 0);
            lemma_div_is_ordered(frames_done * w_i, payload@.len() as int, w_i);
            assert(k >= s);
        } else {
            // The payload ran out of whole frames: everything was taken.
            assert(plen - ptr < w);
            lemma_fundamental_div_mod_converse_div(
                payload@.len() as int,
                w_i,
                frames_done as int,
                payload@.len() - frames_done * w_i,
            );
            assert(k == frames_done);
            assert(frames_done <= s);
        }
        let cap = old(q).spec_capacity() as int;
        let fd = frames_done as int;
        assert(fd * w_i <= cap * w_i) by (nonlinear_arith)
            requires
                0 <= fd <= cap,
                w_i >= 1,
        ;
    }
    let written: u16 = (frames_done * w) as u16;
    let remaining: u16 = q.free_bytes() as u16;
    (written, remaining)
}


// ---------------------------------------------------------------------
// Status text
// ---------------------------------------------------------------------
/// The character of one decimal digit.
pub open spec fn spec_digit_char(d: nat) -> char {
    if d == 0 {
        '0'
    } else if d == 1 {
        '1'
    } else if d == 2 {
        '2'
    } else if d == 3 {
        '3'
    } else if d == 4 {
        '4'
    } else if d == 5 {
        '5'
    } else if d == 6 {
        '6'
    } else if d == 7 {
        '7'
    } else if d == 8 {
        '8'
    } else {
        '9'
    }
}

/// Decimal digits of `n`, most significant first.
pub open spec fn spec_dec_chars(n: nat) -> Seq<char>
    decreases n,
{
    if n < 10 {
        seq![spec_digit_char(n)]
    } else {
        spec_dec_chars(n / 10).push(spec_digit_char(n % 10))
    }
}

spec fn pow10(k: nat) -> nat
    decreases k,
{
    if k == 0 {
        1
    } else {
        10 * pow10((k - 1) as nat)
    }
}

proof fn lemma_dec_chars_len(n: nat, k: nat)
    requires
        k >= 1,
        n < pow10(k),
    ensures
        spec_dec_chars(n).len() <= k,
        vstd::utf8::is_ascii_chars(spec_dec_chars(n)),
    decreases k,
{
    if n < 10 {
    } else {
        assert(pow10(k) == 10 * pow10((k - 1) as nat));
        vstd::arithmetic::div_mod::lemma_multiply_divide_lt(n as int, 10, pow10((k - 1) as nat) as int);
        assert(k >= 2) by {
            if k == 1 {
                assert(pow10(1nat) == 10);
            }
        }
        lemma_dec_chars_len(n / 10, (k - 1) as nat);
        let tail = spec_dec_chars(n);
        assert forall|i: int| 0 <= i < tail.len() implies '\0' <= #[trigger] tail[i] <= '\u{7f}' by {
            if i < tail.len() - 1 {
                assert(tail[i] == spec_dec_chars(n / 10)[i]);
            }
        }
    }
}

/// The digits of any 32-bit value: at most ten of them, all ASCII.
pub proof fn lemma_dec_chars_u32(n: u32)
    ensures
        spec_dec_chars(n as nat).len() <= 10,
        vstd::utf8::is_ascii_chars(spec_dec_chars(n as nat)),
{
    reveal_with_fuel(pow10, 11);
    assert(pow10(10nat) == 10_000_000_000);
    lemma_dec_chars_len(n as nat, 10);
}

fn digit_str(d: u32) -> (r: &'static str)
    requires
        d < 10,
    ensures
        r@ == seq![spec_digit_char(d as nat)],
{
    match d {
        0 => {
            let s = "0";
            proof {
                reveal_strlit("0");
                assert(s@ =~= seq!['0']);
            }
            s
        },
        1 => {
            let s = "1";
            proof {
                reveal_strlit("1");
                assert(s@ =~= seq!['1']);
            }
            s
        },
        2 => {
            let s = "2";
            proof {
                reveal_strlit("2");
                assert(s@ =~= seq!['2']);
            }
            s
        },
        3 => {
            let s = "3";
            proof {
                reveal_strlit("3");
                assert(s@ =~= seq!['3']);
            }
            s
        },
        4 => {
            let s = "4";
            proof {
                reveal_strlit("4");
                assert(s@ =~= seq!['4']);
            }
            s
        },
        5 => {
            let s = "5";
            proof {
                reveal_strlit("5");
                assert(s@ =~= seq!['5']);
            }
            s
        },
        6 => {
            let s = "6";
            proof {
                reveal_strlit("6");
                assert(s@ =~= seq!['6']);
            }
            s
        },
        7 => {
            let s = "7";
            proof {
                reveal_strlit("7");
                assert(s@ =~= seq!['7']);
            }
            s
        },
        8 => {
            let s = "8";
            proof {
                reveal_strlit("8");
                assert(s@ =~= seq!['8']);
            }
            s
        },
        _ => {
            let s = "9";
            proof {
                reveal_strlit("9");
                assert(s@ =~= seq!['9']);
            }
            s
        },
    }
}

/// Append the decimal rendering of `n`.
fn append_dec(out: &mut String, n: u32)
    ensures
        final(out)@ == old(out)@ + spec_dec_chars(n as nat),
    decreases n,
{
    if n >= 10 {
        append_dec(out, n / 10);
        let s = digit_str(n % 10);
        out.append(s);
        proof {
            assert(old(out)@ + spec_dec_chars((n / 10) as nat) + seq![
                spec_digit_char((n % 10) as nat),
            ] =~= old(out)@ + spec_dec_chars(n as nat));
        }
    } else {
        let s = digit_str(n);
        out.append(s);
        proof {
            assert(old(out)@ + seq![spec_digit_char(n as nat)] =~= old(out)@ + spec_dec_chars(
                n as nat,
            ));
        }
    }
}

/// The name of a replay mode, as it appears in the status line.
pub open spec fn spec_mode_chars(m: VeritasMode) -> Seq<char> {
    match m {
        VeritasMode::Initial => seq!['I', 'n', 'i', 't', 'i', 'a', 'l'],
        VeritasMode::Idle => seq!['I', 'd', 'l', 'e'],
        VeritasMode::ReplayN64 => seq!['R', 'e', 'p', 'l', 'a', 'y', 'N', '6', '4'],
        VeritasMode::ReplayNes => seq!['R', 'e', 'p', 'l', 'a', 'y', 'N', 'e', 's'],
        VeritasMode::ReplayA2600 => seq!['R', 'e', 'p', 'l', 'a', 'y', 'A', '2', '6', '0', '0'],
        VeritasMode::ReplayGenesis => seq![
            'R',
            'e',
            'p',
            'l',
            'a',
            'y',
            'G',
            'e',
            'n',
            'e',
            's',
            'i',
            's',
        ],
    }
}

fn mode_name(m: VeritasMode) -> (r: &'static str)
    ensures
        r@ == spec_mode_chars(m),
{
    match m {
        VeritasMode::Initial => {
            let s = "Initial";
            proof {
                reveal_strlit("Initial");
                assert(s@ =~= spec_mode_chars(m));
            }
            s
        },
        VeritasMode::Idle => {
            let s = "Idle";
            proof {
                reveal_strlit("Idle");
                assert(s@ =~= spec_mode_chars(m));
            }
            s
        },
        VeritasMode::ReplayN64 => {
            let s = "ReplayN64";
            proof {
                reveal_strlit("ReplayN64");
                assert(s@ =~= spec_mode_chars(m));
            }
            s
        },
        VeritasMode::ReplayNes => {
            let s = "ReplayNes";
            proof {
                reveal_strlit("ReplayNes");
                assert(s@ =~= spec_mode_chars(m));
            }
            s
        },
        VeritasMode::ReplayA2600 => {
            let s = "ReplayA2600";
            proof {
                reveal_strlit("ReplayA2600");
                assert(s@ =~= spec_mode_chars(m));
            }
            s
        },
        VeritasMode::ReplayGenesis => {
            let s = "ReplayGenesis";
            proof {
                reveal_strlit("ReplayGenesis");
                assert(s@ =~= spec_mode_chars(m));
            }
            s
        },
    }
}

/// The status line: mode name and replay cursor over movie length.
pub open spec fn spec_status_chars(m: VeritasMode, cur: u32, len: u32) -> Seq<char> {
    seq!['M', 'o', 'd', 'e', ':', ' '] + spec_mode_chars(m) + seq![
        ',',
        ' ',
        'I',
        'n',
        'd',
        'e',
        'x',
        ':',
        ' ',
    ] + spec_dec_chars(cur as nat) + seq!['/'] + spec_dec_chars(len as nat)
}

/// Render the status line.
pub fn status_text(m: VeritasMode, cur: u32, len: u32) -> (r: String)
    ensures
        r@ == spec_status_chars(m, cur, len),
{
    let mut out = String::new();
    let head = "Mode: ";
    proof {
        reveal_strlit("Mode: ");
        assert(head@ =~= seq!['M', 'o', 'd', 'e', ':', ' ']);
    }
    out.append(head);
    out.append(mode_name(m));
    let mid = ", Index: ";
    proof {
        reveal_strlit(", Index: ");
        assert(mid@ =~= seq![',', ' ', 'I', 'n', 'd', 'e', 'x', ':', ' ']);
    }
    out.append(mid);
    append_dec(&mut out, cur);
    let slash = "/";
    proof {
        reveal_strlit("/");
        assert(slash@ =~= seq!['/']);
    }
    out.append(slash);
    append_dec(&mut out, len);
    proof {
        assert(out@ =~= spec_status_chars(m, cur, len));
    }
    out
}

/// The status line is short ASCII text, so it always fits the wire
/// format's 32-bit length field.
pub proof fn lemma_status_encodable(m: VeritasMode, cur: u32, len: u32)
    ensures
        vstd::utf8::encode_utf8(spec_status_chars(m, cur, len)).len() <= 64,
{
    let s = spec_status_chars(m, cur, len);
    lemma_dec_chars_u32(cur);
    lemma_dec_chars_u32(len);
    assert(vstd::utf8::is_ascii_chars(s));
    vstd::utf8::is_ascii_chars_encode_utf8(s);
    assert(s.len() <= 49);
}


// ---------------------------------------------------------------------
// The device record and its command handler
// ---------------------------------------------------------------------
/// Queue capacity of each per-console input queue, in frames.
pub const QUEUE_FRAMES: usize = 1024;

/// Everything the two device cores share: the mode word, the replay
/// bookkeeping, the latch debounce window, and one input queue per
/// console the device can impersonate.
pub struct DeviceCore {
    pub mode: VeritasMode,
    pub state: ReplayState,
    /// NES latch debounce window, in microseconds.
    pub latch_filter_us: u32,
    pub nes_queue: InputQueue,
    pub genesis_queue: InputQueue,
    pub n64_queue: InputQueue,
}

/// Whether a `ProvideInput` for this console is acceptable while the
/// device is in this mode: the device takes input for any supported
/// console while idle, and only for the matching console while replaying.
pub open spec fn spec_input_accepted(mode: VeritasMode, sys: System) -> bool {
    &&& (sys == System::Nes || sys == System::Genesis)
    &&& match mode {
        VeritasMode::Initial => true,
        VeritasMode::Idle => true,
        VeritasMode::ReplayNes => sys == System::Nes,
        VeritasMode::ReplayGenesis => sys == System::Genesis,
        VeritasMode::ReplayN64 => sys == System::N64,
        VeritasMode::ReplayA2600 => sys == System::A2600,
    }
}

/// The `BufferStatus` reply and queue change that `ProvideInput` owes:
/// with `w` the frame width, `k` the whole frames in the payload and `s`
/// the free slots beforehand, `min(k, s)` frames are appended, `written`
/// is `w * min(k, s)` and `remaining_space` is `w * (s - min(k, s))`.
pub open spec fn spec_buffer_reply(
    oldq: InputQueue,
    newq: InputQueue,
    p: Seq<u8>,
    resp: ResponseModel,
) -> bool {
    let w = oldq.spec_width() as int;
    let k = p.len() as int / w;
    let s = oldq.spec_capacity() as int - oldq.model().len() as int;
    let m = if k < s {
        k
    } else {
        s
    };
    &&& newq.model() == oldq.model() + chunk_frames(p, m, oldq.spec_width())
    &&& newq.spec_width() == oldq.spec_width()
    &&& newq.spec_capacity() == oldq.spec_capacity()
    &&& resp == (ResponseModel::BufferStatus {
        written: (m * w) as u16,
        remaining_space: ((s - m) * w) as u16,
    })
}

/// A delivered transition batch is acceptable when replay has not started
/// consuming transitions yet and every index fits the device's 32-bit
/// cursor.
pub open spec fn spec_transitions_accepted(st: ReplayState, ts: Seq<TransitionData>) -> bool {
    &&& st.traptr == 0
    &&& forall|i: int| 0 <= i < ts.len() ==> (#[trigger] ts[i]).index <= 0xFFFF_FFFF
}

/// Some installed transition carries this frame index.
pub open spec fn spec_index_installed(s: Seq<(u32, Transition)>, idx: u32) -> bool {
    exists|j: int| 0 <= j < s.len() && (#[trigger] s[j]).0 == idx
}

/// This entry is the installed image of some record of the batch.
pub open spec fn spec_entry_from_batch(e: (u32, Transition), ts: Seq<TransitionData>) -> bool {
    exists|i: int|
        0 <= i < ts.len() && e == ((#[trigger] ts[i]).index as u32, spec_transition_from_byte(
            ts[i].transition_kind,
        ))
}

/// The reply a command earns and the whole effect it has on the device:
/// one clause per command, shared by `handle_command` (which returns the
/// reply as a value) and `respond_frame` (which returns it framed in
/// bytes).
pub open spec fn spec_command_effect(
    pre: DeviceCore,
    c: CommandModel,
    post: DeviceCore,
    resp: ResponseModel,
) -> bool {
    match c {
        CommandModel::Ping => resp == ResponseModel::Pong && post == pre,
        CommandModel::GetStatus => {
            &&& resp == ResponseModel::DeviceStatus(
                spec_status_chars(pre.mode, pre.state.index_cur, pre.state.index_len),
            )
            &&& post == pre
        },
        CommandModel::SetReplayMode(m) => {
            &&& resp == ResponseModel::Okay
            &&& post == (DeviceCore { mode: m, ..pre })
        },
        CommandModel::SetLatchFilter(us) => {
            &&& resp == ResponseModel::Okay
            &&& post == (DeviceCore { latch_filter_us: us, ..pre })
        },
        CommandModel::UseInitialReset(f) => {
            &&& resp == ResponseModel::Okay
            &&& post == (DeviceCore {
                state: (ReplayState { use_initial_reset: f, ..pre.state }),
                ..pre
            })
        },
        CommandModel::SetReplayLength(n) => {
            if n <= 0xFFFF_FFFF {
                &&& resp == ResponseModel::Okay
                &&& post == (DeviceCore {
                    state: (ReplayState { index_len: n as u32, ..pre.state }),
                    ..pre
                })
            } else {
                &&& resp == ResponseModel::Error
                &&& post == pre
            }
        },
        CommandModel::ProvideInput(sys, p) => {
            if spec_input_accepted(pre.mode, sys) {
                if sys == System::Nes {
                    &&& spec_buffer_reply(pre.nes_queue, post.nes_queue, p, resp)
                    &&& post == (DeviceCore { nes_queue: post.nes_queue, ..pre })
                } else {
                    &&& spec_buffer_reply(pre.genesis_queue, post.genesis_queue, p, resp)
                    &&& post == (DeviceCore { genesis_queue: post.genesis_queue, ..pre })
                }
            } else {
                &&& resp == ResponseModel::Error
                &&& post == pre
            }
        },
        CommandModel::ProvideTransitions(ts) => {
            if spec_transitions_accepted(pre.state, ts) {
                &&& resp == ResponseModel::Okay
                &&& post.mode == pre.mode
                &&& post.latch_filter_us == pre.latch_filter_us
                &&& post.nes_queue == pre.nes_queue
                &&& post.genesis_queue == pre.genesis_queue
                &&& post.n64_queue == pre.n64_queue
                &&& post.state.traptr == 0
                &&& post.state.index_cur == pre.state.index_cur
                &&& post.state.index_len == pre.state.index_len
                &&& post.state.use_initial_reset == pre.state.use_initial_reset
                // every delivered index is installed
                &&& forall|i: int| 0 <= i < ts.len() ==> spec_index_installed(post.state.transitions@, (#[trigger] ts[i]).index as u32)
                // and nothing else appeared
                &&& forall|j: int| 0 <= j < post.state.transitions@.len() ==> pre.state.transitions@.contains(#[trigger] post.state.transitions@[j]) || spec_entry_from_batch(post.state.transitions@[j], ts)
            } else {
                &&& resp == ResponseModel::Error
                &&& post == pre
            }
        },
    }
}

impl DeviceCore {
    pub open spec fn wf(&self) -> bool {
        &&& self.state.wf()
        &&& self.nes_queue.wf()
        &&& self.nes_queue.spec_width() == 2
        &&& self.nes_queue.spec_capacity() == QUEUE_FRAMES
        &&& self.genesis_queue.wf()
        &&& self.genesis_queue.spec_width() == 4
        &&& self.genesis_queue.spec_capacity() == QUEUE_FRAMES
        &&& self.n64_queue.wf()
        &&& self.n64_queue.spec_width() == 16
        &&& self.n64_queue.spec_capacity() == QUEUE_FRAMES
    }

    /// The boot state: no replay configured, queues empty, the default
    /// latch filter installed.
    pub fn new() -> (r: DeviceCore)
        ensures
            r.wf(),
            r.mode == VeritasMode::Initial,
            r.state.index_cur == 0,
            r.state.index_len == crate::replay::UNSET_LENGTH,
            r.state.transitions@.len() == 0,
            r.state.traptr == 0,
            r.state.use_initial_reset,
            r.latch_filter_us == 8000,
            r.nes_queue.model().len() == 0,
            r.genesis_queue.model().len() == 0,
            r.n64_queue.model().len() == 0,
    {
        DeviceCore {
            mode: VeritasMode::Initial,
            state: ReplayState::new(),
            latch_filter_us: 8000,
            nes_queue: InputQueue::new(2, QUEUE_FRAMES),
            genesis_queue: InputQueue::new(4, QUEUE_FRAMES),
            n64_queue: InputQueue::new(16, QUEUE_FRAMES),
        }
    }

    /// What the replay engines do when the mode leaves their state:
    /// drain the input queues and reset the replay bookkeeping, so the
    /// next session starts clean.  The initial-reset preference, the
    /// latch filter and the mode word itself are left alone.
    pub fn stop_replay(&mut self)
        requires
            old(self).wf(),
        ensures
            final(self).wf(),
            final(self).mode == old(self).mode,
            final(self).latch_filter_us == old(self).latch_filter_us,
            final(self).nes_queue.model().len() == 0,
            final(self).genesis_queue.model().len() == 0,
            final(self).n64_queue.model().len() == 0,
            final(self).state.index_cur == 0,
            final(self).state.index_len == crate::replay::UNSET_LENGTH,
            final(self).state.transitions@.len() == 0,
            final(self).state.traptr == 0,
            final(self).state.use_initial_reset == old(self).state.use_initial_reset,
    {
        self.nes_queue.drain();
        self.genesis_queue.drain();
        self.n64_queue.drain();
        self.state.reset();
    }

    /// Answer one decoded command.  Every command gets exactly one
    /// response; `spec_command_effect` says, for each command, both the
    /// reply and the whole effect on the device.
    pub fn handle_command(&mut self, cmd: &Command) -> (resp: Response)
        requires
            old(self).wf(),
        ensures
            final(self).wf(),
            spec_command_effect(*old(self), cmd@, *final(self), resp@),
    {
        match cmd {
            Command::Ping => Response::Pong,
            Command::GetStatus => {
                let text = status_text(self.mode, self.state.index_cur, self.state.index_len);
                Response::DeviceStatus(text)
            },
            Command::SetReplayMode(m) => {
                self.mode = *m;
                Response::Okay
            },
            Command::SetLatchFilter(us) => {
                self.latch_filter_us = *us;
                Response::Okay
            },
            Command::UseInitialReset(f) => {
                self.state.use_initial_reset = *f;
                Response::Okay
            },
            Command::SetReplayLength(n) => {
                if *n <= 0xFFFF_FFFF {
                    self.state.index_len = *n as u32;
                    Response::Okay
                } else {
                    Response::Error
                }
            },
            Command::ProvideInput(sys, payload) => {
                let accepted = match (self.mode, sys) {
                    (VeritasMode::Initial, System::Nes) => true,
                    (VeritasMode::Initial, System::Genesis) => true,
                    (VeritasMode::Idle, System::Nes) => true,
                    (VeritasMode::Idle, System::Genesis) => true,
                    (VeritasMode::ReplayNes, System::Nes) => true,
                    (VeritasMode::ReplayGenesis, System::Genesis) => true,
                    _ => false,
                };
                if !accepted {
                    return Response::Error;
                }
                match sys {
                    System::Nes => {
                        let (written, remaining_space) = provide_input(
                            &mut self.nes_queue,
                            payload,
                        );
                        Response::BufferStatus { written, remaining_space }
                    },
                    _ => {
                        let (written, remaining_space) = provide_input(
                            &mut self.genesis_queue,
                            payload,
                        );
                        Response::BufferStatus { written, remaining_space }
                    },
                }
            },
            Command::ProvideTransitions(ts) => {
                if self.state.traptr != 0 {
                    return Response::Error;
                }
                let mut i: usize = 0;
                while i < ts.len()
                    invariant
                        cmd@ == CommandModel::ProvideTransitions(ts@),
                        i <= ts@.len(),
                        *self == *old(self),
                        self.wf(),
                        forall|j: int| 0 <= j < i ==> (#[trigger] ts@[j]).index <= 0xFFFF_FFFF,
                    decreases ts@.len() - i,
                {
                    if ts[i].index > 0xFFFF_FFFF {
                        proof {
                            assert(!spec_transitions_accepted(old(self).state, ts@));
                        }
                        return Response::Error;
                    }
                    i = i + 1;
                }
                let ghost pre = self.state.transitions@;
                let mut done: usize = 0;
                while done < ts.len()
                    invariant
                        cmd@ == CommandModel::ProvideTransitions(ts@),
                        spec_transitions_accepted(old(self).state, ts@),
                        done <= ts@.len(),
                        self.wf(),
                        self.state.traptr == 0,
                        self.mode == old(self).mode,
                        self.latch_filter_us == old(self).latch_filter_us,
                        self.nes_queue == old(self).nes_queue,
                        self.genesis_queue == old(self).genesis_queue,
                        self.n64_queue == old(self).n64_queue,
                        self.state.index_cur == old(self).state.index_cur,
                        self.state.index_len == old(self).state.index_len,
                        self.state.use_initial_reset == old(self).state.use_initial_reset,
                        forall|j: int| 0 <= j < ts@.len() ==> (#[trigger] ts@[j]).index <= 0xFFFF_FFFF,
                        forall|i2: int| 0 <= i2 < done ==> spec_index_installed(self.state.transitions@, (#[trigger] ts@[i2]).index as u32),
                        forall|j: int| 0 <= j < self.state.transitions@.len() ==> pre.contains(#[trigger] self.state.transitions@[j]) || spec_entry_from_batch(self.state.transitions@[j], ts@),
                    decreases ts@.len() - done,
                {
                    let td = ts[done];
                    let index: u32 = td.index as u32;
                    let kind = transition_from_byte(td.transition_kind);
                    let ghost before = self.state.transitions@;
                    let added = self.state.insert_transition(index, kind);
                    proof {
                        let cur = self.state.transitions@;
                        if added is Some {
                            let pos = added.unwrap() as int;
                            before.insert_ensures(pos, (index, kind));
                        }
                        assert forall|i2: int| 0 <= i2 < done + 1 implies spec_index_installed(
                            cur,
                            (#[trigger] ts@[i2]).index as u32,
                        ) by {
                            if i2 < done {
                                let idx2 = ts@[i2].index as u32;
                                assert(spec_index_installed(before, idx2));
                                let j0 = choose|j0: int|
                                    0 <= j0 < before.len() && (#[trigger] before[j0]).0 == idx2;
                                if added is Some {
                                    let pos = added.unwrap() as int;
                                    if j0 < pos {
                                        assert(cur[j0].0 == idx2);
                                    } else {
                                        assert(cur[j0 + 1].0 == idx2);
                                    }
                                } else {
                                    assert(cur[j0].0 == idx2);
                                }
                            } else {
                                if added is Some {
                                    let pos = added.unwrap() as int;
                                    assert(cur[pos].0 == index);
                                } else {
                                    let jx = choose|jx: int|
                                        0 <= jx < before.len() && (#[trigger] before[jx]).0
                                            == index;
                                    assert(cur[jx].0 == index);
                                }
                            }
                        }
                        assert forall|j: int| 0 <= j < cur.len() implies pre.contains(
                            #[trigger] cur[j],
                        ) || spec_entry_from_batch(cur[j], ts@) by {
                            if added is Some {
                                let pos = added.unwrap() as int;
                                if j == pos {
                                    assert(cur[j] == (index, kind));
                                    assert(ts@[done as int] == td);
                                    assert(cur[j] == ((#[trigger] ts@[done as int]).index as u32,
                                        spec_transition_from_byte(ts@[done as int].transition_kind),
                                    ));
                                    assert(spec_entry_from_batch(cur[j], ts@));
                                } else if j < pos {
                                    assert(cur[j] == before[j]);
                                } else {
                                    assert(cur[j] == before[j - 1]);
                                }
                            }
                        }
                    }
                    done = done + 1;
                }
                Response::Okay
            },
        }
    }
}


impl DeviceCore {
    /// Answer one received message payload with the framed bytes of the
    /// reply, as the communications loop sends them: a payload outside
    /// the command grammar gets the error reply and changes nothing;
    /// anything else gets exactly the reply and the device effect that
    /// the command owes, behind a length header.  Every reply the device
    /// makes fits the wire format, so this never fails.
    pub fn respond_frame(&mut self, payload: &Vec<u8>) -> (r: Vec<u8>)
        requires
            old(self).wf(),
        ensures
            final(self).wf(),
            match crate::codec::spec_decode_command(payload@) {
                Some(c) => exists|m: ResponseModel|
                    spec_command_effect(*old(self), c, *final(self), m) && r@
                        == crate::codec::spec_frame(
                        #[trigger] crate::codec::spec_encode_response(m),
                    ),
                None => *final(self) == *old(self) && r@ == crate::codec::spec_frame(
                    crate::codec::spec_encode_response(ResponseModel::Error),
                ),
            },
    {
        let ghost pre = *self;
        let resp = match crate::codec::decode_command(payload) {
            Some(cmd) => self.handle_command(&cmd),
            None => Response::Error,
        };
        proof {
            lemma_status_encodable(pre.mode, pre.state.index_cur, pre.state.index_len);
            assert(crate::codec::wf_response(resp@));
        }
        let body = crate::codec::encode_response(&resp);
        proof {
            lemma_status_encodable(pre.mode, pre.state.index_cur, pre.state.index_len);
            assert(body@.len() <= 0xFFFF_FFFF);
        }
        crate::codec::frame_payload(&body)
    }
}

} // verus!
