//! Global replay bookkeeping: the cursor into the movie, its total length,
//! the ordered list of pending transitions (console resets timed to frame
//! indices) and the mode word that selects which engine is running.

use vstd::prelude::*;

verus! {

/// Operating mode of the device.  Written by the communications core,
/// read by the replay engines, which exit when it leaves their state.
#[derive(Debug, PartialEq, Eq, Structural, Copy, Clone)]
pub enum VeritasMode {
    Initial,
    Idle,
    ReplayN64,
    ReplayNes,
    ReplayA2600,
    ReplayGenesis,
}

/// A timed event applied during replay that is not an input byte.
#[derive(Debug, PartialEq, Eq, Structural, Copy, Clone)]
pub enum Transition {
    SoftReset,
    PowerReset,
    Unsupported,
}

/// Which engine the main loop hands control to for a mode word: one of
/// the three console engines, or none.
#[derive(Debug, PartialEq, Eq, Structural, Copy, Clone)]
pub enum EngineChoice {
    Nes,
    N64,
    Genesis,
    Wait,
}

/// The mode-to-engine dispatch the main loop runs on every turn: each
/// replay mode selects its console's engine; `Initial`, `Idle` and the
/// unimplemented modes select none and the loop spins.
pub fn select_engine(mode: VeritasMode) -> (r: EngineChoice)
    ensures
        r == match mode {
            VeritasMode::ReplayNes => EngineChoice::Nes,
            VeritasMode::ReplayN64 => EngineChoice::N64,
            VeritasMode::ReplayGenesis => EngineChoice::Genesis,
            _ => EngineChoice::Wait,
        },
{
    match mode {
        VeritasMode::ReplayNes => EngineChoice::Nes,
        VeritasMode::ReplayN64 => EngineChoice::N64,
        VeritasMode::ReplayGenesis => EngineChoice::Genesis,
        _ => EngineChoice::Wait,
    }
}

/// Sentinel length meaning "no length was set": the cursor never reaches it
/// in practice, so replay runs until the mode is cleared.
pub const UNSET_LENGTH: u32 = 0xFFFF_FFFF;

/// Replay cursor, movie length, and the pending transitions with a cursor
/// into them.  Shared between the communications core (which fills it in
/// while the device is idle) and the replay engine (which advances it once
/// per frame boundary).
pub struct ReplayState {
    /// Total frames in the movie; the terminal cursor value.
    pub index_len: u32,
    /// Frames consumed so far.
    pub index_cur: u32,
    /// Pending `(frame index, kind)` pairs, kept strictly ascending by index.
    pub transitions: Vec<(u32, Transition)>,
    /// Cursor into `transitions`; only ever advances.
    pub traptr: usize,
    /// Whether the engine must pulse console reset before streaming begins.
    pub use_initial_reset: bool,
}

impl ReplayState {
    /// The transition list is strictly ascending in frame index and the
    /// transition cursor stays inside it.
    pub open spec fn wf(self) -> bool {
        &&& self.traptr <= self.transitions@.len()
        &&& forall|i: int, j: int|
            0 <= i < j < self.transitions@.len() ==> self.transitions@[i].0 < self.transitions@[j].0
    }

    pub fn new() -> (r: ReplayState)
        ensures
            r.index_len == UNSET_LENGTH,
            r.index_cur == 0,
            r.transitions@.len() == 0,
            r.traptr == 0,
            r.use_initial_reset,
            r.wf(),
    {
        ReplayState {
            index_len: UNSET_LENGTH,
            index_cur: 0,
            transitions: Vec::new(),
            traptr: 0,
            use_initial_reset: true,
        }
    }

    /// Return to the boot state: cursor at zero, no transitions pending.
    /// The initial-reset preference is configuration, not replay progress,
    /// and is left alone.
    pub fn reset(&mut self)
        ensures
            final(self).index_len == UNSET_LENGTH,
            final(self).index_cur == 0,
            final(self).transitions@.len() == 0,
            final(self).traptr == 0,
            final(self).use_initial_reset == old(self).use_initial_reset,
            final(self).wf(),
    {
        self.index_len = UNSET_LENGTH;
        self.index_cur = 0;
        self.transitions.clear();
        self.traptr = 0;
    }

    /// Pop the pending transition due exactly at the current cursor, if any.
    /// Returns `Some` if and only if the transition under the cursor has
    /// `index == index_cur`; the transition cursor then moves past it, so a
    /// transition is handed out at most once.
    pub fn next_transition(&mut self) -> (r: Option<Transition>)
        ensures
            final(self).index_len == old(self).index_len,
            final(self).index_cur == old(self).index_cur,
            final(self).transitions@ == old(self).transitions@,
            final(self).use_initial_reset == old(self).use_initial_reset,
            match r {
                Some(t) => {
                    &&& old(self).traptr < old(self).transitions@.len()
                    &&& old(self).transitions@[old(self).traptr as int].0 == old(self).index_cur
                    &&& t == old(self).transitions@[old(self).traptr as int].1
                    &&& final(self).traptr == old(self).traptr + 1
                },
                None => {
                    &&& final(self).traptr == old(self).traptr
                    &&& (old(self).traptr < old(self).transitions@.len() ==> old(
                        self,
                    ).transitions@[old(self).traptr as int].0 != old(self).index_cur)
                },
            },
    {
        if self.traptr < self.transitions.len() {
            let (index, tra): (u32, Transition) = self.transitions[self.traptr];
            if index == self.index_cur {
                self.traptr = self.traptr + 1;
                return Some(tra);
            }
        }
        None
    }

    /// Install a transition, keeping the list strictly ascending.  The new
    /// entry is placed before the first entry with an index at least as
    /// large, and its position is returned; an entry with the same index
    /// already present wins, and the list is left unchanged (`None`).
    pub fn insert_transition(&mut self, index: u32, kind: Transition) -> (added: Option<usize>)
        requires
            old(self).wf(),
            old(self).traptr == 0,
        ensures
            final(self).wf(),
            final(self).traptr == 0,
            final(self).index_len == old(self).index_len,
            final(self).index_cur == old(self).index_cur,
            final(self).use_initial_reset == old(self).use_initial_reset,
            added is Some == !exists|i: int|
                0 <= i < old(self).transitions@.len() && (#[trigger] old(
                    self,
                ).transitions@[i]).0 == index,
            match added {
                Some(pos) => {
                    &&& pos <= old(self).transitions@.len()
                    &&& final(self).transitions@ == old(self).transitions@.insert(
                        pos as int,
                        (index, kind),
                    )
                    &&& final(self).transitions@[pos as int] == (index, kind)
                },
                None => final(self).transitions@ == old(self).transitions@,
            },
    {
        let mut pos: usize = 0;
        while pos < self.transitions.len() && self.transitions[pos].0 < index
            invariant
                pos <= self.transitions@.len(),
                forall|i: int| 0 <= i < pos ==> self.transitions@[i].0 < index,
                self == old(self),
            decreases self.transitions@.len() - pos,
        {
            pos = pos + 1;
        }
        if pos < self.transitions.len() && self.transitions[pos].0 == index {
            return None;
        }
        self.transitions.insert(pos, (index, kind));
        assert(self.transitions@[pos as int] == (index, kind));
        assert forall|i: int, j: int|
            0 <= i < j < self.transitions@.len() implies self.transitions@[i].0
            < self.transitions@[j].0 by {
            let pre = old(self).transitions@;
            if i < pos && j == pos {
            } else if i == pos && j > pos {
                assert(self.transitions@[j] == pre[j - 1]);
            } else if i < pos && j > pos {
                assert(self.transitions@[i] == pre[i]);
                assert(self.transitions@[j] == pre[j - 1]);
            } else if i > pos && j > pos {
                assert(self.transitions@[i] == pre[i - 1]);
                assert(self.transitions@[j] == pre[j - 1]);
            }
        }
        assert(self.transitions@ =~= old(self).transitions@.insert(pos as int, (index, kind)));
        Some(pos)
    }

    /// One frame boundary of bookkeeping: hand out the transition due at the
    /// current cursor (if any) and advance the cursor by one.  The caller
    /// checks afterwards whether the cursor reached the movie length.
    pub fn advance(&mut self) -> (r: Option<Transition>)
        requires
            old(self).wf(),
            old(self).index_cur < old(self).index_len,
        ensures
            final(self).wf(),
            final(self).index_len == old(self).index_len,
            final(self).index_cur == old(self).index_cur + 1,
            final(self).transitions@ == old(self).transitions@,
            final(self).use_initial_reset == old(self).use_initial_reset,
            match r {
                Some(t) => {
                    &&& old(self).traptr < old(self).transitions@.len()
                    &&& old(self).transitions@[old(self).traptr as int].0 == old(self).index_cur
                    &&& t == old(self).transitions@[old(self).traptr as int].1
                    &&& final(self).traptr == old(self).traptr + 1
                },
                None => {
                    &&& final(self).traptr == old(self).traptr
                    &&& (old(self).traptr < old(self).transitions@.len() ==> old(
                        self,
                    ).transitions@[old(self).traptr as int].0 != old(self).index_cur)
                },
            },
    {
        let due = self.next_transition();
        self.index_cur = self.index_cur + 1;
        due
    }
}


/// Strictly ascending frame indices, as `ReplayState::wf` keeps them.
pub open spec fn spec_sorted(ts: Seq<(u32, Transition)>) -> bool {
    forall|i: int, j: int| 0 <= i < j < ts.len() ==> ts[i].0 < ts[j].0
}

/// The transition cursor after `n` frame boundaries, starting from a
/// fresh state: each boundary `k` (with `index_cur == k`) moves the
/// cursor past the transition under it exactly when that transition's
/// index equals `k`, as `advance` does.
pub open spec fn spec_ptr_after(ts: Seq<(u32, Transition)>, n: nat) -> int
    decreases n,
{
    if n == 0 {
        0
    } else {
        let p = spec_ptr_after(ts, (n - 1) as nat);
        if p < ts.len() && ts[p].0 == n - 1 {
            p + 1
        } else {
            p
        }
    }
}

/// Whether boundary `k` emits a transition.
pub open spec fn spec_emitted(ts: Seq<(u32, Transition)>, k: nat) -> bool {
    let p = spec_ptr_after(ts, k);
    p < ts.len() && ts[p].0 == k
}

/// Over any run of frame boundaries from a fresh state, a sorted
/// transition list is emitted exactly once per entry, in ascending index
/// order, and never early: boundary `k` emits a transition if and only
/// if the list holds an entry with index `k` (so entry `i` is emitted at
/// its own boundary and no other), everything the cursor has passed was
/// due at a strictly earlier boundary, and everything still pending is
/// due at a boundary not yet reached.
pub proof fn lemma_transition_trace(ts: Seq<(u32, Transition)>, n: nat)
    requires
        spec_sorted(ts),
    ensures
        0 <= spec_ptr_after(ts, n) <= ts.len(),
        forall|j: int| 0 <= j < spec_ptr_after(ts, n) ==> (#[trigger] ts[j]).0 < n,
        forall|j: int| spec_ptr_after(ts, n) <= j < ts.len() ==> (#[trigger] ts[j]).0 >= n,
        forall|k: nat|
            k < n ==> (#[trigger] spec_emitted(ts, k) <==> exists|i: int|
                0 <= i < ts.len() && (#[trigger] ts[i]).0 == k),
    decreases n,
{
    if n > 0 {
        lemma_transition_trace(ts, (n - 1) as nat);
        let p = spec_ptr_after(ts, (n - 1) as nat);
        assert forall|k: nat|
            k < n implies (#[trigger] spec_emitted(ts, k) <==> exists|i: int|
            0 <= i < ts.len() && (#[trigger] ts[i]).0 == k) by {
            if k == n - 1 {
                if spec_emitted(ts, k) {
                    assert(ts[p].0 == k);
                } else {
                    if exists|i: int| 0 <= i < ts.len() && (#[trigger] ts[i]).0 == k {
                        let i = choose|i: int| 0 <= i < ts.len() && (#[trigger] ts[i]).0 == k;
                        // the cursor cannot have passed it, nor can it
                        // still lie strictly beyond the cursor
                        if i < p {
                            assert(ts[i].0 < n - 1);
                        } else if i > p {
                            assert(ts[p].0 >= n - 1);
                            assert(ts[p].0 < ts[i].0);
                        }
                    }
                }
            }
        }
    }
}

} // verus!
