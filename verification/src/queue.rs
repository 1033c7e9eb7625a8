//! Bounded FIFO of controller frames.  One producer (the communications
//! core) enqueues whole frames; one consumer (the replay engine) dequeues
//! them at frame boundaries.  Entries are never mutated after enqueue, the
//! capacity is fixed when the queue is made, and frames are fixed-width
//! byte groups sized to the active console.

use vstd::prelude::*;

verus! {

/// The neutral frame for a console of the given frame width: all lines
/// released, which on these active-low controllers is all ones.
pub open spec fn neutral_frame(width: nat) -> Seq<u8> {
    Seq::new(width, |i: int| 0xFFu8)
}

/// What a queue's contents look like after one enqueue.
pub open spec fn spec_enqueue(s: Seq<Seq<u8>>, frame: Seq<u8>) -> Seq<Seq<u8>> {
    s.push(frame)
}

/// What a queue's contents look like after one dequeue, paired with the
/// frame handed out.
pub open spec fn spec_dequeue(s: Seq<Seq<u8>>) -> (Seq<u8>, Seq<Seq<u8>>)
    recommends
        s.len() > 0,
{
    (s.first(), s.drop_first())
}

/// Enqueue every frame of `fs` in order, starting from contents `s`.
pub open spec fn spec_enqueue_all(s: Seq<Seq<u8>>, fs: Seq<Seq<u8>>) -> Seq<Seq<u8>>
    decreases fs.len(),
{
    if fs.len() == 0 {
        s
    } else {
        spec_enqueue_all(spec_enqueue(s, fs.first()), fs.drop_first())
    }
}

/// Bounded single-producer / single-consumer frame queue.
pub struct InputQueue {
    /// Frame width in bytes.  Fixed at construction; treat as read-only.
    pub width: usize,
    /// Capacity in frames.  Fixed at construction; treat as read-only.
    pub capacity: usize,
    /// The frames held, oldest first.
    pub frames: Vec<Vec<u8>>,
}

impl InputQueue {
    /// The frames held, oldest first, each as its byte sequence.
    pub open spec fn model(&self) -> Seq<Seq<u8>> {
        self.frames.deep_view()
    }

    /// Frame width in bytes.
    pub open spec fn spec_width(&self) -> nat {
        self.width as nat
    }

    /// Capacity in frames.
    pub open spec fn spec_capacity(&self) -> nat {
        self.capacity as nat
    }

    /// Every held frame has the queue's width, the count stays within the
    /// capacity, and the total byte capacity fits the 16-bit free-space
    /// field of the wire protocol.
    pub open spec fn wf(&self) -> bool {
        &&& 1 <= self.width
        &&& self.capacity * self.width <= 0xFFFF
        &&& self.model().len() <= self.capacity
        &&& forall|i: int| 0 <= i < self.model().len() ==> (#[trigger] self.model()[i]).len() == self.width
    }

    pub fn new(width: usize, capacity: usize) -> (r: InputQueue)
        requires
            1 <= width,
            capacity * width <= 0xFFFF,
        ensures
            r.wf(),
            r.spec_width() == width,
            r.spec_capacity() == capacity,
            r.model().len() == 0,
    {
        InputQueue { width, capacity, frames: Vec::new() }
    }

    pub fn width(&self) -> (r: usize)
        ensures
            r == self.spec_width(),
    {
        self.width
    }

    pub fn capacity(&self) -> (r: usize)
        ensures
            r == self.spec_capacity(),
    {
        self.capacity
    }

    pub fn len(&self) -> (r: usize)
        ensures
            r == self.model().len(),
    {
        self.frames.len()
    }

    pub fn is_empty(&self) -> (r: bool)
        ensures
            r == (self.model().len() == 0),
    {
        self.frames.len() == 0
    }

    pub fn is_full(&self) -> (r: bool)
        ensures
            r == (self.model().len() == self.spec_capacity()),
    {
        self.frames.len() == self.capacity
    }

    /// Free slots, counted in frames.
    pub fn free_frames(&self) -> (r: usize)
        requires
            self.wf(),
        ensures
            r == self.spec_capacity() - self.model().len(),
    {
        self.capacity - self.frames.len()
    }

    /// Free space, counted in bytes: free slots times the frame width.
    pub fn free_bytes(&self) -> (r: usize)
        requires
            self.wf(),
        ensures
            r == (self.spec_capacity() - self.model().len()) * self.spec_width(),
            r <= 0xFFFF,
    {
        proof {
            let free = self.spec_capacity() - self.model().len();
            assert(free * self.spec_width() <= self.spec_capacity() * self.spec_width())
                by (nonlinear_arith)
                requires
                    0 <= free <= self.spec_capacity(),
                    1 <= self.spec_width(),
            ;
        }
        (self.capacity - self.frames.len()) * self.width
    }

    /// Add a frame at the back.  Succeeds if and only if the queue is not
    /// full; a full queue is left unchanged.
    pub fn enqueue(&mut self, frame: Vec<u8>) -> (queued: bool)
        requires
            old(self).wf(),
            frame@.len() == old(self).spec_width(),
        ensures
            final(self).wf(),
            final(self).spec_width() == old(self).spec_width(),
            final(self).spec_capacity() == old(self).spec_capacity(),
            queued == (old(self).model().len() < old(self).spec_capacity()),
            queued ==> final(self).model() == spec_enqueue(old(self).model(), frame@),
            !queued ==> final(self).model() == old(self).model(),
    {
        if self.frames.len() == self.capacity {
            return false;
        }
        self.frames.push(frame);
        proof {
            assert(self.model() =~~= spec_enqueue(old(self).model(), frame@));
        }
        true
    }

    /// Take the oldest frame, or `None` when empty.
    pub fn dequeue(&mut self) -> (r: Option<Vec<u8>>)
        requires
            old(self).wf(),
        ensures
            final(self).wf(),
            final(self).spec_width() == old(self).spec_width(),
            final(self).spec_capacity() == old(self).spec_capacity(),
            match r {
                Some(frame) => {
                    &&& old(self).model().len() > 0
                    &&& (frame@, final(self).model()) == spec_dequeue(old(self).model())
                },
                None => {
                    &&& old(self).model().len() == 0
                    &&& final(self).model() == old(self).model()
                },
            },
    {
        if self.frames.len() == 0 {
            return None;
        }
        let frame = self.frames.remove(0);
        proof {
            assert(self.model() =~~= old(self).model().drop_first());
        }
        Some(frame)
    }

    /// Take the oldest frame; an empty queue yields the neutral frame (all
    /// lines released) rather than failing.
    pub fn dequeue_or_neutral(&mut self) -> (r: Vec<u8>)
        requires
            old(self).wf(),
        ensures
            final(self).wf(),
            final(self).spec_width() == old(self).spec_width(),
            final(self).spec_capacity() == old(self).spec_capacity(),
            r@.len() == old(self).spec_width(),
            old(self).model().len() > 0 ==> (r@, final(self).model()) == spec_dequeue(
                old(self).model(),
            ),
            old(self).model().len() == 0 ==> r@ == neutral_frame(old(self).spec_width())
                && final(self).model() == old(self).model(),
    {
        match self.dequeue() {
            Some(frame) => frame,
            None => {
                let mut neutral: Vec<u8> = Vec::new();
                let mut i: usize = 0;
                while i < self.width
                    invariant
                        i <= self.width,
                        neutral@.len() == i,
                        forall|j: int| 0 <= j < i ==> neutral@[j] == 0xFFu8,
                    decreases self.width - i,
                {
                    neutral.push(0xFF);
                    i = i + 1;
                }
                proof {
                    assert(neutral@ =~= neutral_frame(self.spec_width()));
                }
                neutral
            },
        }
    }

    /// Discard everything, as the engines do when replay ends.
    pub fn drain(&mut self)
        requires
            old(self).wf(),
        ensures
            final(self).wf(),
            final(self).spec_width() == old(self).spec_width(),
            final(self).spec_capacity() == old(self).spec_capacity(),
            final(self).model().len() == 0,
    {
        self.frames.clear();
    }
}

/// Frames enqueued into an empty queue sit in the queue in their original
/// order: the contents after enqueuing all of `fs` are exactly `fs`, and
/// the i-th of the following dequeues hands back `fs[i]`.  Together with
/// `enqueue`'s and `dequeue`'s contracts this says a full enqueue burst
/// followed by an equal count of dequeues returns the frames unchanged and
/// in order.
pub proof fn lemma_queue_fifo(fs: Seq<Seq<u8>>)
    ensures
        spec_enqueue_all(Seq::<Seq<u8>>::empty(), fs) == fs,
        forall|i: int| 0 <= i < fs.len() ==> spec_dequeue(#[trigger] fs.skip(i)).0 == fs[i],
        forall|i: int| 0 <= i < fs.len() ==> spec_dequeue(#[trigger] fs.skip(i)).1 == fs.skip(i + 1),
{
    lemma_enqueue_all_prefix(Seq::<Seq<u8>>::empty(), fs);
    assert(Seq::<Seq<u8>>::empty() + fs =~= fs);
    assert forall|i: int| 0 <= i < fs.len() implies spec_dequeue(#[trigger] fs.skip(i)).0 == fs[i]
        && spec_dequeue(fs.skip(i)).1 == fs.skip(i + 1) by {
        assert(fs.skip(i).first() == fs[i]);
        assert(fs.skip(i).drop_first() =~= fs.skip(i + 1));
    }
}

/// Enqueuing a burst appends it: the result is the old contents followed by
/// the burst.
pub proof fn lemma_enqueue_all_prefix(s: Seq<Seq<u8>>, fs: Seq<Seq<u8>>)
    ensures
        spec_enqueue_all(s, fs) == s + fs,
    decreases fs.len(),
{
    if fs.len() == 0 {
        assert(s + fs =~= s);
    } else {
        lemma_enqueue_all_prefix(s.push(fs.first()), fs.drop_first());
        assert(s.push(fs.first()) + fs.drop_first() =~= s + fs);
    }
}

} // verus!
