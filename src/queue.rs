//! The relay queue: a bounded, first-in first-out buffer of frames between
//! the camera side and the client side.
use std::collections::VecDeque;
use vstd::prelude::*;

use crate::wire::views;

verus! {

/// What a relay queue is: its frames, oldest first, its capacity, and
/// whether it has been closed.
pub struct QueueModel {
    pub frames: Seq<Seq<u8>>,
    pub capacity: nat,
    pub closed: bool,
}

impl QueueModel {
    /// A queue never holds more frames than its capacity, which is positive.
    pub open spec fn wf(self) -> bool {
        0 < self.capacity && self.frames.len() <= self.capacity
    }

    /// The queue takes a new frame: it is open and has room.
    pub open spec fn has_room(self) -> bool {
        !self.closed && self.frames.len() < self.capacity
    }

    /// The queue after an attempt to enqueue `f`: appended if there is room,
    /// unchanged otherwise.
    pub open spec fn after_enqueue(self, f: Seq<u8>) -> QueueModel {
        if self.has_room() {
            QueueModel { frames: self.frames.push(f), ..self }
        } else {
            self
        }
    }

    /// The queue after an attempt to dequeue: its oldest frame removed, if any.
    pub open spec fn after_dequeue(self) -> QueueModel {
        if self.frames.len() > 0 {
            QueueModel { frames: self.frames.drop_first(), ..self }
        } else {
            self
        }
    }

    /// The queue after attempts to enqueue each of `fs`, in order.
    pub open spec fn after_enqueue_all(self, fs: Seq<Seq<u8>>) -> QueueModel
        decreases fs.len(),
    {
        if fs.len() == 0 {
            self
        } else {
            self.after_enqueue(fs[0]).after_enqueue_all(fs.drop_first())
        }
    }

    /// The frames that dequeuing until the queue is empty hands out, in order.
    pub open spec fn drained(self) -> Seq<Seq<u8>>
        decreases self.frames.len(),
    {
        if self.frames.len() == 0 {
            Seq::empty()
        } else {
            seq![self.frames[0]] + self.after_dequeue().drained()
        }
    }
}

/// Dequeuing until empty hands out exactly the frames the queue holds, oldest
/// first.
pub proof fn lemma_drained(m: QueueModel)
    ensures
        m.drained() == m.frames,
    decreases m.frames.len(),
{
    if m.frames.len() > 0 {
        lemma_drained(m.after_dequeue());
        assert(seq![m.frames[0]] + m.frames.drop_first() =~= m.frames);
    }
}

/// Frames enqueued one after another into an open queue with room for them
/// all come out after the frames it already held, in the order they went in:
/// none dropped, none repeated, none reordered.
pub proof fn lemma_fifo(m: QueueModel, fs: Seq<Seq<u8>>)
    requires
        m.wf(),
        !m.closed,
        m.frames.len() + fs.len() <= m.capacity,
    ensures
        m.after_enqueue_all(fs).frames == m.frames + fs,
        m.after_enqueue_all(fs).drained() == m.frames + fs,
        m.after_enqueue_all(fs).capacity == m.capacity,
        m.after_enqueue_all(fs).closed == m.closed,
    decreases fs.len(),
{
    if fs.len() == 0 {
        assert(m.frames + fs =~= m.frames);
    } else {
        let m1 = m.after_enqueue(fs[0]);
        lemma_fifo(m1, fs.drop_first());
        assert(m1.frames + fs.drop_first() =~= m.frames + fs);
    }
    lemma_drained(m.after_enqueue_all(fs));
}

/// A full queue refuses a frame and stays as it was, so the producer waits
/// rather than losing it; once one frame has been dequeued the same frame is
/// taken, behind those still queued.
pub proof fn lemma_full_waits_then_resumes(m: QueueModel, f: Seq<u8>)
    requires
        m.wf(),
        !m.closed,
        m.frames.len() == m.capacity,
    ensures
        !m.has_room(),
        m.after_enqueue(f) == m,
        m.after_dequeue().has_room(),
        m.after_dequeue().after_enqueue(f).frames == m.frames.drop_first().push(f),
{
}

/// The result of an attempt to enqueue a frame.
#[derive(Debug)]
pub enum Enqueued {
    /// The frame is now the newest in the queue.
    Accepted,
    /// The queue is at capacity; the frame is handed back untouched.
    Full(Vec<u8>),
    /// The queue is closed; the frame is handed back untouched.
    Closed(Vec<u8>),
}

/// The result of an attempt to dequeue a frame.
#[derive(Debug)]
pub enum Dequeued {
    /// The oldest frame, now out of the queue.
    Frame(Vec<u8>),
    /// Nothing yet: the queue is empty but open.
    Empty,
    /// End of stream: the queue is closed and drained.
    Ended,
}

/// A bounded first-in first-out queue of frames.
pub struct RelayQueue {
    frames: VecDeque<Vec<u8>>,
    capacity: usize,
    closed: bool,
}

impl View for RelayQueue {
    type V = QueueModel;

    closed spec fn view(&self) -> QueueModel {
        QueueModel {
            frames: views(self.frames@),
            capacity: self.capacity as nat,
            closed: self.closed,
        }
    }
}

impl RelayQueue {
    /// An empty, open queue that holds at most `capacity` frames.
    pub fn new(capacity: usize) -> (r: RelayQueue)
        requires
            capacity > 0,
        ensures
            r@.wf(),
            r@.frames == Seq::<Seq<u8>>::empty(),
            r@.capacity == capacity,
            !r@.closed,
    {
        let r = RelayQueue { frames: VecDeque::new(), capacity, closed: false };
        assert(r@.frames =~= Seq::<Seq<u8>>::empty());
        r
    }

    /// Enqueues `frame` if the queue is open and has room; otherwise hands it
    /// back, so that the caller can wait and try again.
    pub fn try_enqueue(&mut self, frame: Vec<u8>) -> (r: Enqueued)
        requires
            old(self)@.wf(),
        ensures
            final(self)@ == old(self)@.after_enqueue(frame@),
            final(self)@.wf(),
            old(self)@.has_room() <==> r is Accepted,
            old(self)@.closed ==> r == Enqueued::Closed(frame),
            !old(self)@.closed && !old(self)@.has_room() ==> r == Enqueued::Full(frame),
    {
        if self.closed {
            Enqueued::Closed(frame)
        } else if self.frames.len() >= self.capacity {
            Enqueued::Full(frame)
        } else {
            let ghost before = self.frames@;
            let ghost f = frame@;
            self.frames.push_back(frame);
            assert(views(self.frames@) =~= views(before).push(f));
            Enqueued::Accepted
        }
    }

    /// Takes the oldest frame out of the queue, if there is one.
    pub fn try_dequeue(&mut self) -> (r: Dequeued)
        requires
            old(self)@.wf(),
        ensures
            final(self)@ == old(self)@.after_dequeue(),
            final(self)@.wf(),
            match r {
                Dequeued::Frame(f) => old(self)@.frames.len() > 0 && f@ == old(self)@.frames[0],
                Dequeued::Empty => old(self)@.frames.len() == 0 && !old(self)@.closed,
                Dequeued::Ended => old(self)@.frames.len() == 0 && old(self)@.closed,
            },
    {
        let ghost before = self.frames@;
        match self.frames.pop_front() {
            Some(f) => {
                assert(views(self.frames@) =~= views(before).drop_first());
                Dequeued::Frame(f)
            },
            None => {
                if self.closed {
                    Dequeued::Ended
                } else {
                    Dequeued::Empty
                }
            },
        }
    }

    /// Closes the queue: no frame is taken any more, and those it holds can
    /// still be dequeued.
    pub fn close(&mut self)
        requires
            old(self)@.wf(),
        ensures
            final(self)@ == (QueueModel { closed: true, ..old(self)@ }),
    {
        self.closed = true;
    }

    /// The number of frames in the queue.
    pub fn len(&self) -> (r: usize)
        ensures
            r == self@.frames.len(),
    {
        self.frames.len()
    }

    /// Whether the queue holds no frame.
    pub fn is_empty(&self) -> (r: bool)
        ensures
            r == (self@.frames.len() == 0),
    {
        self.frames.len() == 0
    }

    /// Whether the queue holds as many frames as its capacity.
    pub fn is_full(&self) -> (r: bool)
        requires
            self@.wf(),
        ensures
            r == (self@.frames.len() == self@.capacity),
    {
        self.frames.len() == self.capacity
    }

    /// The most frames the queue holds.
    pub fn capacity(&self) -> (r: usize)
        ensures
            r == self@.capacity,
    {
        self.capacity
    }

    /// Whether the queue has been closed.
    pub fn is_closed(&self) -> (r: bool)
        ensures
            r == self@.closed,
    {
        self.closed
    }
}

} // verus!
