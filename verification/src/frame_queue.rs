use vstd::prelude::*;

verus! {

/// The bounded hand-off between the audio-callback producer and a frame
/// consumer. The producer never blocks: when the queue is full, the oldest
/// frame is dropped to make room, which bounds both memory and latency.
/// Frames are opaque to the queue; the host queues its own sample-block
/// type.
#[derive(Debug)]
pub struct FrameQueue<T> {
    items: Vec<T>,
    capacity: usize,
}

impl<T> FrameQueue<T> {
    /// The queued frames, oldest first.
    pub closed spec fn items_seq(self) -> Seq<T> {
        self.items@
    }

    /// The bound the queue was created with.
    pub closed spec fn cap(self) -> nat {
        self.capacity as nat
    }

    /// The queue never holds more than its bound.
    pub open spec fn wf(self) -> bool {
        &&& self.cap() > 0
        &&& self.items_seq().len() <= self.cap()
    }

    pub fn new(capacity: usize) -> (q: Self)
        requires
            capacity > 0,
        ensures
            q.wf(),
            q.cap() == capacity,
            q.items_seq() == Seq::<T>::empty(),
    {
        let q = FrameQueue { items: Vec::new(), capacity };
        proof {
            assert(q.items_seq() =~= Seq::<T>::empty());
        }
        q
    }

    pub fn len(&self) -> (r: usize)
        ensures
            r == self.items_seq().len(),
    {
        self.items.len()
    }

    pub fn capacity(&self) -> (r: usize)
        ensures
            r == self.cap(),
    {
        self.capacity
    }

    /// Accepts one frame without ever blocking the producer. Below the
    /// bound the frame is appended; at the bound the oldest frame is
    /// dropped first and handed back, so the queue never exceeds its bound.
    pub fn push(&mut self, frame: T) -> (dropped: Option<T>)
        requires
            old(self).wf(),
        ensures
            final (self).wf(),
            final (self).cap() == old(self).cap(),
            old(self).items_seq().len() < old(self).cap() ==> final (self).items_seq() == old(
                self,
            ).items_seq().push(frame) && dropped is None,
            old(self).items_seq().len() == old(self).cap() ==> final (self).items_seq() == old(
                self,
            ).items_seq().drop_first().push(frame) && dropped == Some(old(self).items_seq()[0]),

    {
        let mut dropped: Option<T> = None;
        if self.items.len() == self.capacity {
            let oldest = self.items.remove(0);
            proof {
                assert(old(self).items_seq().remove(0) =~= old(self).items_seq().drop_first());
            }
            dropped = Some(oldest);
        }
        self.items.push(frame);
        dropped
    }

    /// Hands the oldest queued frame to the consumer, if any.
    pub fn pop(&mut self) -> (r: Option<T>)
        requires
            old(self).wf(),
        ensures
            final (self).wf(),
            final (self).cap() == old(self).cap(),
            old(self).items_seq().len() == 0 ==> r is None && final (self).items_seq() == old(
                self,
            ).items_seq(),
            old(self).items_seq().len() > 0 ==> r == Some(old(self).items_seq()[0])
                && final (self).items_seq() == old(self).items_seq().drop_first(),
    {
        if self.items.is_empty() {
            None
        } else {
            let oldest = self.items.remove(0);
            proof {
                assert(old(self).items_seq().remove(0) =~= old(self).items_seq().drop_first());
            }
            Some(oldest)
        }
    }
}

} // verus!
