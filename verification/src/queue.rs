//! The admission queue: a bounded first-in first-out buffer of envelopes.

use vstd::prelude::*;
use std::collections::VecDeque;
use crate::event::Envelope;

verus! {

/// A first-in first-out buffer that never holds more than its capacity.
pub struct AdmissionQueue<P> {
    items: VecDeque<Envelope<P>>,
    capacity: usize,
}

impl<P> View for AdmissionQueue<P> {
    type V = Seq<Envelope<P>>;

    /// The waiting envelopes, oldest first.
    closed spec fn view(&self) -> Seq<Envelope<P>> {
        self.items@
    }
}

impl<P> AdmissionQueue<P> {
    /// The largest number of envelopes the queue may hold.
    pub closed spec fn bound(&self) -> nat {
        self.capacity as nat
    }

    /// The queue holds no more than its capacity.
    pub open spec fn wf(&self) -> bool {
        self@.len() <= self.bound()
    }

    /// An empty queue that admits up to `capacity` envelopes.
    pub fn with_capacity(capacity: usize) -> (q: Self)
        ensures
            q.wf(),
            q@ == Seq::<Envelope<P>>::empty(),
            q.bound() == capacity,
    {
        AdmissionQueue { items: VecDeque::new(), capacity }
    }

    /// The largest number of envelopes the queue may hold.
    pub fn capacity(&self) -> (c: usize)
        ensures
            c == self.bound(),
    {
        self.capacity
    }

    /// How many envelopes are waiting.
    pub fn len(&self) -> (n: usize)
        ensures
            n == self@.len(),
    {
        self.items.len()
    }

    /// Whether no envelope is waiting.
    pub fn is_empty(&self) -> (b: bool)
        ensures
            b == (self@.len() == 0),
    {
        self.items.len() == 0
    }

    /// Whether the queue has no free slot.
    pub fn is_full(&self) -> (b: bool)
        ensures
            b == (self@.len() >= self.bound()),
    {
        self.items.len() >= self.capacity
    }

    /// Puts `envelope` behind every waiting one if a slot is free, and hands
    /// it back untouched if none is.
    pub fn try_enqueue(&mut self, envelope: Envelope<P>) -> (r: Result<(), Envelope<P>>)
        requires
            old(self).wf(),
        ensures
            final(self).wf(),
            final(self).bound() == old(self).bound(),
            old(self)@.len() < old(self).bound() ==> r == Ok::<(), Envelope<P>>(())
                && final(self)@ == old(self)@.push(envelope),
            old(self)@.len() >= old(self).bound() ==> r == Err::<(), Envelope<P>>(envelope)
                && final(self)@ == old(self)@,
    {
        if self.items.len() < self.capacity {
            self.items.push_back(envelope);
            Ok(())
        } else {
            Err(envelope)
        }
    }

    /// Takes the oldest waiting envelope, if any.
    pub fn dequeue(&mut self) -> (r: Option<Envelope<P>>)
        requires
            old(self).wf(),
        ensures
            final(self).wf(),
            final(self).bound() == old(self).bound(),
            old(self)@.len() == 0 ==> r.is_none() && final(self)@ == old(self)@,
            old(self)@.len() > 0 ==> r == Some(old(self)@[0]) && final(self)@ == old(self)@.skip(1),
    {
        let r = self.items.pop_front();
        proof {
            if old(self)@.len() > 0 {
                assert(self@ =~= old(self)@.skip(1));
            }
        }
        r
    }
}

} // verus!
