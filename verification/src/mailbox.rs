//! Bounded FIFO mailbox.
//!
//! A mailbox holds the pending messages of one actor. Its capacity is fixed
//! at construction (default `DEFAULT_CAPACITY`) and is never exceeded: an
//! enqueue at capacity is refused, which the sending side surfaces as
//! backpressure rather than dropping the message or growing without bound.

use vstd::prelude::*;

use crate::msgs::Envelope;

verus! {

/// Default mailbox capacity used when a context is built without an
/// explicit one.
pub const DEFAULT_CAPACITY: usize = 16;

/// Bounded FIFO queue of pending messages for one actor.
pub struct Mailbox {
    queue: Vec<Envelope>,
    capacity: usize,
}

impl View for Mailbox {
    type V = Seq<Envelope>;

    closed spec fn view(&self) -> Seq<Envelope> {
        self.queue@
    }
}

impl Mailbox {
    /// The capacity the mailbox was constructed with.
    pub closed spec fn spec_capacity(&self) -> nat {
        self.capacity as nat
    }

    /// The queue never exceeds the configured bound.
    pub open spec fn wf(&self) -> bool {
        self@.len() <= self.spec_capacity()
    }

    /// A fresh, empty mailbox with the given capacity.
    pub fn new(capacity: usize) -> (m: Mailbox)
        ensures
            m@ == Seq::<Envelope>::empty(),
            m.spec_capacity() == capacity,
            m.wf(),
    {
        Mailbox { queue: Vec::new(), capacity }
    }

    /// A fresh, empty mailbox with the default capacity.
    pub fn with_default_capacity() -> (m: Mailbox)
        ensures
            m@ == Seq::<Envelope>::empty(),
            m.spec_capacity() == DEFAULT_CAPACITY as nat,
            m.wf(),
    {
        Mailbox::new(DEFAULT_CAPACITY)
    }

    pub fn capacity(&self) -> (c: usize)
        ensures
            c as nat == self.spec_capacity(),
    {
        self.capacity
    }

    pub fn len(&self) -> (n: usize)
        ensures
            n == self@.len(),
    {
        self.queue.len()
    }

    pub fn is_empty(&self) -> (b: bool)
        ensures
            b == (self@.len() == 0),
    {
        self.queue.len() == 0
    }

    /// Appends `env` if the mailbox is below capacity; refuses it otherwise.
    /// The refusal is what a blocking cross-thread send observes as
    /// backpressure.
    pub fn try_enqueue(&mut self, env: Envelope) -> (ok: bool)
        requires
            old(self).wf(),
        ensures
            final(self).wf(),
            final(self).spec_capacity() == old(self).spec_capacity(),
            ok == (old(self)@.len() < old(self).spec_capacity()),
            ok ==> final(self)@ == old(self)@.push(env),
            !ok ==> final(self)@ == old(self)@,
    {
        if self.queue.len() < self.capacity {
            self.queue.push(env);
            true
        } else {
            false
        }
    }

    /// Removes and returns the oldest pending message, if any.
    pub fn dequeue(&mut self) -> (r: Option<Envelope>)
        requires
            old(self).wf(),
        ensures
            final(self).wf(),
            final(self).spec_capacity() == old(self).spec_capacity(),
            old(self)@.len() == 0 ==> r is None && final(self)@ == old(self)@,
            old(self)@.len() > 0 ==> r == Some(old(self)@[0]) && final(self)@ == old(self)@.drop_first(),
    {
        if self.queue.len() > 0 {
            let env = self.queue.remove(0);
            assert(self@ =~= old(self)@.drop_first());
            Some(env)
        } else {
            None
        }
    }
}

} // verus!
