//! The bounded channel that carries finished events to the consumer.
//!
//! Sending never waits: when the channel is full the new event is dropped and
//! the sender is told so. Events leave in the order in which they came.

use vstd::prelude::*;
use crate::event::SecurityEvent;

verus! {

/// The channel was at capacity; the event was not delivered.
#[derive(Clone, Copy, Debug, PartialEq, Eq, Structural)]
pub struct QueueFull;

pub struct TransportChannel {
    items: Vec<SecurityEvent>,
    capacity: usize,
}

impl View for TransportChannel {
    type V = Seq<SecurityEvent>;

    /// The events waiting, oldest first.
    closed spec fn view(&self) -> Seq<SecurityEvent> {
        self.items@
    }
}

impl TransportChannel {
    /// Most events the channel may hold at once.
    pub closed spec fn capacity(&self) -> nat {
        self.capacity as nat
    }

    pub closed spec fn wf(&self) -> bool {
        self.items@.len() <= self.capacity
    }

    /// An empty channel with room for `capacity` events.
    pub fn new(capacity: usize) -> (r: Self)
        ensures
            r.wf(),
            r@ == Seq::<SecurityEvent>::empty(),
            r.capacity() == capacity,
    {
        TransportChannel { items: Vec::new(), capacity }
    }

    /// Number of events waiting.
    pub fn len(&self) -> (r: usize)
        ensures
            r == self@.len(),
    {
        self.items.len()
    }

    /// Whether a further event would be dropped.
    pub fn is_full(&self) -> (r: bool)
        ensures
            r == (self@.len() >= self.capacity()),
    {
        self.items.len() >= self.capacity
    }

    /// Appends `event` if there is room; otherwise drops it and reports
    /// `QueueFull`, leaving the channel as it was.
    pub fn enqueue(&mut self, event: SecurityEvent) -> (r: Result<(), QueueFull>)
        requires
            old(self).wf(),
        ensures
            final(self).wf(),
            final(self).capacity() == old(self).capacity(),
            r is Ok <==> old(self)@.len() < old(self).capacity(),
            r is Ok ==> final(self)@ == old(self)@.push(event),
            r is Err ==> final(self)@ == old(self)@,
    {
        if self.items.len() >= self.capacity {
            Err(QueueFull)
        } else {
            self.items.push(event);
            Ok(())
        }
    }

    /// Takes the oldest waiting event, if any.
    pub fn dequeue(&mut self) -> (r: Option<SecurityEvent>)
        requires
            old(self).wf(),
        ensures
            final(self).wf(),
            final(self).capacity() == old(self).capacity(),
            old(self)@.len() == 0 ==> r is None && final(self)@ == old(self)@,
            old(self)@.len() > 0 ==> r == Some(old(self)@[0]) && final(self)@ == old(self)@.drop_first(),
    {
        if self.items.len() == 0 {
            None
        } else {
            let e = self.items.remove(0);
            assert(self.items@ =~= old(self)@.drop_first());
            Some(e)
        }
    }
}

} // verus!
