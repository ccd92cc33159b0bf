//! The event queue between the producers and the coordinator: unbounded,
//! first in, first out.
//!
//! The queue itself is a sequential structure. A program shares one queue
//! between its producers and the consumer behind a lock of its choice; each
//! operation here is what happens while that lock is held.

use std::collections::VecDeque;
use vstd::prelude::*;
use crate::event::DomainEvent;

verus! {

/// A queue of domain events in arrival order.
pub struct EventQueue {
    items: VecDeque<DomainEvent>,
}

impl View for EventQueue {
    type V = Seq<DomainEvent>;

    /// The queued events, oldest first.
    closed spec fn view(&self) -> Seq<DomainEvent> {
        self.items@
    }
}

impl EventQueue {
    /// An empty queue.
    pub fn new() -> (queue: EventQueue)
        ensures
            queue@ == Seq::<DomainEvent>::empty(),
    {
        EventQueue { items: VecDeque::new() }
    }

    /// The number of queued events.
    pub fn len(&self) -> (n: usize)
        ensures
            n == self@.len(),
    {
        self.items.len()
    }

    /// Whether no event is queued.
    pub fn is_empty(&self) -> (b: bool)
        ensures
            b == (self@.len() == 0),
    {
        self.items.len() == 0
    }

    /// Adds `event` behind everything already queued. Nothing else changes:
    /// no event is dropped, doubled or reordered.
    pub fn push(&mut self, event: DomainEvent)
        ensures
            final(self)@ == old(self)@.push(event),
    {
        self.items.push_back(event);
    }

    /// Takes the oldest event off the queue, or returns `None` at once where
    /// the queue is empty.
    pub fn pop(&mut self) -> (event: Option<DomainEvent>)
        ensures
            old(self)@.len() == 0 ==> event.is_none() && final(self)@ == old(self)@,
            old(self)@.len() > 0 ==> event == Some(old(self)@[0]) && final(self)@ == old(
                self,
            )@.skip(1),
    {
        let event = self.items.pop_front();
        proof {
            if old(self)@.len() > 0 {
                assert(old(self)@.skip(1) =~= old(self)@.subrange(1, old(self)@.len() as int));
            }
        }
        event
    }
}

} // verus!
