//! The tray menu: a label and one action, `Quit`.
//!
//! The tray is a pure producer. Selecting `Quit` puts one `Quit` event on the
//! queue for each click; the label does nothing.

use vstd::prelude::*;
use crate::channel::EventQueue;
use crate::event::DomainEvent;

verus! {

/// An entry of the tray menu.
#[derive(Clone, Copy, Debug, PartialEq, Eq, Hash, Structural)]
pub enum TrayEntry {
    /// The line that names the program.
    Label,
    /// The action that ends the program.
    Quit,
}

impl TrayEntry {
    /// The event that selecting this entry stands for.
    pub open spec fn spec_event(self) -> Option<DomainEvent> {
        match self {
            TrayEntry::Label => None,
            TrayEntry::Quit => Some(DomainEvent::Quit),
        }
    }

    /// The event that selecting this entry stands for.
    #[verifier::when_used_as_spec(spec_event)]
    pub fn event(self) -> (event: Option<DomainEvent>)
        ensures
            event == self.spec_event(),
    {
        match self {
            TrayEntry::Label => None,
            TrayEntry::Quit => Some(DomainEvent::Quit),
        }
    }

    /// Reacts to one click on this entry: puts its event on the queue, once,
    /// and returns whether there was one.
    pub fn select(self, queue: &mut EventQueue) -> (queued: bool)
        ensures
            queued == self.spec_event().is_some(),
            queued ==> final(queue)@ == old(queue)@.push(self.spec_event().unwrap()),
            !queued ==> final(queue)@ == old(queue)@,
    {
        match self.event() {
            Some(event) => {
                queue.push(event);
                true
            },
            None => false,
        }
    }
}

} // verus!
