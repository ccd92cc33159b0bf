//! The inputs that the overlay coordinator reacts to.
//!
//! Two families of input reach the coordinator. Domain events come from the
//! background producers (the global-hotkey listener and the tray menu) through
//! the event queue. Surface events are reported by the window itself.

use vstd::prelude::*;

verus! {

/// A request made by the user through a global hotkey or the tray menu.
#[derive(Clone, Copy, Debug, PartialEq, Eq, Hash, Structural)]
pub enum DomainEvent {
    /// Flip the overlay between shown and hidden.
    ToggleVisibility,
    /// Scroll back by one page.
    PageUp,
    /// Scroll forward by one page.
    PageDown,
    /// End the process.
    Quit,
}

/// Something the window surface reports about itself.
#[derive(Clone, Copy, Debug, PartialEq, Eq, Hash, Structural)]
pub enum SurfaceEvent {
    /// The window system asked the window to close.
    CloseRequested,
    /// The window now has this size, in physical pixels.
    Resized { width: u32, height: u32 },
    /// A mouse button went down on the window.
    MousePress,
    /// The pointer moved out of the window.
    CursorLeft,
    /// The window system wants the content drawn again.
    RedrawDue,
}

/// Any input of the coordinator.
#[derive(Clone, Copy, Debug, PartialEq, Eq, Hash, Structural)]
pub enum Input {
    /// An event taken from the event queue.
    User(DomainEvent),
    /// An event delivered by the window surface.
    Surface(SurfaceEvent),
}

impl Input {
    /// The input that stands for `event`.
    pub fn user(event: DomainEvent) -> (input: Input)
        ensures
            input == Input::User(event),
    {
        Input::User(event)
    }

    /// The inputs that stand for `events`, in the same order.
    pub open spec fn lift(events: Seq<DomainEvent>) -> Seq<Input> {
        events.map_values(|e: DomainEvent| Input::User(e))
    }
}

} // verus!
