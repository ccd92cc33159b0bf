//! What the coordinator asks of the window surface, and a model of the two
//! surface flags that those requests control.

use vstd::prelude::*;
use crate::state::WindowState;

verus! {

/// A request to the window surface. Carrying one out twice has the effect of
/// carrying it out once.
#[derive(Clone, Copy, Debug, PartialEq, Eq, Hash, Structural)]
pub enum Command {
    /// Show or hide the window.
    SetVisible(bool),
    /// Let clicks fall through the window, or deliver them to it.
    SetClickThrough(bool),
    /// Ask the window system for a redraw.
    RequestRedraw,
    /// Fit the drawing surface to the window's new size.
    Resize { width: u32, height: u32 },
    /// Draw the text, scrolled to the given offset.
    Paint { scroll_offset: u64 },
    /// Leave the event loop and end the process.
    Exit,
}

/// The flags of a window surface that commands set.
#[derive(Clone, Copy, Debug, PartialEq, Eq, Hash, Structural)]
pub struct Surface {
    /// Whether the window is shown.
    pub visible: bool,
    /// Whether clicks fall through the window.
    pub click_through: bool,
}

impl Surface {
    /// Whether the surface shows what `state` says.
    pub open spec fn agrees_with(self, state: WindowState) -> bool {
        &&& self.visible == state.spec_visible()
        &&& self.click_through == !state.spec_interactive()
    }

    /// The surface that shows `state`.
    pub open spec fn spec_showing(state: WindowState) -> Surface {
        Surface { visible: state.spec_visible(), click_through: !state.spec_interactive() }
    }

    /// The surface after one command.
    pub open spec fn after(self, command: Command) -> Surface {
        match command {
            Command::SetVisible(visible) => Surface { visible, ..self },
            Command::SetClickThrough(click_through) => Surface { click_through, ..self },
            _ => self,
        }
    }

    /// The surface after a run of commands, carried out first to last.
    pub open spec fn after_all(self, commands: Seq<Command>) -> Surface
        decreases commands.len(),
    {
        if commands.len() == 0 {
            self
        } else {
            self.after_all(commands.drop_last()).after(commands.last())
        }
    }

    #[verifier::when_used_as_spec(spec_showing)]
    pub fn showing(state: WindowState) -> (surface: Surface)
        ensures
            surface == Surface::spec_showing(state),
            surface.agrees_with(state),
    {
        Surface { visible: state.visible(), click_through: !state.interactive() }
    }

    /// Shows or hides the window.
    pub fn set_visible(&mut self, visible: bool)
        ensures
            *final(self) == old(self).after(Command::SetVisible(visible)),
    {
        self.visible = visible;
    }

    /// Switches click-through on or off.
    pub fn set_click_through(&mut self, click_through: bool)
        ensures
            *final(self) == old(self).after(Command::SetClickThrough(click_through)),
    {
        self.click_through = click_through;
    }

    /// Carries out one command.
    pub fn apply(&mut self, command: Command)
        ensures
            *final(self) == old(self).after(command),
    {
        match command {
            Command::SetVisible(visible) => self.set_visible(visible),
            Command::SetClickThrough(click_through) => self.set_click_through(click_through),
            _ => {},
        }
    }

    /// Carries out a run of commands, first to last.
    pub fn apply_all(&mut self, commands: &Vec<Command>)
        ensures
            *final(self) == old(self).after_all(commands@),
    {
        let mut i: usize = 0;
        while i < commands.len()
            invariant
                i <= commands.len(),
                *self == old(self).after_all(commands@.take(i as int)),
            decreases commands.len() - i,
        {
            proof {
                assert(commands@.take(i + 1).drop_last() =~= commands@.take(i as int));
            }
            self.apply(commands[i]);
            i += 1;
        }
        proof {
            assert(commands@.take(i as int) =~= commands@);
        }
    }
}

} // verus!
