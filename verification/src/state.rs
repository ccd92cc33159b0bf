//! The window state that the coordinator owns: how the overlay is shown and
//! how far its text is scrolled.

use vstd::prelude::*;

verus! {

/// The largest scroll offset that the state can hold. Scrolling forward stops
/// here.
pub const MAX_SCROLL: u64 = 0xffff_ffff_ffff_ffff;

/// How the overlay takes part in the desktop.
#[derive(Clone, Copy, Debug, PartialEq, Eq, Hash, Structural)]
pub enum Mode {
    /// The window is not shown.
    Hidden,
    /// The window is shown and receives clicks.
    VisibleInteractive,
    /// The window is shown and clicks fall through to what lies behind it.
    VisiblePassThrough,
}

impl Mode {
    /// Whether the window is on screen in this mode.
    pub open spec fn spec_visible(self) -> bool {
        self != Mode::Hidden
    }

    /// Whether the window takes clicks in this mode.
    pub open spec fn spec_interactive(self) -> bool {
        self == Mode::VisibleInteractive
    }

    /// The mode of a window with the given two flags. A window that is not
    /// visible is hidden whatever the second flag says.
    pub open spec fn spec_from_flags(visible: bool, interactive: bool) -> Mode {
        if !visible {
            Mode::Hidden
        } else if interactive {
            Mode::VisibleInteractive
        } else {
            Mode::VisiblePassThrough
        }
    }

    #[verifier::when_used_as_spec(spec_visible)]
    pub fn visible(self) -> (b: bool)
        ensures
            b == self.spec_visible(),
    {
        match self {
            Mode::Hidden => false,
            Mode::VisibleInteractive => true,
            Mode::VisiblePassThrough => true,
        }
    }

    #[verifier::when_used_as_spec(spec_interactive)]
    pub fn interactive(self) -> (b: bool)
        ensures
            b == self.spec_interactive(),
    {
        match self {
            Mode::Hidden => false,
            Mode::VisibleInteractive => true,
            Mode::VisiblePassThrough => false,
        }
    }

    #[verifier::when_used_as_spec(spec_from_flags)]
    pub fn from_flags(visible: bool, interactive: bool) -> (mode: Mode)
        ensures
            mode == Mode::spec_from_flags(visible, interactive),
    {
        if !visible {
            Mode::Hidden
        } else if interactive {
            Mode::VisibleInteractive
        } else {
            Mode::VisiblePassThrough
        }
    }
}

/// An offset brought back into the range that the state can hold.
pub open spec fn clamp_scroll(offset: int) -> int {
    if offset < 0 {
        0
    } else if offset > MAX_SCROLL as int {
        MAX_SCROLL as int
    } else {
        offset
    }
}

/// The distance of one page: the height of the viewport less the allowance
/// that keeps a line of context on screen. It is negative where the viewport
/// is lower than the allowance.
pub open spec fn page_step(viewport_height: u32, line_allowance: u32) -> int {
    viewport_height as int - line_allowance as int
}

/// The state of the overlay window. Offsets and heights are whole logical
/// pixels.
#[derive(Clone, Copy, Debug, PartialEq, Eq, Hash, Structural)]
pub struct WindowState {
    /// How the window is shown.
    pub mode: Mode,
    /// How far the text is scrolled from its top.
    pub scroll_offset: u64,
    /// The height of the window's viewport.
    pub viewport_height: u32,
}

impl WindowState {
    /// The state at startup: shown, click-through, scrolled to the top.
    pub open spec fn spec_initial(viewport_height: u32) -> WindowState {
        WindowState { mode: Mode::VisiblePassThrough, scroll_offset: 0, viewport_height }
    }

    #[verifier::when_used_as_spec(spec_initial)]
    pub fn initial(viewport_height: u32) -> (state: WindowState)
        ensures
            state == WindowState::spec_initial(viewport_height),
    {
        WindowState { mode: Mode::VisiblePassThrough, scroll_offset: 0, viewport_height }
    }

    pub open spec fn spec_visible(&self) -> bool {
        self.mode.spec_visible()
    }

    pub open spec fn spec_interactive(&self) -> bool {
        self.mode.spec_interactive()
    }

    /// Whether the window is on screen.
    #[verifier::when_used_as_spec(spec_visible)]
    pub fn visible(&self) -> (b: bool)
        ensures
            b == self.spec_visible(),
    {
        self.mode.visible()
    }

    /// Whether the window takes clicks.
    #[verifier::when_used_as_spec(spec_interactive)]
    pub fn interactive(&self) -> (b: bool)
        ensures
            b == self.spec_interactive(),
    {
        self.mode.interactive()
    }

    /// This state in another mode.
    pub open spec fn with_mode(self, mode: Mode) -> WindowState {
        WindowState { mode, ..self }
    }

    /// This state scrolled to `offset`, brought into range.
    pub open spec fn scrolled_to(self, offset: int) -> WindowState {
        WindowState { scroll_offset: clamp_scroll(offset) as u64, ..self }
    }

    /// This state after the visibility flip. A hidden window comes back
    /// interactive; a shown window hides.
    pub open spec fn toggled(self) -> WindowState {
        match self.mode {
            Mode::Hidden => self.with_mode(Mode::VisibleInteractive),
            _ => self.with_mode(Mode::Hidden),
        }
    }

    /// This state after scrolling back one page. A hidden window does not
    /// scroll.
    pub open spec fn paged_up(self, line_allowance: u32) -> WindowState {
        if self.mode.spec_visible() {
            self.scrolled_to(self.scroll_offset - page_step(self.viewport_height, line_allowance))
        } else {
            self
        }
    }

    /// This state after scrolling forward one page. A hidden window does not
    /// scroll.
    pub open spec fn paged_down(self, line_allowance: u32) -> WindowState {
        if self.mode.spec_visible() {
            self.scrolled_to(self.scroll_offset + page_step(self.viewport_height, line_allowance))
        } else {
            self
        }
    }

    /// This state after a mouse button went down on the window.
    pub open spec fn pressed(self) -> WindowState {
        match self.mode {
            Mode::VisiblePassThrough => self.with_mode(Mode::VisibleInteractive),
            _ => self,
        }
    }

    /// This state after the pointer left the window.
    pub open spec fn left(self) -> WindowState {
        match self.mode {
            Mode::VisibleInteractive => self.with_mode(Mode::VisiblePassThrough),
            _ => self,
        }
    }

    /// Flips the visibility.
    pub fn toggle(&mut self)
        ensures
            *final(self) == old(self).toggled(),
    {
        match self.mode {
            Mode::Hidden => {
                self.mode = Mode::VisibleInteractive;
            },
            _ => {
                self.mode = Mode::Hidden;
            },
        }
    }

    /// Scrolls back one page, stopping at the top.
    pub fn page_up(&mut self, line_allowance: u32)
        ensures
            *final(self) == old(self).paged_up(line_allowance),
    {
        if self.mode.visible() {
            if self.viewport_height >= line_allowance {
                let step: u32 = self.viewport_height - line_allowance;
                self.scroll_offset = self.scroll_offset.saturating_sub(step as u64);
            } else {
                let step: u32 = line_allowance - self.viewport_height;
                self.scroll_offset = self.scroll_offset.saturating_add(step as u64);
            }
        }
    }

    /// Scrolls forward one page, stopping at the largest offset.
    pub fn page_down(&mut self, line_allowance: u32)
        ensures
            *final(self) == old(self).paged_down(line_allowance),
    {
        if self.mode.visible() {
            if self.viewport_height >= line_allowance {
                let step: u32 = self.viewport_height - line_allowance;
                self.scroll_offset = self.scroll_offset.saturating_add(step as u64);
            } else {
                let step: u32 = line_allowance - self.viewport_height;
                self.scroll_offset = self.scroll_offset.saturating_sub(step as u64);
            }
        }
    }

    /// Reacts to a mouse button going down on the window.
    pub fn press(&mut self)
        ensures
            *final(self) == old(self).pressed(),
    {
        match self.mode {
            Mode::VisiblePassThrough => {
                self.mode = Mode::VisibleInteractive;
            },
            _ => {},
        }
    }

    /// Reacts to the pointer leaving the window.
    pub fn leave(&mut self)
        ensures
            *final(self) == old(self).left(),
    {
        match self.mode {
            Mode::VisibleInteractive => {
                self.mode = Mode::VisiblePassThrough;
            },
            _ => {},
        }
    }
}

} // verus!
