//! The overlay window coordinator: the single consumer of events and the only
//! writer of the window state.
//!
//! Every input has a defined effect in every state. The effect is a pair: the
//! next state, and the commands that the window surface has to carry out.

use vstd::prelude::*;
use crate::channel::EventQueue;
use crate::config::Config;
use crate::event::{DomainEvent, Input, SurfaceEvent};
use crate::state::{Mode, WindowState};
use crate::surface::Command;

verus! {

/// The usual allowance of one page step: the height of one line of text.
pub const DEFAULT_LINE_ALLOWANCE: u32 = 25;

/// The coordinator's whole state.
#[derive(Clone, Copy, Debug, PartialEq, Eq, Hash, Structural)]
pub struct Coordinator {
    /// The window state.
    pub state: WindowState,
    /// What one page step keeps back from the viewport height.
    pub line_allowance: u32,
    /// Whether exit has been requested. Once set, no input has any effect.
    pub terminated: bool,
}

/// The number of leading events that a running coordinator takes from
/// `events`: everything up to and including the first `Quit`, or all of them
/// where there is none.
pub open spec fn quit_cut(events: Seq<DomainEvent>) -> nat
    decreases events.len(),
{
    if events.len() == 0 {
        0
    } else if events[0] == DomainEvent::Quit {
        1
    } else {
        1 + quit_cut(events.skip(1))
    }
}

impl Coordinator {
    /// A running coordinator.
    pub open spec fn spec_new(state: WindowState, line_allowance: u32) -> Coordinator {
        Coordinator { state, line_allowance, terminated: false }
    }

    #[verifier::when_used_as_spec(spec_new)]
    pub fn new(state: WindowState, line_allowance: u32) -> (coordinator: Coordinator)
        ensures
            coordinator == Coordinator::spec_new(state, line_allowance),
    {
        Coordinator { state, line_allowance, terminated: false }
    }

    /// The coordinator at startup for the given settings: the viewport is as
    /// high as the window, and a page step keeps one line of the usual
    /// height back.
    pub open spec fn spec_start(config: Config) -> Coordinator {
        Coordinator::spec_new(WindowState::spec_initial(config.height), DEFAULT_LINE_ALLOWANCE)
    }

    #[verifier::when_used_as_spec(spec_start)]
    pub fn start(config: Config) -> (coordinator: Coordinator)
        ensures
            coordinator == Coordinator::spec_start(config),
    {
        Coordinator::new(WindowState::initial(config.height), DEFAULT_LINE_ALLOWANCE)
    }

    /// Whether `input` asks for the process to end.
    pub open spec fn ends(input: Input) -> bool {
        input == Input::User(DomainEvent::Quit) || input == Input::Surface(
            SurfaceEvent::CloseRequested,
        )
    }

    /// The window state that a running coordinator moves to on `input`.
    pub open spec fn next_window(self, input: Input) -> WindowState {
        match input {
            Input::User(DomainEvent::ToggleVisibility) => self.state.toggled(),
            Input::User(DomainEvent::PageUp) => self.state.paged_up(self.line_allowance),
            Input::User(DomainEvent::PageDown) => self.state.paged_down(self.line_allowance),
            Input::User(DomainEvent::Quit) => self.state,
            Input::Surface(SurfaceEvent::MousePress) => self.state.pressed(),
            Input::Surface(SurfaceEvent::CursorLeft) => self.state.left(),
            Input::Surface(SurfaceEvent::CloseRequested) => self.state,
            Input::Surface(SurfaceEvent::Resized { .. }) => self.state,
            Input::Surface(SurfaceEvent::RedrawDue) => self.state,
        }
    }

    /// The coordinator after `input`.
    pub open spec fn next(self, input: Input) -> Coordinator {
        if self.terminated {
            self
        } else {
            Coordinator {
                state: self.next_window(input),
                line_allowance: self.line_allowance,
                terminated: Coordinator::ends(input),
            }
        }
    }

    /// The commands that `input` gives rise to, in the order in which the
    /// surface has to carry them out. A flip of the visibility sets both
    /// surface flags. A change of interactivity sets the click-through flag.
    /// A page step asks for a redraw only where the offset moved.
    pub open spec fn commands(self, input: Input) -> Seq<Command> {
        if self.terminated {
            seq![]
        } else {
            match input {
                Input::User(DomainEvent::ToggleVisibility) => {
                    let shown = self.state.mode == Mode::Hidden;
                    seq![Command::SetVisible(shown), Command::SetClickThrough(!shown)]
                },
                Input::User(DomainEvent::PageUp) | Input::User(DomainEvent::PageDown) => {
                    if self.next_window(input).scroll_offset != self.state.scroll_offset {
                        seq![Command::RequestRedraw]
                    } else {
                        seq![]
                    }
                },
                Input::User(DomainEvent::Quit) => seq![Command::Exit],
                Input::Surface(SurfaceEvent::CloseRequested) => seq![Command::Exit],
                Input::Surface(SurfaceEvent::Resized { width, height }) => seq![
                    Command::Resize { width, height },
                    Command::RequestRedraw,
                ],
                Input::Surface(SurfaceEvent::MousePress) => {
                    if self.state.mode == Mode::VisiblePassThrough {
                        seq![Command::SetClickThrough(false)]
                    } else {
                        seq![]
                    }
                },
                Input::Surface(SurfaceEvent::CursorLeft) => {
                    if self.state.mode == Mode::VisibleInteractive {
                        seq![Command::SetClickThrough(true)]
                    } else {
                        seq![]
                    }
                },
                Input::Surface(SurfaceEvent::RedrawDue) => seq![
                    Command::Paint { scroll_offset: self.state.scroll_offset },
                ],
            }
        }
    }

    /// The coordinator after a run of inputs, each applied in full before the
    /// next is looked at.
    pub open spec fn run(self, inputs: Seq<Input>) -> Coordinator
        decreases inputs.len(),
    {
        if inputs.len() == 0 {
            self
        } else {
            self.run(inputs.drop_last()).next(inputs.last())
        }
    }

    /// The commands of a run of inputs, in order.
    pub open spec fn run_commands(self, inputs: Seq<Input>) -> Seq<Command>
        decreases inputs.len(),
    {
        if inputs.len() == 0 {
            seq![]
        } else {
            self.run_commands(inputs.drop_last()) + self.run(inputs.drop_last()).commands(
                inputs.last(),
            )
        }
    }

    /// The number of events that a drain takes off a queue holding `events`.
    pub open spec fn taken(self, events: Seq<DomainEvent>) -> nat {
        if self.terminated {
            0
        } else {
            quit_cut(events)
        }
    }

    /// Applies one input and returns the commands for the window surface.
    pub fn handle(&mut self, input: Input) -> (commands: Vec<Command>)
        ensures
            *final(self) == old(self).next(input),
            commands@ == old(self).commands(input),
    {
        let mut commands: Vec<Command> = Vec::new();
        if self.terminated {
            return commands;
        }
        match input {
            Input::User(DomainEvent::ToggleVisibility) => {
                self.state.toggle();
                let shown = self.state.visible();
                commands.push(Command::SetVisible(shown));
                commands.push(Command::SetClickThrough(!shown));
            },
            Input::User(DomainEvent::PageUp) => {
                let before = self.state.scroll_offset;
                self.state.page_up(self.line_allowance);
                if self.state.scroll_offset != before {
                    commands.push(Command::RequestRedraw);
                }
            },
            Input::User(DomainEvent::PageDown) => {
                let before = self.state.scroll_offset;
                self.state.page_down(self.line_allowance);
                if self.state.scroll_offset != before {
                    commands.push(Command::RequestRedraw);
                }
            },
            Input::User(DomainEvent::Quit) => {
                self.terminated = true;
                commands.push(Command::Exit);
            },
            Input::Surface(SurfaceEvent::CloseRequested) => {
                self.terminated = true;
                commands.push(Command::Exit);
            },
            Input::Surface(SurfaceEvent::Resized { width, height }) => {
                commands.push(Command::Resize { width, height });
                commands.push(Command::RequestRedraw);
            },
            Input::Surface(SurfaceEvent::MousePress) => {
                let before = self.state.mode;
                self.state.press();
                if self.state.mode != before {
                    commands.push(Command::SetClickThrough(false));
                }
            },
            Input::Surface(SurfaceEvent::CursorLeft) => {
                let before = self.state.mode;
                self.state.leave();
                if self.state.mode != before {
                    commands.push(Command::SetClickThrough(true));
                }
            },
            Input::Surface(SurfaceEvent::RedrawDue) => {
                commands.push(Command::Paint { scroll_offset: self.state.scroll_offset });
            },
        }
        assert(commands@ =~= old(self).commands(input));
        commands
    }

    /// Applies a run of inputs in order and returns all their commands.
    pub fn handle_all(&mut self, inputs: &Vec<Input>) -> (commands: Vec<Command>)
        ensures
            *final(self) == old(self).run(inputs@),
            commands@ == old(self).run_commands(inputs@),
    {
        let mut commands: Vec<Command> = Vec::new();
        let mut i: usize = 0;
        while i < inputs.len()
            invariant
                i <= inputs.len(),
                *self == old(self).run(inputs@.take(i as int)),
                commands@ == old(self).run_commands(inputs@.take(i as int)),
            decreases inputs.len() - i,
        {
            proof {
                assert(inputs@.take(i + 1).drop_last() =~= inputs@.take(i as int));
            }
            let mut step = self.handle(inputs[i]);
            commands.append(&mut step);
            i += 1;
        }
        proof {
            assert(inputs@.take(i as int) =~= inputs@);
        }
        commands
    }

    /// Takes events off the queue, oldest first, and applies each until the
    /// queue is empty or exit is requested. Events behind a `Quit` stay on
    /// the queue, untouched.
    pub fn drain(&mut self, queue: &mut EventQueue) -> (commands: Vec<Command>)
        ensures
            final(queue)@ == old(queue)@.skip(old(self).taken(old(queue)@) as int),
            *final(self) == old(self).run(
                Input::lift(old(queue)@.take(old(self).taken(old(queue)@) as int)),
            ),
            commands@ == old(self).run_commands(
                Input::lift(old(queue)@.take(old(self).taken(old(queue)@) as int)),
            ),
    {
        let ghost events = queue@;
        let mut commands: Vec<Command> = Vec::new();
        let ghost mut taken: int = 0;
        proof {
            assert(events.skip(0) =~= events);
            assert(Input::lift(events.take(0)) =~= Seq::<Input>::empty());
        }
        while !self.terminated && !queue.is_empty()
            invariant
                events == old(queue)@,
                0 <= taken <= events.len(),
                queue@ == events.skip(taken),
                self.line_allowance == old(self).line_allowance,
                old(self).terminated ==> taken == 0 && self.terminated,
                !self.terminated ==> quit_cut(events) == taken + quit_cut(events.skip(taken)),
                !old(self).terminated && self.terminated ==> quit_cut(events) == taken,
                *self == old(self).run(Input::lift(events.take(taken))),
                commands@ == old(self).run_commands(Input::lift(events.take(taken))),
            decreases events.len() - taken,
        {
            let event = queue.pop().unwrap();
            proof {
                let rest = events.skip(taken);
                assert(rest[0] == events[taken]);
                assert(rest.skip(1) =~= events.skip(taken + 1));
                let grown = Input::lift(events.take(taken + 1));
                assert(grown.drop_last() =~= Input::lift(events.take(taken)));
                assert(grown.last() == Input::User(event));
                if event != DomainEvent::Quit {
                    assert(quit_cut(rest) == 1 + quit_cut(rest.skip(1)));
                }
            }
            let mut step = self.handle(Input::user(event));
            commands.append(&mut step);
            proof {
                taken = taken + 1;
            }
        }
        proof {
            if !self.terminated {
                assert(events.skip(taken).len() == 0);
                assert(quit_cut(events.skip(taken)) == 0);
            }
        }
        commands
    }
}

} // verus!
