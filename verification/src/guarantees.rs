//! What holds of the coordinator in every state and for every input.

use vstd::prelude::*;
use crate::coordinator::{quit_cut, Coordinator};
use crate::event::{DomainEvent, Input, SurfaceEvent};
use crate::state::{clamp_scroll, page_step, Mode, WindowState, MAX_SCROLL};
use crate::surface::{Command, Surface};

verus! {

/// `n` times the same input.
pub open spec fn repeated(input: Input, n: nat) -> Seq<Input> {
    Seq::new(n, |i: int| input)
}

/// The mode that follows `mode` on `input`, written out as a table with one
/// row for each pair of a mode and an input.
pub open spec fn mode_table(mode: Mode, input: Input) -> Mode {
    match (mode, input) {
        (Mode::Hidden, Input::User(DomainEvent::ToggleVisibility)) => Mode::VisibleInteractive,
        (Mode::Hidden, Input::User(DomainEvent::PageUp)) => Mode::Hidden,
        (Mode::Hidden, Input::User(DomainEvent::PageDown)) => Mode::Hidden,
        (Mode::Hidden, Input::User(DomainEvent::Quit)) => Mode::Hidden,
        (Mode::Hidden, Input::Surface(SurfaceEvent::CloseRequested)) => Mode::Hidden,
        (Mode::Hidden, Input::Surface(SurfaceEvent::Resized { .. })) => Mode::Hidden,
        (Mode::Hidden, Input::Surface(SurfaceEvent::MousePress)) => Mode::Hidden,
        (Mode::Hidden, Input::Surface(SurfaceEvent::CursorLeft)) => Mode::Hidden,
        (Mode::Hidden, Input::Surface(SurfaceEvent::RedrawDue)) => Mode::Hidden,
        (Mode::VisibleInteractive, Input::User(DomainEvent::ToggleVisibility)) => Mode::Hidden,
        (Mode::VisibleInteractive, Input::User(DomainEvent::PageUp)) => Mode::VisibleInteractive,
        (Mode::VisibleInteractive, Input::User(DomainEvent::PageDown)) => Mode::VisibleInteractive,
        (Mode::VisibleInteractive, Input::User(DomainEvent::Quit)) => Mode::VisibleInteractive,
        (Mode::VisibleInteractive, Input::Surface(SurfaceEvent::CloseRequested)) =>
            Mode::VisibleInteractive,
        (Mode::VisibleInteractive, Input::Surface(SurfaceEvent::Resized { .. })) =>
            Mode::VisibleInteractive,
        (Mode::VisibleInteractive, Input::Surface(SurfaceEvent::MousePress)) =>
            Mode::VisibleInteractive,
        (Mode::VisibleInteractive, Input::Surface(SurfaceEvent::CursorLeft)) =>
            Mode::VisiblePassThrough,
        (Mode::VisibleInteractive, Input::Surface(SurfaceEvent::RedrawDue)) =>
            Mode::VisibleInteractive,
        (Mode::VisiblePassThrough, Input::User(DomainEvent::ToggleVisibility)) => Mode::Hidden,
        (Mode::VisiblePassThrough, Input::User(DomainEvent::PageUp)) => Mode::VisiblePassThrough,
        (Mode::VisiblePassThrough, Input::User(DomainEvent::PageDown)) => Mode::VisiblePassThrough,
        (Mode::VisiblePassThrough, Input::User(DomainEvent::Quit)) => Mode::VisiblePassThrough,
        (Mode::VisiblePassThrough, Input::Surface(SurfaceEvent::CloseRequested)) =>
            Mode::VisiblePassThrough,
        (Mode::VisiblePassThrough, Input::Surface(SurfaceEvent::Resized { .. })) =>
            Mode::VisiblePassThrough,
        (Mode::VisiblePassThrough, Input::Surface(SurfaceEvent::MousePress)) =>
            Mode::VisibleInteractive,
        (Mode::VisiblePassThrough, Input::Surface(SurfaceEvent::CursorLeft)) =>
            Mode::VisiblePassThrough,
        (Mode::VisiblePassThrough, Input::Surface(SurfaceEvent::RedrawDue)) =>
            Mode::VisiblePassThrough,
    }
}

/// The scroll offset that follows on `input` in a window of the given mode.
/// Only a page step on a shown window moves it.
pub open spec fn scroll_table(state: WindowState, line_allowance: u32, input: Input) -> int {
    let step = page_step(state.viewport_height, line_allowance);
    if state.mode == Mode::Hidden {
        state.scroll_offset as int
    } else if input == Input::User(DomainEvent::PageUp) {
        clamp_scroll(state.scroll_offset - step)
    } else if input == Input::User(DomainEvent::PageDown) {
        clamp_scroll(state.scroll_offset + step)
    } else {
        state.scroll_offset as int
    }
}

/// Every pair of a state and an input has exactly one successor, and the two
/// tables give it: the mode by `mode_table`, the offset by `scroll_table`,
/// the viewport height and the allowance unchanged, and exit requested on
/// `Quit` and on a close request and on nothing else.
pub proof fn lemma_transition_table(c: Coordinator, input: Input)
    requires
        !c.terminated,
    ensures
        c.next(input).state.mode == mode_table(c.state.mode, input),
        c.next(input).state.scroll_offset == scroll_table(c.state, c.line_allowance, input),
        c.next(input).state.viewport_height == c.state.viewport_height,
        c.next(input).line_allowance == c.line_allowance,
        c.next(input).terminated <==> (input == Input::User(DomainEvent::Quit) || input
            == Input::Surface(SurfaceEvent::CloseRequested)),
{
}

/// Showing or hiding the window twice with the same value leaves the surface
/// as doing it once.
pub proof fn lemma_set_visible_idempotent(surface: Surface, visible: bool)
    ensures
        surface.after(Command::SetVisible(visible)).after(Command::SetVisible(visible))
            == surface.after(Command::SetVisible(visible)),
{
}

/// Switching click-through twice to the same value leaves the surface as
/// doing it once.
pub proof fn lemma_set_click_through_idempotent(surface: Surface, click_through: bool)
    ensures
        surface.after(Command::SetClickThrough(click_through)).after(
            Command::SetClickThrough(click_through),
        ) == surface.after(Command::SetClickThrough(click_through)),
{
}

/// Any command carried out twice leaves the surface as carrying it out once.
pub proof fn lemma_command_idempotent(surface: Surface, command: Command)
    ensures
        surface.after(command).after(command) == surface.after(command),
{
}

/// Two flips of the visibility in a row bring a hidden window and an
/// interactive window back to where they were. (A click-through window comes
/// back interactive, so it is left out, unless exit is already requested and
/// the flips do nothing.)
pub proof fn lemma_double_toggle_restores(c: Coordinator)
    requires
        c.terminated || c.state.mode != Mode::VisiblePassThrough,
    ensures
        c.next(Input::User(DomainEvent::ToggleVisibility)).next(
            Input::User(DomainEvent::ToggleVisibility),
        ) == c,
{
}

/// Two flips of the visibility in a row keep, in every state, whether the
/// window is shown, how far it is scrolled and how high its viewport is. A
/// click-through window comes back interactive.
pub proof fn lemma_double_toggle_keeps_visibility(c: Coordinator)
    ensures
        ({
            let twice = c.next(Input::User(DomainEvent::ToggleVisibility)).next(
                Input::User(DomainEvent::ToggleVisibility),
            );
            &&& twice.state.spec_visible() == c.state.spec_visible()
            &&& twice.state.scroll_offset == c.state.scroll_offset
            &&& twice.state.viewport_height == c.state.viewport_height
            &&& twice.line_allowance == c.line_allowance
            &&& twice.terminated == c.terminated
            &&& !c.terminated && c.state.mode == Mode::VisiblePassThrough ==> twice.state.mode
                == Mode::VisibleInteractive
        }),
{
}

/// One page back moves the offset by the page step and stops at zero: with a
/// step that is not negative, the new offset is the larger of zero and the old
/// offset less the step.
pub proof fn lemma_page_up_stops_at_zero(state: WindowState, line_allowance: u32)
    requires
        state.mode != Mode::Hidden,
        state.viewport_height >= line_allowance,
    ensures
        state.paged_up(line_allowance).scroll_offset == if state.scroll_offset >= page_step(
            state.viewport_height,
            line_allowance,
        ) {
            state.scroll_offset - page_step(state.viewport_height, line_allowance)
        } else {
            0
        },
{
}

/// One page forward adds the page step to the offset, as long as the sum can
/// be held.
pub proof fn lemma_page_down_adds_step(state: WindowState, line_allowance: u32)
    requires
        state.mode != Mode::Hidden,
        state.viewport_height >= line_allowance,
        state.scroll_offset + page_step(state.viewport_height, line_allowance) <= MAX_SCROLL,
    ensures
        state.paged_down(line_allowance).scroll_offset == state.scroll_offset + page_step(
            state.viewport_height,
            line_allowance,
        ),
{
}

/// One more step: `n` steps are `n - 1` steps and one, and where the step is
/// not negative neither is any number of them.
proof fn lemma_steps(n: nat, step: int)
    requires
        n > 0,
    ensures
        n * step == (n - 1) * step + step,
        step >= 0 ==> (n - 1) * step >= 0,
        step <= 0 ==> (n - 1) * step <= 0,
{
    assert(n * step == (n - 1) * step + step) by (nonlinear_arith);
    assert(step >= 0 ==> (n - 1) * step >= 0) by (nonlinear_arith)
        requires
            n > 0,
    ;
    assert(step <= 0 ==> (n - 1) * step <= 0) by (nonlinear_arith)
        requires
            n > 0,
    ;
}

/// The coordinator after `n` page steps in one direction, `direction` being
/// -1 for steps back and 1 for steps forward: a stopped coordinator and a
/// hidden window stay as they are, and a shown window is scrolled by that
/// many steps, brought into range.
pub open spec fn after_pages(c: Coordinator, direction: int, n: nat) -> Coordinator {
    if c.terminated || c.state.mode == Mode::Hidden {
        c
    } else {
        Coordinator {
            state: c.state.scrolled_to(
                c.state.scroll_offset + direction * (n * page_step(
                    c.state.viewport_height,
                    c.line_allowance,
                )),
            ),
            ..c
        }
    }
}

proof fn lemma_repeated_pages(c: Coordinator, input: Input, direction: int, n: nat)
    requires
        input == Input::User(DomainEvent::PageUp) && direction == -1 || input == Input::User(
            DomainEvent::PageDown,
        ) && direction == 1,
    ensures
        c.run(repeated(input, n)) == after_pages(c, direction, n),
    decreases n,
{
    let step = page_step(c.state.viewport_height, c.line_allowance);
    if n > 0 {
        let shorter = (n - 1) as nat;
        lemma_repeated_pages(c, input, direction, shorter);
        assert(repeated(input, n).drop_last() =~= repeated(input, shorter));
        assert(repeated(input, n).last() == input);
        lemma_steps(n, step);
    }
}

/// After any number of page steps back, in any state, the mode and
/// everything but the offset are as before, and the offset has not fallen
/// below zero: on a shown window it is the start less that many steps,
/// brought into range, and with a step that is not negative that is the
/// larger of zero and the start less the steps. A hidden window and a
/// stopped coordinator do not move at all.
pub proof fn lemma_repeated_page_up(c: Coordinator, n: nat)
    ensures
        c.run(repeated(Input::User(DomainEvent::PageUp), n)) == after_pages(c, -1, n),
        c.run(repeated(Input::User(DomainEvent::PageUp), n)).state.mode == c.state.mode,
        c.run(repeated(Input::User(DomainEvent::PageUp), n)).state.viewport_height
            == c.state.viewport_height,
        c.run(repeated(Input::User(DomainEvent::PageUp), n)).line_allowance == c.line_allowance,
        c.run(repeated(Input::User(DomainEvent::PageUp), n)).terminated == c.terminated,
        c.run(repeated(Input::User(DomainEvent::PageUp), n)).state.scroll_offset >= 0,
        !c.terminated && c.state.mode != Mode::Hidden && c.state.viewport_height
            >= c.line_allowance ==> c.run(
            repeated(Input::User(DomainEvent::PageUp), n),
        ).state.scroll_offset == if c.state.scroll_offset >= n * page_step(
            c.state.viewport_height,
            c.line_allowance,
        ) {
            c.state.scroll_offset - n * page_step(c.state.viewport_height, c.line_allowance)
        } else {
            0
        },
{
    lemma_repeated_pages(c, Input::User(DomainEvent::PageUp), -1, n);
    let step = page_step(c.state.viewport_height, c.line_allowance);
    if step >= 0 {
        assert(n * step >= 0) by (nonlinear_arith)
            requires
                step >= 0,
        ;
    }
}

/// After any number of page steps forward, in any state, the mode and
/// everything but the offset are as before: on a shown window the offset is
/// the start plus that many steps, brought into range, which is the plain sum
/// wherever the sum can be held. A hidden window and a stopped coordinator do
/// not move at all.
pub proof fn lemma_repeated_page_down(c: Coordinator, n: nat)
    ensures
        c.run(repeated(Input::User(DomainEvent::PageDown), n)) == after_pages(c, 1, n),
        c.run(repeated(Input::User(DomainEvent::PageDown), n)).state.mode == c.state.mode,
        c.run(repeated(Input::User(DomainEvent::PageDown), n)).terminated == c.terminated,
        !c.terminated && c.state.mode != Mode::Hidden && c.state.viewport_height
            >= c.line_allowance && c.state.scroll_offset + n * page_step(
            c.state.viewport_height,
            c.line_allowance,
        ) <= MAX_SCROLL ==> c.run(repeated(Input::User(DomainEvent::PageDown), n)).state.scroll_offset
            == c.state.scroll_offset + n * page_step(c.state.viewport_height, c.line_allowance),
{
    lemma_repeated_pages(c, Input::User(DomainEvent::PageDown), 1, n);
    let step = page_step(c.state.viewport_height, c.line_allowance);
    if step >= 0 {
        assert(n * step >= 0) by (nonlinear_arith)
            requires
                step >= 0,
        ;
    }
}

/// Every single page step back on a shown window, wherever it stands in a
/// run of them, leaves the larger of zero and the offset less one step,
/// given a step that is not negative.
pub proof fn lemma_each_page_up(c: Coordinator, n: nat)
    requires
        !c.terminated,
        c.state.mode != Mode::Hidden,
        c.state.viewport_height >= c.line_allowance,
    ensures
        ({
            let before = c.run(repeated(Input::User(DomainEvent::PageUp), n));
            let after = c.run(repeated(Input::User(DomainEvent::PageUp), n + 1));
            let step = page_step(c.state.viewport_height, c.line_allowance);
            &&& after == before.next(Input::User(DomainEvent::PageUp))
            &&& after.state.scroll_offset == if before.state.scroll_offset >= step {
                before.state.scroll_offset - step
            } else {
                0
            }
            &&& after.state.scroll_offset <= before.state.scroll_offset
        }),
{
    let input = Input::User(DomainEvent::PageUp);
    lemma_repeated_page_up(c, n);
    assert(repeated(input, n + 1).drop_last() =~= repeated(input, n));
    assert(repeated(input, n + 1).last() == input);
}

/// Any run of page steps back, whatever the state it starts in, keeps the
/// mode after each of its events and never takes the offset below zero: after
/// the first `k` events the coordinator is what `k` steps back make of it.
pub proof fn lemma_page_up_run(c: Coordinator, inputs: Seq<Input>)
    requires
        forall|i: int| 0 <= i < inputs.len() ==> inputs[i] == Input::User(DomainEvent::PageUp),
    ensures
        forall|k: int|
            0 <= k <= inputs.len() ==> {
                let reached = #[trigger] c.run(inputs.take(k));
                &&& reached == after_pages(c, -1, k as nat)
                &&& reached.state.mode == c.state.mode
                &&& reached.terminated == c.terminated
                &&& reached.state.scroll_offset >= 0
            },
{
    assert forall|k: int| 0 <= k <= inputs.len() implies {
        let reached = #[trigger] c.run(inputs.take(k));
        &&& reached == after_pages(c, -1, k as nat)
        &&& reached.state.mode == c.state.mode
        &&& reached.terminated == c.terminated
        &&& reached.state.scroll_offset >= 0
    } by {
        assert(inputs.take(k) =~= repeated(Input::User(DomainEvent::PageUp), k as nat));
        lemma_repeated_page_up(c, k as nat);
    }
}

/// A page step on a hidden window changes nothing and asks nothing of the
/// surface.
pub proof fn lemma_paging_hidden_is_noop(c: Coordinator, input: Input)
    requires
        c.state.mode == Mode::Hidden,
        input == Input::User(DomainEvent::PageUp) || input == Input::User(DomainEvent::PageDown),
    ensures
        c.next(input) == c,
        c.commands(input) == Seq::<Command>::empty(),
{
    assert(c.commands(input) =~= Seq::<Command>::empty());
}

/// A page step asks for a redraw exactly where it moved the offset, and for
/// nothing else.
pub proof fn lemma_redraw_only_on_scroll(c: Coordinator, input: Input)
    requires
        input == Input::User(DomainEvent::PageUp) || input == Input::User(DomainEvent::PageDown),
    ensures
        c.next(input).state.scroll_offset != c.state.scroll_offset ==> c.commands(input)
            == seq![Command::RequestRedraw],
        c.next(input).state.scroll_offset == c.state.scroll_offset ==> c.commands(input)
            == Seq::<Command>::empty(),
{
    if c.next(input).state.scroll_offset != c.state.scroll_offset {
        assert(c.commands(input) =~= seq![Command::RequestRedraw]);
    } else {
        assert(c.commands(input) =~= Seq::<Command>::empty());
    }
}

/// A domain event that leaves the coordinator as it was asks nothing of the
/// surface.
pub proof fn lemma_no_change_no_command(c: Coordinator, event: DomainEvent)
    requires
        c.next(Input::User(event)) == c,
    ensures
        c.commands(Input::User(event)) == Seq::<Command>::empty(),
{
    assert(c.commands(Input::User(event)) =~= Seq::<Command>::empty());
}

/// A run of two parts is the run of the first part followed by the run of the
/// second.
pub proof fn lemma_run_concat(c: Coordinator, first: Seq<Input>, second: Seq<Input>)
    ensures
        c.run(first + second) == c.run(first).run(second),
        c.run_commands(first + second) == c.run_commands(first) + c.run(first).run_commands(
            second,
        ),
    decreases second.len(),
{
    if second.len() == 0 {
        assert(first + second =~= first);
        assert(c.run_commands(first) + Seq::<Command>::empty() =~= c.run_commands(first));
    } else {
        lemma_run_concat(c, first, second.drop_last());
        assert((first + second).drop_last() =~= first + second.drop_last());
        assert((first + second).last() == second.last());
        let head = c.run_commands(first);
        let middle = c.run(first).run_commands(second.drop_last());
        let tail = c.run(first).run(second.drop_last()).commands(second.last());
        assert((head + middle) + tail =~= head + (middle + tail));
    }
}

/// Once exit is requested nothing is applied: whatever follows leaves the
/// coordinator as it is and asks nothing of the surface.
pub proof fn lemma_terminated_absorbs(c: Coordinator, inputs: Seq<Input>)
    requires
        c.terminated,
    ensures
        c.run(inputs) == c,
        c.run_commands(inputs) == Seq::<Command>::empty(),
    decreases inputs.len(),
{
    if inputs.len() > 0 {
        lemma_terminated_absorbs(c, inputs.drop_last());
        assert(c.run_commands(inputs) =~= Seq::<Command>::empty());
    }
}

/// `Quit` is terminal: inputs that arrive behind it change neither the state
/// nor the commands of the run.
pub proof fn lemma_nothing_after_quit(c: Coordinator, before: Seq<Input>, after: Seq<Input>)
    ensures
        c.run(before.push(Input::User(DomainEvent::Quit)) + after) == c.run(
            before.push(Input::User(DomainEvent::Quit)),
        ),
        c.run_commands(before.push(Input::User(DomainEvent::Quit)) + after) == c.run_commands(
            before.push(Input::User(DomainEvent::Quit)),
        ),
        c.run(before.push(Input::User(DomainEvent::Quit))).terminated,
{
    let upto = before.push(Input::User(DomainEvent::Quit));
    assert(upto.drop_last() =~= before);
    assert(upto.last() == Input::User(DomainEvent::Quit));
    lemma_run_concat(c, upto, after);
    lemma_terminated_absorbs(c.run(upto), after);
    assert(c.run_commands(upto) + Seq::<Command>::empty() =~= c.run_commands(upto));
}

/// Two producers that each queue one event: whichever of the two comes
/// first, the queue holds both, once each and in that order, and a running
/// coordinator takes both off and applies the first in full before the
/// second. (A `Quit` that comes first is left out: it is terminal, so what
/// comes behind it stays on the queue.)
pub proof fn lemma_two_producers(c: Coordinator, first: DomainEvent, second: DomainEvent)
    requires
        !c.terminated,
        first != DomainEvent::Quit,
    ensures
        Seq::<DomainEvent>::empty().push(first).push(second) == seq![first, second],
        c.taken(seq![first, second]) == 2,
        seq![first, second].skip(2) == Seq::<DomainEvent>::empty(),
        c.run(Input::lift(seq![first, second].take(2))) == c.next(Input::User(first)).next(
            Input::User(second),
        ),
        c.run_commands(Input::lift(seq![first, second].take(2))) == c.commands(
            Input::User(first),
        ) + c.next(Input::User(first)).commands(Input::User(second)),
{
    let events = seq![first, second];
    let inputs = Input::lift(events.take(2));
    assert(Seq::<DomainEvent>::empty().push(first).push(second) =~= events);
    assert(events.skip(2) =~= Seq::<DomainEvent>::empty());
    assert(quit_cut(events) == 2) by {
        reveal_with_fuel(quit_cut, 3);
        assert(events.skip(1) =~= seq![second]);
        assert(events.skip(1).skip(1) =~= Seq::<DomainEvent>::empty());
    }
    assert(inputs =~= seq![Input::User(first), Input::User(second)]);
    assert(inputs.drop_last() =~= seq![Input::User(first)]);
    assert(inputs.drop_last().drop_last() =~= Seq::<Input>::empty());
    reveal_with_fuel(Coordinator::run, 3);
    reveal_with_fuel(Coordinator::run_commands, 3);
    assert(c.run_commands(inputs) =~= c.commands(Input::User(first)) + c.next(
        Input::User(first),
    ).commands(Input::User(second)));
}

/// What `quit_cut` counts: nothing before the last event it takes is a
/// `Quit`, it stops short of the end only behind a `Quit`, and it takes
/// everything where no `Quit` is queued.
pub proof fn lemma_quit_cut(events: Seq<DomainEvent>)
    ensures
        quit_cut(events) <= events.len(),
        forall|i: int| 0 <= i < quit_cut(events) - 1 ==> events[i] != DomainEvent::Quit,
        quit_cut(events) < events.len() ==> quit_cut(events) >= 1 && events[quit_cut(events) - 1]
            == DomainEvent::Quit,
        (forall|i: int| 0 <= i < events.len() ==> events[i] != DomainEvent::Quit) ==> quit_cut(
            events,
        ) == events.len(),
    decreases events.len(),
{
    if events.len() > 0 && events[0] != DomainEvent::Quit {
        let rest = events.skip(1);
        lemma_quit_cut(rest);
        assert forall|i: int| 0 <= i < quit_cut(events) - 1 implies events[i]
            != DomainEvent::Quit by {
            if i > 0 {
                assert(events[i] == rest[i - 1]);
            }
        }
        if forall|i: int| 0 <= i < events.len() ==> events[i] != DomainEvent::Quit {
            assert forall|i: int| 0 <= i < rest.len() implies rest[i] != DomainEvent::Quit by {
                assert(rest[i] == events[i + 1]);
            }
        }
        if quit_cut(events) < events.len() {
            assert(events[quit_cut(events) - 1] == rest[quit_cut(rest) - 1]);
        }
    }
}

/// The commands of one input are enough to drive the window: a surface that
/// shows the state before the input shows the state after it once the
/// commands are carried out.
pub proof fn lemma_commands_drive_surface(c: Coordinator, surface: Surface, input: Input)
    requires
        surface.agrees_with(c.state),
    ensures
        surface.after_all(c.commands(input)).agrees_with(c.next(input).state),
{
    let commands = c.commands(input);
    lemma_after_all_short(surface, commands);
}

/// A surface that carries out the commands of a whole run, starting in step
/// with the state, ends in step with it.
pub proof fn lemma_run_drives_surface(c: Coordinator, surface: Surface, inputs: Seq<Input>)
    requires
        surface.agrees_with(c.state),
    ensures
        surface.after_all(c.run_commands(inputs)).agrees_with(c.run(inputs).state),
    decreases inputs.len(),
{
    if inputs.len() == 0 {
    } else {
        let before = inputs.drop_last();
        lemma_run_drives_surface(c, surface, before);
        lemma_after_all_concat(surface, c.run_commands(before), c.run(before).commands(inputs.last()));
        lemma_commands_drive_surface(
            c.run(before),
            surface.after_all(c.run_commands(before)),
            inputs.last(),
        );
    }
}

/// Carrying out two runs of commands one after the other is carrying out
/// their concatenation.
pub proof fn lemma_after_all_concat(surface: Surface, first: Seq<Command>, second: Seq<Command>)
    ensures
        surface.after_all(first + second) == surface.after_all(first).after_all(second),
    decreases second.len(),
{
    if second.len() == 0 {
        assert(first + second =~= first);
    } else {
        lemma_after_all_concat(surface, first, second.drop_last());
        assert((first + second).drop_last() =~= first + second.drop_last());
    }
}

proof fn lemma_after_all_short(surface: Surface, commands: Seq<Command>)
    requires
        commands.len() <= 2,
    ensures
        commands.len() == 0 ==> surface.after_all(commands) == surface,
        commands.len() == 1 ==> surface.after_all(commands) == surface.after(commands[0]),
        commands.len() == 2 ==> surface.after_all(commands) == surface.after(commands[0]).after(
            commands[1],
        ),
{
    reveal_with_fuel(Surface::after_all, 3);
    if commands.len() == 2 {
        assert(commands.drop_last().drop_last().len() == 0);
        assert(commands.drop_last().last() == commands[0]);
    } else if commands.len() == 1 {
        assert(commands.drop_last().len() == 0);
    }
}

} // verus!
