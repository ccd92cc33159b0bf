use camo_reader::channel::EventQueue;
use camo_reader::config::Config;
use camo_reader::coordinator::{Coordinator, DEFAULT_LINE_ALLOWANCE};
use camo_reader::event::{DomainEvent, Input, SurfaceEvent};
use camo_reader::state::{Mode, WindowState, MAX_SCROLL};
use camo_reader::surface::{Command, Surface};

fn window(mode: Mode, scroll_offset: u64, viewport_height: u32) -> WindowState {
    WindowState { mode, scroll_offset, viewport_height }
}

fn running(mode: Mode, scroll_offset: u64, viewport_height: u32, line_allowance: u32) -> Coordinator {
    Coordinator::new(window(mode, scroll_offset, viewport_height), line_allowance)
}

fn all_modes() -> Vec<Mode> {
    vec![Mode::Hidden, Mode::VisibleInteractive, Mode::VisiblePassThrough]
}

fn all_inputs() -> Vec<Input> {
    vec![
        Input::User(DomainEvent::ToggleVisibility),
        Input::User(DomainEvent::PageUp),
        Input::User(DomainEvent::PageDown),
        Input::User(DomainEvent::Quit),
        Input::Surface(SurfaceEvent::CloseRequested),
        Input::Surface(SurfaceEvent::Resized { width: 640, height: 480 }),
        Input::Surface(SurfaceEvent::MousePress),
        Input::Surface(SurfaceEvent::CursorLeft),
        Input::Surface(SurfaceEvent::RedrawDue),
    ]
}

fn expected_mode(mode: Mode, input: Input) -> Mode {
    match (mode, input) {
        (Mode::Hidden, Input::User(DomainEvent::ToggleVisibility)) => Mode::VisibleInteractive,
        (_, Input::User(DomainEvent::ToggleVisibility)) => Mode::Hidden,
        (Mode::VisiblePassThrough, Input::Surface(SurfaceEvent::MousePress)) => {
            Mode::VisibleInteractive
        }
        (Mode::VisibleInteractive, Input::Surface(SurfaceEvent::CursorLeft)) => {
            Mode::VisiblePassThrough
        }
        (same, _) => same,
    }
}

#[test]
fn every_pair_of_mode_and_input_has_its_successor() {
    for mode in all_modes() {
        for input in all_inputs() {
            let mut c = running(mode, 300, 100, 25);
            c.handle(input);
            assert_eq!(c.state.mode, expected_mode(mode, input), "{:?} on {:?}", mode, input);
            assert_eq!(c.state.viewport_height, 100);
            assert_eq!(c.line_allowance, 25);
            let ends = input == Input::User(DomainEvent::Quit)
                || input == Input::Surface(SurfaceEvent::CloseRequested);
            assert_eq!(c.terminated, ends);
            let expected_scroll = match (mode, input) {
                (Mode::Hidden, _) => 300,
                (_, Input::User(DomainEvent::PageUp)) => 225,
                (_, Input::User(DomainEvent::PageDown)) => 375,
                _ => 300,
            };
            assert_eq!(c.state.scroll_offset, expected_scroll);
        }
    }
}

#[test]
fn initial_state_is_shown_click_through_at_the_top() {
    let s = WindowState::initial(600);
    assert_eq!(s, window(Mode::VisiblePassThrough, 0, 600));
    assert!(s.visible());
    assert!(!s.interactive());
}

#[test]
fn start_takes_the_viewport_from_the_settings() {
    let c = Coordinator::start(Config { width: 320, height: 240, text_alpha: 7 });
    assert_eq!(c.state, window(Mode::VisiblePassThrough, 0, 240));
    assert_eq!(c.line_allowance, DEFAULT_LINE_ALLOWANCE);
    assert_eq!(DEFAULT_LINE_ALLOWANCE, 25);
    assert!(!c.terminated);
}

#[test]
fn mode_flags() {
    assert!(!Mode::Hidden.visible());
    assert!(!Mode::Hidden.interactive());
    assert!(Mode::VisibleInteractive.visible());
    assert!(Mode::VisibleInteractive.interactive());
    assert!(Mode::VisiblePassThrough.visible());
    assert!(!Mode::VisiblePassThrough.interactive());
    assert_eq!(Mode::from_flags(false, false), Mode::Hidden);
    assert_eq!(Mode::from_flags(false, true), Mode::Hidden);
    assert_eq!(Mode::from_flags(true, true), Mode::VisibleInteractive);
    assert_eq!(Mode::from_flags(true, false), Mode::VisiblePassThrough);
}

#[test]
fn toggle_from_hidden_shows_interactive() {
    let mut c = running(Mode::Hidden, 40, 100, 25);
    let commands = c.handle(Input::User(DomainEvent::ToggleVisibility));
    assert_eq!(c.state, window(Mode::VisibleInteractive, 40, 100));
    assert_eq!(commands, vec![Command::SetVisible(true), Command::SetClickThrough(false)]);
}

#[test]
fn toggle_from_either_visible_mode_hides() {
    for mode in [Mode::VisibleInteractive, Mode::VisiblePassThrough] {
        let mut c = running(mode, 40, 100, 25);
        let commands = c.handle(Input::User(DomainEvent::ToggleVisibility));
        assert_eq!(c.state, window(Mode::Hidden, 40, 100));
        assert_eq!(commands, vec![Command::SetVisible(false), Command::SetClickThrough(true)]);
    }
}

#[test]
fn two_toggles_restore_hidden_and_interactive() {
    for mode in [Mode::Hidden, Mode::VisibleInteractive] {
        let start = running(mode, 12, 100, 25);
        let mut c = start;
        c.handle(Input::User(DomainEvent::ToggleVisibility));
        assert_ne!(c, start);
        c.handle(Input::User(DomainEvent::ToggleVisibility));
        assert_eq!(c, start);
    }
}

#[test]
fn two_toggles_bring_a_click_through_window_back_interactive() {
    let start = running(Mode::VisiblePassThrough, 12, 100, 25);
    let mut c = start;
    c.handle(Input::User(DomainEvent::ToggleVisibility));
    c.handle(Input::User(DomainEvent::ToggleVisibility));
    assert_eq!(c.state, window(Mode::VisibleInteractive, 12, 100));
    assert_eq!(c.state.visible(), start.state.visible());
    assert_eq!(c.state.scroll_offset, start.state.scroll_offset);
}

#[test]
fn page_up_stops_at_zero() {
    let mut c = running(Mode::VisibleInteractive, 10, 100, 25);
    let commands = c.handle(Input::User(DomainEvent::PageUp));
    assert_eq!(c.state.scroll_offset, 0);
    assert_eq!(commands, vec![Command::RequestRedraw]);
}

#[test]
fn page_up_takes_one_step_off() {
    let mut c = running(Mode::VisiblePassThrough, 200, 100, 25);
    c.handle(Input::User(DomainEvent::PageUp));
    assert_eq!(c.state.scroll_offset, 125);
    assert_eq!(c.state.mode, Mode::VisiblePassThrough);
}

#[test]
fn many_page_ups_never_go_below_zero() {
    let mut c = running(Mode::VisibleInteractive, 400, 100, 25);
    let expected: [u64; 8] = [325, 250, 175, 100, 25, 0, 0, 0];
    for want in expected {
        c.handle(Input::User(DomainEvent::PageUp));
        assert_eq!(c.state.scroll_offset, want);
    }
}

#[test]
fn page_up_at_the_top_asks_for_no_redraw() {
    let mut c = running(Mode::VisibleInteractive, 0, 100, 25);
    let commands = c.handle(Input::User(DomainEvent::PageUp));
    assert_eq!(c.state.scroll_offset, 0);
    assert_eq!(commands, Vec::<Command>::new());
}

#[test]
fn page_down_adds_one_step() {
    let mut c = running(Mode::VisibleInteractive, 0, 600, 25);
    let commands = c.handle(Input::User(DomainEvent::PageDown));
    assert_eq!(c.state.scroll_offset, 575);
    assert_eq!(commands, vec![Command::RequestRedraw]);
    c.handle(Input::User(DomainEvent::PageDown));
    assert_eq!(c.state.scroll_offset, 1150);
}

#[test]
fn page_down_stops_at_the_largest_offset() {
    let mut c = running(Mode::VisibleInteractive, MAX_SCROLL - 10, 100, 25);
    let commands = c.handle(Input::User(DomainEvent::PageDown));
    assert_eq!(c.state.scroll_offset, MAX_SCROLL);
    assert_eq!(commands, vec![Command::RequestRedraw]);
    let commands = c.handle(Input::User(DomainEvent::PageDown));
    assert_eq!(c.state.scroll_offset, u64::MAX);
    assert_eq!(commands, Vec::<Command>::new());
}

#[test]
fn a_step_of_zero_moves_nothing() {
    let mut c = running(Mode::VisibleInteractive, 50, 25, 25);
    assert_eq!(c.handle(Input::User(DomainEvent::PageDown)), Vec::<Command>::new());
    assert_eq!(c.handle(Input::User(DomainEvent::PageUp)), Vec::<Command>::new());
    assert_eq!(c.state.scroll_offset, 50);
}

#[test]
fn a_viewport_lower_than_the_allowance_steps_the_other_way() {
    let mut c = running(Mode::VisibleInteractive, 10, 20, 25);
    c.handle(Input::User(DomainEvent::PageDown));
    assert_eq!(c.state.scroll_offset, 5);
    c.handle(Input::User(DomainEvent::PageDown));
    assert_eq!(c.state.scroll_offset, 0);
    c.handle(Input::User(DomainEvent::PageDown));
    assert_eq!(c.state.scroll_offset, 0);
    c.handle(Input::User(DomainEvent::PageUp));
    assert_eq!(c.state.scroll_offset, 5);
    let mut high = running(Mode::VisibleInteractive, u64::MAX - 2, 20, 25);
    high.handle(Input::User(DomainEvent::PageUp));
    assert_eq!(high.state.scroll_offset, u64::MAX);
}

#[test]
fn paging_a_hidden_window_changes_nothing() {
    for event in [DomainEvent::PageUp, DomainEvent::PageDown] {
        let start = running(Mode::Hidden, 300, 100, 25);
        let mut c = start;
        let commands = c.handle(Input::User(event));
        assert_eq!(c, start);
        assert_eq!(commands, Vec::<Command>::new());
    }
}

#[test]
fn a_press_wakes_a_click_through_window() {
    let mut c = running(Mode::VisiblePassThrough, 5, 100, 25);
    let commands = c.handle(Input::Surface(SurfaceEvent::MousePress));
    assert_eq!(c.state, window(Mode::VisibleInteractive, 5, 100));
    assert_eq!(commands, vec![Command::SetClickThrough(false)]);
}

#[test]
fn a_press_elsewhere_changes_nothing() {
    for mode in [Mode::Hidden, Mode::VisibleInteractive] {
        let start = running(mode, 5, 100, 25);
        let mut c = start;
        let commands = c.handle(Input::Surface(SurfaceEvent::MousePress));
        assert_eq!(c, start);
        assert_eq!(commands, Vec::<Command>::new());
    }
}

#[test]
fn a_leaving_pointer_returns_to_click_through() {
    let mut c = running(Mode::VisibleInteractive, 5, 100, 25);
    let commands = c.handle(Input::Surface(SurfaceEvent::CursorLeft));
    assert_eq!(c.state, window(Mode::VisiblePassThrough, 5, 100));
    assert_eq!(commands, vec![Command::SetClickThrough(true)]);
}

#[test]
fn a_leaving_pointer_elsewhere_changes_nothing() {
    for mode in [Mode::Hidden, Mode::VisiblePassThrough] {
        let start = running(mode, 5, 100, 25);
        let mut c = start;
        let commands = c.handle(Input::Surface(SurfaceEvent::CursorLeft));
        assert_eq!(c, start);
        assert_eq!(commands, Vec::<Command>::new());
    }
}

#[test]
fn quit_and_close_request_exit() {
    for input in [Input::User(DomainEvent::Quit), Input::Surface(SurfaceEvent::CloseRequested)] {
        for mode in all_modes() {
            let mut c = running(mode, 9, 100, 25);
            let commands = c.handle(input);
            assert!(c.terminated);
            assert_eq!(c.state, window(mode, 9, 100));
            assert_eq!(commands, vec![Command::Exit]);
        }
    }
}

#[test]
fn nothing_is_applied_after_exit() {
    let mut c = running(Mode::VisibleInteractive, 9, 100, 25);
    c.handle(Input::User(DomainEvent::Quit));
    let stopped = c;
    for input in all_inputs() {
        let commands = c.handle(input);
        assert_eq!(c, stopped);
        assert_eq!(commands, Vec::<Command>::new());
    }
}

#[test]
fn resize_fits_the_surface_and_redraws() {
    let start = running(Mode::VisiblePassThrough, 9, 100, 25);
    let mut c = start;
    let commands = c.handle(Input::Surface(SurfaceEvent::Resized { width: 1024, height: 768 }));
    assert_eq!(c, start);
    assert_eq!(commands, vec![Command::Resize { width: 1024, height: 768 }, Command::RequestRedraw]);
}

#[test]
fn a_due_redraw_paints_at_the_current_offset() {
    let mut c = running(Mode::VisibleInteractive, 0, 100, 25);
    c.handle(Input::User(DomainEvent::PageDown));
    c.handle(Input::User(DomainEvent::PageDown));
    let commands = c.handle(Input::Surface(SurfaceEvent::RedrawDue));
    assert_eq!(commands, vec![Command::Paint { scroll_offset: 150 }]);
}

#[test]
fn show_page_twice_and_leave() {
    for (viewport_height, line_allowance) in [(100u32, 25u32), (600, 25), (25, 25), (4000, 0)] {
        let mut c = running(Mode::Hidden, 0, viewport_height, line_allowance);
        let inputs = vec![
            Input::User(DomainEvent::ToggleVisibility),
            Input::User(DomainEvent::PageDown),
            Input::User(DomainEvent::PageDown),
            Input::Surface(SurfaceEvent::CursorLeft),
        ];
        c.handle_all(&inputs);
        assert_eq!(c.state.mode, Mode::VisiblePassThrough);
        assert_eq!(c.state.scroll_offset, 2 * (viewport_height as u64 - line_allowance as u64));
        assert!(!c.terminated);
    }
}

#[test]
fn show_page_twice_and_leave_commands() {
    let mut c = running(Mode::Hidden, 0, 100, 25);
    let inputs = vec![
        Input::User(DomainEvent::ToggleVisibility),
        Input::User(DomainEvent::PageDown),
        Input::User(DomainEvent::PageDown),
        Input::Surface(SurfaceEvent::CursorLeft),
    ];
    let commands = c.handle_all(&inputs);
    assert_eq!(c.state, window(Mode::VisiblePassThrough, 150, 100));
    assert_eq!(
        commands,
        vec![
            Command::SetVisible(true),
            Command::SetClickThrough(false),
            Command::RequestRedraw,
            Command::RequestRedraw,
            Command::SetClickThrough(true),
        ]
    );
}

#[test]
fn quit_then_page_down_applies_only_the_quit() {
    let mut c = running(Mode::VisibleInteractive, 30, 100, 25);
    let commands =
        c.handle_all(&vec![Input::User(DomainEvent::Quit), Input::User(DomainEvent::PageDown)]);
    assert!(c.terminated);
    assert_eq!(c.state, window(Mode::VisibleInteractive, 30, 100));
    assert_eq!(commands, vec![Command::Exit]);
}

#[test]
fn drain_stops_behind_quit_and_leaves_the_rest_queued() {
    let mut queue = EventQueue::new();
    queue.push(DomainEvent::Quit);
    queue.push(DomainEvent::PageDown);
    let mut c = running(Mode::VisibleInteractive, 30, 100, 25);
    let commands = c.drain(&mut queue);
    assert!(c.terminated);
    assert_eq!(c.state.scroll_offset, 30);
    assert_eq!(commands, vec![Command::Exit]);
    assert_eq!(queue.len(), 1);
    assert_eq!(queue.pop(), Some(DomainEvent::PageDown));
}

#[test]
fn drain_applies_everything_in_arrival_order() {
    let mut queue = EventQueue::new();
    for event in [
        DomainEvent::ToggleVisibility,
        DomainEvent::PageDown,
        DomainEvent::ToggleVisibility,
        DomainEvent::PageDown,
        DomainEvent::ToggleVisibility,
        DomainEvent::PageUp,
    ] {
        queue.push(event);
    }
    let mut c = running(Mode::Hidden, 100, 100, 25);
    let commands = c.drain(&mut queue);
    assert!(queue.is_empty());
    assert_eq!(c.state, window(Mode::VisibleInteractive, 100, 100));
    assert_eq!(
        commands,
        vec![
            Command::SetVisible(true),
            Command::SetClickThrough(false),
            Command::RequestRedraw,
            Command::SetVisible(false),
            Command::SetClickThrough(true),
            Command::SetVisible(true),
            Command::SetClickThrough(false),
            Command::RequestRedraw,
        ]
    );
}

#[test]
fn queued_toggles_flip_once_per_toggle() {
    for n in 0..7usize {
        let mut queue = EventQueue::new();
        for _ in 0..n {
            queue.push(DomainEvent::ToggleVisibility);
        }
        let mut c = running(Mode::Hidden, 0, 100, 25);
        c.drain(&mut queue);
        assert_eq!(c.state.visible(), n % 2 == 1);
        assert!(queue.is_empty());
    }
}

#[test]
fn drain_of_an_empty_queue_does_nothing() {
    let mut queue = EventQueue::new();
    let start = running(Mode::VisiblePassThrough, 1, 100, 25);
    let mut c = start;
    assert_eq!(c.drain(&mut queue), Vec::<Command>::new());
    assert_eq!(c, start);
}

#[test]
fn a_stopped_coordinator_takes_nothing_off_the_queue() {
    let mut queue = EventQueue::new();
    queue.push(DomainEvent::PageDown);
    queue.push(DomainEvent::Quit);
    let mut c = running(Mode::VisibleInteractive, 1, 100, 25);
    c.handle(Input::Surface(SurfaceEvent::CloseRequested));
    let stopped = c;
    assert_eq!(c.drain(&mut queue), Vec::<Command>::new());
    assert_eq!(c, stopped);
    assert_eq!(queue.len(), 2);
}

#[test]
fn two_producers_in_either_order_lose_and_double_nothing() {
    let hotkey_event = DomainEvent::PageDown;
    let tray_event = DomainEvent::ToggleVisibility;
    for order in [[hotkey_event, tray_event], [tray_event, hotkey_event]] {
        let mut queue = EventQueue::new();
        queue.push(order[0]);
        queue.push(order[1]);
        assert_eq!(queue.len(), 2);
        let mut c = running(Mode::VisibleInteractive, 0, 100, 25);
        let mut twin = c;
        let commands = c.drain(&mut queue);
        assert!(queue.is_empty());
        let mut expected = twin.handle(Input::User(order[0]));
        expected.extend(twin.handle(Input::User(order[1])));
        assert_eq!(c, twin);
        assert_eq!(commands, expected);
        assert_eq!(c.state.mode, Mode::Hidden);
    }
}

#[test]
fn a_quit_from_the_tray_beside_a_hotkey_event() {
    let mut first = EventQueue::new();
    first.push(DomainEvent::PageDown);
    first.push(DomainEvent::Quit);
    let mut c = running(Mode::VisibleInteractive, 0, 100, 25);
    let commands = c.drain(&mut first);
    assert_eq!(commands, vec![Command::RequestRedraw, Command::Exit]);
    assert_eq!(c.state.scroll_offset, 75);
    assert!(c.terminated);
    assert!(first.is_empty());

    let mut second = EventQueue::new();
    second.push(DomainEvent::Quit);
    second.push(DomainEvent::PageDown);
    let mut c = running(Mode::VisibleInteractive, 0, 100, 25);
    let commands = c.drain(&mut second);
    assert_eq!(commands, vec![Command::Exit]);
    assert_eq!(c.state.scroll_offset, 0);
    assert!(c.terminated);
    assert_eq!(second.len(), 1);
    assert_eq!(second.pop(), Some(DomainEvent::PageDown));
    assert_eq!(second.pop(), None);
}

#[test]
fn commands_keep_a_surface_in_step_with_the_state() {
    for mode in all_modes() {
        for first in all_inputs() {
            for second in all_inputs() {
                let mut c = running(mode, 80, 100, 25);
                let mut surface = Surface::showing(c.state);
                let commands = c.handle_all(&vec![first, second]);
                surface.apply_all(&commands);
                assert_eq!(surface, Surface::showing(c.state));
            }
        }
    }
}

#[test]
fn input_user_wraps_the_event() {
    assert_eq!(Input::user(DomainEvent::PageUp), Input::User(DomainEvent::PageUp));
}

#[test]
fn window_state_steps_on_their_own() {
    let mut s = window(Mode::Hidden, 100, 50);
    s.page_down(25);
    assert_eq!(s.scroll_offset, 100);
    s.toggle();
    assert_eq!(s.mode, Mode::VisibleInteractive);
    s.page_down(25);
    assert_eq!(s.scroll_offset, 125);
    s.page_up(25);
    s.page_up(25);
    assert_eq!(s.scroll_offset, 75);
    s.leave();
    assert_eq!(s.mode, Mode::VisiblePassThrough);
    s.leave();
    assert_eq!(s.mode, Mode::VisiblePassThrough);
    s.press();
    assert_eq!(s.mode, Mode::VisibleInteractive);
    s.press();
    assert_eq!(s.mode, Mode::VisibleInteractive);
    s.toggle();
    assert_eq!(s.mode, Mode::Hidden);
    s.press();
    s.leave();
    assert_eq!(s, window(Mode::Hidden, 75, 50));
}
