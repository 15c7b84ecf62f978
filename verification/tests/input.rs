use vanguard::input::{HeldKeys, InputState, Key, WindowInput};

fn key(key: Key, pressed: bool) -> WindowInput {
    WindowInput::Key { key, pressed }
}

#[test]
fn click_grabs_and_escape_releases() {
    let mut state = InputState::new();
    assert!(state.cursor_visible);
    assert!(!state.mouse_look_active());
    let r = state.handle_window_event(WindowInput::MouseLeftPressed, false);
    assert!(r.grab_cursor && !r.release_cursor);
    assert!(state.mouse_look_active());
    let r = state.handle_window_event(key(Key::Escape, false), false);
    assert!(r.release_cursor);
    assert!(state.cursor_visible);
    let r = state.handle_window_event(key(Key::Escape, true), false);
    assert!(r.release_cursor);
}

#[test]
fn digit5_press_toggles_overlay() {
    let mut state = InputState::new();
    let before = state;
    assert!(state.handle_window_event(key(Key::Digit5, true), false).toggle_ui);
    assert!(!state.handle_window_event(key(Key::Digit5, false), false).toggle_ui);
    assert_eq!(state, before);
}

#[test]
fn movement_keys_are_tracked() {
    let mut state = InputState::new();
    assert!(!state.held.moving());
    state.handle_window_event(key(Key::W, true), false);
    state.handle_window_event(key(Key::ControlLeft, true), false);
    assert!(state.held.forward && state.held.down && state.held.moving());
    state.handle_window_event(key(Key::W, false), false);
    assert!(!state.held.forward && state.held.down);
    state.handle_window_event(key(Key::ControlLeft, false), false);
    assert_eq!(state.held, HeldKeys::none());
    assert!(!state.held.moving());
    state.handle_window_event(key(Key::Other, true), false);
    assert!(!state.held.moving());
}

#[test]
fn opposite_keys_still_count_as_moving() {
    let mut state = InputState::new();
    state.handle_window_event(key(Key::A, true), false);
    state.handle_window_event(key(Key::D, true), false);
    assert!(state.held.left && state.held.right);
    assert!(state.held.moving());
}

#[test]
fn consumed_events_change_nothing() {
    let mut state = InputState::new();
    let before = state;
    let r = state.handle_window_event(WindowInput::MouseLeftPressed, true);
    assert!(!r.grab_cursor && !r.exit && !r.redraw);
    assert_eq!(state, before);
    let r = state.handle_window_event(WindowInput::CloseRequested, true);
    assert!(!r.exit);
}

#[test]
fn other_events() {
    let mut state = InputState::new();
    assert!(state.handle_window_event(WindowInput::CloseRequested, false).exit);
    assert_eq!(state.handle_window_event(WindowInput::Resized { width: 640, height: 480 }, false).resize, Some((640, 480)));
    assert!(state.handle_window_event(WindowInput::RedrawRequested, false).redraw);
    let r = state.handle_window_event(WindowInput::Other, false);
    assert!(!r.exit && !r.redraw && r.resize.is_none() && !r.toggle_ui);
}
