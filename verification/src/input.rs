//! The decisions of the main loop: how window events move the cursor grab,
//! the diagnostics overlay and the set of held movement keys. The caller
//! performs the reactions (grabbing the cursor, resizing, redrawing) and
//! turns held keys into camera motion.

use vstd::prelude::*;

verus! {

/// The keys the main loop reacts to; every other key is `Other`.
#[derive(Clone, Copy, Debug, PartialEq, Eq, Structural)]
pub enum Key {
    W,
    A,
    S,
    D,
    Space,
    ControlLeft,
    Escape,
    Digit5,
    Other,
}

/// The movement keys currently held down.
#[derive(Clone, Copy, Debug, PartialEq, Eq, Structural)]
pub struct HeldKeys {
    pub forward: bool,
    pub backward: bool,
    pub left: bool,
    pub right: bool,
    pub up: bool,
    pub down: bool,
}

/// A window event, reduced to what the main loop decides on.
#[derive(Clone, Copy, Debug, PartialEq, Eq, Structural)]
pub enum WindowInput {
    CloseRequested,
    Resized { width: u32, height: u32 },
    MouseLeftPressed,
    Key { key: Key, pressed: bool },
    RedrawRequested,
    Other,
}

/// What the caller has to do in answer to a window event.
#[derive(Clone, Copy, Debug, PartialEq, Eq)]
pub struct Reaction {
    pub exit: bool,
    pub resize: Option<(u32, u32)>,
    pub grab_cursor: bool,
    pub release_cursor: bool,
    pub toggle_ui: bool,
    pub redraw: bool,
}

/// The input state of the main loop: whether the cursor is shown (mouse look
/// is active only while it is hidden) and which movement keys are held.
#[derive(Clone, Copy, Debug, PartialEq, Eq, Structural)]
pub struct InputState {
    pub cursor_visible: bool,
    pub held: HeldKeys,
}

/// No reaction at all.
pub open spec fn no_reaction() -> Reaction {
    Reaction { exit: false, resize: None, grab_cursor: false, release_cursor: false, toggle_ui: false, redraw: false }
}

/// The held keys after `key` went down (`pressed`) or up.
pub open spec fn spec_update_held(held: HeldKeys, key: Key, pressed: bool) -> HeldKeys {
    match key {
        Key::W => HeldKeys { forward: pressed, ..held },
        Key::S => HeldKeys { backward: pressed, ..held },
        Key::A => HeldKeys { left: pressed, ..held },
        Key::D => HeldKeys { right: pressed, ..held },
        Key::Space => HeldKeys { up: pressed, ..held },
        Key::ControlLeft => HeldKeys { down: pressed, ..held },
        _ => held,
    }
}

/// Whether any movement key is held, that is whether the camera moves (and
/// accumulation restarts) on the next redraw.
pub open spec fn spec_moving(held: HeldKeys) -> bool {
    held.forward || held.backward || held.left || held.right || held.up || held.down
}

/// The state machine of the main loop. An event the overlay consumed
/// changes nothing. A left click grabs and hides the cursor; Escape, pressed
/// or released, releases and shows it; pressing 5 toggles the overlay; every
/// key event updates the held keys.
pub open spec fn spec_step(state: InputState, event: WindowInput, consumed_by_ui: bool) -> (InputState, Reaction) {
    if consumed_by_ui {
        (state, no_reaction())
    } else {
        match event {
            WindowInput::CloseRequested => (state, Reaction { exit: true, ..no_reaction() }),
            WindowInput::Resized { width, height } => (state, Reaction { resize: Some((width, height)), ..no_reaction() }),
            WindowInput::MouseLeftPressed => (
                InputState { cursor_visible: false, ..state },
                Reaction { grab_cursor: true, ..no_reaction() },
            ),
            WindowInput::Key { key, pressed } => {
                let escape = key == Key::Escape;
                (
                    InputState {
                        cursor_visible: if escape { true } else { state.cursor_visible },
                        held: spec_update_held(state.held, key, pressed),
                    },
                    Reaction { release_cursor: escape, toggle_ui: key == Key::Digit5 && pressed, ..no_reaction() },
                )
            },
            WindowInput::RedrawRequested => (state, Reaction { redraw: true, ..no_reaction() }),
            WindowInput::Other => (state, no_reaction()),
        }
    }
}

impl HeldKeys {
    /// No key held.
    pub fn none() -> (held: HeldKeys)
        ensures
            !spec_moving(held),
    {
        HeldKeys { forward: false, backward: false, left: false, right: false, up: false, down: false }
    }

    /// Whether any movement key is held.
    pub fn moving(&self) -> (moving: bool)
        ensures
            moving == spec_moving(*self),
    {
        self.forward || self.backward || self.left || self.right || self.up || self.down
    }
}

impl Reaction {
    fn none() -> (reaction: Reaction)
        ensures
            reaction == no_reaction(),
    {
        Reaction { exit: false, resize: None, grab_cursor: false, release_cursor: false, toggle_ui: false, redraw: false }
    }
}

impl InputState {
    /// The state at start-up: cursor shown, no key held.
    pub fn new() -> (state: InputState)
        ensures
            state.cursor_visible,
            !spec_moving(state.held),
    {
        InputState { cursor_visible: true, held: HeldKeys::none() }
    }

    /// Whether mouse motion turns the camera: only while the cursor is
    /// hidden. Turning the camera restarts accumulation.
    pub fn mouse_look_active(&self) -> (active: bool)
        ensures
            active == !self.cursor_visible,
    {
        !self.cursor_visible
    }

    /// Handles one window event (see `spec_step`).
    pub fn handle_window_event(&mut self, event: WindowInput, consumed_by_ui: bool) -> (reaction: Reaction)
        ensures
            (*final(self), reaction) == spec_step(*old(self), event, consumed_by_ui),
            reaction.exit == (!consumed_by_ui && event == WindowInput::CloseRequested),
            reaction.grab_cursor == (!consumed_by_ui && event == WindowInput::MouseLeftPressed),
            reaction.release_cursor == (!consumed_by_ui && (event == (WindowInput::Key { key: Key::Escape, pressed: true })
                || event == (WindowInput::Key { key: Key::Escape, pressed: false }))),
            reaction.toggle_ui == (!consumed_by_ui && event == (WindowInput::Key { key: Key::Digit5, pressed: true })),
            reaction.redraw == (!consumed_by_ui && event == WindowInput::RedrawRequested),
            reaction.resize == (if consumed_by_ui { None } else {
                match event {
                    WindowInput::Resized { width, height } => Some((width, height)),
                    _ => None,
                }
            }),
    {
        if consumed_by_ui {
            return Reaction::none();
        }
        match event {
            WindowInput::CloseRequested => Reaction { exit: true, ..Reaction::none() },
            WindowInput::Resized { width, height } => Reaction { resize: Some((width, height)), ..Reaction::none() },
            WindowInput::MouseLeftPressed => {
                self.cursor_visible = false;
                Reaction { grab_cursor: true, ..Reaction::none() }
            },
            WindowInput::Key { key, pressed } => {
                let escape = key == Key::Escape;
                if escape {
                    self.cursor_visible = true;
                }
                match key {
                    Key::W => self.held.forward = pressed,
                    Key::S => self.held.backward = pressed,
                    Key::A => self.held.left = pressed,
                    Key::D => self.held.right = pressed,
                    Key::Space => self.held.up = pressed,
                    Key::ControlLeft => self.held.down = pressed,
                    _ => {},
                }
                Reaction { release_cursor: escape, toggle_ui: key == Key::Digit5 && pressed, ..Reaction::none() }
            },
            WindowInput::RedrawRequested => Reaction { redraw: true, ..Reaction::none() },
            WindowInput::Other => Reaction::none(),
        }
    }
}

/// A left click hides the cursor and so turns mouse look on; Escape, in
/// either direction, shows it again and turns mouse look off.
pub proof fn lemma_cursor_grab_cycle(state: InputState, pressed: bool)
    ensures
        !spec_step(state, WindowInput::MouseLeftPressed, false).0.cursor_visible,
        spec_step(spec_step(state, WindowInput::MouseLeftPressed, false).0, WindowInput::Key { key: Key::Escape, pressed }, false).0.cursor_visible,
{
}

/// Pressing 5 twice toggles the overlay twice, leaving it as it was, while
/// releasing 5 toggles nothing.
pub proof fn lemma_overlay_toggle(state: InputState)
    ensures
        spec_step(state, WindowInput::Key { key: Key::Digit5, pressed: true }, false).1.toggle_ui,
        !spec_step(state, WindowInput::Key { key: Key::Digit5, pressed: false }, false).1.toggle_ui,
        spec_step(state, WindowInput::Key { key: Key::Digit5, pressed: true }, false).0 == state,
{
}

/// Pressing and then releasing a key leaves no movement key held that was
/// not held before, and leaves the other keys as they were.
pub proof fn lemma_press_release(state: InputState, key: Key)
    ensures
        ({
            let pressed = spec_step(state, WindowInput::Key { key, pressed: true }, false).0;
            let released = spec_step(pressed, WindowInput::Key { key, pressed: false }, false).0;
            &&& released.held == spec_update_held(state.held, key, false)
            &&& (!spec_moving(state.held) ==> !spec_moving(released.held))
        }),
{
}

/// An event consumed by the overlay changes nothing and asks for nothing.
pub proof fn lemma_consumed_is_inert(state: InputState, event: WindowInput)
    ensures
        spec_step(state, event, true) == (state, no_reaction()),
{
}

/// Each reaction answers exactly one kind of event that the overlay did not
/// consume: only a close request asks to exit, only a resize asks to resize
/// (to the size it carries), only a left click grabs the cursor, only Escape
/// (pressed or released) releases it, only pressing 5 toggles the overlay and
/// only a redraw request asks to redraw.
pub proof fn lemma_reaction_answers_event(state: InputState, event: WindowInput, consumed_by_ui: bool)
    ensures
        spec_step(state, event, consumed_by_ui).1.exit <==> (!consumed_by_ui && event == WindowInput::CloseRequested),
        spec_step(state, event, consumed_by_ui).1.grab_cursor <==> (!consumed_by_ui && event == WindowInput::MouseLeftPressed),
        spec_step(state, event, consumed_by_ui).1.release_cursor <==> (!consumed_by_ui && (
            event == (WindowInput::Key { key: Key::Escape, pressed: true })
            || event == (WindowInput::Key { key: Key::Escape, pressed: false }))),
        spec_step(state, event, consumed_by_ui).1.toggle_ui <==> (!consumed_by_ui && event == (WindowInput::Key { key: Key::Digit5, pressed: true })),
        spec_step(state, event, consumed_by_ui).1.redraw <==> (!consumed_by_ui && event == WindowInput::RedrawRequested),
        (!consumed_by_ui && event is Resized) ==> spec_step(state, event, consumed_by_ui).1.resize == Some((
            event->Resized_width,
            event->Resized_height,
        )),
        (consumed_by_ui || !(event is Resized)) ==> spec_step(state, event, consumed_by_ui).1.resize is None,
{
}

/// The cursor is hidden by an unconsumed left click, shown by an unconsumed
/// Escape event, and otherwise keeps its visibility.
pub proof fn lemma_cursor_visibility(state: InputState, event: WindowInput, consumed_by_ui: bool)
    ensures
        spec_step(state, event, consumed_by_ui).0.cursor_visible == (
            if !consumed_by_ui && event == WindowInput::MouseLeftPressed {
                false
            } else if !consumed_by_ui && (event == (WindowInput::Key { key: Key::Escape, pressed: true })
                || event == (WindowInput::Key { key: Key::Escape, pressed: false })) {
                true
            } else {
                state.cursor_visible
            }),
{
}

/// Held keys follow the key events: W drives `forward`, S `backward`, A
/// `left`, D `right`, Space `up` and left Control `down`, each set to whether
/// the key went down; no other key and no other event touches them.
pub proof fn lemma_held_keys_follow_events(state: InputState, event: WindowInput, consumed_by_ui: bool)
    ensures
        ({
            let held = spec_step(state, event, consumed_by_ui).0.held;
            let old_held = state.held;
            if consumed_by_ui {
                held == old_held
            } else {
                match event {
                    WindowInput::Key { key, pressed } => {
                        &&& held.forward == (if key == Key::W { pressed } else { old_held.forward })
                        &&& held.backward == (if key == Key::S { pressed } else { old_held.backward })
                        &&& held.left == (if key == Key::A { pressed } else { old_held.left })
                        &&& held.right == (if key == Key::D { pressed } else { old_held.right })
                        &&& held.up == (if key == Key::Space { pressed } else { old_held.up })
                        &&& held.down == (if key == Key::ControlLeft { pressed } else { old_held.down })
                    },
                    _ => held == old_held,
                }
            }
        }),
{
}

} // verus!
