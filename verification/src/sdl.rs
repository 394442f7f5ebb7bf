//! Source engine SDL integration: which SDL calls are hooked, and what a
//! hooked call decides before it hands on to the hooked function.

use vstd::prelude::*;

pub mod gl_swap_window;
pub mod poll_event;

verus! {

/// Source Engine SDL integration.
#[derive(Clone, Copy, Debug, Default)]
pub struct SdlPlugin;

/// The state the hooks share: the addresses of the hooked SDL functions and
/// whether the overlay has found its window.
#[derive(Clone, Copy, Debug)]
pub struct SdlContext {
    pub gl_swap_window: usize,
    pub poll_event: usize,
    pub is_initialized: bool,
}

/// An SDL event, as far as the input translation reads it.
#[derive(Clone, Copy, Debug)]
pub enum SdlEvent {
    MouseButtonDown { button: u8 },
    MouseButtonUp { button: u8 },
    MouseMotion { x: i32, y: i32 },
    MouseWheel { x: i32, y: i32 },
    KeyDown { keycode: Option<i32>, scancode: Option<i32>, repeat: bool },
    KeyUp { keycode: Option<i32>, scancode: Option<i32>, repeat: bool },
    Other,
}

/// An input event for the engine side.
#[derive(Clone, Copy, Debug, PartialEq, Eq)]
pub enum InputAction {
    MouseButton { button: u8, pressed: bool },
    CursorMoved { x: i32, y: i32 },
    MouseWheel { x: i32, y: i32 },
    Keyboard { scan_code: u32, key_code: Option<i32>, pressed: bool },
}

/// The input event an SDL event becomes, if any: button presses and
/// releases, cursor motion, wheel motion, and key presses and releases that
/// carry a scancode and are not repeats.
pub open spec fn spec_translate_event(event: SdlEvent) -> Option<InputAction> {
    match event {
        SdlEvent::MouseButtonDown { button } => Some(
            InputAction::MouseButton { button, pressed: true },
        ),
        SdlEvent::MouseButtonUp { button } => Some(
            InputAction::MouseButton { button, pressed: false },
        ),
        SdlEvent::MouseMotion { x, y } => Some(InputAction::CursorMoved { x, y }),
        SdlEvent::MouseWheel { x, y } => Some(InputAction::MouseWheel { x, y }),
        SdlEvent::KeyDown { keycode, scancode, repeat } => match scancode {
            Some(s) if !repeat => Some(
                InputAction::Keyboard { scan_code: s as u32, key_code: keycode, pressed: true },
            ),
            _ => None,
        },
        SdlEvent::KeyUp { keycode, scancode, repeat } => match scancode {
            Some(s) if !repeat => Some(
                InputAction::Keyboard { scan_code: s as u32, key_code: keycode, pressed: false },
            ),
            _ => None,
        },
        SdlEvent::Other => None,
    }
}

/// Translates an SDL event into an input event for the engine side.
pub fn translate_event(event: &SdlEvent) -> (r: Option<InputAction>)
    ensures
        r == spec_translate_event(*event),
{
    match *event {
        SdlEvent::MouseButtonDown { button } => Some(
            InputAction::MouseButton { button, pressed: true },
        ),
        SdlEvent::MouseButtonUp { button } => Some(
            InputAction::MouseButton { button, pressed: false },
        ),
        SdlEvent::MouseMotion { x, y } => Some(InputAction::CursorMoved { x, y }),
        SdlEvent::MouseWheel { x, y } => Some(InputAction::MouseWheel { x, y }),
        SdlEvent::KeyDown { keycode, scancode, repeat } => match scancode {
            Some(s) if !repeat => Some(
                InputAction::Keyboard { scan_code: s as u32, key_code: keycode, pressed: true },
            ),
            _ => None,
        },
        SdlEvent::KeyUp { keycode, scancode, repeat } => match scancode {
            Some(s) if !repeat => Some(
                InputAction::Keyboard { scan_code: s as u32, key_code: keycode, pressed: false },
            ),
            _ => None,
        },
        SdlEvent::Other => None,
    }
}

/// Window events written by the hooks; none of them sends one yet.
#[derive(Clone, Copy, Debug, Default)]
pub struct WindowEvents;

/// Input events written by the hooks, each kind in the order sent.
#[derive(Debug)]
pub struct InputEvents {
    pub keyboard_input: Vec<InputAction>,
    pub mouse_button_input: Vec<InputAction>,
    pub mouse_wheel_input: Vec<InputAction>,
}

/// Cursor events written by the hooks: the window each happened in and the
/// motion, in the order sent.
#[derive(Debug)]
pub struct CursorEvents {
    pub cursor_moved: Vec<(u64, InputAction)>,
}

/// The input events after one SDL event reached a window: its translation,
/// if any, appended to the list of its kind.
pub open spec fn input_after(
    keyboard: Seq<InputAction>,
    buttons: Seq<InputAction>,
    wheel: Seq<InputAction>,
    action: Option<InputAction>,
) -> (Seq<InputAction>, Seq<InputAction>, Seq<InputAction>) {
    match action {
        Some(InputAction::Keyboard { .. }) => (keyboard.push(action.unwrap()), buttons, wheel),
        Some(InputAction::MouseButton { .. }) => (keyboard, buttons.push(action.unwrap()), wheel),
        Some(InputAction::MouseWheel { .. }) => (keyboard, buttons, wheel.push(action.unwrap())),
        _ => (keyboard, buttons, wheel),
    }
}

/// Sends the input event an SDL event becomes to the writer of its kind.
/// Nothing is sent while there is no single window.
pub fn poll_event(
    event: SdlEvent,
    window: Option<u64>,
    _window_events: &mut WindowEvents,
    input_events: &mut InputEvents,
    cursor_events: &mut CursorEvents,
)
    ensures
        window is None ==> final(input_events).keyboard_input@ == old(
            input_events,
        ).keyboard_input@ && final(input_events).mouse_button_input@ == old(
            input_events,
        ).mouse_button_input@ && final(input_events).mouse_wheel_input@ == old(
            input_events,
        ).mouse_wheel_input@ && final(cursor_events).cursor_moved@ == old(
            cursor_events,
        ).cursor_moved@,
        window matches Some(w) ==> {
            let action = spec_translate_event(event);
            let after = input_after(
                old(input_events).keyboard_input@,
                old(input_events).mouse_button_input@,
                old(input_events).mouse_wheel_input@,
                action,
            );
            &&& final(input_events).keyboard_input@ == after.0
            &&& final(input_events).mouse_button_input@ == after.1
            &&& final(input_events).mouse_wheel_input@ == after.2
            &&& final(cursor_events).cursor_moved@ == (match action {
                Some(InputAction::CursorMoved { .. }) => old(cursor_events).cursor_moved@.push(
                    (w, action.unwrap()),
                ),
                _ => old(cursor_events).cursor_moved@,
            })
        },
{
    let w = match window {
        Some(w) => w,
        None => {
            return;
        },
    };
    match translate_event(&event) {
        Some(action) => match action {
            InputAction::Keyboard { .. } => input_events.keyboard_input.push(action),
            InputAction::MouseButton { .. } => input_events.mouse_button_input.push(action),
            InputAction::MouseWheel { .. } => input_events.mouse_wheel_input.push(action),
            InputAction::CursorMoved { .. } => cursor_events.cursor_moved.push((w, action)),
        },
        None => {},
    }
}

/// The system run on each swapped frame; it draws nothing yet.
pub fn gl_swap_window() {
}

/// A button or key going down becomes a press, and going up a release of
/// the same button or key; nothing else about them differs.
pub proof fn law_press_and_release(button: u8, keycode: Option<i32>, scancode: i32)
    ensures
        spec_translate_event(SdlEvent::MouseButtonDown { button }) == Some(
            InputAction::MouseButton { button, pressed: true },
        ),
        spec_translate_event(SdlEvent::MouseButtonUp { button }) == Some(
            InputAction::MouseButton { button, pressed: false },
        ),
        spec_translate_event(
            SdlEvent::KeyDown { keycode, scancode: Some(scancode), repeat: false },
        ) == Some(
            InputAction::Keyboard { scan_code: scancode as u32, key_code: keycode, pressed: true },
        ),
        spec_translate_event(
            SdlEvent::KeyUp { keycode, scancode: Some(scancode), repeat: false },
        ) == Some(
            InputAction::Keyboard { scan_code: scancode as u32, key_code: keycode, pressed: false },
        ),
{
}

} // verus!
