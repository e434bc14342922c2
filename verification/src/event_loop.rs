//! The decisions of the application's event loop: what a terminal event
//! leads to, and when a frame is rendered. The loop itself (polling the
//! terminal, dispatching to handlers, rendering) runs around them.

use vstd::prelude::*;
use crate::input::{KeyCode, KeyPress};

verus! {

/// A terminal event, as far as the loop tells events apart.
#[derive(Debug, Clone, Copy, PartialEq, Eq, Structural)]
pub enum LoopEvent {
    /// A key press
    Key(KeyPress),
    /// A mouse event
    Mouse,
    /// The terminal was resized
    Resize,
    /// Anything else (focus changes, pastes)
    Other,
}

/// What the loop does with an event.
#[derive(Debug, Clone, Copy, PartialEq, Eq, Structural)]
pub enum EventAction {
    /// Stop the application
    Exit,
    /// Hand the key to the input handlers, then request a render
    DispatchKey,
    /// Hand the mouse event to the mouse handlers, then request a render
    DispatchMouse,
    /// Only request a render
    Render,
    /// Nothing
    Ignore,
}

/// Whether a key press is Ctrl+C.
pub open spec fn is_ctrl_c_spec(key: KeyPress) -> bool {
    key.code == KeyCode::Char('c') && key.ctrl
}

/// Whether a key press is Ctrl+C.
pub fn is_ctrl_c(key: &KeyPress) -> (r: bool)
    ensures
        r == is_ctrl_c_spec(*key),
{
    match key.code {
        KeyCode::Char(c) => c == 'c' && key.ctrl,
        _ => false,
    }
}

/// The action for an event: Ctrl+C exits when the application asks for
/// it; other keys and mouse events are dispatched; a resize only asks for
/// a render; anything else is ignored.
pub open spec fn event_action(exit_on_ctrl_c: bool, event: LoopEvent) -> EventAction {
    match event {
        LoopEvent::Key(k) => if exit_on_ctrl_c && is_ctrl_c_spec(k) {
            EventAction::Exit
        } else {
            EventAction::DispatchKey
        },
        LoopEvent::Mouse => EventAction::DispatchMouse,
        LoopEvent::Resize => EventAction::Render,
        LoopEvent::Other => EventAction::Ignore,
    }
}

/// The action for an event (see `event_action`).
pub fn handle_event(exit_on_ctrl_c: bool, event: &LoopEvent) -> (a: EventAction)
    ensures
        a == event_action(exit_on_ctrl_c, *event),
{
    match event {
        LoopEvent::Key(k) => {
            if exit_on_ctrl_c && is_ctrl_c(k) {
                EventAction::Exit
            } else {
                EventAction::DispatchKey
            }
        },
        LoopEvent::Mouse => EventAction::DispatchMouse,
        LoopEvent::Resize => EventAction::Render,
        LoopEvent::Other => EventAction::Ignore,
    }
}

/// Whether an action asks for a render.
pub open spec fn requests_render(a: EventAction) -> bool {
    a == EventAction::DispatchKey || a == EventAction::DispatchMouse || a == EventAction::Render
}

/// The time between frames at `fps` frames per second, in milliseconds
/// (rounded down). The rate must not be 0.
pub fn frame_millis(fps: u32) -> (ms: u64)
    requires
        fps > 0,
    ensures
        ms == 1000int / (fps as int),
{
    1000 / (fps as u64)
}

/// Whether the loop renders a frame now: a render was requested and at
/// least one frame time has passed since the last frame.
pub fn should_render(render_requested: bool, elapsed_nanos: u128, frame_ms: u64) -> (r: bool)
    ensures
        r == (render_requested && elapsed_nanos >= frame_ms * 1_000_000),
{
    render_requested && elapsed_nanos >= (frame_ms as u128) * 1_000_000
}

} // verus!
