//! Mouse events: buttons, actions and the questions handlers ask of them.

use vstd::prelude::*;

verus! {

/// Mouse button.
#[derive(Debug, Clone, Copy, PartialEq, Eq, Structural)]
pub enum MouseButton {
    Left,
    Right,
    Middle,
}

/// Mouse action type.
#[derive(Debug, Clone, Copy, PartialEq, Eq, Structural)]
pub enum MouseAction {
    /// Mouse button pressed
    Press(MouseButton),
    /// Mouse button released
    Release(MouseButton),
    /// Mouse moved (with button held)
    Drag(MouseButton),
    /// Mouse moved (no button)
    Move,
    /// Scroll wheel up
    ScrollUp,
    /// Scroll wheel down
    ScrollDown,
    /// Scroll wheel left
    ScrollLeft,
    /// Scroll wheel right
    ScrollRight,
}

/// Mouse event information.
#[derive(Debug, Clone, Copy, PartialEq, Eq, Structural)]
pub struct Mouse {
    /// X coordinate (column)
    pub x: u16,
    /// Y coordinate (row)
    pub y: u16,
    /// The action that occurred
    pub action: MouseAction,
    /// Ctrl key was held
    pub ctrl: bool,
    /// Shift key was held
    pub shift: bool,
    /// Alt key was held
    pub alt: bool,
}

impl Mouse {
    /// Whether this is a click (a press of any button).
    pub fn is_click(&self) -> (r: bool)
        ensures
            r == (self.action is Press),
    {
        matches!(self.action, MouseAction::Press(_))
    }

    /// Whether this is a left click.
    pub fn is_left_click(&self) -> (r: bool)
        ensures
            r == (self.action == MouseAction::Press(MouseButton::Left)),
    {
        matches!(self.action, MouseAction::Press(MouseButton::Left))
    }

    /// Whether this is a right click.
    pub fn is_right_click(&self) -> (r: bool)
        ensures
            r == (self.action == MouseAction::Press(MouseButton::Right)),
    {
        matches!(self.action, MouseAction::Press(MouseButton::Right))
    }

    /// Whether this is a scroll event.
    pub fn is_scroll(&self) -> (r: bool)
        ensures
            r == (self.action is ScrollUp || self.action is ScrollDown || self.action is ScrollLeft
                || self.action is ScrollRight),
    {
        matches!(
            self.action,
            MouseAction::ScrollUp | MouseAction::ScrollDown | MouseAction::ScrollLeft
                | MouseAction::ScrollRight
        )
    }

    /// The scroll delta `(dx, dy)`: -1 for up / left, 1 for down / right,
    /// `(0, 0)` for anything but a scroll.
    pub fn scroll_delta(&self) -> (r: (i8, i8))
        ensures
            r == (match self.action {
                MouseAction::ScrollUp => (0i8, -1i8),
                MouseAction::ScrollDown => (0i8, 1i8),
                MouseAction::ScrollLeft => (-1i8, 0i8),
                MouseAction::ScrollRight => (1i8, 0i8),
                _ => (0i8, 0i8),
            }),
    {
        match self.action {
            MouseAction::ScrollUp => (0, -1),
            MouseAction::ScrollDown => (0, 1),
            MouseAction::ScrollLeft => (-1, 0),
            MouseAction::ScrollRight => (1, 0),
            _ => (0, 0),
        }
    }
}

} // verus!
