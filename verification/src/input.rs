//! Keyboard input: the key flags handed to input handlers, computed from a
//! key press.

use vstd::prelude::*;
use crate::text::push_char;

verus! {

/// The key of a key press, as the input handling tells keys apart.
#[derive(Debug, Clone, Copy, PartialEq, Eq, Structural)]
pub enum KeyCode {
    Up,
    Down,
    Left,
    Right,
    PageUp,
    PageDown,
    Home,
    End,
    Enter,
    Esc,
    Tab,
    Backspace,
    Delete,
    /// A character key
    Char(char),
    /// Any other key
    Other,
}

/// A key press: the key and the modifiers held.
#[derive(Debug, Clone, Copy, PartialEq, Eq, Structural)]
pub struct KeyPress {
    pub code: KeyCode,
    pub ctrl: bool,
    pub shift: bool,
    pub alt: bool,
}

/// The key flags handed to input handlers.
#[derive(Debug, Clone, Copy, PartialEq, Eq, Structural)]
pub struct Key {
    pub up_arrow: bool,
    pub down_arrow: bool,
    pub left_arrow: bool,
    pub right_arrow: bool,
    pub page_up: bool,
    pub page_down: bool,
    pub home: bool,
    pub end: bool,
    pub return_key: bool,
    pub escape: bool,
    pub tab: bool,
    pub backspace: bool,
    pub delete: bool,
    pub ctrl: bool,
    pub shift: bool,
    pub alt: bool,
}

impl Default for Key {
    /// No key flag set.
    fn default() -> (k: Self)
        ensures
            k == Key::none(),
    {
        Key {
            up_arrow: false,
            down_arrow: false,
            left_arrow: false,
            right_arrow: false,
            page_up: false,
            page_down: false,
            home: false,
            end: false,
            return_key: false,
            escape: false,
            tab: false,
            backspace: false,
            delete: false,
            ctrl: false,
            shift: false,
            alt: false,
        }
    }
}

impl Key {
    /// No key flag set.
    pub open spec fn none() -> Key {
        Key {
            up_arrow: false,
            down_arrow: false,
            left_arrow: false,
            right_arrow: false,
            page_up: false,
            page_down: false,
            home: false,
            end: false,
            return_key: false,
            escape: false,
            tab: false,
            backspace: false,
            delete: false,
            ctrl: false,
            shift: false,
            alt: false,
        }
    }

    /// The key flags of a key press: each key flag is set exactly when the
    /// press is of that key, and the modifier flags copy the modifiers.
    pub fn from_press(press: &KeyPress) -> (k: Self)
        ensures
            k.up_arrow == (press.code == KeyCode::Up),
            k.down_arrow == (press.code == KeyCode::Down),
            k.left_arrow == (press.code == KeyCode::Left),
            k.right_arrow == (press.code == KeyCode::Right),
            k.page_up == (press.code == KeyCode::PageUp),
            k.page_down == (press.code == KeyCode::PageDown),
            k.home == (press.code == KeyCode::Home),
            k.end == (press.code == KeyCode::End),
            k.return_key == (press.code == KeyCode::Enter),
            k.escape == (press.code == KeyCode::Esc),
            k.tab == (press.code == KeyCode::Tab),
            k.backspace == (press.code == KeyCode::Backspace),
            k.delete == (press.code == KeyCode::Delete),
            k.ctrl == press.ctrl,
            k.shift == press.shift,
            k.alt == press.alt,
    {
        let code = press.code;
        Key {
            up_arrow: code == KeyCode::Up,
            down_arrow: code == KeyCode::Down,
            left_arrow: code == KeyCode::Left,
            right_arrow: code == KeyCode::Right,
            page_up: code == KeyCode::PageUp,
            page_down: code == KeyCode::PageDown,
            home: code == KeyCode::Home,
            end: code == KeyCode::End,
            return_key: code == KeyCode::Enter,
            escape: code == KeyCode::Esc,
            tab: code == KeyCode::Tab,
            backspace: code == KeyCode::Backspace,
            delete: code == KeyCode::Delete,
            ctrl: press.ctrl,
            shift: press.shift,
            alt: press.alt,
        }
    }

    /// The text a key press types: its character for a character key
    /// (with or without modifiers), nothing for any other key.
    pub fn char_from_press(press: &KeyPress) -> (s: String)
        ensures
            s@ == (match press.code {
                KeyCode::Char(c) => seq![c],
                _ => Seq::<char>::empty(),
            }),
    {
        let mut s = String::new();
        if let KeyCode::Char(c) = press.code {
            push_char(&mut s, c);
        }
        s
    }
}

} // verus!
