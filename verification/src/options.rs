//! Application options and window-title escape sequences.

use vstd::prelude::*;
use crate::hyperlink::{push_sanitized, without_controls};
use crate::text::push_char;

verus! {

/// Application options for configuring the renderer.
#[derive(Debug, Clone, Copy, PartialEq, Eq, Structural)]
pub struct AppOptions {
    /// Target frames per second (default: 60)
    pub fps: u32,
    /// Exit on Ctrl+C (default: true)
    pub exit_on_ctrl_c: bool,
    /// Use alternate screen / fullscreen mode (default: false = inline mode)
    pub alternate_screen: bool,
}

impl Default for AppOptions {
    /// 60 frames per second, exit on Ctrl+C, inline mode.
    fn default() -> (o: Self)
        ensures
            o == (AppOptions { fps: 60, exit_on_ctrl_c: true, alternate_screen: false }),
    {
        AppOptions { fps: 60, exit_on_ctrl_c: true, alternate_screen: false }
    }
}

/// The escape sequence setting the window title: `ESC ] 0 ; title BEL`.
pub open spec fn title_seq(title: Seq<char>) -> Seq<char> {
    seq!['\x1b', ']', '0', ';'] + title + seq!['\x07']
}

/// The escape sequence setting the window title (and icon name) to `title`,
/// stripped of control characters (as OSC 8 payloads are), so that the
/// title cannot end the sequence early or start another one.
pub fn set_title_escape(title: &str) -> (s: String)
    ensures
        s@ == title_seq(without_controls(title@)),
{
    let mut s = String::new();
    push_char(&mut s, '\x1b');
    push_char(&mut s, ']');
    push_char(&mut s, '0');
    push_char(&mut s, ';');
    push_sanitized(&mut s, title);
    push_char(&mut s, '\x07');
    assert(s@ =~= title_seq(without_controls(title@)));
    s
}

/// The escape sequence restoring the window title as far as terminals
/// allow: an empty title.
pub fn restore_title_escape() -> (s: String)
    ensures
        s@ == title_seq(Seq::empty()),
{
    let mut s = String::new();
    push_char(&mut s, '\x1b');
    push_char(&mut s, ']');
    push_char(&mut s, '0');
    push_char(&mut s, ';');
    push_char(&mut s, '\x07');
    assert(s@ =~= title_seq(Seq::empty()));
    s
}

} // verus!
