//! Layout and text style enumerations, and the border character sets.

use vstd::prelude::*;

verus! {

/// Flex direction.
#[derive(Debug, Clone, Copy, PartialEq, Eq, Structural)]
pub enum FlexDirection {
    Row,
    Column,
    RowReverse,
    ColumnReverse,
}

impl Default for FlexDirection {
    fn default() -> (r: Self)
        ensures
            r == FlexDirection::Row,
    {
        FlexDirection::Row
    }
}

/// Align items.
#[derive(Debug, Clone, Copy, PartialEq, Eq, Structural)]
pub enum AlignItems {
    Stretch,
    FlexStart,
    FlexEnd,
    Center,
    Baseline,
}

impl Default for AlignItems {
    fn default() -> (r: Self)
        ensures
            r == AlignItems::Stretch,
    {
        AlignItems::Stretch
    }
}

/// Align self.
#[derive(Debug, Clone, Copy, PartialEq, Eq, Structural)]
pub enum AlignSelf {
    Auto,
    Stretch,
    FlexStart,
    FlexEnd,
    Center,
    Baseline,
}

impl Default for AlignSelf {
    fn default() -> (r: Self)
        ensures
            r == AlignSelf::Auto,
    {
        AlignSelf::Auto
    }
}

impl AlignSelf {
    /// The item alignment this self-alignment stands for; none for `Auto`,
    /// which defers to the container.
    pub fn as_align_items(&self) -> (r: Option<AlignItems>)
        ensures
            r == (match *self {
                AlignSelf::Auto => None,
                AlignSelf::Stretch => Some(AlignItems::Stretch),
                AlignSelf::FlexStart => Some(AlignItems::FlexStart),
                AlignSelf::FlexEnd => Some(AlignItems::FlexEnd),
                AlignSelf::Center => Some(AlignItems::Center),
                AlignSelf::Baseline => Some(AlignItems::Baseline),
            }),
    {
        match self {
            AlignSelf::Auto => None,
            AlignSelf::Stretch => Some(AlignItems::Stretch),
            AlignSelf::FlexStart => Some(AlignItems::FlexStart),
            AlignSelf::FlexEnd => Some(AlignItems::FlexEnd),
            AlignSelf::Center => Some(AlignItems::Center),
            AlignSelf::Baseline => Some(AlignItems::Baseline),
        }
    }
}

/// Justify content.
#[derive(Debug, Clone, Copy, PartialEq, Eq, Structural)]
pub enum JustifyContent {
    FlexStart,
    FlexEnd,
    Center,
    SpaceBetween,
    SpaceAround,
    SpaceEvenly,
}

impl Default for JustifyContent {
    fn default() -> (r: Self)
        ensures
            r == JustifyContent::FlexStart,
    {
        JustifyContent::FlexStart
    }
}

/// Display type.
#[derive(Debug, Clone, Copy, PartialEq, Eq, Structural)]
pub enum Display {
    Flex,
    /// Not displayed
    NoDisplay,
}

impl Default for Display {
    fn default() -> (r: Self)
        ensures
            r == Display::Flex,
    {
        Display::Flex
    }
}

/// Position type.
#[derive(Debug, Clone, Copy, PartialEq, Eq, Structural)]
pub enum Position {
    Relative,
    Absolute,
}

impl Default for Position {
    fn default() -> (r: Self)
        ensures
            r == Position::Relative,
    {
        Position::Relative
    }
}

/// Overflow behavior.
#[derive(Debug, Clone, Copy, PartialEq, Eq, Structural)]
pub enum Overflow {
    Visible,
    Hidden,
    Scroll,
}

impl Default for Overflow {
    fn default() -> (r: Self)
        ensures
            r == Overflow::Visible,
    {
        Overflow::Visible
    }
}

/// Text wrapping behavior.
#[derive(Debug, Clone, Copy, PartialEq, Eq, Structural)]
pub enum TextWrap {
    Wrap,
    Truncate,
    TruncateStart,
    TruncateMiddle,
    TruncateEnd,
}

impl Default for TextWrap {
    fn default() -> (r: Self)
        ensures
            r == TextWrap::Wrap,
    {
        TextWrap::Wrap
    }
}

/// Border style.
#[derive(Debug, Clone, Copy, PartialEq, Eq, Structural)]
pub enum BorderStyle {
    /// No border
    NoBorder,
    Single,
    Double,
    Round,
    Bold,
    SingleDouble,
    DoubleSingle,
    Classic,
}

impl Default for BorderStyle {
    fn default() -> (r: Self)
        ensures
            r == BorderStyle::NoBorder,
    {
        BorderStyle::NoBorder
    }
}

/// The border characters of a style: top left, top right, bottom left,
/// bottom right, horizontal, vertical.
pub open spec fn border_chars(style: BorderStyle) -> (char, char, char, char, char, char) {
    match style {
        BorderStyle::NoBorder => (' ', ' ', ' ', ' ', ' ', ' '),
        BorderStyle::Single => ('┌', '┐', '└', '┘', '─', '│'),
        BorderStyle::Double => ('╔', '╗', '╚', '╝', '═', '║'),
        BorderStyle::Round => ('╭', '╮', '╰', '╯', '─', '│'),
        BorderStyle::Bold => ('┏', '┓', '┗', '┛', '━', '┃'),
        BorderStyle::SingleDouble => ('╓', '╖', '╙', '╜', '─', '║'),
        BorderStyle::DoubleSingle => ('╒', '╕', '╘', '╛', '═', '│'),
        BorderStyle::Classic => ('+', '+', '+', '+', '-', '|'),
    }
}

/// A one-character string.
fn one(c: char) -> (s: String)
    ensures
        s@ == seq![c],
{
    let mut s = String::new();
    crate::text::push_char(&mut s, c);
    assert(s@ =~= seq![c]);
    s
}

impl BorderStyle {
    /// The border characters, each as a string: (top left, top right,
    /// bottom left, bottom right, horizontal, vertical).
    pub fn chars(&self) -> (r: (String, String, String, String, String, String))
        ensures
            r.0@ == seq![border_chars(*self).0],
            r.1@ == seq![border_chars(*self).1],
            r.2@ == seq![border_chars(*self).2],
            r.3@ == seq![border_chars(*self).3],
            r.4@ == seq![border_chars(*self).4],
            r.5@ == seq![border_chars(*self).5],
    {
        let (a, b, c, d, e, f) = self.char_set();
        (one(a), one(b), one(c), one(d), one(e), one(f))
    }

    /// The border characters: (top left, top right, bottom left, bottom
    /// right, horizontal, vertical).
    pub fn char_set(&self) -> (r: (char, char, char, char, char, char))
        ensures
            r == border_chars(*self),
    {
        match self {
            BorderStyle::NoBorder => (' ', ' ', ' ', ' ', ' ', ' '),
            BorderStyle::Single => ('┌', '┐', '└', '┘', '─', '│'),
            BorderStyle::Double => ('╔', '╗', '╚', '╝', '═', '║'),
            BorderStyle::Round => ('╭', '╮', '╰', '╯', '─', '│'),
            BorderStyle::Bold => ('┏', '┓', '┗', '┛', '━', '┃'),
            BorderStyle::SingleDouble => ('╓', '╖', '╙', '╜', '─', '║'),
            BorderStyle::DoubleSingle => ('╒', '╕', '╘', '╛', '═', '│'),
            BorderStyle::Classic => ('+', '+', '+', '+', '-', '|'),
        }
    }

    /// Whether the border is drawn (every style but `NoBorder`).
    pub fn is_visible(&self) -> (r: bool)
        ensures
            r == (*self != BorderStyle::NoBorder),
    {
        !matches!(self, BorderStyle::NoBorder)
    }
}

} // verus!
