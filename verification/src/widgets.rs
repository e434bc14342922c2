//! State and symbol sets of the widget components: dialogs, newlines,
//! progress bars, scrollbars and bar charts.

use vstd::prelude::*;
use vstd::arithmetic::div_mod::{lemma_mod_self_0, lemma_small_mod};
use crate::color::Color;
use crate::style::JustifyContent;
use crate::text::{push_char, push_str, repeated, repeat_char};

verus! {

/// Modal alignment options.
#[derive(Debug, Clone, Copy, PartialEq, Eq, Structural)]
pub enum ModalAlign {
    /// Center the modal (default)
    Center,
    /// Align to top
    Top,
    /// Align to bottom
    Bottom,
}

impl Default for ModalAlign {
    fn default() -> (r: Self)
        ensures
            r == ModalAlign::Center,
    {
        ModalAlign::Center
    }
}

impl ModalAlign {
    /// How the modal's container places it along its column: centered, at
    /// the start (top) or at the end (bottom).
    pub fn justify(self) -> (j: JustifyContent)
        ensures
            j == (match self {
                ModalAlign::Center => JustifyContent::Center,
                ModalAlign::Top => JustifyContent::FlexStart,
                ModalAlign::Bottom => JustifyContent::FlexEnd,
            }),
    {
        match self {
            ModalAlign::Center => JustifyContent::Center,
            ModalAlign::Top => JustifyContent::FlexStart,
            ModalAlign::Bottom => JustifyContent::FlexEnd,
        }
    }
}

/// The text of a dialog button: the label in brackets, `[ label ]`.
pub open spec fn button_text(label: Seq<char>) -> Seq<char> {
    seq!['[', ' '] + label + seq![' ', ']']
}

/// The text of a dialog button (see `button_text`).
pub fn dialog_button_text(label: &str) -> (s: String)
    ensures
        s@ == button_text(label@),
{
    let mut s = String::new();
    push_char(&mut s, '[');
    push_char(&mut s, ' ');
    push_str(&mut s, label);
    push_char(&mut s, ' ');
    push_char(&mut s, ']');
    assert(s@ =~= button_text(label@));
    s
}

/// The color of a dialog button: the focus color when the button is
/// focused and one is set, else the button's own color.
pub fn dialog_button_color(own: Option<Color>, focused: bool, focus_color: Option<Color>) -> (c: Option<Color>)
    ensures
        c == (if focused && focus_color is Some {
            focus_color
        } else {
            own
        }),
{
    if focused && focus_color.is_some() {
        focus_color
    } else {
        own
    }
}

/// Dialog state: visibility and which of its two buttons has focus.
#[derive(Debug, Clone, Copy, PartialEq, Eq, Structural)]
pub struct DialogState {
    /// Whether the dialog is visible
    pub visible: bool,
    /// Currently focused button (0 = confirm, 1 = cancel)
    pub focused_button: usize,
}

impl Default for DialogState {
    fn default() -> (r: Self)
        ensures
            r == (DialogState { visible: false, focused_button: 0 }),
    {
        DialogState { visible: false, focused_button: 0 }
    }
}

impl DialogState {
    /// Create a new dialog state: hidden, confirm button focused.
    pub fn new() -> (s: Self)
        ensures
            s == (DialogState { visible: false, focused_button: 0 }),
    {
        DialogState { visible: false, focused_button: 0 }
    }

    /// Show the dialog with the confirm button focused.
    pub fn show(&mut self)
        ensures
            *final(self) == (DialogState { visible: true, focused_button: 0 }),
    {
        self.visible = true;
        self.focused_button = 0;
    }

    /// Hide the dialog; the focus stays.
    pub fn hide_dialog(&mut self)
        ensures
            *final(self) == (DialogState { visible: false, ..*old(self) }),
    {
        self.visible = false;
    }

    /// Toggle visibility; the focus stays.
    pub fn toggle(&mut self)
        ensures
            *final(self) == (DialogState { visible: !old(self).visible, ..*old(self) }),
    {
        self.visible = !self.visible;
    }

    /// Focus the next button: `(focused + 1) % 2`.
    ///
    /// The focused index must be below `usize::MAX`.
    pub fn focus_next(&mut self)
        requires
            old(self).focused_button < usize::MAX,
        ensures
            *final(self) == (DialogState {
                focused_button: ((old(self).focused_button + 1) % 2) as usize,
                ..*old(self)
            }),
    {
        self.focused_button = (self.focused_button + 1) % 2;
    }

    /// Focus the previous button: 1 from 0, and 0 from anything else.
    pub fn focus_previous(&mut self)
        ensures
            *final(self) == (DialogState {
                focused_button: if old(self).focused_button == 0 { 1 } else { 0 },
                ..*old(self)
            }),
    {
        self.focused_button = if self.focused_button == 0 {
            1
        } else {
            0
        };
    }

    /// Whether the confirm button (0) is focused.
    pub fn is_confirm_focused(&self) -> (r: bool)
        ensures
            r == (self.focused_button == 0),
    {
        self.focused_button == 0
    }

    /// Whether the cancel button (1) is focused.
    pub fn is_cancel_focused(&self) -> (r: bool)
        ensures
            r == (self.focused_button == 1),
    {
        self.focused_button == 1
    }
}

/// Newline component: a number of line breaks.
#[derive(Debug, Clone, Copy, PartialEq, Eq, Structural)]
pub struct Newline {
    count: u16,
}

impl Default for Newline {
    fn default() -> (r: Self)
        ensures
            r.breaks() == 0,
    {
        Newline { count: 0 }
    }
}

impl Newline {
    /// The number of line breaks.
    pub closed spec fn breaks(self) -> u16 {
        self.count
    }

    /// A single newline.
    pub fn new() -> (n: Self)
        ensures
            n.breaks() == 1,
    {
        Newline { count: 1 }
    }

    /// Set the number of newlines.
    pub fn count(self, count: u16) -> (n: Self)
        ensures
            n.breaks() == count,
    {
        Newline { count }
    }

    /// The number of line breaks.
    pub fn get_count(&self) -> (r: u16)
        ensures
            r == self.breaks(),
    {
        self.count
    }

    /// The text content of the element: `count` line feeds.
    pub fn text_content(&self) -> (s: String)
        ensures
            s@ == repeated('\n', self.breaks() as nat),
    {
        repeat_char('\n', self.count as usize)
    }
}

/// Progress bar symbol set.
#[derive(Debug, Clone, Copy, PartialEq, Eq, Structural)]
pub struct ProgressSymbols {
    /// Character for filled portion
    pub filled: char,
    /// Character for empty portion
    pub empty: char,
    /// Character for the current position (head)
    pub head: Option<char>,
    /// Left bracket
    pub bracket_left: Option<char>,
    /// Right bracket
    pub bracket_right: Option<char>,
}

impl Default for ProgressSymbols {
    fn default() -> (r: Self)
        ensures
            r == (ProgressSymbols {
                filled: '█',
                empty: '░',
                head: None,
                bracket_left: Some('['),
                bracket_right: Some(']'),
            }),
    {
        ProgressSymbols {
            filled: '█',
            empty: '░',
            head: None,
            bracket_left: Some('['),
            bracket_right: Some(']'),
        }
    }
}

/// How a progress bar of a given width is made up.
#[derive(Debug, Clone, Copy, PartialEq, Eq, Structural)]
pub struct ProgressParts {
    /// Cells between the brackets
    pub bar_width: usize,
    /// Cells drawn with the filled symbol
    pub filled: usize,
    /// Whether a head symbol follows the filled cells
    pub head: bool,
    /// Cells drawn with the empty symbol
    pub empty: usize,
}

impl ProgressSymbols {
    /// Block style (the default).
    pub fn block() -> (s: Self)
        ensures
            s == (ProgressSymbols {
                filled: '█',
                empty: '░',
                head: None,
                bracket_left: Some('['),
                bracket_right: Some(']'),
            }),
    {
        Self::default()
    }

    /// Line style.
    pub fn line() -> (s: Self)
        ensures
            s == (ProgressSymbols {
                filled: '━',
                empty: '─',
                head: Some('╸'),
                bracket_left: None,
                bracket_right: None,
            }),
    {
        ProgressSymbols {
            filled: '━',
            empty: '─',
            head: Some('╸'),
            bracket_left: None,
            bracket_right: None,
        }
    }

    /// Dot style.
    pub fn dot() -> (s: Self)
        ensures
            s == (ProgressSymbols {
                filled: '●',
                empty: '○',
                head: None,
                bracket_left: Some('⟨'),
                bracket_right: Some('⟩'),
            }),
    {
        ProgressSymbols {
            filled: '●',
            empty: '○',
            head: None,
            bracket_left: Some('⟨'),
            bracket_right: Some('⟩'),
        }
    }

    /// ASCII style.
    pub fn ascii() -> (s: Self)
        ensures
            s == (ProgressSymbols {
                filled: '#',
                empty: '-',
                head: Some('>'),
                bracket_left: Some('['),
                bracket_right: Some(']'),
            }),
    {
        ProgressSymbols {
            filled: '#',
            empty: '-',
            head: Some('>'),
            bracket_left: Some('['),
            bracket_right: Some(']'),
        }
    }

    /// Thin line style.
    pub fn thin() -> (s: Self)
        ensures
            s == (ProgressSymbols {
                filled: '─',
                empty: ' ',
                head: Some('●'),
                bracket_left: None,
                bracket_right: None,
            }),
    {
        ProgressSymbols {
            filled: '─',
            empty: ' ',
            head: Some('●'),
            bracket_left: None,
            bracket_right: None,
        }
    }

    /// The number of bracket cells (0, 1 or 2).
    pub open spec fn bracket_cells(self) -> int {
        (if self.bracket_left is Some { 1int } else { 0 }) + (if self.bracket_right is Some {
            1int
        } else {
            0
        })
    }

    /// Lays out a bar of `width` cells of which `filled_width` (rounded
    /// from the progress) are filled: the brackets take their cells first;
    /// a head symbol replaces the last filled cell when the bar is neither
    /// empty nor full.
    pub fn parts(&self, width: u16, filled_width: usize) -> (p: ProgressParts)
        ensures
            p.bar_width == (if width >= self.bracket_cells() {
                width - self.bracket_cells()
            } else {
                0
            }),
            p.empty == (if p.bar_width >= filled_width {
                p.bar_width - filled_width
            } else {
                0
            }),
            p.head == (self.head is Some && 0 < filled_width < p.bar_width),
            p.filled == (if p.head { filled_width - 1 } else { filled_width as int }),
    {
        let brackets: u16 = (if self.bracket_left.is_some() {
            1u16
        } else {
            0u16
        }) + (if self.bracket_right.is_some() {
            1u16
        } else {
            0u16
        });
        let bar_width: usize = width.saturating_sub(brackets) as usize;
        let empty: usize = bar_width.saturating_sub(filled_width);
        let head: bool = self.head.is_some() && filled_width > 0 && filled_width < bar_width;
        let filled: usize = if head {
            filled_width - 1
        } else {
            filled_width
        };
        ProgressParts { bar_width, filled, head, empty }
    }
}

/// Scrollbar orientation.
#[derive(Debug, Clone, Copy, PartialEq, Eq, Structural)]
pub enum ScrollbarOrientation {
    /// Vertical scrollbar (default)
    Vertical,
    /// Horizontal scrollbar
    Horizontal,
}

impl Default for ScrollbarOrientation {
    fn default() -> (r: Self)
        ensures
            r == ScrollbarOrientation::Vertical,
    {
        ScrollbarOrientation::Vertical
    }
}

/// Scrollbar symbol set.
#[derive(Debug, Clone, Copy, PartialEq, Eq, Structural)]
pub struct ScrollbarSymbols {
    /// Track character (background)
    pub track: char,
    /// Thumb character (position indicator)
    pub thumb: char,
    /// Start character (top/left)
    pub begin: Option<char>,
    /// End character (bottom/right)
    pub end: Option<char>,
}

impl Default for ScrollbarSymbols {
    fn default() -> (r: Self)
        ensures
            r == (ScrollbarSymbols { track: '│', thumb: '█', begin: Some('▲'), end: Some('▼') }),
    {
        ScrollbarSymbols { track: '│', thumb: '█', begin: Some('▲'), end: Some('▼') }
    }
}

/// One cell of a scrollbar: its character and whether it belongs to the thumb.
pub type ScrollbarCell = (char, bool);

impl ScrollbarSymbols {
    /// Vertical scrollbar symbols (the default).
    pub fn vertical() -> (s: Self)
        ensures
            s == (ScrollbarSymbols { track: '│', thumb: '█', begin: Some('▲'), end: Some('▼') }),
    {
        Self::default()
    }

    /// Horizontal scrollbar symbols.
    pub fn horizontal() -> (s: Self)
        ensures
            s == (ScrollbarSymbols { track: '─', thumb: '█', begin: Some('◄'), end: Some('►') }),
    {
        ScrollbarSymbols { track: '─', thumb: '█', begin: Some('◄'), end: Some('►') }
    }

    /// Simple block style.
    pub fn block() -> (s: Self)
        ensures
            s == (ScrollbarSymbols { track: '░', thumb: '█', begin: None, end: None }),
    {
        ScrollbarSymbols { track: '░', thumb: '█', begin: None, end: None }
    }

    /// Line style.
    pub fn line() -> (s: Self)
        ensures
            s == (ScrollbarSymbols { track: '│', thumb: '┃', begin: None, end: None }),
    {
        ScrollbarSymbols { track: '│', thumb: '┃', begin: None, end: None }
    }

    /// Double line style.
    pub fn double() -> (s: Self)
        ensures
            s == (ScrollbarSymbols { track: '║', thumb: '█', begin: Some('╦'), end: Some('╩') }),
    {
        ScrollbarSymbols { track: '║', thumb: '█', begin: Some('╦'), end: Some('╩') }
    }

    /// The number of arrow cells (0, 1 or 2).
    pub open spec fn arrow_cells(self) -> int {
        (if self.begin is Some { 1int } else { 0 }) + (if self.end is Some { 1int } else { 0 })
    }

    /// The track length left for a scrollbar of `length` cells once the
    /// arrows have taken theirs (0 when they take everything).
    pub fn track_length(&self, length: u16) -> (r: usize)
        ensures
            r == (if length >= self.arrow_cells() {
                length - self.arrow_cells()
            } else {
                0
            }),
    {
        let arrows: usize = (if self.begin.is_some() {
            1usize
        } else {
            0usize
        }) + (if self.end.is_some() {
            1usize
        } else {
            0usize
        });
        (length as usize).saturating_sub(arrows)
    }

    /// The thumb size for a track of `track_length` cells from the size
    /// the viewport ratio asks for (at least one cell, at most the track),
    /// and the cells left for the thumb to move in.
    pub fn thumb_extent(raw_size: usize, track_length: usize) -> (r: (usize, usize))
        requires
            track_length > 0,
        ensures
            r.0 == (if raw_size < 1 {
                1
            } else if raw_size > track_length {
                track_length as int
            } else {
                raw_size as int
            }),
            r.1 == track_length - r.0,
    {
        let size = if raw_size < 1 {
            1
        } else if raw_size > track_length {
            track_length
        } else {
            raw_size
        };
        (size, track_length - size)
    }

    /// The track of a scrollbar: the thumb symbol on cells
    /// `thumb_start .. thumb_start + thumb_size`, the track symbol elsewhere.
    pub open spec fn track_cells(
        self,
        track_length: nat,
        thumb_start: int,
        thumb_size: int,
    ) -> Seq<ScrollbarCell> {
        Seq::new(
            track_length,
            |i: int|
                if thumb_start <= i < thumb_start + thumb_size {
                    (self.thumb, true)
                } else {
                    (self.track, false)
                },
        )
    }

    /// All cells of a scrollbar: the begin arrow, the track and the end arrow.
    pub open spec fn all_cells(
        self,
        track_length: nat,
        thumb_start: int,
        thumb_size: int,
    ) -> Seq<ScrollbarCell> {
        (match self.begin {
            Some(b) => seq![(b, false)],
            None => Seq::empty(),
        }) + self.track_cells(track_length, thumb_start, thumb_size) + (match self.end {
            Some(e) => seq![(e, false)],
            None => Seq::empty(),
        })
    }

    /// The cells of a scrollbar whose track is `track_length` cells long,
    /// with a thumb of `thumb_size` cells starting at `thumb_start`.
    pub fn cells(&self, track_length: usize, thumb_start: usize, thumb_size: usize) -> (v: Vec<
        ScrollbarCell,
    >)
        requires
            track_length < usize::MAX,
        ensures
            v@ == self.all_cells(track_length as nat, thumb_start as int, thumb_size as int),
    {
        let mut v: Vec<ScrollbarCell> = Vec::new();
        if let Some(b) = self.begin {
            v.push((b, false));
        }
        let ghost start = v@;
        let mut i: usize = 0;
        while i < track_length
            invariant
                i <= track_length,
                v@ == start + self.track_cells(i as nat, thumb_start as int, thumb_size as int),
            decreases track_length - i,
        {
            let is_thumb: bool = i >= thumb_start && i - thumb_start < thumb_size;
            let ch = if is_thumb {
                self.thumb
            } else {
                self.track
            };
            v.push((ch, is_thumb));
            i = i + 1;
            assert(self.track_cells(i as nat, thumb_start as int, thumb_size as int) =~= self.track_cells(
                (i - 1) as nat,
                thumb_start as int,
                thumb_size as int,
            ).push((ch, is_thumb)));
        }
        if let Some(e) = self.end {
            v.push((e, false));
        }
        assert(v@ =~= self.all_cells(track_length as nat, thumb_start as int, thumb_size as int));
        v
    }
}

/// Bar chart orientation.
#[derive(Debug, Clone, Copy, PartialEq, Eq, Structural)]
pub enum BarChartOrientation {
    /// Horizontal bars (default)
    Horizontal,
    /// Vertical bars
    Vertical,
}

impl Default for BarChartOrientation {
    fn default() -> (r: Self)
        ensures
            r == BarChartOrientation::Horizontal,
    {
        BarChartOrientation::Horizontal
    }
}

/// The hint shown after a cancellable spinner's message: dimmed
/// `(ESC to cancel)` after a space.
pub open spec fn cancel_hint() -> Seq<char> {
    seq!['\x1b', '[', '2', 'm'] + seq!['(', 'E', 'S', 'C', ' ', 't', 'o', ' ', 'c', 'a', 'n', 'c', 'e', 'l', ')']
        + seq!['\x1b', '[', '0', 'm']
}

/// One frame of a spinner line: the line is erased and the cursor returned
/// to its start, then the frame and the message are written in yellow,
/// with the cancel hint when the spinner can be cancelled.
pub open spec fn spinner_line_text(frame: Seq<char>, message: Seq<char>, cancellable: bool) -> Seq<char> {
    seq!['\x1b', '[', '2', 'K', '\r', '\x1b', '[', '3', '3', 'm'] + frame + seq![' '] + message + (if cancellable {
        seq![' '] + cancel_hint()
    } else {
        Seq::empty()
    }) + seq!['\x1b', '[', '0', 'm']
}

/// Appends the given characters.
fn push_all(s: &mut String, cs: &[char])
    ensures
        final(s)@ == old(s)@ + cs@,
{
    let mut i: usize = 0;
    while i < cs.len()
        invariant
            i <= cs@.len(),
            s@ == old(s)@ + cs@.take(i as int),
        decreases cs@.len() - i,
    {
        push_char(s, cs[i]);
        i = i + 1;
        assert(s@ =~= old(s)@ + cs@.take(i as int));
    }
    assert(cs@.take(cs@.len() as int) =~= cs@);
}

/// One frame of a spinner line (see `spinner_line_text`).
pub fn spinner_line(frame: &str, message: &str, cancellable: bool) -> (s: String)
    ensures
        s@ == spinner_line_text(frame@, message@, cancellable),
{
    let mut s = String::new();
    push_all(&mut s, &['\x1b', '[', '2', 'K', '\r', '\x1b', '[', '3', '3', 'm']);
    push_str(&mut s, frame);
    push_char(&mut s, ' ');
    push_str(&mut s, message);
    if cancellable {
        push_char(&mut s, ' ');
        push_all(&mut s, &['\x1b', '[', '2', 'm']);
        push_all(&mut s, &['(', 'E', 'S', 'C', ' ', 't', 'o', ' ', 'c', 'a', 'n', 'c', 'e', 'l', ')']);
        push_all(&mut s, &['\x1b', '[', '0', 'm']);
    }
    push_all(&mut s, &['\x1b', '[', '0', 'm']);
    proof {
        assert(['\x1b', '[', '2', 'K', '\r', '\x1b', '[', '3', '3', 'm']@ =~= seq!['\x1b', '[', '2', 'K', '\r', '\x1b', '[', '3', '3', 'm']);
        assert(['\x1b', '[', '2', 'm']@ =~= seq!['\x1b', '[', '2', 'm']);
        assert(['(', 'E', 'S', 'C', ' ', 't', 'o', ' ', 'c', 'a', 'n', 'c', 'e', 'l', ')']@ =~= seq!['(', 'E', 'S', 'C', ' ', 't', 'o', ' ', 'c', 'a', 'n', 'c', 'e', 'l', ')']);
        assert(['\x1b', '[', '0', 'm']@ =~= seq!['\x1b', '[', '0', 'm']);
    }
    assert(s@ =~= spinner_line_text(frame@, message@, cancellable));
    s
}

/// The frame after frame `i` of `count` frames, wrapping around.
pub fn next_frame(i: usize, count: usize) -> (r: usize)
    requires
        count > 0,
        i < count,
    ensures
        r == (i + 1) % (count as int),
{
    if i + 1 == count {
        proof {
            lemma_mod_self_0(count as int);
        }
        0
    } else {
        proof {
            lemma_small_mod((i + 1) as nat, count as nat);
        }
        i + 1
    }
}

} // verus!
