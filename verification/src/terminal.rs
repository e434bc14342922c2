//! ANSI control sequences and the terminal's frame-to-frame rendering: what
//! to write so that the screen shows a new frame, given the previous one.

use vstd::prelude::*;
use crate::text::{decimal, lines_of, push_char, push_chars, push_decimal, split_lines, chars_eq};

verus! {

/// A control sequence introducer followed by `body`.
pub open spec fn csi(body: Seq<char>) -> Seq<char> {
    seq!['\x1b', '['] + body
}

/// Moves the cursor to a position (rows and columns counted from 0).
pub open spec fn cursor_to_seq(row: nat, col: nat) -> Seq<char> {
    csi(decimal(row + 1) + seq![';'] + decimal(col + 1) + seq!['H'])
}

/// Moves the cursor to a column (counted from 0).
pub open spec fn cursor_to_column_seq(col: nat) -> Seq<char> {
    csi(decimal(col + 1) + seq!['G'])
}

/// Moves the cursor up `n` lines; nothing for 0.
pub open spec fn cursor_up_seq(n: nat) -> Seq<char> {
    if n == 0 {
        Seq::empty()
    } else {
        csi(decimal(n) + seq!['A'])
    }
}

/// Moves the cursor down `n` lines; nothing for 0.
pub open spec fn cursor_down_seq(n: nat) -> Seq<char> {
    if n == 0 {
        Seq::empty()
    } else {
        csi(decimal(n) + seq!['B'])
    }
}

/// Erases the whole line.
pub open spec fn erase_line_seq() -> Seq<char> {
    csi(seq!['2', 'K'])
}

/// Erases `n` lines upwards: each line is erased and the cursor returned to
/// column 0, moving up one line between them.
pub open spec fn erase_lines_seq(n: nat) -> Seq<char>
    decreases n,
{
    if n == 0 {
        Seq::empty()
    } else {
        erase_lines_seq((n - 1) as nat) + (if n > 1 {
            csi(seq!['1', 'A'])
        } else {
            Seq::empty()
        }) + erase_line_seq() + csi(seq!['G'])
    }
}

/// Appends `ESC [` to `s`.
fn push_csi(s: &mut String)
    ensures
        final(s)@ == old(s)@ + seq!['\x1b', '['],
{
    push_char(s, '\x1b');
    push_char(s, '[');
    assert(s@ =~= old(s)@ + seq!['\x1b', '[']);
}

/// Move cursor to a position (0-indexed).
///
/// Row and column must be below `u16::MAX`.
pub fn cursor_to(row: u16, col: u16) -> (s: String)
    requires
        row < u16::MAX,
        col < u16::MAX,
    ensures
        s@ == cursor_to_seq(row as nat, col as nat),
{
    let mut s = String::new();
    push_csi(&mut s);
    push_decimal(&mut s, (row + 1) as u64);
    push_char(&mut s, ';');
    push_decimal(&mut s, (col + 1) as u64);
    push_char(&mut s, 'H');
    assert(s@ =~= cursor_to_seq(row as nat, col as nat));
    s
}

/// Move cursor to a column (0-indexed).
///
/// The column must be below `u16::MAX`.
pub fn cursor_to_column(col: u16) -> (s: String)
    requires
        col < u16::MAX,
    ensures
        s@ == cursor_to_column_seq(col as nat),
{
    let mut s = String::new();
    push_csi(&mut s);
    push_decimal(&mut s, (col + 1) as u64);
    push_char(&mut s, 'G');
    assert(s@ =~= cursor_to_column_seq(col as nat));
    s
}

/// Move cursor up `n` lines; empty for 0.
pub fn cursor_up(n: u16) -> (s: String)
    ensures
        s@ == cursor_up_seq(n as nat),
{
    let mut s = String::new();
    if n > 0 {
        push_csi(&mut s);
        push_decimal(&mut s, n as u64);
        push_char(&mut s, 'A');
    }
    assert(s@ =~= cursor_up_seq(n as nat));
    s
}

/// Move cursor down `n` lines; empty for 0.
pub fn cursor_down(n: u16) -> (s: String)
    ensures
        s@ == cursor_down_seq(n as nat),
{
    let mut s = String::new();
    if n > 0 {
        push_csi(&mut s);
        push_decimal(&mut s, n as u64);
        push_char(&mut s, 'B');
    }
    assert(s@ =~= cursor_down_seq(n as nat));
    s
}

/// Erase from cursor to end of line.
pub fn erase_end_of_line() -> (s: String)
    ensures
        s@ == csi(seq!['K']),
{
    let mut s = String::new();
    push_csi(&mut s);
    push_char(&mut s, 'K');
    assert(s@ =~= csi(seq!['K']));
    s
}

/// Erase the entire line.
pub fn erase_line() -> (s: String)
    ensures
        s@ == erase_line_seq(),
{
    let mut s = String::new();
    push_erase_line(&mut s);
    assert(s@ =~= erase_line_seq());
    s
}

/// Appends the erase-line sequence.
fn push_erase_line(s: &mut String)
    ensures
        final(s)@ == old(s)@ + erase_line_seq(),
{
    push_csi(s);
    push_char(s, '2');
    push_char(s, 'K');
    assert(s@ =~= old(s)@ + erase_line_seq());
}

/// Erase `n` lines upwards (see `erase_lines_seq`).
pub fn erase_lines(n: usize) -> (s: String)
    ensures
        s@ == erase_lines_seq(n as nat),
{
    let mut s = String::new();
    let mut i: usize = 0;
    while i < n
        invariant
            i <= n,
            s@ == erase_lines_seq(i as nat),
        decreases n - i,
    {
        if i > 0 {
            push_csi(&mut s);
            push_char(&mut s, '1');
            push_char(&mut s, 'A');
        }
        push_erase_line(&mut s);
        push_csi(&mut s);
        push_char(&mut s, 'G');
        i = i + 1;
        assert(s@ =~= erase_lines_seq(i as nat));
    }
    s
}

/// Hide the cursor.
pub fn hide_cursor() -> (s: String)
    ensures
        s@ == csi(seq!['?', '2', '5', 'l']),
{
    let mut s = String::new();
    push_csi(&mut s);
    push_char(&mut s, '?');
    push_char(&mut s, '2');
    push_char(&mut s, '5');
    push_char(&mut s, 'l');
    assert(s@ =~= csi(seq!['?', '2', '5', 'l']));
    s
}

/// Show the cursor.
pub fn show_cursor() -> (s: String)
    ensures
        s@ == csi(seq!['?', '2', '5', 'h']),
{
    let mut s = String::new();
    push_csi(&mut s);
    push_char(&mut s, '?');
    push_char(&mut s, '2');
    push_char(&mut s, '5');
    push_char(&mut s, 'h');
    assert(s@ =~= csi(seq!['?', '2', '5', 'h']));
    s
}

/// Save the cursor position.
pub fn save_cursor() -> (s: String)
    ensures
        s@ == csi(seq!['s']),
{
    let mut s = String::new();
    push_csi(&mut s);
    push_char(&mut s, 's');
    assert(s@ =~= csi(seq!['s']));
    s
}

/// Restore the cursor position.
pub fn restore_cursor() -> (s: String)
    ensures
        s@ == csi(seq!['u']),
{
    let mut s = String::new();
    push_csi(&mut s);
    push_char(&mut s, 'u');
    assert(s@ =~= csi(seq!['u']));
    s
}

/// The most lines a frame may have: rows are addressed with 16-bit numbers
/// counted from 1.
pub open spec fn max_frame_lines() -> nat {
    65535
}

/// Fullscreen redraw of lines `0..k`: a line is moved to, erased and
/// written only when it differs from the previous frame's line there.
pub open spec fn redraw_changed(prev: Seq<Seq<char>>, new: Seq<Seq<char>>, k: nat) -> Seq<char>
    decreases k,
{
    if k == 0 {
        Seq::empty()
    } else {
        let i = (k - 1) as nat;
        redraw_changed(prev, new, i) + (if i < prev.len() && prev[i as int] == new[i as int] {
            Seq::empty()
        } else {
            cursor_to_seq(i, 0) + erase_line_seq() + new[i as int]
        })
    }
}

/// Fullscreen erasure of the previous frame's lines `from..k`.
pub open spec fn erase_rows(from: nat, k: nat) -> Seq<char>
    decreases k,
{
    if k <= from {
        Seq::empty()
    } else {
        erase_rows(from, (k - 1) as nat) + cursor_to_seq((k - 1) as nat, 0) + erase_line_seq()
    }
}

/// What a fullscreen render writes: the cursor goes home, changed lines
/// are redrawn, and lines the new frame no longer has are erased.
pub open spec fn fullscreen_frame(prev: Seq<Seq<char>>, new: Seq<Seq<char>>) -> Seq<char> {
    cursor_to_seq(0, 0) + redraw_changed(prev, new, new.len()) + erase_rows(new.len(), prev.len())
}

/// Inline drawing of lines `0..k` of `new`: each at column 0 on an erased
/// line, with a line break before every following line.
pub open spec fn draw_lines(new: Seq<Seq<char>>, k: nat) -> Seq<char>
    decreases k,
{
    if k == 0 {
        Seq::empty()
    } else {
        let i = (k - 1) as nat;
        draw_lines(new, i) + cursor_to_column_seq(0) + erase_line_seq() + new[i as int] + (if i
            + 1 < new.len() {
            seq!['\r', '\n']
        } else {
            Seq::empty()
        })
    }
}

/// Inline erasure of `n` lines below the new frame.
pub open spec fn erase_below(n: nat) -> Seq<char>
    decreases n,
{
    if n == 0 {
        Seq::empty()
    } else {
        erase_below((n - 1) as nat) + seq!['\r', '\n'] + cursor_to_column_seq(0) + erase_line_seq()
    }
}

/// What an inline render writes: the first frame is drawn where the cursor
/// is; later frames move up to the start of the previous one, redraw every
/// line, erase the lines left over from a longer previous frame and move
/// back up to the end of the new one.
pub open spec fn inline_frame(prev: Seq<Seq<char>>, new: Seq<Seq<char>>) -> Seq<char> {
    if prev.len() == 0 {
        draw_lines(new, new.len())
    } else {
        (if prev.len() > 1 {
            cursor_up_seq((prev.len() - 1) as nat)
        } else {
            Seq::empty()
        }) + draw_lines(new, new.len()) + (if new.len() < prev.len() {
            erase_below((prev.len() - new.len()) as nat) + cursor_up_seq(
                (prev.len() - new.len()) as nat,
            )
        } else {
            Seq::empty()
        })
    }
}

/// What clearing writes for a previous frame of `n` lines, in fullscreen
/// mode (each row moved to and erased) or inline (move up, erase each line
/// with a line feed, move back up).
pub open spec fn clear_frame(n: nat, alternate: bool) -> Seq<char>
    decreases n,
{
    if n == 0 {
        Seq::empty()
    } else if alternate {
        cursor_to_seq(0, 0) + erase_rows(0, n)
    } else {
        (if n > 1 {
            cursor_up_seq((n - 1) as nat)
        } else {
            Seq::empty()
        }) + clear_inline_lines(n) + cursor_up_seq(n)
    }
}

/// `n` times: column 0, erase the line, line feed.
pub open spec fn clear_inline_lines(n: nat) -> Seq<char>
    decreases n,
{
    if n == 0 {
        Seq::empty()
    } else {
        clear_inline_lines((n - 1) as nat) + cursor_to_column_seq(0) + erase_line_seq() + seq![
            '\n',
        ]
    }
}

/// The terminal's rendering state: the lines of the previous frame and the
/// modes the terminal is in.
pub struct Terminal {
    previous_lines: Vec<Vec<char>>,
    alternate_screen: bool,
    cursor_hidden: bool,
    raw_mode: bool,
    mouse_enabled: bool,
}

impl Terminal {
    /// The previous frame's lines.
    pub closed spec fn frame(&self) -> Seq<Seq<char>> {
        self.previous_lines@.map_values(|l: Vec<char>| l@)
    }

    /// Whether the alternate screen (fullscreen mode) is in use.
    pub closed spec fn alternate(&self) -> bool {
        self.alternate_screen
    }

    /// Whether the cursor is hidden.
    pub closed spec fn hidden(&self) -> bool {
        self.cursor_hidden
    }

    /// Whether raw mode is on.
    pub closed spec fn raw(&self) -> bool {
        self.raw_mode
    }

    /// Whether mouse capture is on.
    pub closed spec fn mouse(&self) -> bool {
        self.mouse_enabled
    }

    /// The previous frame fits the row numbering.
    pub open spec fn wf(&self) -> bool {
        self.frame().len() <= max_frame_lines()
    }

    /// A terminal with no previous frame and every mode off.
    pub fn new() -> (t: Self)
        ensures
            t.frame() == Seq::<Seq<char>>::empty(),
            !t.alternate() && !t.hidden() && !t.raw() && !t.mouse(),
            t.wf(),
    {
        let t = Terminal {
            previous_lines: Vec::new(),
            alternate_screen: false,
            cursor_hidden: false,
            raw_mode: false,
            mouse_enabled: false,
        };
        assert(t.frame() =~= Seq::<Seq<char>>::empty());
        t
    }

    /// Whether mouse capture is on.
    pub fn is_mouse_enabled(&self) -> (r: bool)
        ensures
            r == self.mouse(),
    {
        self.mouse_enabled
    }

    /// Whether the alternate screen is in use.
    pub fn is_alternate_screen(&self) -> (r: bool)
        ensures
            r == self.alternate(),
    {
        self.alternate_screen
    }

    /// Whether the cursor is hidden.
    pub fn is_cursor_hidden(&self) -> (r: bool)
        ensures
            r == self.hidden(),
    {
        self.cursor_hidden
    }

    /// Whether raw mode is on.
    pub fn is_raw_mode(&self) -> (r: bool)
        ensures
            r == self.raw(),
    {
        self.raw_mode
    }

    /// The number of lines of the previous frame.
    pub fn previous_line_count(&self) -> (n: usize)
        ensures
            n == self.frame().len(),
    {
        self.previous_lines.len()
    }

    /// Records that the alternate screen has been entered or left.
    pub fn set_alternate_screen(&mut self, on: bool)
        ensures
            final(self).alternate() == on,
            final(self).frame() == old(self).frame(),
            final(self).hidden() == old(self).hidden(),
            final(self).raw() == old(self).raw(),
            final(self).mouse() == old(self).mouse(),
    {
        self.alternate_screen = on;
    }

    /// Records that the cursor has been hidden or shown.
    pub fn set_cursor_hidden(&mut self, on: bool)
        ensures
            final(self).hidden() == on,
            final(self).frame() == old(self).frame(),
            final(self).alternate() == old(self).alternate(),
            final(self).raw() == old(self).raw(),
            final(self).mouse() == old(self).mouse(),
    {
        self.cursor_hidden = on;
    }

    /// Records that raw mode has been switched on or off.
    pub fn set_raw_mode(&mut self, on: bool)
        ensures
            final(self).raw() == on,
            final(self).frame() == old(self).frame(),
            final(self).alternate() == old(self).alternate(),
            final(self).hidden() == old(self).hidden(),
            final(self).mouse() == old(self).mouse(),
    {
        self.raw_mode = on;
    }

    /// Records that mouse capture has been switched on or off.
    pub fn set_mouse_enabled(&mut self, on: bool)
        ensures
            final(self).mouse() == on,
            final(self).frame() == old(self).frame(),
            final(self).alternate() == old(self).alternate(),
            final(self).hidden() == old(self).hidden(),
            final(self).raw() == old(self).raw(),
    {
        self.mouse_enabled = on;
    }

    /// Renders a frame: returns what to write to the terminal (see
    /// `fullscreen_frame` and `inline_frame`) and remembers the frame's
    /// lines for the next render.
    ///
    /// In fullscreen mode rows are numbered with 16 bits, so a frame has
    /// fewer than `u16::MAX` lines.
    pub fn render(&mut self, output: &str) -> (s: String)
        requires
            old(self).wf(),
            lines_of(output@).len() <= max_frame_lines(),
        ensures
            s@ == (if old(self).alternate() {
                fullscreen_frame(old(self).frame(), lines_of(output@))
            } else {
                inline_frame(old(self).frame(), lines_of(output@))
            }),
            final(self).frame() == lines_of(output@),
            final(self).alternate() == old(self).alternate(),
            final(self).hidden() == old(self).hidden(),
            final(self).raw() == old(self).raw(),
            final(self).mouse() == old(self).mouse(),
            final(self).wf(),
    {
        let new_lines = split_lines(output);
        let ghost new = lines_of(output@);
        assert(new_lines@.map_values(|l: Vec<char>| l@) =~= new);
        let s = if self.alternate_screen {
            self.fullscreen_output(&new_lines)
        } else {
            self.inline_output(&new_lines)
        };
        self.previous_lines = new_lines;
        s
    }

    /// The fullscreen output for the new lines.
    fn fullscreen_output(&self, new_lines: &Vec<Vec<char>>) -> (s: String)
        requires
            self.wf(),
            new_lines@.len() <= max_frame_lines(),
        ensures
            s@ == fullscreen_frame(self.frame(), new_lines@.map_values(|l: Vec<char>| l@)),
    {
        let ghost prev = self.frame();
        let ghost new = new_lines@.map_values(|l: Vec<char>| l@);
        let mut s = cursor_to(0, 0);
        let mut i: usize = 0;
        while i < new_lines.len()
            invariant
                i <= new_lines@.len() <= max_frame_lines(),
                prev == self.frame(),
                new == new_lines@.map_values(|l: Vec<char>| l@),
                s@ == cursor_to_seq(0, 0) + redraw_changed(prev, new, i as nat),
            decreases new_lines@.len() - i,
        {
            let same = i < self.previous_lines.len() && chars_eq(&self.previous_lines[i], &new_lines[i]);
            if !same {
                let c = cursor_to(i as u16, 0);
                crate::text::push_str(&mut s, c.as_str());
                push_erase_line(&mut s);
                push_chars(&mut s, &new_lines[i], 0, new_lines[i].len());
                assert(new_lines@[i as int]@.subrange(0, new_lines@[i as int]@.len() as int)
                    =~= new[i as int]);
            }
            i = i + 1;
            assert(s@ =~= cursor_to_seq(0, 0) + redraw_changed(prev, new, i as nat));
        }
        let mut j: usize = new_lines.len();
        while j < self.previous_lines.len()
            invariant
                new_lines@.len() <= j <= self.previous_lines@.len() || j == new_lines@.len(),
                self.previous_lines@.len() <= max_frame_lines(),
                prev == self.frame(),
                new == new_lines@.map_values(|l: Vec<char>| l@),
                s@ == cursor_to_seq(0, 0) + redraw_changed(prev, new, new.len()) + erase_rows(
                    new.len(),
                    j as nat,
                ),
            decreases self.previous_lines@.len() - j,
        {
            let c = cursor_to(j as u16, 0);
            crate::text::push_str(&mut s, c.as_str());
            push_erase_line(&mut s);
            j = j + 1;
            assert(s@ =~= cursor_to_seq(0, 0) + redraw_changed(prev, new, new.len()) + erase_rows(
                new.len(),
                j as nat,
            ));
        }
        assert(erase_rows(new.len(), j as nat) == erase_rows(new.len(), prev.len()));
        s
    }

    /// The inline drawing of the new lines.
    fn push_drawn_lines(s: &mut String, new_lines: &Vec<Vec<char>>)
        ensures
            final(s)@ == old(s)@ + draw_lines(new_lines@.map_values(|l: Vec<char>| l@), new_lines@.len()),
    {
        let ghost new = new_lines@.map_values(|l: Vec<char>| l@);
        let n = new_lines.len();
        let mut i: usize = 0;
        while i < n
            invariant
                i <= n == new_lines@.len(),
                new == new_lines@.map_values(|l: Vec<char>| l@),
                s@ == old(s)@ + draw_lines(new, i as nat),
            decreases n - i,
        {
            let c = cursor_to_column(0);
            crate::text::push_str(s, c.as_str());
            push_erase_line(s);
            push_chars(s, &new_lines[i], 0, new_lines[i].len());
            assert(new_lines@[i as int]@.subrange(0, new_lines@[i as int]@.len() as int)
                =~= new[i as int]);
            if i + 1 < n {
                push_char(s, '\r');
                push_char(s, '\n');
            }
            i = i + 1;
            assert(s@ =~= old(s)@ + draw_lines(new, i as nat));
        }
    }

    /// The inline output for the new lines.
    fn inline_output(&self, new_lines: &Vec<Vec<char>>) -> (s: String)
        requires
            self.wf(),
        ensures
            s@ == inline_frame(self.frame(), new_lines@.map_values(|l: Vec<char>| l@)),
    {
        let ghost prev = self.frame();
        let ghost new = new_lines@.map_values(|l: Vec<char>| l@);
        let prev_count = self.previous_lines.len();
        let new_count = new_lines.len();
        let mut s = String::new();
        if prev_count == 0 {
            Self::push_drawn_lines(&mut s, new_lines);
            assert(s@ =~= inline_frame(prev, new));
            return s;
        }
        if prev_count > 1 {
            let up = cursor_up((prev_count - 1) as u16);
            crate::text::push_str(&mut s, up.as_str());
        }
        let ghost head = s@;
        Self::push_drawn_lines(&mut s, new_lines);
        if new_count < prev_count {
            let ghost mid = s@;
            let mut k: usize = 0;
            while k < prev_count - new_count
                invariant
                    k <= prev_count - new_count,
                    s@ == mid + erase_below(k as nat),
                decreases prev_count - new_count - k,
            {
                push_char(&mut s, '\r');
                push_char(&mut s, '\n');
                let c = cursor_to_column(0);
                crate::text::push_str(&mut s, c.as_str());
                push_erase_line(&mut s);
                k = k + 1;
                assert(s@ =~= mid + erase_below(k as nat));
            }
            let up = cursor_up((prev_count - new_count) as u16);
            crate::text::push_str(&mut s, up.as_str());
        }
        assert(s@ =~= inline_frame(prev, new));
        s
    }

    /// Forgets the previous frame and returns what clears it from the
    /// screen (see `clear_frame`); nothing when there is none.
    pub fn clear(&mut self) -> (s: String)
        requires
            old(self).wf(),
        ensures
            s@ == clear_frame(old(self).frame().len(), old(self).alternate()),
            final(self).frame() == Seq::<Seq<char>>::empty(),
            final(self).alternate() == old(self).alternate(),
            final(self).hidden() == old(self).hidden(),
            final(self).raw() == old(self).raw(),
            final(self).mouse() == old(self).mouse(),
            final(self).wf(),
    {
        let n = self.previous_lines.len();
        let mut s = String::new();
        if n == 0 {
            assert(s@ =~= clear_frame(0, self.alternate_screen));
            return s;
        }
        if self.alternate_screen {
            s = cursor_to(0, 0);
            let mut i: usize = 0;
            while i < n
                invariant
                    i <= n <= max_frame_lines(),
                    s@ == cursor_to_seq(0, 0) + erase_rows(0, i as nat),
                decreases n - i,
            {
                let c = cursor_to(i as u16, 0);
                crate::text::push_str(&mut s, c.as_str());
                push_erase_line(&mut s);
                i = i + 1;
                assert(s@ =~= cursor_to_seq(0, 0) + erase_rows(0, i as nat));
            }
        } else {
            if n > 1 {
                let up = cursor_up((n - 1) as u16);
                crate::text::push_str(&mut s, up.as_str());
            }
            let ghost head = s@;
            let mut i: usize = 0;
            while i < n
                invariant
                    i <= n,
                    s@ == head + clear_inline_lines(i as nat),
                decreases n - i,
            {
                let c = cursor_to_column(0);
                crate::text::push_str(&mut s, c.as_str());
                push_erase_line(&mut s);
                push_char(&mut s, '\n');
                i = i + 1;
                assert(s@ =~= head + clear_inline_lines(i as nat));
            }
            let up = cursor_up(n as u16);
            crate::text::push_str(&mut s, up.as_str());
        }
        self.previous_lines = Vec::new();
        assert(self.frame() =~= Seq::<Seq<char>>::empty());
        assert(s@ =~= clear_frame(n as nat, self.alternate_screen));
        s
    }
}

/// Redrawing lines that did not change writes nothing.
proof fn lemma_redraw_unchanged(lines: Seq<Seq<char>>, k: nat)
    requires
        k <= lines.len(),
    ensures
        redraw_changed(lines, lines, k) == Seq::<char>::empty(),
    decreases k,
{
    if k > 0 {
        lemma_redraw_unchanged(lines, (k - 1) as nat);
        assert(redraw_changed(lines, lines, (k - 1) as nat) + Seq::<char>::empty() =~= Seq::<char>::empty());
    }
}

/// In fullscreen mode, rendering the frame that is already on screen only
/// moves the cursor home: nothing is redrawn or erased.
pub proof fn law_fullscreen_same_frame_redraws_nothing(lines: Seq<Seq<char>>)
    ensures
        fullscreen_frame(lines, lines) == cursor_to_seq(0, 0),
{
    lemma_redraw_unchanged(lines, lines.len());
    assert(cursor_to_seq(0, 0) + Seq::<char>::empty() + Seq::<char>::empty() =~= cursor_to_seq(0, 0));
}

/// The erasure of each of the rows `0..n`, in order: the cursor moved to
/// the row's first column, then the line erased.
pub open spec fn row_erasures(n: nat) -> Seq<Seq<char>> {
    Seq::new(n, |i: int| cursor_to_seq(i as nat, 0) + erase_line_seq())
}

/// Clearing a fullscreen frame of `n` lines erases every one of its rows,
/// from the first to the last, after moving the cursor home; clearing no
/// frame writes nothing.
pub proof fn law_fullscreen_clear_erases_every_row(n: nat)
    ensures
        n == 0 ==> clear_frame(n, true) == Seq::<char>::empty(),
        n > 0 ==> clear_frame(n, true) == cursor_to_seq(0, 0) + row_erasures(n).flatten(),
{
    lemma_erase_rows_from_start(n);
}

/// The erasure of rows `0..k` is the erasures of those rows one after another.
proof fn lemma_erase_rows_from_start(k: nat)
    ensures
        erase_rows(0, k) == row_erasures(k).flatten(),
    decreases k,
{
    if k == 0 {
        assert(row_erasures(0) =~= Seq::<Seq<char>>::empty());
    } else {
        lemma_erase_rows_from_start((k - 1) as nat);
        let prev = row_erasures((k - 1) as nat);
        let e = cursor_to_seq((k - 1) as nat, 0) + erase_line_seq();
        assert(row_erasures(k) =~= prev.push(e));
        prev.lemma_flatten_push(e);
        assert(erase_rows(0, k) =~= prev.flatten() + e);
    }
}

/// Clearing an inline frame of `n` lines moves up to its first line (when
/// it has more than one), erases each of its `n` lines in turn, each
/// followed by a line feed, and moves back up by `n`.
pub proof fn law_inline_clear_erases_every_line(n: nat)
    ensures
        n > 0 ==> clear_frame(n, false) == (if n > 1 {
            cursor_up_seq((n - 1) as nat)
        } else {
            Seq::empty()
        }) + Seq::new(n, |i: int| cursor_to_column_seq(0) + erase_line_seq() + seq!['\n']).flatten()
            + cursor_up_seq(n),
{
    lemma_inline_lines(n);
}

/// The inline erasure of `k` lines is `k` copies of one line's erasure.
proof fn lemma_inline_lines(k: nat)
    ensures
        clear_inline_lines(k) == Seq::new(k, |i: int| cursor_to_column_seq(0) + erase_line_seq() + seq!['\n']).flatten(),
    decreases k,
{
    let one = cursor_to_column_seq(0) + erase_line_seq() + seq!['\n'];
    if k == 0 {
        assert(Seq::new(0, |i: int| one) =~= Seq::<Seq<char>>::empty());
    } else {
        lemma_inline_lines((k - 1) as nat);
        let prev = Seq::new((k - 1) as nat, |i: int| cursor_to_column_seq(0) + erase_line_seq() + seq!['\n']);
        assert(Seq::new(k, |i: int| cursor_to_column_seq(0) + erase_line_seq() + seq!['\n']) =~= prev.push(one));
        prev.lemma_flatten_push(one);
    }
}

} // verus!
