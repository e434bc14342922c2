//! The output buffer: a grid of styled cells that text is written into,
//! with double-width characters taking two cells, and its rendering as
//! lines of text with ANSI style sequences.

use vstd::prelude::*;
use unicode_width::UnicodeWidthChar;
use crate::color::{Color, color_codes, joined_codes, push_color_codes, push_sgr, sgr};
use crate::text::{chars_of, decimal, digit_char, push_char};

verus! {

/// The column width unicode-width's `UnicodeWidthChar::width` gives a
/// character, `None` for control characters.
pub uninterp spec fn char_columns(c: char) -> Option<usize>;

/// The column width of a character (unicode-width's
/// `UnicodeWidthChar::width`). Besides naming the result, the contract
/// states what the crate's source fixes outright: control characters below
/// U+0020 and from U+007F to U+009F have none, the other ASCII characters
/// take one column, and every character from U+00A0 on has a width of at
/// most three. Which width a character from U+00A0 on has is left unsaid.
#[verifier::external_body]
fn char_width(c: char) -> (w: Option<usize>)
    ensures
        w == char_columns(c),
        c < '\u{20}' ==> w is None,
        '\u{20}' <= c < '\u{7f}' ==> w == Some(1usize),
        '\u{7f}' <= c < '\u{a0}' ==> w is None,
        '\u{a0}' <= c ==> w is Some && w.unwrap() <= 3,
{
    UnicodeWidthChar::width(c)
}

/// The columns a character takes in the grid: its width, or 1 for a
/// control character.
pub open spec fn cell_width(c: char) -> nat {
    match char_columns(c) {
        Some(w) => w as nat,
        None => 1,
    }
}

/// The columns a character takes in the grid.
fn cell_columns(c: char) -> (w: usize)
    ensures
        w == cell_width(c),
        w <= 3,
{
    match char_width(c) {
        Some(w) => w,
        None => 1,
    }
}

/// The text attributes of a cell.
#[derive(Debug, Clone, Copy, PartialEq, Eq, Structural)]
pub struct TextStyle {
    pub color: Option<Color>,
    pub background_color: Option<Color>,
    pub bold: bool,
    pub italic: bool,
    pub underline: bool,
    pub strikethrough: bool,
    pub dim: bool,
    pub inverse: bool,
}

impl Default for TextStyle {
    /// No color and no attribute.
    fn default() -> (s: Self)
        ensures
            s == TextStyle::plain(),
    {
        TextStyle {
            color: None,
            background_color: None,
            bold: false,
            italic: false,
            underline: false,
            strikethrough: false,
            dim: false,
            inverse: false,
        }
    }
}

impl TextStyle {
    /// No color and no attribute.
    pub open spec fn plain() -> TextStyle {
        TextStyle {
            color: None,
            background_color: None,
            bold: false,
            italic: false,
            underline: false,
            strikethrough: false,
            dim: false,
            inverse: false,
        }
    }

    /// The style with `color` as its foreground unless it has one already.
    pub open spec fn color_or(self, color: Color) -> TextStyle {
        if self.color is Some {
            self
        } else {
            TextStyle { color: Some(color), ..self }
        }
    }

    /// The style with `color` as its background unless it has one already.
    pub open spec fn background_or(self, color: Color) -> TextStyle {
        if self.background_color is Some {
            self
        } else {
            TextStyle { background_color: Some(color), ..self }
        }
    }

    /// See `color_or`.
    pub fn or_color(self, color: Color) -> (s: Self)
        ensures
            s == self.color_or(color),
    {
        if self.color.is_some() {
            self
        } else {
            TextStyle { color: Some(color), ..self }
        }
    }

    /// See `background_or`.
    pub fn or_background(self, color: Color) -> (s: Self)
        ensures
            s == self.background_or(color),
    {
        if self.background_color.is_some() {
            self
        } else {
            TextStyle { background_color: Some(color), ..self }
        }
    }

    /// The style of a text drawn with the style of its single span: the
    /// span's colors where it has them, and each attribute that either has.
    pub open spec fn merged(self, span: TextStyle) -> TextStyle {
        TextStyle {
            color: if span.color is Some {
                span.color
            } else {
                self.color
            },
            background_color: if span.background_color is Some {
                span.background_color
            } else {
                self.background_color
            },
            bold: self.bold || span.bold,
            italic: self.italic || span.italic,
            underline: self.underline || span.underline,
            strikethrough: self.strikethrough || span.strikethrough,
            dim: self.dim || span.dim,
            inverse: self.inverse || span.inverse,
        }
    }

    /// The style of a text drawn with the style of its single span (see
    /// `merged`).
    pub fn with_span(self, span: TextStyle) -> (s: Self)
        ensures
            s == self.merged(span),
    {
        TextStyle {
            color: if span.color.is_some() {
                span.color
            } else {
                self.color
            },
            background_color: if span.background_color.is_some() {
                span.background_color
            } else {
                self.background_color
            },
            bold: self.bold || span.bold,
            italic: self.italic || span.italic,
            underline: self.underline || span.underline,
            strikethrough: self.strikethrough || span.strikethrough,
            dim: self.dim || span.dim,
            inverse: self.inverse || span.inverse,
        }
    }
}

/// A color given to a text reaches only the parts without one: once a part
/// has a color (or background), giving another leaves it; and merging a
/// plain span, or a style into itself, changes nothing.
pub proof fn law_first_color_stays(s: TextStyle, a: Color, b: Color, t: TextStyle)
    ensures
        s.color_or(a).color_or(b) == s.color_or(a),
        s.color_or(a).color is Some,
        s.background_or(a).background_or(b) == s.background_or(a),
        s.background_or(a).background_color is Some,
        t.merged(TextStyle::plain()) == t,
        t.merged(t) == t,
{
}

/// A styled character in the output grid.
#[derive(Debug, Clone, Copy, PartialEq, Eq, Structural)]
pub struct StyledChar {
    pub ch: char,
    pub fg: Option<Color>,
    pub bg: Option<Color>,
    pub bold: bool,
    pub italic: bool,
    pub underline: bool,
    pub strikethrough: bool,
    pub dim: bool,
    pub inverse: bool,
}

/// The unstyled cell holding `ch`.
pub open spec fn plain_cell(ch: char) -> StyledChar {
    StyledChar {
        ch,
        fg: None,
        bg: None,
        bold: false,
        italic: false,
        underline: false,
        strikethrough: false,
        dim: false,
        inverse: false,
    }
}

/// The cell holding `ch` drawn in `style`.
pub open spec fn styled_cell(ch: char, style: TextStyle) -> StyledChar {
    StyledChar {
        ch,
        fg: style.color,
        bg: style.background_color,
        bold: style.bold,
        italic: style.italic,
        underline: style.underline,
        strikethrough: style.strikethrough,
        dim: style.dim,
        inverse: style.inverse,
    }
}

/// Whether a cell has any styling.
pub open spec fn cell_has_style(c: StyledChar) -> bool {
    c.fg is Some || c.bg is Some || c.bold || c.italic || c.underline || c.strikethrough || c.dim
        || c.inverse
}

/// Whether two cells are styled alike.
pub open spec fn cells_same_style(a: StyledChar, b: StyledChar) -> bool {
    a.fg == b.fg && a.bg == b.bg && a.bold == b.bold && a.italic == b.italic && a.underline
        == b.underline && a.strikethrough == b.strikethrough && a.dim == b.dim && a.inverse
        == b.inverse
}

impl Default for StyledChar {
    /// The unstyled NUL cell.
    fn default() -> (c: Self)
        ensures
            c == plain_cell('\0'),
    {
        StyledChar::new('\0')
    }
}

impl StyledChar {
    /// The unstyled cell holding `ch`.
    pub fn new(ch: char) -> (c: Self)
        ensures
            c == plain_cell(ch),
    {
        StyledChar {
            ch,
            fg: None,
            bg: None,
            bold: false,
            italic: false,
            underline: false,
            strikethrough: false,
            dim: false,
            inverse: false,
        }
    }

    /// The cell holding `ch` drawn in `style`.
    pub fn with_style(ch: char, style: &TextStyle) -> (c: Self)
        ensures
            c == styled_cell(ch, *style),
    {
        StyledChar {
            ch,
            fg: style.color,
            bg: style.background_color,
            bold: style.bold,
            italic: style.italic,
            underline: style.underline,
            strikethrough: style.strikethrough,
            dim: style.dim,
            inverse: style.inverse,
        }
    }

    /// Whether this cell has any styling.
    pub fn has_style(&self) -> (r: bool)
        ensures
            r == cell_has_style(*self),
    {
        self.fg.is_some() || self.bg.is_some() || self.bold || self.italic || self.underline
            || self.strikethrough || self.dim || self.inverse
    }

    /// Whether two cells are styled alike.
    pub fn same_style(&self, other: &Self) -> (r: bool)
        ensures
            r == cells_same_style(*self, *other),
    {
        self.fg == other.fg && self.bg == other.bg && self.bold == other.bold && self.italic
            == other.italic && self.underline == other.underline && self.strikethrough
            == other.strikethrough && self.dim == other.dim && self.inverse == other.inverse
    }
}

/// Clip region for overflow handling: columns `x1..x2` of rows `y1..y2`.
#[derive(Debug, Clone, Copy, PartialEq, Eq, Structural)]
pub struct ClipRegion {
    pub x1: u16,
    pub y1: u16,
    pub x2: u16,
    pub y2: u16,
}

/// Whether a region contains a cell.
pub open spec fn region_contains(r: ClipRegion, x: int, y: int) -> bool {
    x >= r.x1 && x < r.x2 && y >= r.y1 && y < r.y2
}

/// The cells a border takes on each side of a box: one with a border.
pub open spec fn border_cells_of(border: bool) -> int {
    if border {
        1
    } else {
        0
    }
}

/// A length less the border on both sides (nothing when the border takes
/// it all).
pub open spec fn inner_length(len: int, border: bool) -> int {
    if len >= 2 * border_cells_of(border) {
        len - 2 * border_cells_of(border)
    } else {
        0
    }
}

/// The region a box clips its children to when it clips them: inside its
/// border; none when it does not clip or that region is empty.
pub open spec fn content_clip_region(x: u16, y: u16, width: u16, height: u16, border: bool, clips: bool) -> Option<ClipRegion> {
    let b = border_cells_of(border);
    let w = inner_length(width as int, border);
    let h = inner_length(height as int, border);
    if clips && w > 0 && h > 0 {
        Some(ClipRegion { x1: (x + b) as u16, y1: (y + b) as u16, x2: (x + b + w) as u16, y2: (y + b + h) as u16 })
    } else {
        None
    }
}

/// Where the text of a box at `(x, y)` starts: past its border and its
/// left and top padding.
pub fn text_origin(x: u16, y: u16, border: bool, pad_left: u16, pad_top: u16) -> (r: (u16, u16))
    requires
        x + border_cells_of(border) + pad_left <= u16::MAX,
        y + border_cells_of(border) + pad_top <= u16::MAX,
    ensures
        r.0 == x + border_cells_of(border) + pad_left,
        r.1 == y + border_cells_of(border) + pad_top,
{
    let b: u16 = if border {
        1
    } else {
        0
    };
    (x + b + pad_left, y + b + pad_top)
}

/// The region a box clips its children to (see `content_clip_region`).
pub fn content_clip(x: u16, y: u16, width: u16, height: u16, border: bool, clips: bool) -> (r: Option<ClipRegion>)
    requires
        x + border_cells_of(border) <= u16::MAX,
        y + border_cells_of(border) <= u16::MAX,
        clips && inner_length(width as int, border) > 0 && inner_length(height as int, border) > 0 ==> x
            + border_cells_of(border) + inner_length(width as int, border) <= u16::MAX && y
            + border_cells_of(border) + inner_length(height as int, border) <= u16::MAX,
    ensures
        r == content_clip_region(x, y, width, height, border, clips),
{
    let b: u16 = if border {
        1
    } else {
        0
    };
    let clip_x = x + b;
    let clip_y = y + b;
    let w: u16 = width.saturating_sub(2 * b);
    let h: u16 = height.saturating_sub(2 * b);
    if clips && w > 0 && h > 0 {
        Some(ClipRegion { x1: clip_x, y1: clip_y, x2: clip_x + w, y2: clip_y + h })
    } else {
        None
    }
}

/// A box's clip region lies within the box, inside its border on every
/// side: children are never drawn over the border or outside the box.
pub proof fn law_clip_within_box(x: u16, y: u16, width: u16, height: u16, border: bool, clips: bool)
    requires
        x + width <= u16::MAX,
        y + height <= u16::MAX,
    ensures
        content_clip_region(x, y, width, height, border, clips) matches Some(r) ==> {
            &&& x + border_cells_of(border) == r.x1
            &&& y + border_cells_of(border) == r.y1
            &&& r.x1 < r.x2 && r.x2 + border_cells_of(border) == x + width
            &&& r.y1 < r.y2 && r.y2 + border_cells_of(border) == y + height
        },
{
}

impl ClipRegion {
    /// Whether the region contains the cell at column `x` of row `y`.
    pub fn contains(&self, x: u16, y: u16) -> (r: bool)
        ensures
            r == region_contains(*self, x as int, y as int),
    {
        x >= self.x1 && x < self.x2 && y >= self.y1 && y < self.y2
    }
}

/// Whether a cell outside any clip region, or inside the innermost one, is drawn.
pub open spec fn visible(clip: Option<ClipRegion>, x: int, y: int) -> bool {
    match clip {
        Some(r) => region_contains(r, x, y),
        None => true,
    }
}

/// Puts `ch` in `style` at column `col` of a row: a wide character broken
/// by overwriting its placeholder or its first half is replaced by spaces,
/// and a new wide character marks the next cell as its placeholder (`'\0'`),
/// breaking a wide character that started there.
pub open spec fn place(row: Seq<StyledChar>, col: int, ch: char, style: TextStyle) -> Seq<StyledChar> {
    let len = row.len() as int;
    let r1 = if row[col].ch == '\0' && col > 0 {
        row.update(col - 1, plain_cell(' '))
    } else {
        row
    };
    let r2 = if cell_width(r1[col].ch) == 2 && col + 1 < len {
        r1.update(col + 1, plain_cell(' '))
    } else {
        r1
    };
    let r3 = r2.update(col, styled_cell(ch, style));
    if cell_width(ch) == 2 && col + 1 < len {
        let r4 = if r3[col + 1].ch != '\0' && cell_width(r3[col + 1].ch) == 2 && col + 2 < len {
            r3.update(col + 2, plain_cell(' '))
        } else {
            r3
        };
        r4.update(col + 1, plain_cell('\0'))
    } else {
        r3
    }
}

/// Whether cell `i` of a row is a wide character's placeholder (`'\0'`).
pub open spec fn placeholder_at(row: Seq<StyledChar>, i: int) -> bool {
    row[i].ch == '\0'
}

/// Whether cell `i` of a row holds a wide character.
pub open spec fn wide_at(row: Seq<StyledChar>, i: int) -> bool {
    cell_width(row[i].ch) == 2
}

/// A row's wide-character placeholders are intact: every placeholder
/// follows a wide character, and every wide character before the last two
/// columns is followed by its placeholder (only at the row's end can a wide
/// character have lost it, to a wide character that did not fit).
pub open spec fn placeholders_intact(row: Seq<StyledChar>) -> bool {
    &&& forall|i: int| 0 <= i < row.len() && #[trigger] placeholder_at(row, i) ==> i > 0 && wide_at(row, i - 1)
    &&& forall|i: int| 0 <= i && i + 2 < row.len() && #[trigger] wide_at(row, i) ==> placeholder_at(row, i + 1)
}

/// Every row of a grid has its placeholders intact.
pub open spec fn grid_placeholders_intact(grid: Seq<Seq<StyledChar>>) -> bool {
    forall|r: int| 0 <= r < grid.len() ==> placeholders_intact(#[trigger] grid[r])
}

/// Placing a character other than a placeholder keeps the placeholders
/// intact.
proof fn lemma_place_keeps_placeholders(row: Seq<StyledChar>, col: int, ch: char, style: TextStyle)
    requires
        placeholders_intact(row),
        0 <= col < row.len(),
        ch != '\0',
        cell_width(ch) == 2 ==> col + 1 < row.len(),
        cell_width(' ') == 1,
        cell_width('\0') == 1,
    ensures
        placeholders_intact(place(row, col, ch, style)),
{
    let len = row.len() as int;
    let a = row[col].ch == '\0' && col > 0;
    let b = cell_width(row[col].ch) == 2 && col + 1 < len;
    let w = cell_width(ch) == 2 && col + 1 < len;
    let r1 = if a {
        row.update(col - 1, plain_cell(' '))
    } else {
        row
    };
    assert(r1[col] == row[col]);
    let r2 = if b {
        r1.update(col + 1, plain_cell(' '))
    } else {
        r1
    };
    let r3 = r2.update(col, styled_cell(ch, style));
    let next = if b {
        plain_cell(' ')
    } else {
        row[col + 1]
    };
    let c = w && next.ch != '\0' && cell_width(next.ch) == 2 && col + 2 < len;
    let out = place(row, col, ch, style);
    if w {
        assert(r3[col + 1] == next);
        let r4 = if c {
            r3.update(col + 2, plain_cell(' '))
        } else {
            r3
        };
        assert(out == r4.update(col + 1, plain_cell('\0')));
    } else {
        assert(out == r3);
    }
    assert(out.len() == len);
    // What the write leaves in the cells it touches; every other cell keeps its content.
    assert(out[col] == styled_cell(ch, style));
    assert(col > 0 ==> out[col - 1] == (if a { plain_cell(' ') } else { row[col - 1] }));
    assert(col + 1 < len ==> out[col + 1] == (if w { plain_cell('\0') } else if b { plain_cell(' ') } else { row[col + 1] }));
    assert(col + 2 < len ==> out[col + 2] == (if c { plain_cell(' ') } else { row[col + 2] }));
    assert(forall|j: int| 0 <= j < len && (j < col - 1 || j > col + 2) ==> out[j] == row[j]);
    assert(!wide_at(out, col + 1) || !w);
    if a {
        assert(placeholder_at(row, col));
        assert(wide_at(row, col - 1));
    }
    if b && col + 2 < len {
        assert(wide_at(row, col));
        assert(placeholder_at(row, col + 1));
    }
    if w {
        assert(wide_at(out, col));
        assert(placeholder_at(out, col + 1));
    }
    assert forall|i: int| 0 <= i < out.len() && #[trigger] placeholder_at(out, i) implies i > 0 && wide_at(out, i - 1) by {
        if i == col + 1 {
            if !w {
                assert(!b);
                assert(placeholder_at(row, col + 1));
            }
        } else if i == col + 2 {
            assert(!c);
            assert(placeholder_at(row, col + 2));
            assert(wide_at(row, col + 1));
            if b {
                assert(placeholder_at(row, col + 1));
            }
        } else if i == col + 3 {
            assert(placeholder_at(row, col + 3));
            assert(wide_at(row, col + 2));
            if c {
                assert(wide_at(row, col + 1));
            }
        } else if i == col - 1 {
            assert(placeholder_at(row, col - 1));
        } else if i != col {
            assert(placeholder_at(row, i));
        }
    }
    assert forall|i: int| 0 <= i && i + 2 < out.len() && #[trigger] wide_at(out, i) implies placeholder_at(out, i + 1) by {
        if i == col - 1 {
            assert(!a);
            assert(wide_at(row, col - 1));
        } else if i == col - 2 {
            assert(wide_at(row, col - 2));
            assert(placeholder_at(row, col - 1));
            assert(!a);
        } else if i == col + 1 {
            assert(!w && !b);
            assert(wide_at(row, col + 1));
        } else if i == col + 2 {
            assert(!c);
            assert(wide_at(row, col + 2));
        } else if i != col {
            assert(wide_at(row, i));
        }
    }
}

/// Writes one character at column `col` of row `y` (as `Output::write_char`
/// does): nothing outside the row; a wide character that does not fit is
/// written as a space; nothing outside the clip region.
pub open spec fn put_char(row: Seq<StyledChar>, col: int, y: int, ch: char, style: TextStyle, clip: Option<ClipRegion>) -> Seq<StyledChar> {
    if col < 0 || col >= row.len() {
        row
    } else if cell_width(ch) == 2 && col + 1 >= row.len() {
        row.update(col, styled_cell(' ', style))
    } else if !visible(clip, col, y) {
        row
    } else {
        place(row, col, ch, style)
    }
}

/// Writes a text from column `col` of row `y` (as `Output::write` does):
/// up to a line feed or the row's end; each character advances by its
/// width (a wide character that does not fit is written as a space and
/// advances by one); characters outside the clip region are skipped.
pub open spec fn write_row(row: Seq<StyledChar>, col: nat, y: int, text: Seq<char>, style: TextStyle, clip: Option<ClipRegion>) -> Seq<StyledChar>
    decreases text.len(),
{
    if text.len() == 0 {
        row
    } else {
        let ch = text[0];
        let rest = text.drop_first();
        if ch == '\n' || col >= row.len() {
            row
        } else if cell_width(ch) == 2 && col + 1 >= row.len() {
            write_row(row.update(col as int, styled_cell(' ', style)), col + 1, y, rest, style, clip)
        } else if !visible(clip, col as int, y) {
            write_row(row, col + cell_width(ch), y, rest, style, clip)
        } else {
            write_row(place(row, col as int, ch, style), col + cell_width(ch), y, rest, style, clip)
        }
    }
}

/// Writing a space over the last column keeps the placeholders intact.
proof fn lemma_last_space_keeps_placeholders(row: Seq<StyledChar>, col: int, style: TextStyle)
    requires
        placeholders_intact(row),
        0 <= col == row.len() - 1,
        cell_width(' ') == 1,
    ensures
        placeholders_intact(row.update(col, styled_cell(' ', style))),
{
    let out = row.update(col, styled_cell(' ', style));
    assert forall|i: int| 0 <= i < out.len() && #[trigger] placeholder_at(out, i) implies i > 0 && wide_at(out, i - 1) by {
        if i == col {
            assert(out[i].ch == ' ');
        } else {
            assert(out[i] == row[i]);
            assert(placeholder_at(row, i));
            assert(out[i - 1] == row[i - 1]);
        }
    }
    assert forall|i: int| 0 <= i && i + 2 < out.len() && #[trigger] wide_at(out, i) implies placeholder_at(out, i + 1) by {
        assert(out[i] == row[i]);
        assert(wide_at(row, i));
        assert(out[i + 1] == row[i + 1]);
    }
}

/// Writing one character other than a placeholder keeps the placeholders
/// intact.
proof fn lemma_put_char_keeps_placeholders(row: Seq<StyledChar>, col: int, y: int, ch: char, style: TextStyle, clip: Option<ClipRegion>)
    requires
        placeholders_intact(row),
        ch != '\0',
        cell_width(' ') == 1,
        cell_width('\0') == 1,
    ensures
        placeholders_intact(put_char(row, col, y, ch, style, clip)),
{
    if col < 0 || col >= row.len() {
    } else if cell_width(ch) == 2 && col + 1 >= row.len() {
        lemma_last_space_keeps_placeholders(row, col, style);
    } else if !visible(clip, col, y) {
    } else {
        lemma_place_keeps_placeholders(row, col, ch, style);
    }
}

/// Writing a text without placeholders keeps the placeholders intact.
proof fn lemma_write_row_keeps_placeholders(row: Seq<StyledChar>, col: nat, y: int, text: Seq<char>, style: TextStyle, clip: Option<ClipRegion>)
    requires
        placeholders_intact(row),
        !text.contains('\0'),
        cell_width(' ') == 1,
        cell_width('\0') == 1,
    ensures
        placeholders_intact(write_row(row, col, y, text, style, clip)),
    decreases text.len(),
{
    if text.len() > 0 {
        let ch = text[0];
        let rest = text.drop_first();
        assert(!rest.contains('\0')) by {
            if rest.contains('\0') {
                let k = choose|k: int| 0 <= k < rest.len() && rest[k] == '\0';
                assert(text[k + 1] == '\0');
            }
        }
        assert(ch != '\0') by {
            assert(text[0] == ch);
        }
        if ch == '\n' || col >= row.len() {
        } else if cell_width(ch) == 2 && col + 1 >= row.len() {
            lemma_last_space_keeps_placeholders(row, col as int, style);
            lemma_write_row_keeps_placeholders(row.update(col as int, styled_cell(' ', style)), col + 1, y, rest, style, clip);
        } else if !visible(clip, col as int, y) {
            lemma_write_row_keeps_placeholders(row, col + cell_width(ch), y, rest, style, clip);
        } else {
            lemma_place_keeps_placeholders(row, col as int, ch, style);
            lemma_write_row_keeps_placeholders(place(row, col as int, ch, style), col + cell_width(ch), y, rest, style, clip);
        }
    }
}

/// The smaller of two naturals.
pub open spec fn min_nat(a: nat, b: nat) -> nat {
    if a <= b {
        a
    } else {
        b
    }
}

/// `put_char` on columns `x..xe` of a row, left to right.
pub open spec fn fill_row(row: Seq<StyledChar>, y: int, x: nat, xe: nat, ch: char, style: TextStyle, clip: Option<ClipRegion>) -> Seq<StyledChar>
    decreases xe,
{
    if xe <= x {
        row
    } else {
        put_char(fill_row(row, y, x, (xe - 1) as nat, ch, style, clip), xe - 1, y, ch, style, clip)
    }
}

/// `fill_row` on rows `y..ye` of a grid, top to bottom.
pub open spec fn fill_rows(grid: Seq<Seq<StyledChar>>, y: nat, ye: nat, x: nat, xe: nat, ch: char, style: TextStyle, clip: Option<ClipRegion>) -> Seq<Seq<StyledChar>>
    decreases ye,
{
    if ye <= y {
        grid
    } else {
        let g = fill_rows(grid, y, (ye - 1) as nat, x, xe, ch, style, clip);
        g.update(ye - 1, fill_row(g[ye - 1], ye - 1, x, xe, ch, style, clip))
    }
}

/// Filling a row with a character other than a placeholder keeps the
/// placeholders intact.
proof fn lemma_fill_row_keeps_placeholders(row: Seq<StyledChar>, y: int, x: nat, xe: nat, ch: char, style: TextStyle, clip: Option<ClipRegion>)
    requires
        placeholders_intact(row),
        ch != '\0',
        cell_width(' ') == 1,
        cell_width('\0') == 1,
    ensures
        placeholders_intact(fill_row(row, y, x, xe, ch, style, clip)),
    decreases xe,
{
    if xe > x {
        lemma_fill_row_keeps_placeholders(row, y, x, (xe - 1) as nat, ch, style, clip);
        lemma_put_char_keeps_placeholders(fill_row(row, y, x, (xe - 1) as nat, ch, style, clip), xe - 1, y, ch, style, clip);
    }
}

/// Filling rows with a character other than a placeholder keeps the
/// placeholders intact.
proof fn lemma_fill_rows_keeps_placeholders(grid: Seq<Seq<StyledChar>>, y: nat, ye: nat, x: nat, xe: nat, ch: char, style: TextStyle, clip: Option<ClipRegion>)
    requires
        grid_placeholders_intact(grid),
        ye <= grid.len(),
        ch != '\0',
        cell_width(' ') == 1,
        cell_width('\0') == 1,
    ensures
        grid_placeholders_intact(fill_rows(grid, y, ye, x, xe, ch, style, clip)),
        fill_rows(grid, y, ye, x, xe, ch, style, clip).len() == grid.len(),
    decreases ye,
{
    if ye > y {
        lemma_fill_rows_keeps_placeholders(grid, y, (ye - 1) as nat, x, xe, ch, style, clip);
        let g = fill_rows(grid, y, (ye - 1) as nat, x, xe, ch, style, clip);
        lemma_fill_row_keeps_placeholders(g[ye - 1], ye - 1, x, xe, ch, style, clip);
        let out = g.update(ye - 1, fill_row(g[ye - 1], ye - 1, x, xe, ch, style, clip));
        assert forall|r: int| 0 <= r < out.len() implies placeholders_intact(#[trigger] out[r]) by {
            if r != ye - 1 {
                assert(out[r] == g[r]);
            }
        }
    }
}

/// Replacing a row by one with intact placeholders keeps a grid's intact.
proof fn lemma_row_update_keeps_placeholders(grid: Seq<Seq<StyledChar>>, y: int, row: Seq<StyledChar>)
    requires
        grid_placeholders_intact(grid),
        placeholders_intact(row),
        0 <= y < grid.len(),
    ensures
        grid_placeholders_intact(grid.update(y, row)),
{
    assert forall|r: int| 0 <= r < grid.update(y, row).len() implies placeholders_intact(#[trigger] grid.update(y, row)[r]) by {
        if r != y {
            assert(grid.update(y, row)[r] == grid[r]);
        }
    }
}

/// The widths of a space and of a placeholder, which the proofs about
/// placeholders use: one column each.
fn blank_cell_widths()
    ensures
        cell_width(' ') == 1,
        cell_width('\0') == 1,
{
    let _ = char_width(' ');
    let _ = char_width('\0');
}

/// The innermost clip region.
pub open spec fn top_clip(stack: Seq<ClipRegion>) -> Option<ClipRegion> {
    if stack.len() > 0 {
        Some(stack.last())
    } else {
        None
    }
}

/// The SGR parameters of a cell's style: bold 1, dim 2, italic 3,
/// underline 4, inverse 7, strikethrough 9, then the foreground and the
/// background color.
pub open spec fn style_codes(c: StyledChar) -> Seq<u8> {
    (if c.bold {
        seq![1u8]
    } else {
        Seq::empty()
    }) + (if c.dim {
        seq![2u8]
    } else {
        Seq::empty()
    }) + (if c.italic {
        seq![3u8]
    } else {
        Seq::empty()
    }) + (if c.underline {
        seq![4u8]
    } else {
        Seq::empty()
    }) + (if c.inverse {
        seq![7u8]
    } else {
        Seq::empty()
    }) + (if c.strikethrough {
        seq![9u8]
    } else {
        Seq::empty()
    }) + (match c.fg {
        Some(f) => color_codes(f, false),
        None => Seq::empty(),
    }) + (match c.bg {
        Some(b) => color_codes(b, true),
        None => Seq::empty(),
    })
}

/// The sequence resetting all styles.
pub open spec fn reset_seq() -> Seq<char> {
    seq!['\x1b', '[', '0', 'm']
}

/// Appends the reset sequence.
fn push_reset(s: &mut String)
    ensures
        final(s)@ == old(s)@ + reset_seq(),
{
    push_char(s, '\x1b');
    push_char(s, '[');
    push_char(s, '0');
    push_char(s, 'm');
    assert(s@ =~= old(s)@ + reset_seq());
}

/// Whether a cell is content: not a placeholder, and not an unstyled space.
pub open spec fn is_content(c: StyledChar) -> bool {
    c.ch != '\0' && (c.ch != ' ' || cell_has_style(c))
}

/// One past the last content cell among the first `k` cells (0 without any).
pub open spec fn content_end(row: Seq<StyledChar>, k: nat) -> nat
    decreases k,
{
    if k == 0 {
        0
    } else if is_content(row[k - 1]) {
        k
    } else {
        content_end(row, (k - 1) as nat)
    }
}

/// The content end lies within the cells looked at.
pub proof fn lemma_content_end_bound(row: Seq<StyledChar>, k: nat)
    ensures
        content_end(row, k) <= k,
    decreases k,
{
    if k > 0 {
        lemma_content_end_bound(row, (k - 1) as nat);
    }
}

/// Rendering the first `k` cells of a row: the text so far and the style
/// in force. Placeholders are skipped; a cell whose style differs from the
/// one in force (or, with none in force, any styled cell) is preceded by a
/// reset (when a style was in force) and its own style sequence.
pub open spec fn render_prefix(row: Seq<StyledChar>, k: nat) -> (Seq<char>, Option<StyledChar>)
    decreases k,
{
    if k == 0 {
        (Seq::empty(), None)
    } else {
        let (t, cur) = render_prefix(row, (k - 1) as nat);
        let cell = row[k - 1];
        if cell.ch == '\0' {
            (t, cur)
        } else {
            let need = match cur {
                None => cell_has_style(cell),
                Some(p) => !cells_same_style(cell, p),
            };
            if need {
                (t + (if cur is Some {
                    reset_seq()
                } else {
                    Seq::empty()
                }) + sgr(style_codes(cell)) + seq![cell.ch], Some(cell))
            } else {
                (t.push(cell.ch), cur)
            }
        }
    }
}

/// The rendering of a row: its cells up to the last content cell, then a
/// reset when a style is in force.
pub open spec fn render_line(row: Seq<StyledChar>) -> Seq<char> {
    let (t, cur) = render_prefix(row, content_end(row, row.len()));
    if cur is Some {
        t + reset_seq()
    } else {
        t
    }
}

/// The lines without the empty lines at the end.
pub open spec fn trim_trailing(lines: Seq<Seq<char>>) -> Seq<Seq<char>>
    decreases lines.len(),
{
    if lines.len() > 0 && lines.last().len() == 0 {
        trim_trailing(lines.drop_last())
    } else {
        lines
    }
}

/// The lines joined with `\r\n`.
pub open spec fn join_crlf(lines: Seq<Seq<char>>) -> Seq<char>
    decreases lines.len(),
{
    if lines.len() == 0 {
        Seq::empty()
    } else if lines.len() == 1 {
        lines[0]
    } else {
        join_crlf(lines.drop_last()) + seq!['\r', '\n'] + lines.last()
    }
}

/// The rendering of a whole grid.
pub open spec fn render_grid(grid: Seq<Seq<StyledChar>>) -> Seq<char> {
    join_crlf(trim_trailing(grid.map_values(|row: Seq<StyledChar>| render_line(row))))
}

/// Output buffer that collects rendered content.
pub struct Output {
    width: u16,
    height: u16,
    grid: Vec<Vec<StyledChar>>,
    clip_stack: Vec<ClipRegion>,
}

/// `n` copies of a cell.
pub open spec fn cells(c: StyledChar, n: nat) -> Seq<StyledChar> {
    Seq::new(n, |i: int| c)
}

impl Output {
    /// The grid has `height` rows of `width` cells.
    pub closed spec fn wf(&self) -> bool {
        &&& self.grid@.len() == self.height
        &&& forall|i: int| 0 <= i < self.grid@.len() ==> #[trigger] self.grid@[i]@.len() == self.width
    }

    /// The number of columns.
    pub fn width(&self) -> (w: u16)
        ensures
            w == self.cols(),
    {
        self.width
    }

    /// The number of rows.
    pub fn height(&self) -> (h: u16)
        ensures
            h == self.rows(),
    {
        self.height
    }

    /// The width field.
    pub closed spec fn cols(&self) -> u16 {
        self.width
    }

    /// The height field.
    pub closed spec fn rows(&self) -> u16 {
        self.height
    }

    /// The grid of cells, row by row.
    pub closed spec fn cells(&self) -> Seq<Seq<StyledChar>> {
        self.grid@.map_values(|r: Vec<StyledChar>| r@)
    }

    /// The stack of clip regions, innermost last.
    pub closed spec fn clips(&self) -> Seq<ClipRegion> {
        self.clip_stack@
    }

    /// A `height` by `width` grid of unstyled spaces, without clip regions.
    pub fn new(width: u16, height: u16) -> (o: Self)
        ensures
            o.cols() == width,
            o.rows() == height,
            o.cells() == Seq::new(height as nat, |i: int| cells(plain_cell(' '), width as nat)),
            o.clips() == Seq::<ClipRegion>::empty(),
            o.wf(),
            grid_placeholders_intact(o.cells()),
    {
        blank_cell_widths();
        let mut grid: Vec<Vec<StyledChar>> = Vec::new();
        let mut r: usize = 0;
        while r < height as usize
            invariant
                r <= height,
                grid@.len() == r,
                forall|i: int| 0 <= i < r ==> #[trigger] grid@[i]@ == cells(plain_cell(' '), width as nat),
            decreases height - r,
        {
            let mut row: Vec<StyledChar> = Vec::new();
            let mut c: usize = 0;
            while c < width as usize
                invariant
                    c <= width,
                    row@ == cells(plain_cell(' '), c as nat),
                decreases width - c,
            {
                row.push(StyledChar::new(' '));
                c = c + 1;
                assert(row@ =~= cells(plain_cell(' '), c as nat));
            }
            grid.push(row);
            r = r + 1;
        }
        let o = Output { width, height, grid, clip_stack: Vec::new() };
        assert(o.cells() =~= Seq::new(height as nat, |i: int| cells(plain_cell(' '), width as nat)));
        assert forall|r: int| 0 <= r < o.cells().len() implies placeholders_intact(#[trigger] o.cells()[r]) by {
            let row = o.cells()[r];
            assert forall|i: int| 0 <= i < row.len() && #[trigger] placeholder_at(row, i) implies i > 0 && wide_at(row, i - 1) by {
                assert(row[i] == plain_cell(' '));
            }
            assert forall|i: int| 0 <= i && i + 2 < row.len() && #[trigger] wide_at(row, i) implies placeholder_at(row, i + 1) by {
                assert(row[i] == plain_cell(' '));
            }
        }
        o
    }

    /// The cell at column `col` of row `row`, if there is one.
    pub fn cell(&self, row: usize, col: usize) -> (c: Option<StyledChar>)
        ensures
            c == (if row < self.cells().len() && col < self.cells()[row as int].len() {
                Some(self.cells()[row as int][col as int])
            } else {
                None
            }),
    {
        if row < self.grid.len() && col < self.grid[row].len() {
            Some(self.grid[row][col])
        } else {
            None
        }
    }

    /// Puts a character at a column of a row (see `place`).
    fn place_at(row: &mut Vec<StyledChar>, col: usize, ch: char, style: &TextStyle)
        requires
            col < old(row)@.len(),
        ensures
            final(row)@ == place(old(row)@, col as int, ch, *style),
    {
        let len = row.len();
        if row[col].ch == '\0' && col > 0 {
            row.set(col - 1, StyledChar::new(' '));
        }
        let old_w = cell_columns(row[col].ch);
        if old_w == 2 && col + 1 < len {
            row.set(col + 1, StyledChar::new(' '));
        }
        row.set(col, StyledChar::with_style(ch, style));
        let w = cell_columns(ch);
        if w == 2 && col + 1 < len {
            if row[col + 1].ch != '\0' {
                let next_w = cell_columns(row[col + 1].ch);
                if next_w == 2 && col + 2 < len {
                    row.set(col + 2, StyledChar::new(' '));
                }
            }
            row.set(col + 1, StyledChar::new('\0'));
        }
    }

    /// The innermost clip region.
    fn current_clip(&self) -> (c: Option<ClipRegion>)
        ensures
            c == top_clip(self.clips()),
    {
        let n = self.clip_stack.len();
        if n > 0 {
            Some(self.clip_stack[n - 1])
        } else {
            None
        }
    }

    /// Write text at a position with a style (see `write_row`); nothing
    /// below the last row.
    pub fn write(&mut self, x: u16, y: u16, text: &str, style: &TextStyle)
        requires
            old(self).wf(),
        ensures
            final(self).wf(),
            final(self).cols() == old(self).cols(),
            final(self).rows() == old(self).rows(),
            final(self).clips() == old(self).clips(),
            final(self).cells() == (if (y as int) < old(self).cells().len() {
                old(self).cells().update(
                    y as int,
                    write_row(old(self).cells()[y as int], x as nat, y as int, text@, *style, top_clip(old(self).clips())),
                )
            } else {
                old(self).cells()
            }),
            grid_placeholders_intact(old(self).cells()) && !text@.contains('\0') ==> grid_placeholders_intact(
                final(self).cells(),
            ),
    {
        blank_cell_widths();
        let row_idx = y as usize;
        if row_idx >= self.grid.len() {
            return;
        }
        let clip = self.current_clip();
        let cs = chars_of(text);
        let mut row = self.grid[row_idx].clone();
        let ghost orig = row@;
        proof {
            assert(orig == old(self).cells()[y as int]);
        }
        let mut col: usize = x as usize;
        let mut i: usize = 0;
        assert(cs@.skip(0) =~= cs@);
        while i < cs.len()
            invariant
                i <= cs@.len(),
                cs@ == text@,
                row@.len() == orig.len(),
                row@.len() <= u16::MAX,
                col <= 65538,
                write_row(row@, col as nat, y as int, cs@.skip(i as int), *style, clip) == write_row(
                    orig,
                    x as nat,
                    y as int,
                    text@,
                    *style,
                    clip,
                ),
            ensures
                row@.len() == orig.len(),
                row@ == write_row(orig, x as nat, y as int, text@, *style, clip),
            decreases cs@.len() - i,
        {
            let ch = cs[i];
            assert(cs@.skip(i as int)[0] == ch);
            assert(cs@.skip(i as int).drop_first() =~= cs@.skip(i + 1));
            if ch == '\n' || col >= row.len() {
                break;
            }
            let w = cell_columns(ch);
            if w == 2 && col + 1 >= row.len() {
                row.set(col, StyledChar::with_style(' ', style));
                col = col + 1;
                i = i + 1;
                continue;
            }
            let shown = match clip {
                Some(r) => r.contains(col as u16, y),
                None => true,
            };
            if shown {
                Self::place_at(&mut row, col, ch, style);
            }
            col = col + w;
            i = i + 1;
        }
        self.grid.set(row_idx, row);
        assert(self.cells() =~= old(self).cells().update(
            y as int,
            write_row(orig, x as nat, y as int, text@, *style, clip),
        ));
        proof {
            if grid_placeholders_intact(old(self).cells()) && !text@.contains('\0') {
                lemma_write_row_keeps_placeholders(orig, x as nat, y as int, text@, *style, clip);
                lemma_row_update_keeps_placeholders(
                    old(self).cells(),
                    y as int,
                    write_row(orig, x as nat, y as int, text@, *style, clip),
                );
            }
        }
    }

    /// Write a single character at a position (see `put_char`); nothing
    /// outside the grid.
    pub fn write_char(&mut self, x: u16, y: u16, ch: char, style: &TextStyle)
        requires
            old(self).wf(),
        ensures
            final(self).wf(),
            final(self).cols() == old(self).cols(),
            final(self).rows() == old(self).rows(),
            final(self).clips() == old(self).clips(),
            final(self).cells() == (if (y as int) < old(self).cells().len() {
                old(self).cells().update(
                    y as int,
                    put_char(old(self).cells()[y as int], x as int, y as int, ch, *style, top_clip(old(self).clips())),
                )
            } else {
                old(self).cells()
            }),
            grid_placeholders_intact(old(self).cells()) && ch != '\0' ==> grid_placeholders_intact(
                final(self).cells(),
            ),
    {
        blank_cell_widths();
        proof {
            if (y as int) < old(self).cells().len() && grid_placeholders_intact(old(self).cells()) && ch != '\0' {
                lemma_put_char_keeps_placeholders(old(self).cells()[y as int], x as int, y as int, ch, *style, top_clip(old(self).clips()));
                lemma_row_update_keeps_placeholders(
                    old(self).cells(),
                    y as int,
                    put_char(old(self).cells()[y as int], x as int, y as int, ch, *style, top_clip(old(self).clips())),
                );
            }
        }
        let row_idx = y as usize;
        let col = x as usize;
        if row_idx >= self.grid.len() {
            return;
        }
        let clip = self.current_clip();
        let mut row = self.grid[row_idx].clone();
        let ghost orig = row@;
        if col >= row.len() {
            return;
        }
        let w = cell_columns(ch);
        if w == 2 && col + 1 >= row.len() {
            row.set(col, StyledChar::with_style(' ', style));
        } else {
            let shown = match clip {
                Some(r) => r.contains(x, y),
                None => true,
            };
            if !shown {
                return;
            }
            Self::place_at(&mut row, col, ch, style);
        }
        self.grid.set(row_idx, row);
        assert(self.cells() =~= old(self).cells().update(
            y as int,
            put_char(orig, x as int, y as int, ch, *style, clip),
        ));
    }

    /// Fill a rectangle with a character: `write_char` on every cell of
    /// columns `x..x + width` of rows `y..y + height`, clipped to the grid,
    /// row by row.
    ///
    /// `x + width` and `y + height` must fit in `u16`.
    pub fn fill_rect(&mut self, x: u16, y: u16, width: u16, height: u16, ch: char, style: &TextStyle)
        requires
            old(self).wf(),
            x + width <= u16::MAX,
            y + height <= u16::MAX,
        ensures
            final(self).wf(),
            final(self).cols() == old(self).cols(),
            final(self).rows() == old(self).rows(),
            final(self).clips() == old(self).clips(),
            final(self).cells() == fill_rows(
                old(self).cells(),
                y as nat,
                min_nat((y + height) as nat, old(self).rows() as nat),
                x as nat,
                min_nat((x + width) as nat, old(self).cols() as nat),
                ch,
                *style,
                top_clip(old(self).clips()),
            ),
            grid_placeholders_intact(old(self).cells()) && ch != '\0' ==> grid_placeholders_intact(
                final(self).cells(),
            ),
    {
        blank_cell_widths();
        proof {
            if grid_placeholders_intact(old(self).cells()) && ch != '\0' {
                lemma_fill_rows_keeps_placeholders(
                    old(self).cells(),
                    y as nat,
                    min_nat((y + height) as nat, old(self).rows() as nat),
                    x as nat,
                    min_nat((x + width) as nat, old(self).cols() as nat),
                    ch,
                    *style,
                    top_clip(old(self).clips()),
                );
            }
        }
        let ye: u16 = if y + height < self.height {
            y + height
        } else {
            self.height
        };
        let xe: u16 = if x + width < self.width {
            x + width
        } else {
            self.width
        };
        let ghost clip = top_clip(self.clips());
        let ghost g0 = self.cells();
        if ye <= y {
            return;
        }
        let mut r: u16 = y;
        while r < ye
            invariant
                self.wf(),
                self.cols() == old(self).cols(),
                self.rows() == old(self).rows(),
                self.clips() == old(self).clips(),
                g0 == old(self).cells(),
                clip == top_clip(self.clips()),
                y <= r <= ye <= self.rows(),
                xe <= self.cols(),
                self.cells().len() == self.rows(),
                self.cells() == fill_rows(g0, y as nat, r as nat, x as nat, xe as nat, ch, *style, clip),
            decreases ye - r,
        {
            let ghost before = self.cells();
            let mut c: u16 = x;
            assert(fill_row(before[r as int], r as int, x as nat, x as nat, ch, *style, clip) == before[r as int]);
            assert(before.update(r as int, before[r as int]) =~= before);
            while c < xe
                invariant
                    self.wf(),
                    self.cols() == old(self).cols(),
                    self.rows() == old(self).rows(),
                    self.clips() == old(self).clips(),
                    clip == top_clip(self.clips()),
                    r < ye <= self.rows(),
                    xe <= self.cols(),
                    x <= c,
                    c <= xe || c == x,
                    before.len() == self.rows(),
                    self.cells().len() == self.rows(),
                    self.cells() == before.update(r as int, fill_row(before[r as int], r as int, x as nat, c as nat, ch, *style, clip)),
                decreases xe - c,
            {
                self.write_char(c, r, ch, style);
                c = c + 1;
                assert(self.cells() =~= before.update(r as int, fill_row(before[r as int], r as int, x as nat, c as nat, ch, *style, clip)));
            }
            if c != xe {
                assert(fill_row(before[r as int], r as int, x as nat, c as nat, ch, *style, clip) == before[r as int]);
                assert(fill_row(before[r as int], r as int, x as nat, xe as nat, ch, *style, clip) == before[r as int]);
            }
            r = r + 1;
        }
    }

    /// Push a clip region.
    pub fn clip(&mut self, region: ClipRegion)
        requires
            old(self).wf(),
        ensures
            final(self).wf(),
            final(self).cols() == old(self).cols(),
            final(self).rows() == old(self).rows(),
            final(self).cells() == old(self).cells(),
            final(self).clips() == old(self).clips().push(region),
    {
        self.clip_stack.push(region);
    }

    /// Pop the innermost clip region, if any.
    pub fn unclip(&mut self)
        requires
            old(self).wf(),
        ensures
            final(self).wf(),
            final(self).cols() == old(self).cols(),
            final(self).rows() == old(self).rows(),
            final(self).cells() == old(self).cells(),
            final(self).clips() == (if old(self).clips().len() > 0 {
                old(self).clips().drop_last()
            } else {
                old(self).clips()
            }),
    {
        if self.clip_stack.len() > 0 {
            self.clip_stack.pop();
        }
    }

    /// The SGR sequence of a cell's style (nothing for an unstyled cell).
    fn push_style(out: &mut String, cell: &StyledChar)
        ensures
            final(out)@ == old(out)@ + sgr(style_codes(*cell)),
    {
        let mut codes: Vec<u8> = Vec::new();
        Self::push_flag(&mut codes, cell.bold, 1);
        Self::push_flag(&mut codes, cell.dim, 2);
        Self::push_flag(&mut codes, cell.italic, 3);
        Self::push_flag(&mut codes, cell.underline, 4);
        Self::push_flag(&mut codes, cell.inverse, 7);
        Self::push_flag(&mut codes, cell.strikethrough, 9);
        let ghost attrs = codes@;
        if let Some(fg) = cell.fg {
            push_color_codes(fg, false, &mut codes);
        }
        let ghost with_fg = codes@;
        if let Some(bg) = cell.bg {
            push_color_codes(bg, true, &mut codes);
        }
        proof {
            assert(with_fg =~= attrs + (match cell.fg {
                Some(f) => color_codes(f, false),
                None => Seq::empty(),
            }));
            assert(codes@ =~= with_fg + (match cell.bg {
                Some(b) => color_codes(b, true),
                None => Seq::empty(),
            }));
            assert(codes@ =~= style_codes(*cell));
        }
        push_sgr(out, &codes);
    }

    /// Appends `code` when `flag` is set.
    fn push_flag(codes: &mut Vec<u8>, flag: bool, code: u8)
        ensures
            final(codes)@ == old(codes)@ + (if flag {
                seq![code]
            } else {
                Seq::<u8>::empty()
            }),
    {
        if flag {
            codes.push(code);
        }
        assert(codes@ =~= old(codes)@ + (if flag {
            seq![code]
        } else {
            Seq::<u8>::empty()
        }));
    }

    /// The rendering of one row (see `render_line`).
    fn render_row(row: &Vec<StyledChar>) -> (s: String)
        ensures
            s@ == render_line(row@),
    {
        let mut last: usize = 0;
        let mut i: usize = 0;
        while i < row.len()
            invariant
                i <= row@.len(),
                last == content_end(row@, i as nat),
            decreases row@.len() - i,
        {
            let cell = row[i];
            if cell.ch != '\0' && (cell.ch != ' ' || cell.has_style()) {
                last = i + 1;
            }
            i = i + 1;
        }
        let mut line = String::new();
        let mut current: Option<StyledChar> = None;
        let mut k: usize = 0;
        assert(content_end(row@, row@.len()) <= row@.len()) by {
            lemma_content_end_bound(row@, row@.len());
        }
        while k < last
            invariant
                k <= last <= row@.len(),
                last == content_end(row@, row@.len()),
                (line@, current) == render_prefix(row@, k as nat),
            decreases last - k,
        {
            let cell = row[k];
            if cell.ch != '\0' {
                let need = match current {
                    None => cell.has_style(),
                    Some(prev) => !cell.same_style(&prev),
                };
                if need {
                    if current.is_some() {
                        push_reset(&mut line);
                    }
                    Self::push_style(&mut line, &cell);
                    current = Some(cell);
                }
                push_char(&mut line, cell.ch);
            }
            k = k + 1;
        }
        if current.is_some() {
            push_reset(&mut line);
        }
        line
    }

    /// Convert the buffer to text with ANSI style sequences: each row
    /// rendered (see `render_line`), trailing empty lines dropped, lines
    /// joined with `\r\n`.
    pub fn render(&self) -> (s: String)
        ensures
            s@ == render_grid(self.cells()),
    {
        let mut lines: Vec<String> = Vec::new();
        let mut r: usize = 0;
        while r < self.grid.len()
            invariant
                r <= self.grid@.len(),
                lines@.len() == r,
                forall|i: int| 0 <= i < r ==> #[trigger] lines@[i]@ == render_line(self.cells()[i]),
            decreases self.grid@.len() - r,
        {
            lines.push(Self::render_row(&self.grid[r]));
            r = r + 1;
        }
        let ghost all = self.cells().map_values(|row: Seq<StyledChar>| render_line(row));
        assert(lines@.map_values(|l: String| l@) =~= all);
        while lines.len() > 0 && lines[lines.len() - 1].as_str().is_empty()
            invariant
                trim_trailing(lines@.map_values(|l: String| l@)) == trim_trailing(all),
            decreases lines@.len(),
        {
            let ghost before = lines@.map_values(|l: String| l@);
            lines.pop();
            assert(lines@.map_values(|l: String| l@) =~= before.drop_last());
        }
        let ghost kept = lines@.map_values(|l: String| l@);
        assert(kept == trim_trailing(all));
        let mut out = String::new();
        let mut i: usize = 0;
        while i < lines.len()
            invariant
                i <= lines@.len(),
                kept == lines@.map_values(|l: String| l@),
                out@ == join_crlf(kept.take(i as int)),
            decreases lines@.len() - i,
        {
            if i > 0 {
                push_char(&mut out, '\r');
                push_char(&mut out, '\n');
            }
            crate::text::push_str(&mut out, lines[i].as_str());
            i = i + 1;
            assert(kept.take(i as int).drop_last() =~= kept.take(i - 1));
            assert(out@ =~= join_crlf(kept.take(i as int)));
        }
        assert(kept.take(kept.len() as int) =~= kept);
        out
    }
}

/// No character of `s` is the placeholder `'\0'`.
pub open spec fn free_of_placeholders(s: Seq<char>) -> bool {
    forall|i: int| 0 <= i < s.len() ==> #[trigger] s[i] != '\0'
}

/// A decimal digit is not the placeholder.
proof fn lemma_digit_free(d: nat)
    requires
        d < 10,
    ensures
        digit_char(d) != '\0',
{
    assert(((48 + d) as u8) == 48 + d);
    assert((((48 + d) as u8) as char) as u32 == 48 + d);
}

/// Decimal numerals are made of digits.
proof fn lemma_decimal_free(n: nat)
    ensures
        free_of_placeholders(decimal(n)),
    decreases n,
{
    if n >= 10 {
        lemma_decimal_free(n / 10);
        lemma_digit_free(n % 10);
    } else {
        lemma_digit_free(n);
    }
}

/// Joined SGR parameters are made of digits and semicolons.
proof fn lemma_joined_free(codes: Seq<u8>)
    ensures
        free_of_placeholders(joined_codes(codes)),
    decreases codes.len(),
{
    if codes.len() == 1 {
        lemma_decimal_free(codes[0] as nat);
    } else if codes.len() > 1 {
        lemma_joined_free(codes.drop_last());
        lemma_decimal_free(codes.last() as nat);
        let a = joined_codes(codes.drop_last());
        let d = decimal(codes.last() as nat);
        assert forall|i: int| 0 <= i < joined_codes(codes).len() implies #[trigger] joined_codes(codes)[i] != '\0' by {
            if i < a.len() {
                assert(joined_codes(codes)[i] == a[i]);
            } else if i > a.len() {
                assert(joined_codes(codes)[i] == d[i - a.len() - 1]);
            }
        }
    }
}

/// The concatenation of two texts without placeholders has none.
proof fn lemma_concat_free(a: Seq<char>, b: Seq<char>)
    requires
        free_of_placeholders(a),
        free_of_placeholders(b),
    ensures
        free_of_placeholders(a + b),
{
    assert forall|i: int| 0 <= i < (a + b).len() implies #[trigger] (a + b)[i] != '\0' by {
        if i < a.len() {
            assert((a + b)[i] == a[i]);
        } else {
            assert((a + b)[i] == b[i - a.len()]);
        }
    }
}

/// SGR sequences contain no placeholder.
proof fn lemma_sgr_free(codes: Seq<u8>)
    ensures
        free_of_placeholders(sgr(codes)),
{
    if codes.len() > 0 {
        lemma_joined_free(codes);
        lemma_concat_free(seq!['\x1b', '['], joined_codes(codes));
        lemma_concat_free(seq!['\x1b', '['] + joined_codes(codes), seq!['m']);
    }
}

/// Rendering a prefix of a row emits no placeholder.
proof fn lemma_render_prefix_free(row: Seq<StyledChar>, k: nat)
    requires
        k <= row.len(),
    ensures
        free_of_placeholders(render_prefix(row, k).0),
    decreases k,
{
    if k > 0 {
        lemma_render_prefix_free(row, (k - 1) as nat);
        let (t, cur) = render_prefix(row, (k - 1) as nat);
        let cell = row[k - 1];
        if cell.ch != '\0' {
            let reset = if cur is Some {
                reset_seq()
            } else {
                Seq::<char>::empty()
            };
            lemma_sgr_free(style_codes(cell));
            lemma_concat_free(t, reset);
            lemma_concat_free(t + reset, sgr(style_codes(cell)));
            lemma_concat_free(t + reset + sgr(style_codes(cell)), seq![cell.ch]);
            assert(t.push(cell.ch) =~= t + seq![cell.ch]);
            lemma_concat_free(t, seq![cell.ch]);
        }
    }
}

/// Joining lines without placeholders gives a text without placeholders.
proof fn lemma_join_free(lines: Seq<Seq<char>>)
    requires
        forall|i: int| 0 <= i < lines.len() ==> free_of_placeholders(#[trigger] lines[i]),
    ensures
        free_of_placeholders(join_crlf(lines)),
    decreases lines.len(),
{
    if lines.len() > 1 {
        lemma_join_free(lines.drop_last());
        lemma_concat_free(join_crlf(lines.drop_last()), seq!['\r', '\n']);
        lemma_concat_free(join_crlf(lines.drop_last()) + seq!['\r', '\n'], lines.last());
    } else if lines.len() == 1 {
        assert(free_of_placeholders(lines[0]));
    }
}

/// Trimming trailing lines keeps a prefix of the lines.
proof fn lemma_trim_prefix(lines: Seq<Seq<char>>)
    ensures
        trim_trailing(lines).len() <= lines.len(),
        forall|i: int| 0 <= i < trim_trailing(lines).len() ==> #[trigger] trim_trailing(lines)[i] == lines[i],
    decreases lines.len(),
{
    if lines.len() > 0 && lines.last().len() == 0 {
        lemma_trim_prefix(lines.drop_last());
    }
}

/// The rendering of a grid never shows the placeholder that follows a
/// double-width character.
pub proof fn law_render_has_no_placeholders(grid: Seq<Seq<StyledChar>>)
    ensures
        free_of_placeholders(render_grid(grid)),
{
    let lines = grid.map_values(|row: Seq<StyledChar>| render_line(row));
    assert forall|i: int| 0 <= i < lines.len() implies free_of_placeholders(#[trigger] lines[i]) by {
        let row = grid[i];
        lemma_content_end_bound(row, row.len());
        lemma_render_prefix_free(row, content_end(row, row.len()));
        let (t, cur) = render_prefix(row, content_end(row, row.len()));
        lemma_concat_free(t, reset_seq());
    }
    lemma_trim_prefix(lines);
    lemma_join_free(trim_trailing(lines));
}

/// A character that fits, written within the row and the clip region,
/// can be read back from its cell.
pub proof fn law_written_char_reads_back(
    row: Seq<StyledChar>,
    col: int,
    y: int,
    ch: char,
    style: TextStyle,
    clip: Option<ClipRegion>,
)
    requires
        0 <= col < row.len(),
        cell_width(ch) < 2 || col + 1 < row.len(),
        visible(clip, col, y),
    ensures
        put_char(row, col, y, ch, style, clip).len() == row.len(),
        put_char(row, col, y, ch, style, clip)[col] == styled_cell(ch, style),
{
}

/// A character written outside the clip region changes nothing.
pub proof fn law_clipped_write_changes_nothing(
    row: Seq<StyledChar>,
    col: int,
    y: int,
    ch: char,
    style: TextStyle,
    clip: Option<ClipRegion>,
)
    requires
        cell_width(ch) < 2 || col + 1 < row.len(),
        !visible(clip, col, y),
    ensures
        put_char(row, col, y, ch, style, clip) == row,
{
}

/// A side of a box border.
#[derive(Debug, Clone, Copy, PartialEq, Eq, Structural)]
pub enum BorderSide {
    Top,
    Bottom,
    Left,
    Right,
}

/// One character of a border: where it goes, what it is, and which side
/// it belongs to (which decides its color).
#[derive(Debug, Clone, Copy, PartialEq, Eq, Structural)]
pub struct BorderCell {
    pub x: u16,
    pub y: u16,
    pub ch: char,
    pub side: BorderSide,
}

/// Which sides of a border are drawn.
#[derive(Debug, Clone, Copy, PartialEq, Eq, Structural)]
pub struct BorderSides {
    pub top: bool,
    pub bottom: bool,
    pub left: bool,
    pub right: bool,
}

/// The border characters: corners (top left, top right, bottom left,
/// bottom right), then the horizontal and the vertical line.
pub type BorderChars = (char, char, char, char, char, char);

/// The cells of a horizontal run on row `y`, columns `from..to`.
pub open spec fn run_cells(from: int, to: int, y: int, ch: char, side: BorderSide) -> Seq<BorderCell> {
    Seq::new(
        (if to > from { to - from } else { 0 }) as nat,
        |i: int| BorderCell { x: (from + i) as u16, y: y as u16, ch, side },
    )
}

/// The cells of a vertical run in column `x`, rows `from..to`.
pub open spec fn column_cells(x: int, from: int, to: int, ch: char, side: BorderSide) -> Seq<BorderCell> {
    Seq::new(
        (if to > from { to - from } else { 0 }) as nat,
        |i: int| BorderCell { x: x as u16, y: (from + i) as u16, ch, side },
    )
}

/// The top edge of a border: corner, line, and the other corner when the
/// box is at least two columns wide; nothing when the top is not drawn or
/// the box has no rows.
pub open spec fn border_top(x: int, y: int, width: int, height: int, sides: BorderSides, c: BorderChars) -> Seq<BorderCell> {
    if sides.top && height > 0 {
        seq![BorderCell { x: x as u16, y: y as u16, ch: c.0, side: BorderSide::Top }] + run_cells(
            x + 1,
            x + width - 1,
            y,
            c.4,
            BorderSide::Top,
        ) + (if width > 1 {
            seq![BorderCell { x: (x + width - 1) as u16, y: y as u16, ch: c.1, side: BorderSide::Top }]
        } else {
            Seq::empty()
        })
    } else {
        Seq::empty()
    }
}

/// The bottom edge of a border, like the top one on the last row; only
/// for boxes at least two rows high.
pub open spec fn border_bottom(x: int, y: int, width: int, height: int, sides: BorderSides, c: BorderChars) -> Seq<BorderCell> {
    let by = y + height - 1;
    if sides.bottom && height > 1 {
        seq![BorderCell { x: x as u16, y: by as u16, ch: c.2, side: BorderSide::Bottom }] + run_cells(
            x + 1,
            x + width - 1,
            by,
            c.4,
            BorderSide::Bottom,
        ) + (if width > 1 {
            seq![BorderCell { x: (x + width - 1) as u16, y: by as u16, ch: c.3, side: BorderSide::Bottom }]
        } else {
            Seq::empty()
        })
    } else {
        Seq::empty()
    }
}

/// The left side of a border: the vertical line between the edges.
pub open spec fn border_left(x: int, y: int, width: int, height: int, sides: BorderSides, c: BorderChars) -> Seq<BorderCell> {
    if sides.left {
        column_cells(x, y + 1, y + height - 1, c.5, BorderSide::Left)
    } else {
        Seq::empty()
    }
}

/// The right side of a border, for boxes at least two columns wide.
pub open spec fn border_right(x: int, y: int, width: int, height: int, sides: BorderSides, c: BorderChars) -> Seq<BorderCell> {
    if sides.right && width > 1 {
        column_cells(x + width - 1, y + 1, y + height - 1, c.5, BorderSide::Right)
    } else {
        Seq::empty()
    }
}

/// The cells of a border around the box at (`x`, `y`) of `width` by
/// `height` cells, in drawing order: top edge, bottom edge, left side,
/// right side.
pub open spec fn border_plan(x: int, y: int, width: int, height: int, sides: BorderSides, c: BorderChars) -> Seq<BorderCell> {
    border_top(x, y, width, height, sides, c) + border_bottom(x, y, width, height, sides, c) + border_left(
        x,
        y,
        width,
        height,
        sides,
        c,
    ) + border_right(x, y, width, height, sides, c)
}

/// Pushing an element is appending it.
proof fn lemma_push_is_concat<A>(s: Seq<A>, a: A)
    ensures
        s.push(a) == s + seq![a],
{
    assert(s.push(a) =~= s + seq![a]);
}

/// Appends a horizontal run of border cells.
fn push_run(v: &mut Vec<BorderCell>, from: u16, to: u16, y: u16, ch: char, side: BorderSide)
    ensures
        final(v)@ == old(v)@ + run_cells(from as int, to as int, y as int, ch, side),
{
    let mut i: u16 = from;
    while i < to
        invariant
            from <= i <= to || (i == from && to <= from),
            v@ == old(v)@ + run_cells(from as int, i as int, y as int, ch, side),
        decreases to - i,
    {
        v.push(BorderCell { x: i, y, ch, side });
        i = i + 1;
        assert(v@ =~= old(v)@ + run_cells(from as int, i as int, y as int, ch, side));
    }
    if to <= from {
        assert(run_cells(from as int, to as int, y as int, ch, side) =~= Seq::<BorderCell>::empty());
        assert(run_cells(from as int, i as int, y as int, ch, side) =~= Seq::<BorderCell>::empty());
    }
}

/// Appends a vertical run of border cells.
fn push_column(v: &mut Vec<BorderCell>, x: u16, from: u16, to: u16, ch: char, side: BorderSide)
    ensures
        final(v)@ == old(v)@ + column_cells(x as int, from as int, to as int, ch, side),
{
    let mut i: u16 = from;
    while i < to
        invariant
            from <= i <= to || (i == from && to <= from),
            v@ == old(v)@ + column_cells(x as int, from as int, i as int, ch, side),
        decreases to - i,
    {
        v.push(BorderCell { x, y: i, ch, side });
        i = i + 1;
        assert(v@ =~= old(v)@ + column_cells(x as int, from as int, i as int, ch, side));
    }
    if to <= from {
        assert(column_cells(x as int, from as int, to as int, ch, side) =~= Seq::<BorderCell>::empty());
        assert(column_cells(x as int, from as int, i as int, ch, side) =~= Seq::<BorderCell>::empty());
    }
}

/// The cells of a border (see `border_plan`). Where a drawn part reaches
/// the box's far column or row, the box must end within the `u16` range; a
/// drawn top or bottom edge needs the box to end past column 0 and start
/// before the last column, and a drawn side likewise for rows (there the
/// runs between the corners are computed).
pub fn border_cells(x: u16, y: u16, width: u16, height: u16, sides: BorderSides, chars: BorderChars) -> (v: Vec<BorderCell>)
    requires
        (sides.top && height > 0) || (sides.bottom && height > 1) || (sides.right && width > 1) ==> x
            + width <= u16::MAX,
        (sides.bottom && height > 1) || sides.left || (sides.right && width > 1) ==> y + height
            <= u16::MAX,
        (sides.top && height > 0) || (sides.bottom && height > 1) ==> x + width > 0 && x < u16::MAX,
        sides.left || (sides.right && width > 1) ==> y + height > 0 && y < u16::MAX,
    ensures
        v@ == border_plan(x as int, y as int, width as int, height as int, sides, chars),
{
    let (tl, tr, bl, br, h, vert) = chars;
    let ghost (xi, yi, wi, hi) = (x as int, y as int, width as int, height as int);
    let mut v: Vec<BorderCell> = Vec::new();
    if sides.top && height > 0 {
        v.push(BorderCell { x, y, ch: tl, side: BorderSide::Top });
        let ghost first = v@;
        assert(first =~= seq![BorderCell { x: xi as u16, y: yi as u16, ch: chars.0, side: BorderSide::Top }]);
        push_run(&mut v, x + 1, x + width - 1, y, h, BorderSide::Top);
        assert(v@ =~= first + run_cells(xi + 1, xi + wi - 1, yi, chars.4, BorderSide::Top));
        let ghost mid = v@;
        if width > 1 {
            let xr: u16 = x + width - 1;
            assert((xi + wi - 1) as u16 == xr);
            let cell = BorderCell { x: xr, y, ch: tr, side: BorderSide::Top };
            assert(cell == BorderCell { x: (xi + wi - 1) as u16, y: yi as u16, ch: chars.1, side: BorderSide::Top });
            v.push(cell);
            proof {
                lemma_push_is_concat(mid, cell);
            }
            assert(v@ =~= mid + seq![BorderCell { x: (xi + wi - 1) as u16, y: yi as u16, ch: chars.1, side: BorderSide::Top }]);
        }
    }
    assert(v@ =~= border_top(xi, yi, wi, hi, sides, chars));
    let ghost after_top = v@;
    if sides.bottom && height > 1 {
        let by = y + height - 1;
        assert((yi + hi - 1) as u16 == by);
        let mut part: Vec<BorderCell> = Vec::new();
        let corner = BorderCell { x, y: by, ch: bl, side: BorderSide::Bottom };
        part.push(corner);
        let ghost first = part@;
        assert(first =~= seq![BorderCell { x: xi as u16, y: (yi + hi - 1) as u16, ch: chars.2, side: BorderSide::Bottom }]);
        push_run(&mut part, x + 1, x + width - 1, by, h, BorderSide::Bottom);
        assert(part@ =~= first + run_cells(xi + 1, xi + wi - 1, yi + hi - 1, chars.4, BorderSide::Bottom));
        let ghost mid = part@;
        if width > 1 {
            let xr: u16 = x + width - 1;
            assert((xi + wi - 1) as u16 == xr);
            let cell = BorderCell { x: xr, y: by, ch: br, side: BorderSide::Bottom };
            assert(cell == BorderCell { x: (xi + wi - 1) as u16, y: (yi + hi - 1) as u16, ch: chars.3, side: BorderSide::Bottom });
            part.push(cell);
            proof {
                lemma_push_is_concat(mid, cell);
            }
        }
        assert(part@ =~= border_bottom(xi, yi, wi, hi, sides, chars));
        v.append(&mut part);
    }
    assert(v@ =~= after_top + border_bottom(xi, yi, wi, hi, sides, chars));
    let ghost after_bottom = v@;
    if sides.left {
        push_column(&mut v, x, y + 1, y + height - 1, vert, BorderSide::Left);
    }
    assert(v@ =~= after_bottom + border_left(xi, yi, wi, hi, sides, chars));
    let ghost after_left = v@;
    if sides.right && width > 1 {
        push_column(&mut v, x + width - 1, y + 1, y + height - 1, vert, BorderSide::Right);
    }
    assert(v@ =~= after_left + border_right(xi, yi, wi, hi, sides, chars));
    assert(v@ =~= border_plan(x as int, y as int, width as int, height as int, sides, chars));
    v
}

} // verus!
