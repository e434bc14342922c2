//! Terminal colors and their parsing from hex notation.

use vstd::prelude::*;
use crate::text::{chars_of, decimal, push_char, push_decimal, push_str};

verus! {

/// Color type supporting the basic, bright, 256-palette and RGB colors.
#[derive(Debug, Clone, Copy, PartialEq, Eq, Structural)]
pub enum Color {
    /// Default terminal color
    Reset,
    Black,
    Red,
    Green,
    Yellow,
    Blue,
    Magenta,
    Cyan,
    White,
    BrightBlack,
    BrightRed,
    BrightGreen,
    BrightYellow,
    BrightBlue,
    BrightMagenta,
    BrightCyan,
    BrightWhite,
    /// 256-color palette (0-255)
    Ansi256(u8),
    /// RGB color (24-bit)
    Rgb(u8, u8, u8),
}

impl Default for Color {
    fn default() -> (r: Self)
        ensures
            r == Color::Reset,
    {
        Color::Reset
    }
}

/// The value of a hexadecimal digit (`0-9`, `a-f`, `A-F`).
pub open spec fn hex_digit_value(c: char) -> Option<nat> {
    if '0' <= c && c <= '9' {
        Some((c as nat - '0' as nat) as nat)
    } else if 'a' <= c && c <= 'f' {
        Some((c as nat - 'a' as nat + 10) as nat)
    } else if 'A' <= c && c <= 'F' {
        Some((c as nat - 'A' as nat + 10) as nat)
    } else {
        None
    }
}

/// A two-character byte in base 16 as `u8::from_str_radix` reads it: two
/// hex digits, or a `+` sign followed by one hex digit.
pub open spec fn hex_byte(a: char, b: char) -> Option<u8> {
    if a == '+' {
        match hex_digit_value(b) {
            Some(v) => Some(v as u8),
            None => None,
        }
    } else {
        match (hex_digit_value(a), hex_digit_value(b)) {
            (Some(x), Some(y)) => Some((16 * x + y) as u8),
            _ => None,
        }
    }
}

/// The string with all leading `#` characters removed.
pub open spec fn strip_hashes(s: Seq<char>) -> Seq<char>
    decreases s.len(),
{
    if s.len() > 0 && s[0] == '#' {
        strip_hashes(s.drop_first())
    } else {
        s
    }
}

/// The color that a hex string denotes: after the leading `#`s, exactly
/// six characters forming three bytes.
pub open spec fn hex_color(s: Seq<char>) -> Option<Color> {
    let h = strip_hashes(s);
    if h.len() != 6 {
        None
    } else {
        match (hex_byte(h[0], h[1]), hex_byte(h[2], h[3]), hex_byte(h[4], h[5])) {
            (Some(r), Some(g), Some(b)) => Some(Color::Rgb(r, g, b)),
            _ => None,
        }
    }
}

/// Reads a hex digit.
fn hex_digit(c: char) -> (r: Option<u8>)
    ensures
        r matches Some(v) ==> hex_digit_value(c) == Some(v as nat) && v < 16,
        r is None <==> hex_digit_value(c) is None,
{
    if '0' <= c && c <= '9' {
        Some((c as u32 - '0' as u32) as u8)
    } else if 'a' <= c && c <= 'f' {
        Some((c as u32 - 'a' as u32 + 10) as u8)
    } else if 'A' <= c && c <= 'F' {
        Some((c as u32 - 'A' as u32 + 10) as u8)
    } else {
        None
    }
}

/// Reads a two-character byte in base 16.
fn parse_byte(a: char, b: char) -> (r: Option<u8>)
    ensures
        r == hex_byte(a, b),
{
    if a == '+' {
        hex_digit(b)
    } else {
        match (hex_digit(a), hex_digit(b)) {
            (Some(x), Some(y)) => Some(16 * x + y),
            _ => None,
        }
    }
}

impl Color {
    /// Create a color from a hex string (e.g. `"#ff0000"` or `"ff0000"`);
    /// `Color::Reset` for anything that is not one.
    pub fn hex(hex: &str) -> (c: Self)
        ensures
            c == (match hex_color(hex@) {
                Some(v) => v,
                None => Color::Reset,
            }),
    {
        match Self::try_hex(hex) {
            Some(c) => c,
            None => Color::Reset,
        }
    }

    /// Try to create a color from a hex string: `None` unless, after its
    /// leading `#`s, it holds exactly three bytes in base 16.
    pub fn try_hex(hex: &str) -> (c: Option<Self>)
        ensures
            c == hex_color(hex@),
    {
        let cs = chars_of(hex);
        let mut start: usize = 0;
        assert(cs@.skip(0) =~= cs@);
        while start < cs.len() && cs[start] == '#'
            invariant
                start <= cs@.len(),
                strip_hashes(cs@) == strip_hashes(cs@.skip(start as int)),
            decreases cs@.len() - start,
        {
            assert(cs@.skip(start as int).drop_first() =~= cs@.skip(start + 1));
            start = start + 1;
        }
        assert(strip_hashes(cs@.skip(start as int)) == cs@.skip(start as int));
        if cs.len() - start != 6 {
            return None;
        }
        let r = parse_byte(cs[start], cs[start + 1]);
        let g = parse_byte(cs[start + 2], cs[start + 3]);
        let b = parse_byte(cs[start + 4], cs[start + 5]);
        match (r, g, b) {
            (Some(r), Some(g), Some(b)) => Some(Color::Rgb(r, g, b)),
            _ => None,
        }
    }

    /// Create an RGB color.
    pub fn rgb(r: u8, g: u8, b: u8) -> (c: Self)
        ensures
            c == Color::Rgb(r, g, b),
    {
        Color::Rgb(r, g, b)
    }

    /// Create a 256-color palette color.
    pub fn ansi256(code: u8) -> (c: Self)
        ensures
            c == Color::Ansi256(code),
    {
        Color::Ansi256(code)
    }
}

/// The SGR parameters selecting a color, for the foreground (base 30) or
/// the background (base 40); none for `Reset`.
pub open spec fn color_codes(color: Color, background: bool) -> Seq<u8> {
    let base: int = if background { 40 } else { 30 };
    let ext: u8 = if background { 48 } else { 38 };
    match color {
        Color::Reset => Seq::empty(),
        Color::Black => seq![base as u8],
        Color::Red => seq![(base + 1) as u8],
        Color::Green => seq![(base + 2) as u8],
        Color::Yellow => seq![(base + 3) as u8],
        Color::Blue => seq![(base + 4) as u8],
        Color::Magenta => seq![(base + 5) as u8],
        Color::Cyan => seq![(base + 6) as u8],
        Color::White => seq![(base + 7) as u8],
        Color::BrightBlack => seq![(base + 60) as u8],
        Color::BrightRed => seq![(base + 61) as u8],
        Color::BrightGreen => seq![(base + 62) as u8],
        Color::BrightYellow => seq![(base + 63) as u8],
        Color::BrightBlue => seq![(base + 64) as u8],
        Color::BrightMagenta => seq![(base + 65) as u8],
        Color::BrightCyan => seq![(base + 66) as u8],
        Color::BrightWhite => seq![(base + 67) as u8],
        Color::Ansi256(n) => seq![ext, 5, n],
        Color::Rgb(r, g, b) => seq![ext, 2, r, g, b],
    }
}

/// Appends the SGR parameters selecting `color` to `codes`.
pub fn push_color_codes(color: Color, background: bool, codes: &mut Vec<u8>)
    ensures
        final(codes)@ == old(codes)@ + color_codes(color, background),
{
    let base: u8 = if background {
        40
    } else {
        30
    };
    let ext: u8 = if background {
        48
    } else {
        38
    };
    match color {
        Color::Reset => {},
        Color::Black => codes.push(base),
        Color::Red => codes.push(base + 1),
        Color::Green => codes.push(base + 2),
        Color::Yellow => codes.push(base + 3),
        Color::Blue => codes.push(base + 4),
        Color::Magenta => codes.push(base + 5),
        Color::Cyan => codes.push(base + 6),
        Color::White => codes.push(base + 7),
        Color::BrightBlack => codes.push(base + 60),
        Color::BrightRed => codes.push(base + 61),
        Color::BrightGreen => codes.push(base + 62),
        Color::BrightYellow => codes.push(base + 63),
        Color::BrightBlue => codes.push(base + 64),
        Color::BrightMagenta => codes.push(base + 65),
        Color::BrightCyan => codes.push(base + 66),
        Color::BrightWhite => codes.push(base + 67),
        Color::Ansi256(n) => {
            codes.push(ext);
            codes.push(5);
            codes.push(n);
        },
        Color::Rgb(r, g, b) => {
            codes.push(ext);
            codes.push(2);
            codes.push(r);
            codes.push(g);
            codes.push(b);
        },
    }
    assert(codes@ =~= old(codes)@ + color_codes(color, background));
}

/// The decimal numerals of the codes joined by `;`.
pub open spec fn joined_codes(codes: Seq<u8>) -> Seq<char>
    decreases codes.len(),
{
    if codes.len() == 0 {
        Seq::empty()
    } else if codes.len() == 1 {
        decimal(codes[0] as nat)
    } else {
        joined_codes(codes.drop_last()) + seq![';'] + decimal(codes.last() as nat)
    }
}

/// The SGR escape sequence with the given parameters, or nothing without any.
pub open spec fn sgr(codes: Seq<u8>) -> Seq<char> {
    if codes.len() == 0 {
        Seq::empty()
    } else {
        seq!['\x1b', '['] + joined_codes(codes) + seq!['m']
    }
}

/// Appends the SGR escape sequence with the given parameters to `out`;
/// nothing without any.
pub fn push_sgr(out: &mut String, codes: &Vec<u8>)
    ensures
        final(out)@ == old(out)@ + sgr(codes@),
{
    if codes.len() == 0 {
        assert(old(out)@ + sgr(codes@) =~= old(out)@);
        return;
    }
    push_char(out, '\x1b');
    push_char(out, '[');
    let ghost start = out@;
    let mut i: usize = 0;
    while i < codes.len()
        invariant
            i <= codes@.len(),
            codes@.len() > 0,
            out@ == start + joined_codes(codes@.take(i as int)),
        decreases codes@.len() - i,
    {
        if i > 0 {
            push_char(out, ';');
        }
        push_decimal(out, codes[i] as u64);
        i = i + 1;
        assert(codes@.take(i as int).drop_last() =~= codes@.take(i - 1));
        assert(out@ =~= start + joined_codes(codes@.take(i as int)));
    }
    assert(codes@.take(codes@.len() as int) =~= codes@);
    push_char(out, 'm');
    assert(out@ =~= old(out)@ + sgr(codes@));
}

impl Color {
    /// The escape sequence selecting this color for the foreground; empty
    /// for `Reset`.
    pub fn to_ansi_fg(&self) -> (s: String)
        ensures
            s@ == sgr(color_codes(*self, false)),
    {
        let mut codes: Vec<u8> = Vec::new();
        push_color_codes(*self, false, &mut codes);
        assert(codes@ =~= color_codes(*self, false));
        let mut s = String::new();
        push_sgr(&mut s, &codes);
        assert(s@ =~= sgr(color_codes(*self, false)));
        s
    }
}

/// The lowercase hex digit of a value below 16.
pub open spec fn hex_digit_char(v: nat) -> char {
    if v < 10 {
        (48 + v) as char
    } else {
        (87 + v) as char
    }
}

/// A lowercase hex digit reads back as its value.
proof fn lemma_hex_digit_reads_back(v: nat)
    requires
        v < 16,
    ensures
        hex_digit_value(hex_digit_char(v)) == Some(v),
        hex_digit_char(v) != '+',
        hex_digit_char(v) != '#',
{
    if v < 10 {
        assert(((48 + v) as char) as nat == 48 + v);
    } else {
        assert(((87 + v) as char) as nat == 87 + v);
    }
}

/// Every RGB color written as `#` and six lowercase hex digits reads back
/// as that color.
pub proof fn law_hex_reads_back_rgb(r: u8, g: u8, b: u8)
    ensures
        hex_color(
            seq![
                '#',
                hex_digit_char(r as nat / 16),
                hex_digit_char(r as nat % 16),
                hex_digit_char(g as nat / 16),
                hex_digit_char(g as nat % 16),
                hex_digit_char(b as nat / 16),
                hex_digit_char(b as nat % 16),
            ],
        ) == Some(Color::Rgb(r, g, b)),
{
    let s = seq![
        '#',
        hex_digit_char(r as nat / 16),
        hex_digit_char(r as nat % 16),
        hex_digit_char(g as nat / 16),
        hex_digit_char(g as nat % 16),
        hex_digit_char(b as nat / 16),
        hex_digit_char(b as nat % 16),
    ];
    lemma_hex_digit_reads_back(r as nat / 16);
    lemma_hex_digit_reads_back(r as nat % 16);
    lemma_hex_digit_reads_back(g as nat / 16);
    lemma_hex_digit_reads_back(g as nat % 16);
    lemma_hex_digit_reads_back(b as nat / 16);
    lemma_hex_digit_reads_back(b as nat % 16);
    let h = s.drop_first();
    assert(strip_hashes(h) == h);
    assert(strip_hashes(s) == h);
    assert(16 * (r as nat / 16) + r as nat % 16 == r);
    assert(16 * (g as nat / 16) + g as nat % 16 == g);
    assert(16 * (b as nat / 16) + b as nat % 16 == b);
}

/// Whether an SGR parameter selects a foreground color: 30–37, 90–97, or
/// 38 (an extended color follows).
pub open spec fn selects_foreground(code: u8) -> bool {
    (30 <= code <= 38) || (90 <= code <= 97)
}

/// Whether an SGR parameter selects a background color: 40–47, 100–107,
/// or 48 (an extended color follows).
pub open spec fn selects_background(code: u8) -> bool {
    (40 <= code <= 48) || (100 <= code <= 107)
}

/// Every color but `Reset` is selected by a sequence whose first parameter
/// names the layer: a background parameter for the background, a
/// foreground one for the foreground; the background sequence is the
/// foreground one with that first parameter raised by 10, so the two never
/// coincide. An extended color (256-color or RGB) is announced by 48 or 38,
/// followed by 5 and the index, or by 2 and the three components.
pub proof fn law_color_codes_select_their_layer(c: Color)
    ensures
        c != Color::Reset ==> {
            let fg = color_codes(c, false);
            let bg = color_codes(c, true);
            &&& fg.len() > 0 && bg.len() == fg.len()
            &&& selects_foreground(fg[0]) && selects_background(bg[0])
            &&& bg[0] == fg[0] + 10
            &&& bg.drop_first() == fg.drop_first()
            &&& bg != fg
        },
        c == Color::Reset ==> color_codes(c, false).len() == 0 && color_codes(c, true).len() == 0,
        c matches Color::Ansi256(n) ==> color_codes(c, true) == seq![48u8, 5, n] && color_codes(c, false)
            == seq![38u8, 5, n],
        c matches Color::Rgb(r, g, b) ==> color_codes(c, true) == seq![48u8, 2, r, g, b] && color_codes(
            c,
            false,
        ) == seq![38u8, 2, r, g, b],
{
    if c != Color::Reset {
        let fg = color_codes(c, false);
        let bg = color_codes(c, true);
        assert(bg.drop_first() =~= fg.drop_first());
        assert(bg[0] != fg[0]);
    }
}

/// Different colors are selected by different parameters on either layer,
/// so no color can be mistaken for another.
pub proof fn law_color_codes_tell_colors_apart(a: Color, b: Color, background: bool)
    ensures
        a != b ==> color_codes(a, background) != color_codes(b, background),
{
    if a != b && color_codes(a, background) == color_codes(b, background) {
        let ca = color_codes(a, background);
        let cb = color_codes(b, background);
        assert(ca.len() == cb.len());
        if ca.len() > 0 {
            assert(ca[0] == cb[0]);
        }
        if ca.len() == 3 {
            assert(ca[2] == cb[2]);
        }
        if ca.len() == 5 {
            assert(ca[2] == cb[2] && ca[3] == cb[3] && ca[4] == cb[4]);
        }
    }
}

} // verus!
