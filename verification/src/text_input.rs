//! Single-line text input: the edited text with a cursor, the input
//! options, the key handling and what the input displays.

use vstd::prelude::*;
use crate::color::Color;
use crate::focus::{UseFocusOptions, opt_view};
use crate::input::Key;
use crate::text::{chars_of, repeated, string_of};

verus! {

/// The state of a text input: its characters and a cursor, counted in
/// characters. The cursor may lie past the end; editing treats such a
/// cursor as standing at the end, except where stated.
#[derive(Clone)]
pub struct TextInputState {
    value: Vec<char>,
    /// Cursor position (character index)
    pub cursor: usize,
}

/// `s` with `c` inserted before position `i`.
pub open spec fn insert_at(s: Seq<char>, i: int, t: Seq<char>) -> Seq<char> {
    s.take(i) + t + s.skip(i)
}

impl Default for TextInputState {
    /// Empty text, cursor at 0.
    fn default() -> (r: Self)
        ensures
            r.content() == Seq::<char>::empty(),
            r.position() == 0,
    {
        TextInputState { value: Vec::new(), cursor: 0 }
    }
}

impl TextInputState {
    /// The characters of the current value.
    pub closed spec fn content(&self) -> Seq<char> {
        self.value@
    }

    /// The cursor position.
    pub closed spec fn position(&self) -> usize {
        self.cursor
    }

    /// The cursor position clamped to the end of the text.
    pub open spec fn edit_point(&self) -> int {
        if self.position() <= self.content().len() {
            self.position() as int
        } else {
            self.content().len() as int
        }
    }

    /// The current value.
    pub fn value(&self) -> (s: String)
        ensures
            s@ == self.content(),
    {
        string_of(&self.value)
    }

    /// Set the value; the cursor moves to its end.
    pub fn set_value(&mut self, value: &str)
        ensures
            final(self).content() == value@,
            final(self).position() == value@.len(),
    {
        self.value = chars_of(value);
        self.cursor = self.value.len();
    }

    /// Clear the input; the cursor moves to 0.
    pub fn clear(&mut self)
        ensures
            final(self).content() == Seq::<char>::empty(),
            final(self).position() == 0,
    {
        self.value.clear();
        self.cursor = 0;
    }

    /// Insert a character at the cursor and advance the cursor by one.
    ///
    /// The cursor must be below `usize::MAX`.
    pub fn insert(&mut self, ch: char)
        requires
            old(self).position() < usize::MAX,
        ensures
            final(self).content() == insert_at(old(self).content(), old(self).edit_point(), seq![ch]),
            final(self).position() == old(self).position() + 1,
    {
        let at = if self.cursor <= self.value.len() {
            self.cursor
        } else {
            self.value.len()
        };
        self.value.insert(at, ch);
        self.cursor = self.cursor + 1;
        assert(self.value@ =~= insert_at(old(self).value@, at as int, seq![ch]));
    }

    /// Insert a string at the cursor and advance the cursor by its length.
    ///
    /// The new cursor must fit in `usize`.
    pub fn insert_str(&mut self, s: &str)
        requires
            old(self).position() + s@.len() <= usize::MAX,
        ensures
            final(self).content() == insert_at(old(self).content(), old(self).edit_point(), s@),
            final(self).position() == old(self).position() + s@.len(),
    {
        let cs = chars_of(s);
        let at = if self.cursor <= self.value.len() {
            self.cursor
        } else {
            self.value.len()
        };
        let mut i: usize = 0;
        while i < cs.len()
            invariant
                i <= cs@.len(),
                at <= old(self).value@.len(),
                cs@ == s@,
                self.cursor == old(self).position(),
                self.value@ == insert_at(old(self).value@, at as int, cs@.take(i as int)),
            decreases cs@.len() - i,
        {
            let cur_len = self.value.len();
            assert(cur_len == old(self).value@.len() + i);
            self.value.insert(at + i, cs[i]);
            i = i + 1;
            assert(self.value@ =~= insert_at(old(self).value@, at as int, cs@.take(i as int)));
        }
        assert(cs@.take(cs@.len() as int) =~= cs@);
        self.cursor = self.cursor + cs.len();
    }

    /// Delete the character before the cursor (backspace) and move the
    /// cursor back by one; nothing at position 0. A cursor past the end
    /// acts at the end, as insertion does.
    pub fn backspace(&mut self)
        ensures
            old(self).position() == 0 ==> final(self).content() == old(self).content()
                && final(self).position() == 0,
            old(self).position() > 0 ==> {
                &&& final(self).position() == old(self).position() - 1
                &&& final(self).content() == (if old(self).edit_point() > 0 {
                    old(self).content().remove(old(self).edit_point() - 1)
                } else {
                    old(self).content()
                })
            },
    {
        if self.cursor > 0 {
            let at = if self.cursor <= self.value.len() {
                self.cursor
            } else {
                self.value.len()
            };
            if at > 0 {
                self.value.remove(at - 1);
            }
            self.cursor = self.cursor - 1;
        }
    }

    /// Delete the character at the cursor; nothing when the cursor is at
    /// or past the end. The cursor stays.
    pub fn delete(&mut self)
        ensures
            final(self).content() == (if old(self).position() < old(self).content().len() {
                old(self).content().remove(old(self).position() as int)
            } else {
                old(self).content()
            }),
            final(self).position() == old(self).position(),
    {
        if self.cursor < self.value.len() {
            self.value.remove(self.cursor);
        }
    }

    /// Move the cursor left by one, stopping at 0.
    pub fn move_left(&mut self)
        ensures
            final(self).content() == old(self).content(),
            final(self).position() == (if old(self).position() > 0 {
                old(self).position() - 1
            } else {
                0
            }),
    {
        if self.cursor > 0 {
            self.cursor = self.cursor - 1;
        }
    }

    /// Move the cursor right by one, stopping at the end.
    pub fn move_right(&mut self)
        ensures
            final(self).content() == old(self).content(),
            final(self).position() == (if old(self).position() < old(self).content().len() {
                old(self).position() + 1
            } else {
                old(self).position() as int
            }),
    {
        if self.cursor < self.char_count() {
            self.cursor = self.cursor + 1;
        }
    }

    /// Move the cursor to the start.
    pub fn move_to_start(&mut self)
        ensures
            final(self).content() == old(self).content(),
            final(self).position() == 0,
    {
        self.cursor = 0;
    }

    /// Move the cursor to the end.
    pub fn move_to_end(&mut self)
        ensures
            final(self).content() == old(self).content(),
            final(self).position() == old(self).content().len(),
    {
        self.cursor = self.char_count();
    }

    /// The number of characters.
    fn char_count(&self) -> (n: usize)
        ensures
            n == self.content().len(),
    {
        self.value.len()
    }

    /// Applies a key press of a focused input, as its input handler does:
    /// backspace, delete, the arrows, home / ctrl+a and end / ctrl+e edit
    /// or move; other control keys are ignored; any other non-empty input
    /// is inserted unless `max_length` (0 = unlimited) is reached. Returns
    /// whether the state was updated (an ignored key and an empty input
    /// update nothing; a refused insertion still counts as an update).
    ///
    /// An insertion must leave the cursor within `usize`.
    pub fn apply_key(&mut self, input: &str, key: &Key, max_length: usize) -> (updated: bool)
        requires
            key_inserts(input@, key) && (max_length == 0 || old(self).content().len() < max_length)
                ==> old(self).position() + input@.len() <= usize::MAX,
        ensures
            updated == (key_edits(input@, key) || key_inserts(input@, key)),
            (final(self).content(), final(self).position() as int) == after_key(
                old(self).content(),
                old(self).position(),
                input@,
                key,
                max_length,
            ),
    {
        if key.backspace {
            self.backspace();
            return true;
        }
        if key.delete {
            self.delete();
            return true;
        }
        if key.left_arrow {
            self.move_left();
            return true;
        }
        if key.right_arrow {
            self.move_right();
            return true;
        }
        let is_a = is_single_char(input, 'a');
        let is_e = is_single_char(input, 'e');
        if key.home || (key.ctrl && is_a) {
            self.move_to_start();
            return true;
        }
        if key.end || (key.ctrl && is_e) {
            self.move_to_end();
            return true;
        }
        if key.ctrl || key.alt || key.escape || key.tab || key.return_key {
            return false;
        }
        if input.unicode_len() > 0 {
            if max_length == 0 || self.char_count() < max_length {
                self.insert_str(input);
            }
            return true;
        }
        false
    }
}

/// The text and cursor after a focused input handles a key press (see
/// `TextInputState::apply_key`).
pub open spec fn after_key(
    content: Seq<char>,
    cursor: usize,
    input: Seq<char>,
    key: &Key,
    max_length: usize,
) -> (Seq<char>, int) {
    let len = content.len();
    let point = if cursor <= len {
        cursor as int
    } else {
        len as int
    };
    if key.backspace {
        if cursor == 0 {
            (content, 0)
        } else if point > 0 {
            (content.remove(point - 1), cursor - 1)
        } else {
            (content, cursor - 1)
        }
    } else if key.delete {
        (if cursor < len {
            content.remove(cursor as int)
        } else {
            content
        }, cursor as int)
    } else if key.left_arrow {
        (content, if cursor > 0 {
            cursor - 1
        } else {
            0
        })
    } else if key.right_arrow {
        (content, if cursor < len {
            cursor + 1
        } else {
            cursor as int
        })
    } else if key.home || (key.ctrl && input == seq!['a']) {
        (content, 0)
    } else if key.end || (key.ctrl && input == seq!['e']) {
        (content, len as int)
    } else if key_inserts(input, key) && (max_length == 0 || len < max_length) {
        (insert_at(content, point, input), cursor + input.len())
    } else {
        (content, cursor as int)
    }
}

/// Whether the key is one that edits or moves the cursor.
pub open spec fn key_edits(input: Seq<char>, key: &Key) -> bool {
    key.backspace || key.delete || key.left_arrow || key.right_arrow || key.home || (key.ctrl
        && input == seq!['a']) || key.end || (key.ctrl && input == seq!['e'])
}

/// Whether the key press is one that inserts its input.
pub open spec fn key_inserts(input: Seq<char>, key: &Key) -> bool {
    !key_edits(input, key) && !(key.ctrl || key.alt || key.escape || key.tab || key.return_key)
        && input.len() > 0
}

/// Whether `s` is exactly the one character `c`.
fn is_single_char(s: &str, c: char) -> (r: bool)
    ensures
        r == (s@ == seq![c]),
{
    let cs = chars_of(s);
    if cs.len() == 1 && cs[0] == c {
        assert(cs@ =~= seq![c]);
        true
    } else {
        false
    }
}

/// Options for a text input.
#[derive(Clone)]
pub struct TextInputOptions {
    /// Placeholder text when empty
    pub placeholder: Option<String>,
    /// Whether to mask input (for passwords)
    pub mask: bool,
    /// Mask character
    pub mask_char: char,
    /// Maximum length (0 = unlimited)
    pub max_length: usize,
    /// Focus options
    pub focus: UseFocusOptions,
    /// Text color
    pub color: Option<Color>,
    /// Placeholder color
    pub placeholder_color: Option<Color>,
    /// Cursor color
    pub cursor_color: Option<Color>,
}

impl Default for TextInputOptions {
    /// No placeholder, no mask (the mask character is `'\0'`), no length
    /// limit, no colors, and the default focus options (focusable).
    fn default() -> (o: Self)
        ensures
            o.placeholder is None,
            !o.mask,
            o.mask_char == '\0',
            o.max_length == 0,
            !o.focus.auto_focus && o.focus.is_active && o.focus.id is None,
            o.color is None,
            o.placeholder_color is None,
            o.cursor_color is None,
    {
        TextInputOptions {
            placeholder: None,
            mask: false,
            mask_char: '\0',
            max_length: 0,
            focus: UseFocusOptions::default(),
            color: None,
            placeholder_color: None,
            cursor_color: None,
        }
    }
}

/// The options are the same, apart from the fields a builder sets.
pub open spec fn same_options(a: TextInputOptions, b: TextInputOptions) -> bool {
    &&& opt_view(a.placeholder) == opt_view(b.placeholder)
    &&& a.mask == b.mask
    &&& a.mask_char == b.mask_char
    &&& a.max_length == b.max_length
    &&& a.focus.auto_focus == b.focus.auto_focus
    &&& a.focus.is_active == b.focus.is_active
    &&& opt_view(a.focus.id) == opt_view(b.focus.id)
    &&& a.color == b.color
    &&& a.placeholder_color == b.placeholder_color
    &&& a.cursor_color == b.cursor_color
}

impl TextInputOptions {
    /// The default options with `'*'` as mask character.
    pub fn new() -> (o: Self)
        ensures
            o.placeholder is None,
            !o.mask,
            o.mask_char == '*',
            o.max_length == 0,
            !o.focus.auto_focus && o.focus.is_active && o.focus.id is None,
            o.color is None && o.placeholder_color is None && o.cursor_color is None,
    {
        TextInputOptions { mask_char: '*', ..Self::default() }
    }

    /// Set the placeholder.
    pub fn placeholder(self, text: &str) -> (o: Self)
        ensures
            same_options(o, TextInputOptions { placeholder: o.placeholder, ..self }),
            opt_view(o.placeholder) == Some(text@),
    {
        TextInputOptions { placeholder: Some(text.to_string()), ..self }
    }

    /// Mask the input.
    pub fn mask(self) -> (o: Self)
        ensures
            same_options(o, TextInputOptions { mask: true, ..self }),
    {
        TextInputOptions { mask: true, ..self }
    }

    /// Set the mask character.
    pub fn mask_char(self, ch: char) -> (o: Self)
        ensures
            same_options(o, TextInputOptions { mask_char: ch, ..self }),
    {
        TextInputOptions { mask_char: ch, ..self }
    }

    /// Set the maximum length (0 = unlimited).
    pub fn max_length(self, len: usize) -> (o: Self)
        ensures
            same_options(o, TextInputOptions { max_length: len, ..self }),
    {
        TextInputOptions { max_length: len, ..self }
    }

    /// Request auto-focus.
    pub fn auto_focus(self) -> (o: Self)
        ensures
            o.focus.auto_focus,
            o.focus.is_active == self.focus.is_active,
            opt_view(o.focus.id) == opt_view(self.focus.id),
            opt_view(o.placeholder) == opt_view(self.placeholder),
            o.mask == self.mask && o.mask_char == self.mask_char && o.max_length == self.max_length,
            o.color == self.color && o.placeholder_color == self.placeholder_color
                && o.cursor_color == self.cursor_color,
    {
        let focus = self.focus.auto_focus();
        TextInputOptions { focus, ..self }
    }

    /// Set the text color.
    pub fn color(self, color: Color) -> (o: Self)
        ensures
            same_options(o, TextInputOptions { color: Some(color), ..self }),
    {
        TextInputOptions { color: Some(color), ..self }
    }

    /// Set the placeholder color.
    pub fn placeholder_color(self, color: Color) -> (o: Self)
        ensures
            same_options(o, TextInputOptions { placeholder_color: Some(color), ..self }),
    {
        TextInputOptions { placeholder_color: Some(color), ..self }
    }

    /// Set the cursor color.
    pub fn cursor_color(self, color: Color) -> (o: Self)
        ensures
            same_options(o, TextInputOptions { cursor_color: Some(color), ..self }),
    {
        TextInputOptions { cursor_color: Some(color), ..self }
    }
}

/// What a text input displays.
pub enum TextInputDisplay {
    /// The (dimmed) placeholder of an empty input.
    Placeholder(String),
    /// The text of an unfocused input.
    Plain(String),
    /// The text of a focused input, split around the character under the cursor.
    WithCursor { before: String, cursor: char, after: String },
}

/// The text a non-empty input shows: the mask character once per
/// character when masked, else the value.
pub open spec fn shown_text(content: Seq<char>, mask: bool, mask_char: char) -> Seq<char> {
    if mask {
        repeated(mask_char, content.len())
    } else {
        content
    }
}

impl TextInputState {
    /// What the input displays with the given options: the placeholder when
    /// it is empty and has one; unfocused, the shown text; focused, the
    /// shown text split at the cursor (clamped to its end), the character
    /// under the cursor being a space at the end.
    pub fn display(&self, options: &TextInputOptions, focused: bool) -> (d: TextInputDisplay)
        ensures
            ({
                let shown = if self.content().len() == 0 {
                    Seq::<char>::empty()
                } else {
                    shown_text(self.content(), options.mask, options.mask_char)
                };
                let at = if self.position() <= shown.len() {
                    self.position() as int
                } else {
                    shown.len() as int
                };
                if self.content().len() == 0 && options.placeholder is Some {
                    d matches TextInputDisplay::Placeholder(p) && Some(p@) == opt_view(
                        options.placeholder,
                    )
                } else if !focused {
                    d matches TextInputDisplay::Plain(t) && t@ == shown
                } else {
                    d matches TextInputDisplay::WithCursor { before, cursor, after } && before@
                        == shown.take(at) && cursor == (if at < shown.len() {
                        shown[at]
                    } else {
                        ' '
                    }) && after@ == (if at < shown.len() {
                        shown.skip(at + 1)
                    } else {
                        Seq::<char>::empty()
                    })
                }
            }),
    {
        if self.value.len() == 0 {
            if let Some(p) = &options.placeholder {
                return TextInputDisplay::Placeholder(p.clone());
            }
        }
        let shown: Vec<char> = if self.value.len() == 0 {
            Vec::new()
        } else if options.mask {
            let mut v: Vec<char> = Vec::new();
            let mut i: usize = 0;
            while i < self.value.len()
                invariant
                    i <= self.value@.len(),
                    v@ == repeated(options.mask_char, i as nat),
                decreases self.value@.len() - i,
            {
                v.push(options.mask_char);
                i = i + 1;
                assert(v@ =~= repeated(options.mask_char, i as nat));
            }
            v
        } else {
            self.value.clone()
        };
        if !focused {
            return TextInputDisplay::Plain(string_of(&shown));
        }
        let at = if self.cursor <= shown.len() {
            self.cursor
        } else {
            shown.len()
        };
        let mut before = String::new();
        crate::text::push_chars(&mut before, &shown, 0, at);
        let mut after = String::new();
        let cursor = if at < shown.len() {
            crate::text::push_chars(&mut after, &shown, at + 1, shown.len());
            shown[at]
        } else {
            ' '
        };
        assert(shown@.subrange(0, at as int) =~= shown@.take(at as int));
        assert(at < shown@.len() ==> shown@.subrange(at + 1, shown@.len() as int) =~= shown@.skip(
            at + 1,
        ));
        TextInputDisplay::WithCursor { before, cursor, after }
    }
}

/// Inserting a character at a cursor within the text and deleting the
/// character before the advanced cursor gives the text back.
pub proof fn law_backspace_undoes_insert(content: Seq<char>, cursor: int, ch: char)
    requires
        0 <= cursor <= content.len(),
    ensures
        insert_at(content, cursor, seq![ch]).remove(cursor) == content,
{
    assert(insert_at(content, cursor, seq![ch]).remove(cursor) =~= content);
}

/// A cursor within the text stays within it across inserting a character
/// (which advances it by one), backspace (back by one) and delete.
pub proof fn law_cursor_stays_within_text(content: Seq<char>, cursor: int, ch: char)
    requires
        0 <= cursor <= content.len(),
    ensures
        cursor + 1 <= insert_at(content, cursor, seq![ch]).len(),
        cursor > 0 ==> cursor - 1 <= content.remove(cursor - 1).len(),
        cursor < content.len() ==> cursor <= content.remove(cursor).len(),
{
}

/// End (or Ctrl+E) moves the cursor to the end of the text, and Home (or
/// Ctrl+A) to its start, leaving the text as it is; each applies when no
/// key that takes precedence (backspace, delete, the arrows, and for End
/// also Home and Ctrl+A) is pressed with it.
pub proof fn law_home_and_end_move_to_the_ends(content: Seq<char>, cursor: usize, input: Seq<char>, key: Key, max_length: usize)
    ensures
        !key.backspace && !key.delete && !key.left_arrow && !key.right_arrow && !key.home && !(key.ctrl
            && input == seq!['a']) && (key.end || (key.ctrl && input == seq!['e'])) ==> {
            let (c, p) = after_key(content, cursor, input, &key, max_length);
            c == content && p == content.len()
        },
        !key.backspace && !key.delete && !key.left_arrow && !key.right_arrow && (key.home || (key.ctrl
            && input == seq!['a'])) ==> {
            let (c, p) = after_key(content, cursor, input, &key, max_length);
            c == content && p == 0
        },
{
}

/// From a cursor within the text, any key leaves the cursor within the
/// resulting text; a key that does not edit (an arrow, Home, End) leaves
/// the text as it is.
pub proof fn law_key_keeps_cursor_within_text(content: Seq<char>, cursor: usize, input: Seq<char>, key: Key, max_length: usize)
    requires
        cursor <= content.len(),
    ensures
        ({
            let (c, p) = after_key(content, cursor, input, &key, max_length);
            0 <= p <= c.len()
        }),
        !key.backspace && !key.delete && (key.left_arrow || key.right_arrow || key.home || key.end) ==> after_key(
            content,
            cursor,
            input,
            &key,
            max_length,
        ).0 == content,
{
}

} // verus!
