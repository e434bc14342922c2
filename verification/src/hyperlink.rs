//! Terminal hyperlinks: OSC 8 escape sequences with their payloads
//! stripped of control characters, and a plain-text fallback.

use vstd::prelude::*;
use crate::color::{Color, color_codes, sgr};
use crate::focus::opt_view;
use crate::text::{chars_of, push_char, push_str};

verus! {

/// Whether hyperlinks are supported, and whether that has been settled
/// (by detection or by an explicit setting).
#[derive(Debug, Clone, Copy, PartialEq, Eq, Structural)]
pub struct HyperlinkSupport {
    pub supported: bool,
    pub checked: bool,
}

impl HyperlinkSupport {
    /// The initial state: supported, not yet checked.
    pub fn new() -> (s: Self)
        ensures
            s == (HyperlinkSupport { supported: true, checked: false }),
    {
        HyperlinkSupport { supported: true, checked: false }
    }
}

/// Whether hyperlinks are supported: the first query runs `detect` and
/// remembers its answer; later queries (and queries after an explicit
/// setting) return the remembered answer.
pub fn supports_hyperlinks<F: FnOnce() -> bool>(state: &mut HyperlinkSupport, detect: F) -> (r: bool)
    requires
        !old(state).checked ==> call_requires(detect, ()),
    ensures
        old(state).checked ==> r == old(state).supported && *final(state) == *old(state),
        !old(state).checked ==> call_ensures(detect, (), r) && *final(state) == (HyperlinkSupport {
            supported: r,
            checked: true,
        }),
{
    if !state.checked {
        let supported = detect();
        state.supported = supported;
        state.checked = true;
    }
    state.supported
}

/// Force hyperlink support on or off.
pub fn set_hyperlinks_supported(state: &mut HyperlinkSupport, supported: bool)
    ensures
        *final(state) == (HyperlinkSupport { supported, checked: true }),
{
    state.supported = supported;
    state.checked = true;
}

/// Whether `c` is a control character (general category Cc): U+0000 to
/// U+001F and U+007F to U+009F (std's `char::is_control`).
pub open spec fn is_control(c: char) -> bool {
    (c as u32) <= 0x1f || (0x7f <= (c as u32) && (c as u32) <= 0x9f)
}

/// The characters of `s` that are not control characters, in order.
pub open spec fn without_controls(s: Seq<char>) -> Seq<char>
    decreases s.len(),
{
    if s.len() == 0 {
        Seq::empty()
    } else {
        without_controls(s.drop_last()) + (if is_control(s.last()) {
            Seq::empty()
        } else {
            seq![s.last()]
        })
    }
}

/// Whether `c` is a control character.
fn char_is_control(c: char) -> (r: bool)
    ensures
        r == is_control(c),
{
    let v: u32 = c as u32;
    v <= 0x1f || (0x7f <= v && v <= 0x9f)
}

/// Appends the characters of `value` that are not control characters.
pub(crate) fn push_sanitized(out: &mut String, value: &str)
    ensures
        final(out)@ == old(out)@ + without_controls(value@),
{
    let cs = chars_of(value);
    let mut i: usize = 0;
    while i < cs.len()
        invariant
            i <= cs@.len(),
            cs@ == value@,
            out@ == old(out)@ + without_controls(cs@.take(i as int)),
        decreases cs@.len() - i,
    {
        if !char_is_control(cs[i]) {
            push_char(out, cs[i]);
        }
        i = i + 1;
        assert(cs@.take(i as int).drop_last() =~= cs@.take(i - 1));
        assert(out@ =~= old(out)@ + without_controls(cs@.take(i as int)));
    }
    assert(cs@.take(cs@.len() as int) =~= cs@);
}

/// Strip the control characters (C0 and C1, ESC, BEL and ST among them)
/// from an OSC 8 payload.
pub fn sanitize_osc8_payload(value: &str) -> (s: String)
    ensures
        s@ == without_controls(value@),
{
    let mut s = String::new();
    push_sanitized(&mut s, value);
    assert(s@ =~= without_controls(value@));
    s
}

/// A terminal hyperlink.
#[derive(Debug, Clone)]
pub struct Hyperlink {
    url: String,
    text: String,
    id: Option<String>,
}

/// The OSC 8 rendering of a link: `ESC ] 8 ; params ; url ESC \ text ESC ] 8 ; ; ESC \`,
/// where the params are `id=` and the id when there is one, and every
/// payload is stripped of control characters.
pub open spec fn osc8(url: Seq<char>, text: Seq<char>, id: Option<Seq<char>>) -> Seq<char> {
    seq!['\x1b', ']', '8', ';'] + (match id {
        Some(i) => seq!['i', 'd', '='] + without_controls(i),
        None => Seq::empty(),
    }) + seq![';'] + without_controls(url) + seq!['\x1b', '\\'] + without_controls(text) + seq![
        '\x1b',
        ']',
        '8',
        ';',
        ';',
        '\x1b',
        '\\',
    ]
}

/// The plain rendering of a link: the text alone when it equals the URL,
/// else `text (url)`.
pub open spec fn fallback(url: Seq<char>, text: Seq<char>) -> Seq<char> {
    if text == url {
        text
    } else {
        text + seq![' ', '('] + url + seq![')']
    }
}

impl Hyperlink {
    /// The URL.
    pub closed spec fn url_view(&self) -> Seq<char> {
        self.url@
    }

    /// The display text.
    pub closed spec fn text_view(&self) -> Seq<char> {
        self.text@
    }

    /// The link id.
    pub closed spec fn id_view(&self) -> Option<Seq<char>> {
        opt_view(self.id)
    }

    /// A hyperlink to `url` showing `text`, without an id.
    pub fn new(url: &str, text: &str) -> (h: Self)
        ensures
            h.url_view() == url@,
            h.text_view() == text@,
            h.id_view() is None,
    {
        Hyperlink { url: url.to_string(), text: text.to_string(), id: None }
    }

    /// A hyperlink whose display text is its URL.
    pub fn url(url: &str) -> (h: Self)
        ensures
            h.url_view() == url@,
            h.text_view() == url@,
            h.id_view() is None,
    {
        Hyperlink { url: url.to_string(), text: url.to_string(), id: None }
    }

    /// Set an id for the link (useful for multi-line links).
    pub fn with_id(self, id: &str) -> (h: Self)
        ensures
            h.url_view() == self.url_view(),
            h.text_view() == self.text_view(),
            h.id_view() == Some(id@),
    {
        Hyperlink { id: Some(id.to_string()), ..self }
    }

    /// The URL, unchanged.
    pub fn get_url(&self) -> (s: &str)
        ensures
            s@ == self.url_view(),
    {
        self.url.as_str()
    }

    /// The display text, unchanged.
    pub fn get_text(&self) -> (s: &str)
        ensures
            s@ == self.text_view(),
    {
        self.text.as_str()
    }

    /// The id, unchanged.
    pub fn get_id(&self) -> (s: Option<&str>)
        ensures
            match s {
                Some(v) => self.id_view() == Some(v@),
                None => self.id_view() is None,
            },
    {
        match &self.id {
            Some(i) => Some(i.as_str()),
            None => None,
        }
    }

    /// The OSC 8 hyperlink when `supported`, else just the text.
    pub fn render(&self, supported: bool) -> (s: String)
        ensures
            s@ == (if supported {
                osc8(self.url_view(), self.text_view(), self.id_view())
            } else {
                self.text_view()
            }),
    {
        if supported {
            self.render_osc8()
        } else {
            self.text.clone()
        }
    }

    /// The OSC 8 hyperlink, with every payload stripped of control characters.
    pub fn render_osc8(&self) -> (s: String)
        ensures
            s@ == osc8(self.url_view(), self.text_view(), self.id_view()),
    {
        let mut s = String::new();
        push_char(&mut s, '\x1b');
        push_char(&mut s, ']');
        push_char(&mut s, '8');
        push_char(&mut s, ';');
        if let Some(id) = &self.id {
            push_char(&mut s, 'i');
            push_char(&mut s, 'd');
            push_char(&mut s, '=');
            push_sanitized(&mut s, id.as_str());
        }
        push_char(&mut s, ';');
        push_sanitized(&mut s, self.url.as_str());
        push_char(&mut s, '\x1b');
        push_char(&mut s, '\\');
        push_sanitized(&mut s, self.text.as_str());
        push_char(&mut s, '\x1b');
        push_char(&mut s, ']');
        push_char(&mut s, '8');
        push_char(&mut s, ';');
        push_char(&mut s, ';');
        push_char(&mut s, '\x1b');
        push_char(&mut s, '\\');
        assert(s@ =~= osc8(self.url_view(), self.text_view(), self.id_view()));
        s
    }

    /// The text alone when it equals the URL, else `text (url)`.
    pub fn render_fallback(&self) -> (s: String)
        ensures
            s@ == fallback(self.url_view(), self.text_view()),
    {
        if crate::focus::str_eq(self.text.as_str(), self.url.as_str()) {
            self.text.clone()
        } else {
            let mut s = self.text.clone();
            push_char(&mut s, ' ');
            push_char(&mut s, '(');
            push_str(&mut s, self.url.as_str());
            push_char(&mut s, ')');
            assert(s@ =~= fallback(self.url_view(), self.text_view()));
            s
        }
    }

    /// The OSC 8 hyperlink when `supported`, else what `fallback` makes of
    /// the text and the URL.
    pub fn render_with_fallback<F: FnOnce(&str, &str) -> String>(&self, supported: bool, fallback: F) -> (s: String)
        requires
            !supported ==> forall|t: &str, u: &str|
                t@ == self.text_view() && u@ == self.url_view() ==> call_requires(
                    fallback,
                    (t, u),
                ),
        ensures
            supported ==> s@ == osc8(self.url_view(), self.text_view(), self.id_view()),
            !supported ==> exists|t: &str, u: &str|
                t@ == self.text_view() && u@ == self.url_view() && call_ensures(
                    fallback,
                    (t, u),
                    s,
                ),
    {
        if supported {
            self.render_osc8()
        } else {
            let t = self.text.as_str();
            let u = self.url.as_str();
            let s = fallback(t, u);
            assert(t@ == self.text_view() && u@ == self.url_view() && call_ensures(fallback, (t, u), s));
            s
        }
    }
}

/// A hyperlink with the styles it is drawn in.
#[derive(Debug, Clone)]
pub struct HyperlinkBuilder {
    hyperlink: Hyperlink,
    color: Option<Color>,
    underline: bool,
    bold: bool,
}

/// The styled rendering: bold and underline sequences, the color's
/// sequence, the link, and a reset.
pub open spec fn styled(bold: bool, underline: bool, color: Option<Color>, link: Seq<char>) -> Seq<
    char,
> {
    (if bold {
        seq!['\x1b', '[', '1', 'm']
    } else {
        Seq::empty()
    }) + (if underline {
        seq!['\x1b', '[', '4', 'm']
    } else {
        Seq::empty()
    }) + (match color {
        Some(c) => sgr(color_codes(c, false)),
        None => Seq::empty(),
    }) + link + seq!['\x1b', '[', '0', 'm']
}

impl HyperlinkBuilder {
    /// The link.
    pub closed spec fn link(&self) -> Hyperlink {
        self.hyperlink
    }

    /// The color.
    pub closed spec fn color_of(&self) -> Option<Color> {
        self.color
    }

    /// Whether the link is underlined.
    pub closed spec fn is_underlined(&self) -> bool {
        self.underline
    }

    /// Whether the link is bold.
    pub closed spec fn is_bold(&self) -> bool {
        self.bold
    }

    /// A blue, underlined, not bold hyperlink to `url` showing `text`.
    pub fn new(url: &str, text: &str) -> (b: Self)
        ensures
            b.link().url_view() == url@,
            b.link().text_view() == text@,
            b.link().id_view() is None,
            b.color_of() == Some(Color::Blue),
            b.is_underlined(),
            !b.is_bold(),
    {
        HyperlinkBuilder {
            hyperlink: Hyperlink::new(url, text),
            color: Some(Color::Blue),
            underline: true,
            bold: false,
        }
    }

    /// Set the link id.
    pub fn id(self, id: &str) -> (b: Self)
        ensures
            b.link().url_view() == self.link().url_view(),
            b.link().text_view() == self.link().text_view(),
            b.link().id_view() == Some(id@),
            b.color_of() == self.color_of(),
            b.is_underlined() == self.is_underlined(),
            b.is_bold() == self.is_bold(),
    {
        let hyperlink = self.hyperlink.with_id(id);
        HyperlinkBuilder { hyperlink, ..self }
    }

    /// Set the color.
    pub fn color(self, color: Color) -> (b: Self)
        ensures
            b.link() == self.link(),
            b.color_of() == Some(color),
            b.is_underlined() == self.is_underlined(),
            b.is_bold() == self.is_bold(),
    {
        HyperlinkBuilder { color: Some(color), ..self }
    }

    /// Remove the color.
    pub fn no_color(self) -> (b: Self)
        ensures
            b.link() == self.link(),
            b.color_of() is None,
            b.is_underlined() == self.is_underlined(),
            b.is_bold() == self.is_bold(),
    {
        HyperlinkBuilder { color: None, ..self }
    }

    /// Set underline.
    pub fn underline(self, underline: bool) -> (b: Self)
        ensures
            b.link() == self.link(),
            b.color_of() == self.color_of(),
            b.is_underlined() == underline,
            b.is_bold() == self.is_bold(),
    {
        HyperlinkBuilder { underline, ..self }
    }

    /// Set bold.
    pub fn bold(self, bold: bool) -> (b: Self)
        ensures
            b.link() == self.link(),
            b.color_of() == self.color_of(),
            b.is_underlined() == self.is_underlined(),
            b.is_bold() == bold,
    {
        HyperlinkBuilder { bold, ..self }
    }

    /// The styled hyperlink, rendered as OSC 8 when `supported` and as the
    /// plain fallback otherwise, followed by a style reset.
    pub fn render(&self, supported: bool) -> (s: String)
        ensures
            s@ == styled(
                self.is_bold(),
                self.is_underlined(),
                self.color_of(),
                if supported {
                    osc8(self.link().url_view(), self.link().text_view(), self.link().id_view())
                } else {
                    self.link().text_view()
                },
            ),
    {
        let mut s = String::new();
        if self.bold {
            push_char(&mut s, '\x1b');
            push_char(&mut s, '[');
            push_char(&mut s, '1');
            push_char(&mut s, 'm');
        }
        if self.underline {
            push_char(&mut s, '\x1b');
            push_char(&mut s, '[');
            push_char(&mut s, '4');
            push_char(&mut s, 'm');
        }
        if let Some(color) = &self.color {
            let fg = color.to_ansi_fg();
            push_str(&mut s, fg.as_str());
        }
        let link = self.hyperlink.render(supported);
        push_str(&mut s, link.as_str());
        push_char(&mut s, '\x1b');
        push_char(&mut s, '[');
        push_char(&mut s, '0');
        push_char(&mut s, 'm');
        assert(s@ =~= styled(self.bold, self.underline, self.color, link@));
        s
    }
}

/// Sanitizing leaves no control character.
pub proof fn law_sanitized_has_no_controls(s: Seq<char>)
    ensures
        forall|i: int| 0 <= i < without_controls(s).len() ==> !is_control(#[trigger] without_controls(s)[i]),
    decreases s.len(),
{
    if s.len() > 0 {
        law_sanitized_has_no_controls(s.drop_last());
        let a = without_controls(s.drop_last());
        let b = if is_control(s.last()) {
            Seq::<char>::empty()
        } else {
            seq![s.last()]
        };
        assert forall|i: int| 0 <= i < without_controls(s).len() implies !is_control(
            #[trigger] without_controls(s)[i],
        ) by {
            if i < a.len() {
                assert(without_controls(s)[i] == a[i]);
            } else {
                assert(without_controls(s)[i] == b[i - a.len()]);
            }
        }
    }
}

/// A text without control characters is left as it is.
pub proof fn law_sanitize_keeps_safe_text(s: Seq<char>)
    requires
        forall|i: int| 0 <= i < s.len() ==> !is_control(#[trigger] s[i]),
    ensures
        without_controls(s) == s,
    decreases s.len(),
{
    if s.len() > 0 {
        law_sanitize_keeps_safe_text(s.drop_last());
        assert(s.drop_last() + seq![s.last()] =~= s);
    }
}

/// Sanitizing twice is sanitizing once.
pub proof fn law_sanitize_idempotent(s: Seq<char>)
    ensures
        without_controls(without_controls(s)) == without_controls(s),
{
    law_sanitized_has_no_controls(s);
    law_sanitize_keeps_safe_text(without_controls(s));
}

} // verus!
