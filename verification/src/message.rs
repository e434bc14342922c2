//! Chat-style messages: roles with their prefixes and colors, tool calls
//! and thinking blocks.

use vstd::prelude::*;
use crate::color::Color;
use crate::text::{lines_of, push_char, push_str, split_lines, string_of};

verus! {

/// Message role in a chat interface.
#[derive(Debug, Clone, Copy, PartialEq, Eq, Structural)]
pub enum MessageRole {
    /// User message (`> ` prefix, yellow)
    User,
    /// Assistant message (`● ` prefix, bright white)
    Assistant,
    /// System message (`● ` prefix, cyan)
    System,
    /// Tool call message (`● ` prefix, magenta)
    Tool,
    /// Tool result message (`  ⎿ ` prefix, gray)
    ToolResult,
    /// Error message (`● ` prefix, red)
    Error,
}

/// The prefix a role's messages start with.
pub open spec fn role_prefix(role: MessageRole) -> Seq<char> {
    match role {
        MessageRole::User => seq!['>', ' '],
        MessageRole::ToolResult => seq![' ', ' ', '⎿', ' '],
        _ => seq!['●', ' '],
    }
}

/// The color of a role's messages (and of their prefix).
pub open spec fn role_color(role: MessageRole) -> Color {
    match role {
        MessageRole::User => Color::Yellow,
        MessageRole::Assistant => Color::BrightWhite,
        MessageRole::System => Color::Cyan,
        MessageRole::Tool => Color::Magenta,
        MessageRole::ToolResult => Color::Ansi256(245),
        MessageRole::Error => Color::Red,
    }
}

/// A styled message for chat interfaces.
pub struct Message {
    role: MessageRole,
    content: String,
    prefix: Option<String>,
}

impl Message {
    /// The role.
    pub closed spec fn role_of(&self) -> MessageRole {
        self.role
    }

    /// The content.
    pub closed spec fn content_of(&self) -> Seq<char> {
        self.content@
    }

    /// The custom prefix, if set.
    pub closed spec fn custom_prefix(&self) -> Option<Seq<char>> {
        match self.prefix {
            Some(p) => Some(p@),
            None => None,
        }
    }

    /// A message with the given role and content, without a custom prefix.
    pub fn new(role: MessageRole, content: &str) -> (m: Self)
        ensures
            m.role_of() == role,
            m.content_of() == content@,
            m.custom_prefix() is None,
    {
        Message { role, content: content.to_string(), prefix: None }
    }

    /// A user message.
    pub fn user(content: &str) -> (m: Self)
        ensures
            m.role_of() == MessageRole::User,
            m.content_of() == content@,
            m.custom_prefix() is None,
    {
        Self::new(MessageRole::User, content)
    }

    /// An assistant message.
    pub fn assistant(content: &str) -> (m: Self)
        ensures
            m.role_of() == MessageRole::Assistant,
            m.content_of() == content@,
            m.custom_prefix() is None,
    {
        Self::new(MessageRole::Assistant, content)
    }

    /// A system message.
    pub fn system(content: &str) -> (m: Self)
        ensures
            m.role_of() == MessageRole::System,
            m.content_of() == content@,
            m.custom_prefix() is None,
    {
        Self::new(MessageRole::System, content)
    }

    /// A tool call message.
    pub fn tool(content: &str) -> (m: Self)
        ensures
            m.role_of() == MessageRole::Tool,
            m.content_of() == content@,
            m.custom_prefix() is None,
    {
        Self::new(MessageRole::Tool, content)
    }

    /// A tool result message.
    pub fn tool_result(content: &str) -> (m: Self)
        ensures
            m.role_of() == MessageRole::ToolResult,
            m.content_of() == content@,
            m.custom_prefix() is None,
    {
        Self::new(MessageRole::ToolResult, content)
    }

    /// An error message.
    pub fn error(content: &str) -> (m: Self)
        ensures
            m.role_of() == MessageRole::Error,
            m.content_of() == content@,
            m.custom_prefix() is None,
    {
        Self::new(MessageRole::Error, content)
    }

    /// Set a custom prefix (overriding the role's).
    pub fn prefix(self, prefix: &str) -> (m: Self)
        ensures
            m.role_of() == self.role_of(),
            m.content_of() == self.content_of(),
            m.custom_prefix() == Some(prefix@),
    {
        Message { prefix: Some(prefix.to_string()), ..self }
    }

    /// The role.
    pub fn role(&self) -> (r: MessageRole)
        ensures
            r == self.role_of(),
    {
        self.role
    }

    /// The content.
    pub fn content(&self) -> (s: &str)
        ensures
            s@ == self.content_of(),
    {
        self.content.as_str()
    }

    /// The role's prefix.
    pub fn default_prefix(&self) -> (s: String)
        ensures
            s@ == role_prefix(self.role_of()),
    {
        let mut s = String::new();
        match self.role {
            MessageRole::User => {
                push_char(&mut s, '>');
                push_char(&mut s, ' ');
            },
            MessageRole::ToolResult => {
                push_char(&mut s, ' ');
                push_char(&mut s, ' ');
                push_char(&mut s, '⎿');
                push_char(&mut s, ' ');
            },
            _ => {
                push_char(&mut s, '●');
                push_char(&mut s, ' ');
            },
        }
        assert(s@ =~= role_prefix(self.role));
        s
    }

    /// The prefix shown: the custom one if set, else the role's.
    pub fn shown_prefix(&self) -> (s: String)
        ensures
            s@ == (match self.custom_prefix() {
                Some(p) => p,
                None => role_prefix(self.role_of()),
            }),
    {
        match &self.prefix {
            Some(p) => p.clone(),
            None => self.default_prefix(),
        }
    }

    /// The color of the content.
    pub fn color(&self) -> (c: Color)
        ensures
            c == role_color(self.role_of()),
    {
        match self.role {
            MessageRole::User => Color::Yellow,
            MessageRole::Assistant => Color::BrightWhite,
            MessageRole::System => Color::Cyan,
            MessageRole::Tool => Color::Magenta,
            MessageRole::ToolResult => Color::Ansi256(245),
            MessageRole::Error => Color::Red,
        }
    }

    /// The color of the prefix (the same as the content's).
    pub fn prefix_color(&self) -> (c: Color)
        ensures
            c == role_color(self.role_of()),
    {
        self.color()
    }
}

/// A tool call: its name and arguments.
pub struct ToolCall {
    name: String,
    args: String,
}

impl ToolCall {
    /// The tool's name.
    pub closed spec fn name_of(&self) -> Seq<char> {
        self.name@
    }

    /// The arguments.
    pub closed spec fn args_of(&self) -> Seq<char> {
        self.args@
    }

    /// A tool call of `name` with `args`.
    pub fn new(name: &str, args: &str) -> (t: Self)
        ensures
            t.name_of() == name@,
            t.args_of() == args@,
    {
        ToolCall { name: name.to_string(), args: args.to_string() }
    }

    /// The tool's name.
    pub fn name(&self) -> (s: &str)
        ensures
            s@ == self.name_of(),
    {
        self.name.as_str()
    }

    /// The arguments in parentheses, as shown after the name.
    pub fn args_text(&self) -> (s: String)
        ensures
            s@ == seq!['('] + self.args_of() + seq![')'],
    {
        let mut s = String::new();
        push_char(&mut s, '(');
        push_str(&mut s, self.args.as_str());
        push_char(&mut s, ')');
        assert(s@ =~= seq!['('] + self.args@ + seq![')']);
        s
    }
}

/// A block showing reasoning text, up to a number of lines.
pub struct ThinkingBlock {
    content: String,
    max_lines: usize,
}

impl ThinkingBlock {
    /// The text.
    pub closed spec fn content_of(&self) -> Seq<char> {
        self.content@
    }

    /// The most lines shown.
    pub closed spec fn line_limit(&self) -> usize {
        self.max_lines
    }

    /// A block of `content` showing at most 5 lines.
    pub fn new(content: &str) -> (b: Self)
        ensures
            b.content_of() == content@,
            b.line_limit() == 5,
    {
        ThinkingBlock { content: content.to_string(), max_lines: 5 }
    }

    /// Set the maximum number of lines shown.
    pub fn max_lines(self, max_lines: usize) -> (b: Self)
        ensures
            b.content_of() == self.content_of(),
            b.line_limit() == max_lines,
    {
        ThinkingBlock { max_lines, ..self }
    }

    /// The lines shown (the first ones, up to the limit) and whether more
    /// lines follow.
    pub fn shown_lines(&self) -> (r: (Vec<String>, bool))
        ensures
            r.0@.len() == (if lines_of(self.content_of()).len() <= self.line_limit() {
                lines_of(self.content_of()).len()
            } else {
                self.line_limit() as nat
            }),
            forall|i: int| 0 <= i < r.0@.len() ==> #[trigger] r.0@[i]@ == lines_of(self.content_of())[i],
            r.1 == (lines_of(self.content_of()).len() > self.line_limit()),
    {
        let lines = split_lines(self.content.as_str());
        let mut shown: Vec<String> = Vec::new();
        let mut i: usize = 0;
        while i < lines.len() && i < self.max_lines
            invariant
                i <= lines@.len(),
                i <= self.max_lines,
                lines@.len() == lines_of(self.content@).len(),
                forall|k: int| 0 <= k < lines@.len() ==> #[trigger] lines@[k]@ == lines_of(self.content@)[k],
                shown@.len() == i,
                forall|k: int| 0 <= k < i ==> #[trigger] shown@[k]@ == lines_of(self.content@)[k],
            decreases lines@.len() - i,
        {
            shown.push(string_of(&lines[i]));
            i = i + 1;
        }
        let more = lines.len() > self.max_lines;
        (shown, more)
    }
}

} // verus!
