//! A declarative terminal UI toolkit: the verified core.

pub mod text;
pub mod color;
pub mod cmd;
pub mod style;
pub mod element;
pub mod mouse;
pub mod options;
pub mod tasks;
pub mod message;
pub mod registry;
pub mod detect;
pub mod effect;
pub mod event_loop;
pub mod scroll;
pub mod list;
pub mod widgets;
pub mod focus;
pub mod input;
pub mod text_input;
pub mod hyperlink;
pub mod terminal;
pub mod measure;
pub mod output;
