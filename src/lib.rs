//! The navigation core of a terminal menu of commands: a tree of entries, a cursor
//! over the entries shown, a search filter and a preview pane, driven by key events.
pub mod command;
pub mod keys;
pub mod list;
pub mod text;
pub mod tree;

pub use command::Command;
pub use keys::{dispatch, KeyAction, KeyCode, KeyEvent, KeyEventKind};
pub use list::{CustomList, KeyOutcome, PreviewWindowState, Row};
pub use text::name_matches;
pub use tree::{matching_leaves, MenuEntry};
