//! Key events, as the menu sees them, and what each one asks for.
use vstd::prelude::*;

verus! {

/// The keys that the menu tells apart.
#[derive(Clone, Copy, Debug, PartialEq, Eq, Structural)]
pub enum KeyCode {
    Down,
    Up,
    Enter,
    Char(char),
    Other,
}

/// Whether a key went down, is held, or came up.
#[derive(Clone, Copy, Debug, PartialEq, Eq, Structural)]
pub enum KeyEventKind {
    Press,
    Repeat,
    Release,
}

/// One key event.
#[derive(Clone, Copy, Debug, PartialEq, Eq, Structural)]
pub struct KeyEvent {
    pub code: KeyCode,
    pub kind: KeyEventKind,
}

/// What a key event asks the menu to do.
#[derive(Clone, Copy, Debug, PartialEq, Eq, Structural)]
pub enum KeyAction {
    MoveDown,
    MoveUp,
    TogglePreview,
    ResolveEnter,
    ScrollPreviewDown,
    ScrollPreviewUp,
    NoOp,
}

pub open spec fn is_down_key(c: KeyCode) -> bool {
    c == KeyCode::Down || c == KeyCode::Char('j')
}

pub open spec fn is_up_key(c: KeyCode) -> bool {
    c == KeyCode::Up || c == KeyCode::Char('k')
}

/// The routing table: releases are ignored; while the preview is open the arrows scroll it
/// and enter is swallowed; `p` toggles the preview either way.
pub open spec fn dispatch_spec(e: KeyEvent, preview_open: bool) -> KeyAction {
    if e.kind == KeyEventKind::Release {
        KeyAction::NoOp
    } else if is_down_key(e.code) {
        if preview_open {
            KeyAction::ScrollPreviewDown
        } else {
            KeyAction::MoveDown
        }
    } else if is_up_key(e.code) {
        if preview_open {
            KeyAction::ScrollPreviewUp
        } else {
            KeyAction::MoveUp
        }
    } else if e.code == KeyCode::Char('p') {
        KeyAction::TogglePreview
    } else if e.code == KeyCode::Enter && !preview_open {
        KeyAction::ResolveEnter
    } else {
        KeyAction::NoOp
    }
}

/// Maps a key event, given whether the preview is open, to the action it asks for.
pub fn dispatch(e: KeyEvent, preview_open: bool) -> (r: KeyAction)
    ensures
        r == dispatch_spec(e, preview_open),
{
    if e.kind == KeyEventKind::Release {
        return KeyAction::NoOp;
    }
    match e.code {
        KeyCode::Down => if preview_open {
            KeyAction::ScrollPreviewDown
        } else {
            KeyAction::MoveDown
        },
        KeyCode::Up => if preview_open {
            KeyAction::ScrollPreviewUp
        } else {
            KeyAction::MoveUp
        },
        KeyCode::Char(c) => {
            if c == 'j' {
                if preview_open {
                    KeyAction::ScrollPreviewDown
                } else {
                    KeyAction::MoveDown
                }
            } else if c == 'k' {
                if preview_open {
                    KeyAction::ScrollPreviewUp
                } else {
                    KeyAction::MoveUp
                }
            } else if c == 'p' {
                KeyAction::TogglePreview
            } else {
                KeyAction::NoOp
            }
        },
        KeyCode::Enter => if preview_open {
            KeyAction::NoOp
        } else {
            KeyAction::ResolveEnter
        },
        KeyCode::Other => KeyAction::NoOp,
    }
}

} // verus!
