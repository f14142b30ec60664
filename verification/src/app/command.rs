//! Which command a key triggers, apart from how the command is carried out.

use vstd::prelude::*;

use crate::event::{KeyCode, KeyEvent, KeyEventKind, KeyModifiers};

verus! {

#[derive(Debug, Clone, Copy, PartialEq, Eq, Structural)]
pub enum Command {
    Quit,
    RecountRecursive,
    /// Stops the running recursive count, without quitting and without touching the directory
    /// scans.
    Cancel,
    SelectPrevious,
    SelectNext,
    /// Enters the highlighted directory; nothing on a file.
    EnterDirectory,
    /// Enters the highlighted directory, or opens the highlighted file.
    Activate,
    OpenInEditor,
    OpenWith,
    OpenParent,
    PreviewPageUp,
    PreviewPageDown,
}

/// The command of a key press.
pub open spec fn key_command(key: KeyEvent) -> Option<Command> {
    if key.kind != KeyEventKind::Press {
        None
    } else if key.code == KeyCode::Char('c') && key.modifiers.control {
        Some(Command::Quit)
    } else if key.modifiers != KeyModifiers::bare() {
        None
    } else if key.code == KeyCode::Char('q') {
        Some(Command::Quit)
    } else if key.code == KeyCode::Char('r') {
        Some(Command::RecountRecursive)
    } else if key.code == KeyCode::Esc {
        Some(Command::Cancel)
    } else {
        None
    }
}

/// Looks up which `Command`, if any, `key` triggers.
///
/// Only presses count: some terminals also report the release and the repeat of the same
/// keystroke, which would apply its command twice.
pub fn command_for_key(key: KeyEvent) -> (r: Option<Command>)
    ensures
        r == key_command(key),
{
    if key.kind != KeyEventKind::Press {
        return None;
    }
    let bare: bool = key.modifiers == KeyModifiers::none();
    match key.code {
        KeyCode::Char('q') if bare => Some(Command::Quit),
        KeyCode::Char('c') if key.modifiers.control => Some(Command::Quit),
        KeyCode::Char('r') if bare => Some(Command::RecountRecursive),
        KeyCode::Esc if bare => Some(Command::Cancel),
        _ => None,
    }
}

} // verus!
