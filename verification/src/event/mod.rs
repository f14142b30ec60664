//! Terminal input and a fixed-rate tick, merged into the events that the main
//! loop consumes.

pub mod key;
pub mod stream;

pub use key::{KeyCode, KeyEvent, KeyEventKind, KeyModifiers};

use vstd::prelude::*;

verus! {

/// What the terminal reports.
#[derive(Debug, Clone, Copy, PartialEq, Eq, Structural)]
pub enum TermEvent {
    Key(KeyEvent),
    /// A resize, a mouse movement, a change of focus or pasted text.
    Other,
}

/// What the main loop waits for, besides the messages of background jobs.
#[derive(Debug, PartialEq, Eq)]
pub enum AppEvent {
    Input(TermEvent),
    Tick,
    Error(String),
}

} // verus!
