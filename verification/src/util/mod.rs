//! Shared helpers.

pub mod terminal;
