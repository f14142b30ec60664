//! The state machine of a three-pane terminal file manager.
//!
//! The library decides; the program around it reads the terminal and the disk,
//! runs the background jobs that the library asks for and paints what the
//! library describes.

pub mod app;
pub mod compact;
pub mod event;
pub mod fs;
pub mod laws;
pub mod path;
pub mod preview;
pub mod text;
pub mod ui;
pub mod util;
