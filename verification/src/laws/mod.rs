//! What holds of the operations of the library, stated by what goes in and
//! what comes out.

pub mod editor;
pub mod main_loop;
pub mod picker;
pub mod preview;
pub mod scans;
pub mod state;
pub mod text;
pub mod ui;
