//! What the screen shows, worked out from the state alone. Painting it is left
//! to the program.

pub mod layout;
pub mod panes;

use vstd::prelude::*;

use crate::app::AppState;
use crate::text::utf8_lossy;

verus! {

/// The title of the greeting.
pub const BANNER_TITLE: &'static str = "Hayate";

/// The greeting: a hint and the current directory, one below the other.
pub fn banner(state: &AppState) -> (r: String)
    ensures
        r@ == "Hayate File Manager - Press 'q' to quit\n"@ + utf8_lossy(state@.current_dir),
{
    let mut r: String = "Hayate File Manager - Press 'q' to quit\n".to_owned();
    let dir = state.current_dir.to_text();
    r.append(dir.as_str());
    r
}

} // verus!
