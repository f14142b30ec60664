//! Directory changes. They say which scans are to be started; they touch
//! neither the disk nor the background jobs themselves.

use vstd::prelude::*;

use super::history::place_key;
use super::state::{next_generation, AppState, StateView};
use crate::fs::entry::{index_of_name, name_position, name_position_is_the_first, EntryView};
use crate::fs::FileEntry;
use crate::path::{file_name_of, parent_of, same_place, shown_name, FilePath};
use crate::preview::FilePreview;
use crate::text::{text_from_bytes, utf8_lossy};

verus! {

/// Scans to start after a directory change. `None` means that the listing was taken over from
/// what was already scanned and needs no new walk.
#[derive(Debug, PartialEq, Eq)]
pub struct ScanPlan {
    pub current: Option<FilePath>,
    pub parent: Option<FilePath>,
}

/// What a [`ScanPlan`] asks for.
#[verifier::ext_equal]
pub struct PlanView {
    pub current: Option<Seq<u8>>,
    pub parent: Option<Seq<u8>>,
}

/// The bytes of an optional path.
pub open spec fn opt_path(path: Option<FilePath>) -> Option<Seq<u8>> {
    match path {
        Some(p) => Some(p@),
        None => None,
    }
}

impl View for ScanPlan {
    type V = PlanView;

    open spec fn view(&self) -> PlanView {
        PlanView { current: opt_path(self.current), parent: opt_path(self.parent) }
    }
}

impl Clone for ScanPlan {
    fn clone(&self) -> (r: ScanPlan)
        ensures
            r@ == self@,
    {
        ScanPlan { current: self.current.clone(), parent: self.parent.clone() }
    }
}

/// What an optional plan asks for.
pub open spec fn opt_plan(plan: Option<ScanPlan>) -> Option<PlanView> {
    match plan {
        Some(p) => Some(p@),
        None => None,
    }
}

/// The parent that can be listed: a relative path with a single part has none.
pub open spec fn usable_parent_of(path: Seq<u8>) -> Option<Seq<u8>> {
    match parent_of(path) {
        Some(parent) => if parent.len() == 0 {
            None
        } else {
            Some(parent)
        },
        None => None,
    }
}

impl StateView {
    /// The state as a directory is left: the highlight is saved, and whatever belongs to the old
    /// directory alone is dropped.
    pub open spec fn departed(self) -> StateView {
        StateView {
            history: match self.highlighted() {
                Some(entry) => self.history.insert(place_key(self.current_dir), entry.name),
                None => self.history,
            },
            restore_pending: true,
            scan_generation: next_generation(self.scan_generation),
            count_generation: next_generation(self.count_generation),
            recursive_file_count: None,
            is_counting_recursively: false,
            ..self.without_preview()
        }
    }

    /// The directory that entering leads to: the highlighted one, unless it is the current one.
    pub open spec fn way_down(self) -> Option<Seq<u8>> {
        match self.highlighted() {
            Some(entry) => if entry.is_dir && !same_place(entry.path, self.current_dir) {
                Some(entry.path)
            } else {
                None
            },
            None => None,
        }
    }

    /// The state in the directory below. The listing that was just shown becomes that of the
    /// parent pane.
    pub open spec fn entered(self, dir: Seq<u8>) -> StateView {
        StateView {
            current_dir: dir,
            entries: Seq::empty(),
            parent_entries: self.entries,
            parent_listing_complete: self.current_listing_complete,
            parent_scan_error: self.current_scan_error,
            current_listing_complete: false,
            current_scan_error: None,
            selected: 0,
            ..self.departed()
        }
    }

    /// The position of the directory that was left, else of the saved highlight, else the top.
    pub open spec fn arrival_position(self, left: Seq<u8>) -> nat {
        let child = match file_name_of(left) {
            Some(name) => name_position(self.entries, utf8_lossy(name)),
            None => None,
        };
        let saved = match self.saved_name() {
            Some(name) => name_position(self.entries, name),
            None => None,
        };
        if child is Some {
            child->0 as nat
        } else if saved is Some {
            saved->0 as nat
        } else {
            0
        }
    }

    /// The state in the parent directory. The listing of the parent pane becomes the current one.
    pub open spec fn climbed(self, parent: Seq<u8>) -> StateView {
        let arrived = StateView {
            current_dir: parent,
            entries: self.parent_entries,
            parent_entries: Seq::empty(),
            current_listing_complete: self.parent_listing_complete,
            current_scan_error: self.parent_scan_error,
            parent_listing_complete: false,
            parent_scan_error: None,
            ..self.departed()
        };
        StateView { selected: arrived.arrival_position(self.current_dir), ..arrived }
    }

    /// The scans due after climbing: the parent pane always, the current one unless a complete
    /// listing was taken over.
    pub open spec fn climbing_plan(self, parent: Seq<u8>) -> PlanView {
        PlanView {
            current: if self.parent_entries.len() == 0 || !self.parent_listing_complete {
                Some(parent)
            } else {
                None
            },
            parent: usable_parent_of(parent),
        }
    }
}

/// Enters the highlighted directory. Nothing happens if nothing is highlighted, or if it is a
/// file.
///
/// The current listing is taken over as that of the parent pane, so that a directory that was
/// just displayed is not walked again.
pub fn enter_selected(state: &mut AppState) -> (r: Option<ScanPlan>)
    ensures
        final(state)@ == (match old(state)@.way_down() {
            Some(dir) => old(state)@.entered(dir),
            None => old(state)@,
        }),
        opt_plan(r) == (match old(state)@.way_down() {
            Some(dir) => Some(PlanView { current: Some(dir), parent: None }),
            None => None,
        }),
{
    let new_dir: FilePath = match state.selected_entry() {
        Some(entry) => {
            if !entry.is_dir || entry.path.same_place(&state.current_dir) {
                return None;
            }
            entry.path.clone()
        },
        None => {
            return None;
        },
    };
    let parent_complete: bool = state.current_listing_complete;
    let parent_error: Option<String> = state.current_scan_error.clone();
    begin_generation(state);
    let mut listing: Vec<FileEntry> = Vec::new();
    std::mem::swap(&mut listing, &mut state.entries);
    state.parent_entries = listing;
    state.parent_listing_complete = parent_complete;
    state.parent_scan_error = parent_error;
    state.current_dir = new_dir.clone();
    state.current_listing_complete = false;
    state.current_scan_error = None;
    state.selected = 0;
    Some(ScanPlan { current: Some(new_dir), parent: None })
}

/// Moves up to the parent directory. Nothing happens at the root.
///
/// The listing of the parent pane is taken over where it is complete; otherwise the directory is
/// scanned.
pub fn open_parent(state: &mut AppState) -> (r: Option<ScanPlan>)
    ensures
        final(state)@ == (match usable_parent_of(old(state)@.current_dir) {
            Some(parent) => old(state)@.climbed(parent),
            None => old(state)@,
        }),
        opt_plan(r) == (match usable_parent_of(old(state)@.current_dir) {
            Some(parent) => Some(old(state)@.climbing_plan(parent)),
            None => None,
        }),
{
    let parent: FilePath = match usable_parent(&state.current_dir) {
        Some(parent) => parent,
        None => {
            return None;
        },
    };
    let left = state.current_dir.clone();
    begin_generation(state);
    let mut listing: Vec<FileEntry> = Vec::new();
    std::mem::swap(&mut listing, &mut state.parent_entries);
    let mut error: Option<String> = None;
    std::mem::swap(&mut error, &mut state.parent_scan_error);
    state.current_dir = parent.clone();
    state.entries = listing;
    state.current_listing_complete = state.parent_listing_complete;
    state.current_scan_error = error;
    state.parent_listing_complete = false;
    let position: usize = select_left_child_or_history(state, &left);
    state.selected = position;
    let rescan_current: bool = state.entries.len() == 0 || !state.current_listing_complete;
    let above = usable_parent(&parent);
    let current: Option<FilePath> = if rescan_current {
        Some(parent)
    } else {
        None
    };
    Some(ScanPlan { current, parent: above })
}

/// Saves the highlight and drops what belongs to the old directory alone.
fn begin_generation(state: &mut AppState)
    ensures
        final(state)@ == old(state)@.departed(),
{
    let name = match state.selected_entry() {
        Some(entry) => Some(entry.name.clone()),
        None => None,
    };
    if let Some(name) = name {
        let dir = state.current_dir.clone();
        state.history.insert(dir, name);
    }
    state.restore_pending = true;
    state.scan_generation = state.scan_generation.wrapping_add(1);
    state.count_generation = state.count_generation.wrapping_add(1);
    state.preview = FilePreview::Idle;
    state.preview_scroll = 0;
    state.recursive_file_count = None;
    state.is_counting_recursively = false;
}

/// The parent that can be listed.
pub fn usable_parent(path: &FilePath) -> (r: Option<FilePath>)
    ensures
        opt_path(r) == usable_parent_of(path@),
{
    match path.parent() {
        Some(parent) => {
            if parent.bytes.len() == 0 {
                None
            } else {
                Some(parent)
            }
        },
        None => None,
    }
}

/// Scans to start when the program first shows the current directory.
pub fn initial_scan_plan(state: &AppState) -> (r: ScanPlan)
    ensures
        r@ == (PlanView {
            current: Some(state@.current_dir),
            parent: usable_parent_of(state@.current_dir),
        }),
{
    ScanPlan {
        current: Some(state.current_dir.clone()),
        parent: usable_parent(&state.current_dir),
    }
}

/// Where the highlight goes in the directory above `left`.
fn select_left_child_or_history(state: &AppState, left: &FilePath) -> (r: usize)
    ensures
        r as nat == state@.arrival_position(left@),
{
    if let Some(name) = left.file_name() {
        let text = text_from_bytes(name.as_slice());
        if let Some(index) = index_of_name(&state.entries, text.as_str()) {
            return index;
        }
    }
    match state.history.get(&state.current_dir) {
        Some(name) => match index_of_name(&state.entries, name.as_str()) {
            Some(index) => index,
            None => 0,
        },
        None => 0,
    }
}

/// The entry that was highlighted when a directory was left is highlighted again when the
/// directory is listed anew, as long as it is still there.
pub proof fn saved_highlight_is_restored(state: StateView, entries: Seq<EntryView>)
    requires
        state.highlighted() is Some,
        name_position(entries, state.highlighted()->0.name) is Some,
    ensures
        ({
            let back = StateView { entries, ..state.departed() };
            back.synced(None).highlighted() matches Some(entry) && entry.name
                == state.highlighted()->0.name
        }),
{
    name_position_is_the_first(entries, state.highlighted()->0.name);
}

/// Whether no two entries of a listing have the same name.
pub open spec fn names_differ(entries: Seq<EntryView>) -> bool {
    forall|i: int, j: int|
        0 <= i < j < entries.len() ==> (#[trigger] entries[i]).name != (
        #[trigger] entries[j]).name
}

/// Entering a directory and climbing back shows the same listing, with an entry of the name of the
/// directory that was entered highlighted (the very same entry where names differ), and scans it
/// again only if it was incomplete.
pub proof fn climbing_undoes_entering(state: StateView, dir: Seq<u8>, up: Seq<u8>)
    requires
        state.way_down() == Some(dir),
        state.highlighted()->0.name == shown_name(dir),
        usable_parent_of(dir) == Some(up),
        same_place(up, state.current_dir),
    ensures
        ({
            let below = state.entered(dir);
            let back = below.climbed(up);
            &&& same_place(back.current_dir, state.current_dir)
            &&& back.entries == state.entries
            &&& back.highlighted() matches Some(entry) && entry.name
                == state.highlighted()->0.name
            &&& names_differ(state.entries) ==> back.selected == state.highlight()->0
            &&& back.current_listing_complete == state.current_listing_complete
            &&& back.current_scan_error == state.current_scan_error
            &&& below.climbing_plan(up).current is None == state.current_listing_complete
        }),
{
    let name = shown_name(dir);
    name_position_is_the_first(state.entries, name);
    let at = state.highlight()->0;
    assert(state.entries[at as int].name == name);
}

/// Climbing and entering again remembers which entry was highlighted in the directory.
pub proof fn entering_after_climbing_remembers_the_highlight(
    state: StateView,
    up: Seq<u8>,
    down: Seq<u8>,
)
    requires
        state.highlighted() is Some,
        usable_parent_of(state.current_dir) == Some(up),
        state.climbed(up).way_down() == Some(down),
        same_place(down, state.current_dir),
    ensures
        state.climbed(up).entered(down).saved_name() == Some(state.highlighted()->0.name),
{
    let above = state.climbed(up);
    assert(place_key(down) == place_key(state.current_dir));
    assert(place_key(above.current_dir) != place_key(down));
}

} // verus!
