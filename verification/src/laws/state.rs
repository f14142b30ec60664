//! Laws of the state and of changing the directory.

use vstd::prelude::*;

use crate::app::history::place_key;
use crate::app::navigation::{usable_parent_of, PlanView};
use crate::app::open_with::ModeView;
use crate::app::state::{next_generation, StateView};
use crate::fs::entry::{is_dotted, name_position, name_position_is_the_first, EntryView};
use crate::path::{file_name_of, parent_of, same_place};
use crate::preview::PreviewView;
use crate::text::utf8_lossy;

verus! {

/// The program starts with nothing listed, nothing running, nothing shown but the directory.
pub proof fn the_program_starts_with_nothing(dir: Seq<u8>)
    ensures
        ({
            let s = StateView::fresh(dir);
            &&& s.current_dir == dir
            &&& !s.should_quit
            &&& s.entries.len() == 0 && s.parent_entries.len() == 0
            &&& s.selected == 0
            &&& s.history == Map::<(bool, Seq<Seq<u8>>), Seq<char>>::empty()
            &&& !s.restore_pending
            &&& s.scan_generation == 0 && s.count_generation == 0 && s.open_with_generation == 0
            &&& s.preview == PreviewView::Idle && s.preview_scroll == 0
            &&& s.frame_width == 80 && s.frame_height == 24
            &&& s.recursive_file_count is None && !s.is_counting_recursively
            &&& s.mode == ModeView::Browser
            &&& s.notice is None
            &&& !s.current_listing_complete && !s.parent_listing_complete
            &&& s.current_scan_error is None && s.parent_scan_error is None
        }),
{
}

/// The highlight is where it is meant to be, or on the last entry where that lies past the end.
pub proof fn the_highlight_is_where_it_is_meant_to_be(state: StateView)
    ensures
        state.entries.len() == 0 ==> state.highlight() is None && state.highlighted() is None,
        state.selected < state.entries.len() ==> state.highlight() == Some(state.selected)
            && state.highlighted() == Some(state.entries[state.selected as int]),
        0 < state.entries.len() <= state.selected ==> state.highlight() == Some(
            (state.entries.len() - 1) as nat,
        ) && state.highlighted() == Some(state.entries.last()),
{
}

/// Two paths share a saved highlight if and only if they name the same place.
pub proof fn highlights_are_saved_by_place(a: Seq<u8>, b: Seq<u8>)
    ensures
        (place_key(a) == place_key(b)) == same_place(a, b),
{
}

/// A state with another history.
pub open spec fn remembering(
    state: StateView,
    history: Map<(bool, Seq<Seq<u8>>), Seq<char>>,
) -> StateView {
    StateView { history, ..state }
}

/// What is saved for the current directory is what the history holds for its place.
pub proof fn the_saved_name_is_that_of_the_place(state: StateView, name: Seq<char>)
    ensures
        remembering(
            state,
            state.history.insert(place_key(state.current_dir), name),
        ).saved_name() == Some(name),
        remembering(
            state,
            state.history.remove(place_key(state.current_dir)),
        ).saved_name() is None,
        forall|key: (bool, Seq<Seq<u8>>)|
            key != place_key(state.current_dir) ==> remembering(
                state,
                #[trigger] state.history.insert(key, name),
            ).saved_name() == state.saved_name(),
{
}

/// Whether some entry has a name.
pub open spec fn is_listed(entries: Seq<EntryView>, name: Seq<char>) -> bool {
    exists|i: int| 0 <= i < entries.len() && (#[trigger] entries[i]).name == name
}

proof fn lemma_listed(entries: Seq<EntryView>, name: Seq<char>)
    ensures
        is_listed(entries, name) == name_position(entries, name) is Some,
        name_position(entries, name) matches Some(i) ==> 0 <= i < entries.len() && entries[i].name
            == name && forall|j: int| 0 <= j < i ==> (#[trigger] entries[j]).name != name,
{
    name_position_is_the_first(entries, name);
}

/// Whether the highlight is on the first entry with a name.
pub open spec fn highlights_first(state: StateView, name: Seq<char>) -> bool {
    &&& state.selected < state.entries.len()
    &&& state.entries[state.selected as int].name == name
    &&& forall|j: int| 0 <= j < state.selected ==> (#[trigger] state.entries[j]).name != name
}

/// After the listing changed the highlight is on the entry to keep if it is listed, else on the
/// saved one if that is, else where it was; and nothing but the highlight has changed.
pub proof fn syncing_finds_the_entry(state: StateView, keep: Option<Seq<char>>)
    ensures
        ({
            let after = state.synced(keep);
            let kept = keep is Some && is_listed(state.entries, keep->0);
            let saved = state.saved_name() is Some && is_listed(
                state.entries,
                state.saved_name()->0,
            );
            &&& after == (StateView { selected: after.selected, ..state })
            &&& kept ==> highlights_first(after, keep->0)
            &&& !kept && saved ==> highlights_first(after, state.saved_name()->0)
            &&& !kept && !saved ==> after == state
        }),
{
    if keep is Some {
        lemma_listed(state.entries, keep->0);
    }
    if state.saved_name() is Some {
        lemma_listed(state.entries, state.saved_name()->0);
    }
}

/// The saved highlight is restored if and only if that is still to be done and the entry is
/// listed; it is then done. Otherwise nothing changes.
pub proof fn restoring_finds_the_saved_entry(state: StateView)
    ensures
        ({
            let after = state.with_highlight_restored();
            let due = state.restore_pending && state.saved_name() is Some && is_listed(
                state.entries,
                state.saved_name()->0,
            );
            &&& !due ==> after == state
            &&& due ==> highlights_first(after, state.saved_name()->0) && !after.restore_pending
            &&& after == (StateView {
                selected: after.selected,
                restore_pending: after.restore_pending,
                ..state
            })
        }),
{
    if state.saved_name() is Some {
        lemma_listed(state.entries, state.saved_name()->0);
    }
}

/// Scrolling moves by exactly the distance asked for, up or down, where there is room, and to the
/// end in that direction where there is not. It moves nothing else.
pub proof fn scrolling_moves_by_the_distance(state: StateView, delta: int, limit: u16)
    ensures
        ({
            let after = state.scrolled(delta, limit);
            let there = state.preview_scroll + delta;
            &&& 0 <= there <= limit ==> after.preview_scroll == there
            &&& there < 0 ==> after.preview_scroll == 0
            &&& there > limit ==> after.preview_scroll == limit
            &&& after == (StateView { preview_scroll: after.preview_scroll, ..state })
        }),
{
}

/// Scrolling back undoes scrolling, in either direction, wherever no end is reached; and two
/// distances make their sum.
pub proof fn scrolling_back_undoes_scrolling(state: StateView, a: int, b: int, limit: u16)
    requires
        state.preview_scroll <= limit,
        0 <= state.preview_scroll + a <= limit,
    ensures
        state.scrolled(a, limit).scrolled(-a, limit) == state,
        state.scrolled(a, limit).scrolled(b, limit) == state.scrolled(a + b, limit),
{
}

/// A generation is followed by the next number, and the last one by zero.
pub proof fn generations_count_up(generation: u64)
    ensures
        generation < u64::MAX ==> next_generation(generation) == generation + 1,
        next_generation(u64::MAX) == 0,
{
}

/// Dropping the preview drops what is cached and scrolls to the top, and nothing else.
pub proof fn dropping_the_preview_drops_nothing_else(state: StateView)
    ensures
        state.without_preview() == (StateView {
            preview: PreviewView::Idle,
            preview_scroll: 0,
            ..state
        }),
{
}

/// A parent can be listed unless there is none or it is spelled empty.
pub proof fn parents_can_be_listed_unless_empty(path: Seq<u8>)
    ensures
        usable_parent_of(path) is Some ==> usable_parent_of(path) == parent_of(path),
        usable_parent_of(path) is Some == (parent_of(path) is Some && parent_of(path)->0.len()
            > 0),
{
}

/// There is a way down if and only if a directory other than the current one is highlighted, and
/// it leads there.
pub proof fn the_way_down_is_the_highlighted_directory(state: StateView)
    ensures
        state.way_down() is Some <==> state.highlighted() is Some && state.highlighted()->0.is_dir
            && !same_place(state.highlighted()->0.path, state.current_dir),
        state.way_down() matches Some(dir) ==> dir == state.highlighted()->0.path,
{
}

/// Leaving a directory saves the name of the highlighted entry for it and for no other place,
/// makes reports of its jobs late, drops its preview and its count, and changes nothing else.
pub proof fn leaving_saves_the_highlight(state: StateView)
    ensures
        ({
            let after = state.departed();
            &&& after.history == (match state.highlighted() {
                Some(entry) => state.history.insert(place_key(state.current_dir), entry.name),
                None => state.history,
            })
            &&& after.scan_generation != state.scan_generation
            &&& after.count_generation != state.count_generation
            &&& after == (StateView {
                history: after.history,
                restore_pending: true,
                scan_generation: next_generation(state.scan_generation),
                count_generation: next_generation(state.count_generation),
                recursive_file_count: None,
                is_counting_recursively: false,
                preview: PreviewView::Idle,
                preview_scroll: 0,
                ..state
            })
        }),
{
}

/// Entering a directory shows it from the top, with nothing listed yet, and hands the listing,
/// its completeness and its error to the parent pane.
pub proof fn entering_hands_the_listing_up(state: StateView, dir: Seq<u8>)
    ensures
        state.entered(dir) == (StateView {
            current_dir: dir,
            entries: Seq::empty(),
            current_listing_complete: false,
            current_scan_error: None,
            parent_entries: state.entries,
            parent_listing_complete: state.current_listing_complete,
            parent_scan_error: state.current_scan_error,
            selected: 0,
            ..state.departed()
        }),
{
}

/// Climbing takes the listing of the parent pane over, with its completeness and its error, and
/// empties that pane. The highlight is on the first entry with the name of the directory that was
/// left, if there is one; else on the first with the saved name, if there is one; else at the
/// top.
pub proof fn climbing_takes_the_listing_over(state: StateView, parent: Seq<u8>)
    ensures
        ({
            let after = state.climbed(parent);
            let name = file_name_of(state.current_dir);
            let child = name is Some && is_listed(state.parent_entries, utf8_lossy(name->0));
            let saved = after.saved_name() is Some && is_listed(
                state.parent_entries,
                after.saved_name()->0,
            );
            &&& after == (StateView {
                current_dir: parent,
                entries: state.parent_entries,
                current_listing_complete: state.parent_listing_complete,
                current_scan_error: state.parent_scan_error,
                parent_entries: Seq::empty(),
                parent_listing_complete: false,
                parent_scan_error: None,
                selected: after.selected,
                ..state.departed()
            })
            &&& child ==> highlights_first(after, utf8_lossy(name->0))
            &&& !child && saved ==> highlights_first(after, after.saved_name()->0)
            &&& !child && !saved ==> after.selected == 0
        }),
{
    let after = state.climbed(parent);
    if let Some(name) = file_name_of(state.current_dir) {
        lemma_listed(state.parent_entries, utf8_lossy(name));
    }
    if let Some(name) = after.saved_name() {
        lemma_listed(state.parent_entries, name);
    }
}

/// After climbing, the directory is scanned again if and only if nothing was listed of it or not
/// everything, and the one above it is always scanned, if there is one.
pub proof fn climbing_scans_what_is_missing(state: StateView, parent: Seq<u8>)
    ensures
        state.climbing_plan(parent) == (PlanView {
            current: if state.parent_entries.len() > 0 && state.parent_listing_complete {
                None
            } else {
                Some(parent)
            },
            parent: usable_parent_of(parent),
        }),
{
}

/// An entry is hidden if and only if its name begins with a dot.
pub proof fn dotted_names_are_hidden(name: Seq<char>)
    ensures
        is_dotted(name) == (name.len() > 0 && name[0] == '.'),
{
}

} // verus!
