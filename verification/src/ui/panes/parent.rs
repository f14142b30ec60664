//! The pane of the parent directory: its entries, with the one that leads to
//! the current directory highlighted.

use vstd::prelude::*;

use super::{entry_label, label_of, pane_rows, PaneRow, PaneRowView};
use crate::app::state::StateView;
use crate::app::AppState;
use crate::path::{file_name_of, parent_of};
use crate::text::{same_text, text_from_bytes, utf8_lossy};

verus! {

/// The title of the pane.
pub const TITLE: &'static str = "[1] Parent";

/// The parent pane as it is painted.
#[derive(Debug, PartialEq, Eq)]
pub struct ParentPane {
    pub rows: Vec<PaneRow>,
    /// The line that is scrolled into sight.
    pub selected: Option<usize>,
}

/// What a [`ParentPane`] shows.
#[verifier::ext_equal]
pub struct ParentPaneView {
    pub rows: Seq<PaneRowView>,
    pub selected: Option<nat>,
}

impl View for ParentPane {
    type V = ParentPaneView;

    open spec fn view(&self) -> ParentPaneView {
        ParentPaneView {
            rows: pane_rows(self.rows@),
            selected: match self.selected {
                Some(i) => Some(i as nat),
                None => None,
            },
        }
    }
}

/// Whether entry `i` of the parent listing has the name of the current directory.
pub open spec fn leads_here(state: StateView, i: int) -> bool {
    file_name_of(state.current_dir) matches Some(name) && state.parent_entries[i].name
        == utf8_lossy(name)
}

/// The last of the first `n` entries that has the name of the current directory.
pub open spec fn last_leading_here(state: StateView, n: int) -> Option<nat>
    decreases n,
{
    if n <= 0 {
        None
    } else if leads_here(state, n - 1) {
        Some((n - 1) as nat)
    } else {
        last_leading_here(state, n - 1)
    }
}

/// A pane with a single line and no highlight.
pub open spec fn placeholder(label: Seq<char>) -> ParentPaneView {
    ParentPaneView { rows: seq![PaneRowView { label, highlighted: false }], selected: None }
}

/// What the parent pane shows.
pub open spec fn parent_pane_of(state: StateView) -> ParentPaneView {
    if parent_of(state.current_dir) is None {
        placeholder("(filesystem root, no parent)"@)
    } else {
        match state.parent_scan_error {
            Some(error) => placeholder("scan failed: "@ + error),
            None => ParentPaneView {
                rows: Seq::new(
                    state.parent_entries.len(),
                    |i: int|
                        PaneRowView {
                            label: label_of(state.parent_entries[i]),
                            highlighted: leads_here(state, i),
                        },
                ),
                selected: last_leading_here(state, state.parent_entries.len() as int),
            },
        }
    }
}

fn single_line(label: String) -> (r: ParentPane)
    ensures
        r@ == placeholder(label@),
{
    let row = PaneRow { label, highlighted: false };
    let mut rows: Vec<PaneRow> = Vec::new();
    rows.push(row);
    let r = ParentPane { rows, selected: None };
    assert(r@.rows == seq![row@]);
    r
}

/// The entries of the parent directory, or why there are none to show.
pub fn parent_pane(state: &AppState) -> (r: ParentPane)
    ensures
        r@ == parent_pane_of(state@),
{
    if state.current_dir.parent().is_none() {
        return single_line("(filesystem root, no parent)".to_owned());
    }
    if let Some(error) = &state.parent_scan_error {
        let mut label: String = "scan failed: ".to_owned();
        label.append(error.as_str());
        return single_line(label);
    }
    let here: Option<String> = match state.current_dir.file_name() {
        Some(name) => Some(text_from_bytes(name.as_slice())),
        None => None,
    };
    let mut rows: Vec<PaneRow> = Vec::new();
    let mut selected: Option<usize> = None;
    let mut i: usize = 0;
    let ghost all = parent_pane_of(state@).rows;
    while i < state.parent_entries.len()
        invariant
            i <= state.parent_entries.len(),
            here is Some == file_name_of(state@.current_dir) is Some,
            here matches Some(h) ==> h@ == utf8_lossy(file_name_of(state@.current_dir)->0),
            parent_of(state@.current_dir) is Some,
            state@.parent_scan_error is None,
            all == parent_pane_of(state@).rows,
            pane_rows(rows@) == all.take(i as int),
            selected is Some == last_leading_here(state@, i as int) is Some,
            selected matches Some(s) ==> s as nat == last_leading_here(state@, i as int)->0,
        decreases state.parent_entries.len() - i,
    {
        let highlighted: bool = match &here {
            Some(h) => same_text(state.parent_entries[i].name.as_str(), h.as_str()),
            None => false,
        };
        assert(highlighted == leads_here(state@, i as int));
        if highlighted {
            selected = Some(i);
        }
        let row = PaneRow { label: entry_label(&state.parent_entries[i]), highlighted };
        proof {
            assert(row@ == all[i as int]);
            assert(pane_rows(rows@.push(row)) == pane_rows(rows@).push(row@));
        }
        rows.push(row);
        assert(pane_rows(rows@) == all.take(i + 1));
        i += 1;
    }
    let r = ParentPane { rows, selected };
    assert(r@.rows == all);
    r
}

} // verus!
