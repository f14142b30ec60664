//! The pane of the current directory: its entries, with the selected one
//! highlighted.

use vstd::prelude::*;

use super::{entry_label, label_of, pane_rows, PaneRow, PaneRowView};
use crate::app::state::StateView;
use crate::app::AppState;
use crate::text::{numeral, push_numeral};

verus! {

/// How the recursive count stands.
pub open spec fn recount_status_of(state: StateView) -> Seq<char> {
    if state.is_counting_recursively {
        "counting recursively... (Esc to cancel)"@
    } else {
        match state.recursive_file_count {
            Some(count) => numeral(count as nat) + " files recursively (r to recount)"@,
            None => "press 'r' to count files recursively"@,
        }
    }
}

/// How the recursive count stands. It is shown in the title, since the count belongs to the
/// directory and not to a single entry.
pub fn recount_status(state: &AppState) -> (r: String)
    ensures
        r@ == recount_status_of(state@),
{
    if state.is_counting_recursively {
        return "counting recursively... (Esc to cancel)".to_owned();
    }
    match state.recursive_file_count {
        Some(count) => {
            let mut r: String = String::new();
            push_numeral(&mut r, count);
            r.append(" files recursively (r to recount)");
            assert(r@ == numeral(count as nat) + " files recursively (r to recount)"@);
            r
        },
        None => "press 'r' to count files recursively".to_owned(),
    }
}

/// The title of the pane.
pub fn title(state: &AppState) -> (r: String)
    ensures
        r@ == "[2] Current ("@ + numeral(state@.entries.len()) + " entries) — "@
            + recount_status_of(state@),
{
    let mut r: String = "[2] Current (".to_owned();
    push_numeral(&mut r, state.entries.len() as u64);
    r.append(" entries) — ");
    let status = recount_status(state);
    r.append(status.as_str());
    r
}

/// The lines of the pane.
pub open spec fn current_rows(state: StateView) -> Seq<PaneRowView> {
    Seq::new(
        state.entries.len(),
        |i: int|
            PaneRowView {
                label: label_of(state.entries[i]),
                highlighted: state.highlight() == Some(i as nat),
            },
    )
}

/// The lines of the pane: every entry, the highlight on the selected one alone.
pub fn rows(state: &AppState) -> (r: Vec<PaneRow>)
    ensures
        pane_rows(r@) == current_rows(state@),
{
    let mut r: Vec<PaneRow> = Vec::new();
    let chosen: Option<usize> = state.selected_index();
    let mut i: usize = 0;
    while i < state.entries.len()
        invariant
            i <= state.entries.len(),
            chosen is Some == state@.highlight() is Some,
            chosen matches Some(c) ==> c as nat == state@.highlight()->0,
            pane_rows(r@) == current_rows(state@).take(i as int),
        decreases state.entries.len() - i,
    {
        let highlighted: bool = match chosen {
            Some(c) => c == i,
            None => false,
        };
        let row = PaneRow { label: entry_label(&state.entries[i]), highlighted };
        proof {
            assert(row@ == current_rows(state@)[i as int]);
            assert(pane_rows(r@.push(row)) == pane_rows(r@).push(row@));
        }
        r.push(row);
        assert(pane_rows(r@) == current_rows(state@).take(i + 1));
        i += 1;
    }
    r
}

/// At most one line is highlighted, and exactly one if there is any entry.
pub proof fn one_line_is_highlighted(state: StateView)
    ensures
        current_rows(state).len() == state.entries.len(),
        state.entries.len() > 0 ==> exists|i: int|
            0 <= i < state.entries.len() && (#[trigger] current_rows(state)[i]).highlighted,
        forall|i: int, j: int|
            0 <= i < state.entries.len() && 0 <= j < state.entries.len()
                && (#[trigger] current_rows(state)[i]).highlighted && (#[trigger] current_rows(
                state,
            )[j]).highlighted ==> i == j,
{
    if state.entries.len() > 0 {
        let at = state.highlight()->0;
        assert(current_rows(state)[at as int].highlighted);
    }
}

} // verus!
