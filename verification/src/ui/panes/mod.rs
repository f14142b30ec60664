//! What each pane shows.

pub mod current;
pub mod open_with;
pub mod parent;
pub mod preview;

use vstd::prelude::*;

use crate::fs::entry::EntryView;
use crate::fs::FileEntry;

verus! {

/// A line of a listing.
#[derive(Debug, PartialEq, Eq)]
pub struct PaneRow {
    pub label: String,
    /// Whether the line is painted as the highlight.
    pub highlighted: bool,
}

/// What a [`PaneRow`] says.
#[verifier::ext_equal]
pub struct PaneRowView {
    pub label: Seq<char>,
    pub highlighted: bool,
}

impl View for PaneRow {
    type V = PaneRowView;

    open spec fn view(&self) -> PaneRowView {
        PaneRowView { label: self.label@, highlighted: self.highlighted }
    }
}

/// What each line says.
pub open spec fn pane_rows(rows: Seq<PaneRow>) -> Seq<PaneRowView> {
    rows.map_values(|row: PaneRow| row@)
}

/// The name of an entry; directories get a trailing slash.
pub open spec fn label_of(entry: EntryView) -> Seq<char> {
    if entry.is_dir {
        entry.name.push('/')
    } else {
        entry.name
    }
}

pub fn entry_label(entry: &FileEntry) -> (r: String)
    ensures
        r@ == label_of(entry@),
{
    let mut label: String = entry.name.as_str().to_owned();
    if entry.is_dir {
        label.push('/');
    }
    label
}

} // verus!
