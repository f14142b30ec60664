//! What the background jobs deliver, and the single function that applies it
//! to [`AppState`].

use vstd::prelude::*;

use super::state::{AppState, StateView};
use crate::fs::entry::entry_views;
use crate::fs::FileEntry;

verus! {

#[derive(Debug)]
pub enum Message {
    /// A batch of entries from the scan of the current directory.
    ScanBatch(Vec<FileEntry>),
    /// The scan of the current directory has sent its last batch.
    ScanFinished,
    /// A batch of entries from the scan of the parent directory.
    ParentScanBatch(Vec<FileEntry>),
    /// The scan of the parent directory has sent its last batch.
    ParentScanFinished,
    /// The recursive count is over. `None` means that the task ended before it had a result.
    RecursiveCountFinished(Option<u64>),
}

impl StateView {
    /// The state after a message.
    pub open spec fn updated(self, message: Message) -> StateView {
        match message {
            Message::ScanBatch(batch) => StateView {
                entries: self.entries + entry_views(batch@),
                ..self
            },
            Message::ScanFinished => StateView { current_listing_complete: true, ..self },
            Message::ParentScanBatch(batch) => StateView {
                parent_entries: self.parent_entries + entry_views(batch@),
                ..self
            },
            Message::ParentScanFinished => StateView { parent_listing_complete: true, ..self },
            Message::RecursiveCountFinished(count) => StateView {
                is_counting_recursively: false,
                recursive_file_count: if count is Some {
                    count
                } else {
                    self.recursive_file_count
                },
                ..self
            },
        }
    }
}

/// Applies one message to `state`.
pub fn update(state: &mut AppState, message: Message)
    ensures
        final(state)@ == old(state)@.updated(message),
{
    match message {
        Message::ScanBatch(batch) => {
            let mut more = batch;
            state.entries.append(&mut more);
            assert(state@.entries == old(state)@.entries + entry_views(batch@));
        },
        Message::ScanFinished => {
            state.current_listing_complete = true;
        },
        Message::ParentScanBatch(batch) => {
            let mut more = batch;
            state.parent_entries.append(&mut more);
            assert(state@.parent_entries == old(state)@.parent_entries + entry_views(batch@));
        },
        Message::ParentScanFinished => {
            state.parent_listing_complete = true;
        },
        Message::RecursiveCountFinished(count) => {
            state.is_counting_recursively = false;
            if count.is_some() {
                state.recursive_file_count = count;
            }
        },
    }
}

/// What the scan of one directory delivers leaves the listing of the other one alone.
pub proof fn scans_do_not_mix(state: StateView, batch: Vec<FileEntry>)
    ensures
        state.updated(Message::ScanBatch(batch)).parent_entries == state.parent_entries,
        state.updated(Message::ParentScanBatch(batch)).entries == state.entries,
        state.updated(Message::ScanFinished).entries == state.entries,
        state.updated(Message::ParentScanFinished).parent_entries == state.parent_entries,
{
}

} // verus!
