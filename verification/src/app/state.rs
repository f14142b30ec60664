//! Everything that the user interface shows and the commands change.

use vstd::prelude::*;

use super::history::{place_key, History};
use super::open_with::{clamped, opt_text, InteractionMode, ModeView};
use crate::fs::entry::{
    cloned_entries, entry_views, index_of_name, name_position, EntryView,
};
use crate::fs::FileEntry;
use crate::path::FilePath;
use crate::preview::{FilePreview, PreviewView};

verus! {

#[derive(Debug, PartialEq, Eq)]
pub struct AppState {
    pub should_quit: bool,
    pub current_dir: FilePath,
    pub entries: Vec<FileEntry>,
    /// The entries of the parent of `current_dir`, for the parent pane. Empty when there is no
    /// parent, or when its scan has not delivered anything yet.
    pub parent_entries: Vec<FileEntry>,
    /// Intended highlight in `entries`. It may lie past the end while a scan is still streaming
    /// in; [`selected_index`](Self::selected_index) and
    /// [`selected_entry`](Self::selected_entry) read a clamped value.
    pub selected: usize,
    /// Name of the last highlighted entry of each visited directory, restored on revisit.
    pub history: History,
    /// Whether the saved highlight of the current directory is still to be restored: from the
    /// change of directory until the entry arrives or the user moves the highlight.
    pub restore_pending: bool,
    /// Changes on every directory change. Scan messages carry the generation they were started
    /// with, so that a cancelled walk cannot apply late batches to the new listing.
    pub scan_generation: u64,
    /// Changes on every start and cancellation of a recursive count.
    pub count_generation: u64,
    /// Cached contents of the highlighted file, filled in by a background job.
    pub preview: FilePreview,
    /// Vertical offset of the preview pane in wrapped lines. Reset when the highlighted file
    /// changes.
    pub preview_scroll: u16,
    /// Last drawn terminal size, by which the preview is paged.
    pub frame_width: u16,
    pub frame_height: u16,
    /// Result of the last recursive count, if one has completed.
    pub recursive_file_count: Option<u64>,
    /// Whether a recursive count is running.
    pub is_counting_recursively: bool,
    pub mode: InteractionMode,
    /// Changes each time the picker is opened.
    pub open_with_generation: u64,
    /// A message for the user. The next command clears it.
    pub notice: Option<String>,
    /// Whether the scan of `current_dir` has delivered everything.
    pub current_listing_complete: bool,
    /// Whether the scan of the parent has delivered everything.
    pub parent_listing_complete: bool,
    pub current_scan_error: Option<String>,
    pub parent_scan_error: Option<String>,
}

/// What an [`AppState`] holds.
#[verifier::ext_equal]
pub struct StateView {
    pub should_quit: bool,
    pub current_dir: Seq<u8>,
    pub entries: Seq<EntryView>,
    pub parent_entries: Seq<EntryView>,
    pub selected: nat,
    pub history: Map<(bool, Seq<Seq<u8>>), Seq<char>>,
    pub restore_pending: bool,
    pub scan_generation: u64,
    pub count_generation: u64,
    pub preview: PreviewView,
    pub preview_scroll: u16,
    pub frame_width: u16,
    pub frame_height: u16,
    pub recursive_file_count: Option<u64>,
    pub is_counting_recursively: bool,
    pub mode: ModeView,
    pub open_with_generation: u64,
    pub notice: Option<Seq<char>>,
    pub current_listing_complete: bool,
    pub parent_listing_complete: bool,
    pub current_scan_error: Option<Seq<char>>,
    pub parent_scan_error: Option<Seq<char>>,
}

impl View for AppState {
    type V = StateView;

    open spec fn view(&self) -> StateView {
        StateView {
            should_quit: self.should_quit,
            current_dir: self.current_dir@,
            entries: entry_views(self.entries@),
            parent_entries: entry_views(self.parent_entries@),
            selected: self.selected as nat,
            history: self.history@,
            restore_pending: self.restore_pending,
            scan_generation: self.scan_generation,
            count_generation: self.count_generation,
            preview: self.preview@,
            preview_scroll: self.preview_scroll,
            frame_width: self.frame_width,
            frame_height: self.frame_height,
            recursive_file_count: self.recursive_file_count,
            is_counting_recursively: self.is_counting_recursively,
            mode: self.mode@,
            open_with_generation: self.open_with_generation,
            notice: opt_text(self.notice),
            current_listing_complete: self.current_listing_complete,
            parent_listing_complete: self.parent_listing_complete,
            current_scan_error: opt_text(self.current_scan_error),
            parent_scan_error: opt_text(self.parent_scan_error),
        }
    }
}

impl Clone for AppState {
    fn clone(&self) -> (r: AppState)
        ensures
            r@ == self@,
    {
        AppState {
            should_quit: self.should_quit,
            current_dir: self.current_dir.clone(),
            entries: cloned_entries(&self.entries),
            parent_entries: cloned_entries(&self.parent_entries),
            selected: self.selected,
            history: self.history.clone(),
            restore_pending: self.restore_pending,
            scan_generation: self.scan_generation,
            count_generation: self.count_generation,
            preview: self.preview.clone(),
            preview_scroll: self.preview_scroll,
            frame_width: self.frame_width,
            frame_height: self.frame_height,
            recursive_file_count: self.recursive_file_count,
            is_counting_recursively: self.is_counting_recursively,
            mode: self.mode.clone(),
            open_with_generation: self.open_with_generation,
            notice: self.notice.clone(),
            current_listing_complete: self.current_listing_complete,
            parent_listing_complete: self.parent_listing_complete,
            current_scan_error: self.current_scan_error.clone(),
            parent_scan_error: self.parent_scan_error.clone(),
        }
    }
}

/// The generation after `generation`. The counter wraps.
pub open spec fn next_generation(generation: u64) -> u64 {
    if generation == u64::MAX {
        0
    } else {
        (generation + 1) as u64
    }
}

impl StateView {
    /// The state in which the program starts.
    pub open spec fn fresh(current_dir: Seq<u8>) -> StateView {
        StateView {
            should_quit: false,
            current_dir,
            entries: Seq::empty(),
            parent_entries: Seq::empty(),
            selected: 0,
            history: Map::empty(),
            restore_pending: false,
            scan_generation: 0,
            count_generation: 0,
            preview: PreviewView::Idle,
            preview_scroll: 0,
            frame_width: 80,
            frame_height: 24,
            recursive_file_count: None,
            is_counting_recursively: false,
            mode: ModeView::Browser,
            open_with_generation: 0,
            notice: None,
            current_listing_complete: false,
            parent_listing_complete: false,
            current_scan_error: None,
            parent_scan_error: None,
        }
    }

    /// The position of the highlight: the last entry where the intended one lies past the end.
    pub open spec fn highlight(self) -> Option<nat> {
        if self.entries.len() == 0 {
            None
        } else {
            Some(clamped(self.selected, self.entries.len()))
        }
    }

    /// The highlighted entry.
    pub open spec fn highlighted(self) -> Option<EntryView> {
        match self.highlight() {
            Some(i) => Some(self.entries[i as int]),
            None => None,
        }
    }

    /// The name that was highlighted when the current directory was last left.
    pub open spec fn saved_name(self) -> Option<Seq<char>> {
        let key = place_key(self.current_dir);
        if self.history.dom().contains(key) {
            Some(self.history[key])
        } else {
            None
        }
    }

    /// The position of the saved entry in the listing, once it is there.
    pub open spec fn saved_position(self) -> Option<int> {
        match self.saved_name() {
            Some(name) => name_position(self.entries, name),
            None => None,
        }
    }

    /// The highlight on the saved entry, if it is still to be restored and the entry is there.
    pub open spec fn with_highlight_restored(self) -> StateView {
        if self.restore_pending && self.saved_position() is Some {
            StateView {
                selected: self.saved_position()->0 as nat,
                restore_pending: false,
                ..self
            }
        } else {
            self
        }
    }

    /// The highlight after the listing changed: on the entry to keep, else on the saved one,
    /// else where it was.
    pub open spec fn synced(self, keep: Option<Seq<char>>) -> StateView {
        let kept = match keep {
            Some(name) => name_position(self.entries, name),
            None => None,
        };
        if kept is Some {
            StateView { selected: kept->0 as nat, ..self }
        } else if self.saved_position() is Some {
            StateView { selected: self.saved_position()->0 as nat, ..self }
        } else {
            self
        }
    }

    /// The preview moved by `delta` lines, within what there is to see.
    pub open spec fn scrolled(self, delta: int, limit: u16) -> StateView {
        let next = self.preview_scroll + delta;
        let preview_scroll = if next < 0 {
            0
        } else if next > limit {
            limit
        } else {
            next as u16
        };
        StateView { preview_scroll, ..self }
    }

    /// Nothing cached for the preview pane.
    pub open spec fn without_preview(self) -> StateView {
        StateView { preview: PreviewView::Idle, preview_scroll: 0, ..self }
    }
}

impl AppState {
    pub fn new(current_dir: FilePath) -> (r: AppState)
        ensures
            r@ == StateView::fresh(current_dir@),
    {
        AppState {
            should_quit: false,
            current_dir,
            entries: Vec::new(),
            parent_entries: Vec::new(),
            selected: 0,
            history: History::new(),
            restore_pending: false,
            scan_generation: 0,
            count_generation: 0,
            preview: FilePreview::Idle,
            preview_scroll: 0,
            frame_width: 80,
            frame_height: 24,
            recursive_file_count: None,
            is_counting_recursively: false,
            mode: InteractionMode::Browser,
            open_with_generation: 0,
            notice: None,
            current_listing_complete: false,
            parent_listing_complete: false,
            current_scan_error: None,
            parent_scan_error: None,
        }
    }

    /// Starts in the working directory of the process, or in `.` where it cannot be read.
    pub fn starting_in(working_dir: Option<FilePath>) -> (r: AppState)
        ensures
            r@ == StateView::fresh(
                match working_dir {
                    Some(dir) => dir@,
                    None => vstd::utf8::encode_utf8("."@),
                },
            ),
    {
        match working_dir {
            Some(dir) => AppState::new(dir),
            None => AppState::new(FilePath::new(".")),
        }
    }

    /// Clamped highlight, or `None` if the list is empty.
    pub fn selected_index(&self) -> (r: Option<usize>)
        ensures
            r is Some == self@.highlight() is Some,
            r matches Some(i) ==> i as nat == self@.highlight()->0 && i < self.entries.len(),
    {
        let len: usize = self.entries.len();
        assert(self@.entries.len() == len);
        if len == 0 {
            None
        } else if self.selected < len {
            Some(self.selected)
        } else {
            Some(len - 1)
        }
    }

    /// The highlighted entry, or `None` if the list is empty.
    pub fn selected_entry(&self) -> (r: Option<&FileEntry>)
        ensures
            r is Some == self@.highlighted() is Some,
            r matches Some(entry) ==> entry@ == self@.highlighted()->0,
    {
        match self.selected_index() {
            Some(i) => Some(&self.entries[i]),
            None => None,
        }
    }

    /// Puts the highlight back after the listing changed: on the entry named `keep`, else on the
    /// entry that was highlighted when this directory was last left.
    pub fn sync_selection_after_listing_change(&mut self, keep: Option<&str>)
        ensures
            final(self)@ == old(self)@.synced(
                match keep {
                    Some(name) => Some(name@),
                    None => None,
                },
            ),
    {
        if let Some(name) = keep {
            if let Some(i) = index_of_name(&self.entries, name) {
                self.selected = i;
                return ;
            }
        }
        if let Some(i) = self.saved_index() {
            self.selected = i;
        }
    }

    /// Where the entry is that was highlighted when this directory was last left.
    fn saved_index(&self) -> (r: Option<usize>)
        ensures
            r is Some == self@.saved_position() is Some,
            r matches Some(i) ==> i as int == self@.saved_position()->0,
    {
        match self.history.get(&self.current_dir) {
            Some(name) => index_of_name(&self.entries, name.as_str()),
            None => None,
        }
    }

    /// Highlights the entry that was highlighted when this directory was last left, unless that
    /// has been done, or the user has moved since.
    pub fn restore_highlight(&mut self)
        ensures
            final(self)@ == old(self)@.with_highlight_restored(),
    {
        if self.restore_pending {
            if let Some(i) = self.saved_index() {
                self.selected = i;
                self.restore_pending = false;
            }
        }
    }

    /// Moves the preview by `delta` wrapped lines, clamped to `limit` (the most that the current
    /// pane size allows).
    pub fn scroll_preview(&mut self, delta: i32, limit: u16)
        ensures
            final(self)@ == old(self)@.scrolled(delta as int, limit),
    {
        let next: i64 = self.preview_scroll as i64 + delta as i64;
        self.preview_scroll = if next < 0 {
            0
        } else if next > limit as i64 {
            limit
        } else {
            next as u16
        };
    }
}

/// However far the preview is scrolled, it stays within the limit.
pub proof fn scrolling_stays_within_the_limit(state: StateView, delta: int, limit: u16)
    ensures
        0 <= state.scrolled(delta, limit).preview_scroll <= limit,
{
}

/// The highlight always lies on an entry, whatever the intended position is.
pub proof fn highlight_is_an_entry(state: StateView)
    ensures
        state.highlight() is Some == (state.entries.len() > 0),
        state.highlight() matches Some(i) ==> i < state.entries.len(),
{
}

/// A new generation differs from the one before.
pub proof fn generations_differ(generation: u64)
    ensures
        next_generation(generation) != generation,
{
}

} // verus!
