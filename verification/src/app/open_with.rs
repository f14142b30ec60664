//! The "open with" picker: a typed command above a capped filter of the
//! programs on the search path.
//!
//! Listing the search path is slow and belongs in a background job. The rows
//! and the keys are decided here.

use compact_str::CompactString;
use vstd::prelude::*;
use vstd::relations::sorted_by;

use super::editor::{launch_of, launch_spec, EditorError, EditorLaunch, LaunchView};
use crate::compact::{cloned_names, compact_chars, names_of};
use crate::event::{KeyCode, KeyEvent, KeyEventKind, KeyModifiers};
use crate::path::{shown_name, FilePath};
use crate::text::{
    begins_with, chars_of, has_part, in_order, lower, lower_of, occurs, same_text, string_of,
    text_leq, text_order, text_order_is_total, texts_of, trim, trimmed, words, words_of,
};

verus! {

/// Most program names kept in memory, so that a huge search path stays bounded.
pub const CANDIDATE_LIMIT: usize = 4096;

/// Most program rows shown after filtering. The row of the typed command is extra.
pub const DISPLAY_LIMIT: usize = 20;

/// Shown when the query is empty, in this order, and only if they are on the search path.
pub const CURATED: [&'static str; 6] = ["nvim", "vim", "vi", "nano", "xdg-open", "less"];

/// The curated names.
pub open spec fn curated_names() -> Seq<Seq<char>> {
    CURATED@.map_values(|name: &str| name@)
}

/// A row of the picker.
#[derive(Debug, PartialEq, Eq)]
pub enum OpenWithRow {
    /// The typed command, flags and all (`code --wait`).
    Custom(String),
    Binary(CompactString),
}

/// What an [`OpenWithRow`] says.
pub enum RowView {
    Custom(Seq<char>),
    Binary(Seq<char>),
}

impl RowView {
    /// The command line that the row stands for.
    pub open spec fn command(self) -> Seq<char> {
        match self {
            RowView::Custom(query) => query,
            RowView::Binary(name) => name,
        }
    }
}

impl View for OpenWithRow {
    type V = RowView;

    open spec fn view(&self) -> RowView {
        match self {
            OpenWithRow::Custom(query) => RowView::Custom(query@),
            OpenWithRow::Binary(name) => RowView::Binary(compact_chars(*name)),
        }
    }
}

impl OpenWithRow {
    pub fn command(&self) -> (r: &str)
        ensures
            r@ == self@.command(),
    {
        match self {
            OpenWithRow::Custom(query) => query.as_str(),
            OpenWithRow::Binary(name) => name.as_str(),
        }
    }
}

impl Clone for OpenWithRow {
    fn clone(&self) -> (r: OpenWithRow)
        ensures
            r@ == self@,
    {
        match self {
            OpenWithRow::Custom(query) => OpenWithRow::Custom(query.clone()),
            OpenWithRow::Binary(name) => OpenWithRow::Binary(name.clone()),
        }
    }
}

/// What each row says.
pub open spec fn row_views(rows: Seq<OpenWithRow>) -> Seq<RowView> {
    rows.map_values(|row: OpenWithRow| row@)
}

/// The names that begin with the needle, upper and lower case alike.
pub open spec fn starting(needle: Seq<char>) -> spec_fn(Seq<char>) -> bool {
    |name: Seq<char>| needle.is_prefix_of(lower(name))
}

/// The names that hold the needle further in, upper and lower case alike.
pub open spec fn holding(needle: Seq<char>) -> spec_fn(Seq<char>) -> bool {
    |name: Seq<char>| !needle.is_prefix_of(lower(name)) && occurs(needle, lower(name))
}

/// The first word of a query in lower case: what program names are matched against.
pub open spec fn needle_of(query: Seq<char>) -> Seq<char> {
    let w = words(query);
    lower(if w.len() > 0 { w[0] } else { query })
}

/// At most [`DISPLAY_LIMIT`] names.
pub open spec fn capped(names: Seq<Seq<char>>) -> Seq<Seq<char>> {
    if names.len() <= DISPLAY_LIMIT {
        names
    } else {
        names.take(DISPLAY_LIMIT as int)
    }
}

/// The programs offered for a trimmed query. Without a query these are the curated ones that are
/// there; otherwise those that match, in alphabetical order, and those that begin with the query
/// before those that merely hold it.
pub open spec fn matches_of(query: Seq<char>, candidates: Seq<Seq<char>>) -> Seq<Seq<char>> {
    if query.len() == 0 {
        curated_names().filter(|name: Seq<char>| candidates.contains(name))
    } else {
        let needle = needle_of(query);
        capped(
            candidates.filter(starting(needle)).sort_by(text_order())
                + candidates.filter(holding(needle)).sort_by(text_order()),
        )
    }
}

/// The rows of the picker: the typed command, if there is one, above the programs.
pub open spec fn rows_of(query: Seq<char>, candidates: Seq<Seq<char>>) -> Seq<RowView> {
    let typed = trim(query);
    let programs = matches_of(typed, candidates).map_values(
        |name: Seq<char>| RowView::Binary(name),
    );
    if typed.len() > 0 {
        seq![RowView::Custom(typed)] + programs
    } else {
        programs
    }
}

/// Puts a name into its place in a sorted list.
fn place(sorted: &mut Vec<CompactString>, name: CompactString)
    requires
        sorted_by(names_of(old(sorted)@), text_order()),
    ensures
        sorted_by(names_of(final(sorted)@), text_order()),
        names_of(final(sorted)@).to_multiset() == names_of(old(sorted)@).to_multiset().insert(
            compact_chars(name),
        ),
{
    let key = chars_of(name.as_str());
    let ghost all = names_of(sorted@);
    let ghost x = compact_chars(name);
    let mut low: usize = 0;
    let mut high: usize = sorted.len();
    proof {
        text_order_is_total();
    }
    while low < high
        invariant
            low <= high <= sorted.len(),
            all == names_of(sorted@),
            key@ == x,
            sorted_by(all, text_order()),
            vstd::relations::total_ordering(text_order()),
            forall|j: int| 0 <= j < low ==> text_leq(#[trigger] all[j], x),
            forall|j: int| high <= j < all.len() ==> !text_leq(#[trigger] all[j], x),
        decreases high - low,
    {
        let mid: usize = low + (high - low) / 2;
        let other = chars_of(sorted[mid].as_str());
        assert(other@ == all[mid as int]);
        if in_order(&other, &key) {
            assert forall|j: int| 0 <= j < mid + 1 implies text_leq(#[trigger] all[j], x) by {
                if j < mid {
                    assert(text_order()(all[j], all[mid as int]));
                    assert(text_order()(all[mid as int], x));
                    assert(text_order()(all[j], x));
                }
            }
            low = mid + 1;
        } else {
            assert forall|j: int| mid <= j < all.len() implies !text_leq(
                #[trigger] all[j],
                x,
            ) by {
                if j > mid && text_leq(all[j], x) {
                    assert(text_order()(all[mid as int], all[j]));
                    assert(text_order()(all[j], x));
                    assert(text_order()(all[mid as int], x));
                }
            }
            high = mid;
        }
    }
    sorted.insert(low, name);
    proof {
        let now = names_of(sorted@);
        assert(now == all.insert(low as int, x));
        vstd::seq_lib::to_multiset_insert(all, low as int, x);
        assert forall|i: int, j: int| 0 <= i < j < now.len() implies #[trigger] text_order()(
            now[i],
            now[j],
        ) by {
            if i < low {
                assert(now[i] == all[i]);
            } else if i > low {
                assert(now[i] == all[i - 1]);
            }
            if j < low {
                assert(now[j] == all[j]);
            } else if j > low {
                assert(now[j] == all[j - 1]);
            }
            if i == low {
                assert(!text_leq(all[j - 1], x));
                assert(text_order()(x, all[j - 1]) || text_order()(all[j - 1], x));
            } else if j == low {
                assert(text_leq(all[i], x));
            } else if i < low && j < low {
                assert(text_order()(all[i], all[j]));
            } else if i < low {
                assert(text_order()(all[i], all[j - 1]));
            } else {
                assert(text_order()(all[i - 1], all[j - 1]));
            }
        }
    }
}

/// Whether a name is in the list.
pub fn listed(names: &Vec<CompactString>, name: &str) -> (r: bool)
    ensures
        r == names_of(names@).contains(name@),
{
    let mut i: usize = 0;
    while i < names.len()
        invariant
            i <= names.len(),
            forall|j: int| 0 <= j < i ==> #[trigger] names_of(names@)[j] != name@,
        decreases names.len() - i,
    {
        if same_text(names[i].as_str(), name) {
            assert(names_of(names@)[i as int] == name@);
            return true;
        }
        i += 1;
    }
    false
}

/// The curated programs that are among the candidates.
fn curated_among(candidates: &Vec<CompactString>) -> (r: Vec<CompactString>)
    ensures
        names_of(r@) == curated_names().filter(
            |name: Seq<char>| names_of(candidates@).contains(name),
        ),
{
    let curated = CURATED;
    let mut r: Vec<CompactString> = Vec::new();
    let mut i: usize = 0;
    let ghost among = |name: Seq<char>| names_of(candidates@).contains(name);
    proof {
        reveal(Seq::filter);
    }
    assert(names_of(r@) == curated_names().take(0).filter(among));
    while i < curated.len()
        invariant
            i <= curated.len(),
            curated@ == CURATED@,
            among == (|name: Seq<char>| names_of(candidates@).contains(name)),
            names_of(r@) == curated_names().take(i as int).filter(among),
        decreases curated.len() - i,
    {
        let name: &str = curated[i];
        let ghost all = curated_names();
        proof {
            reveal(Seq::filter);
            assert(all.take(i + 1).drop_last() == all.take(i as int));
            assert(all.take(i + 1).last() == all[i as int]);
            assert(all[i as int] == name@);
        }
        if listed(candidates, name) {
            let kept = crate::compact::compact(name);
            assert(names_of(r@.push(kept)) == names_of(r@).push(name@));
            r.push(kept);
        }
        i += 1;
    }
    assert(curated_names().take(i as int) == curated_names());
    r
}

/// The programs offered for a trimmed query.
pub fn matching_binaries(query: &str, candidates: &Vec<CompactString>) -> (r: Vec<CompactString>)
    ensures
        names_of(r@) == matches_of(query@, names_of(candidates@)),
{
    if query.is_empty() {
        return curated_among(candidates);
    }
    let parts = words_of(query);
    let first = if parts.len() > 0 {
        assert(texts_of(parts@)[0] == parts@[0]@);
        chars_of(parts[0].as_str())
    } else {
        chars_of(query)
    };
    let needle = lower_of(&first);
    let ghost n = needle_of(query@);
    let ghost all = names_of(candidates@);
    assert(needle@ == n);
    let mut front: Vec<CompactString> = Vec::new();
    let mut back: Vec<CompactString> = Vec::new();
    let mut i: usize = 0;
    proof {
        reveal(Seq::filter);
        assert(names_of(front@) == all.take(0).filter(starting(n)));
        assert(names_of(back@) == all.take(0).filter(holding(n)));
    }
    while i < candidates.len()
        invariant
            i <= candidates.len(),
            needle@ == n,
            all == names_of(candidates@),
            sorted_by(names_of(front@), text_order()),
            sorted_by(names_of(back@), text_order()),
            names_of(front@).to_multiset() == all.take(i as int).filter(
                starting(n),
            ).to_multiset(),
            names_of(back@).to_multiset() == all.take(i as int).filter(holding(n)).to_multiset(),
        decreases candidates.len() - i,
    {
        let chars = chars_of(candidates[i].as_str());
        let name = lower_of(&chars);
        proof {
            reveal(Seq::filter);
            broadcast use vstd::seq_lib::to_multiset_build;

            assert(all.take(i + 1).drop_last() == all.take(i as int));
            assert(all.take(i + 1).last() == all[i as int]);
            assert(chars@ == all[i as int]);
        }
        if begins_with(&name, &needle) {
            assert(starting(n)(all[i as int]));
            assert(!holding(n)(all[i as int]));
            place(&mut front, candidates[i].clone());
        } else if has_part(&name, &needle) {
            assert(!starting(n)(all[i as int]));
            assert(holding(n)(all[i as int]));
            place(&mut back, candidates[i].clone());
        }
        i += 1;
    }
    proof {
        assert(all.take(i as int) == all);
        text_order_is_total();
        let a = all.filter(starting(n));
        let b = all.filter(holding(n));
        a.lemma_sort_by_ensures(text_order());
        b.lemma_sort_by_ensures(text_order());
        vstd::seq_lib::lemma_sorted_unique(
            names_of(front@),
            a.sort_by(text_order()),
            text_order(),
        );
        vstd::seq_lib::lemma_sorted_unique(names_of(back@), b.sort_by(text_order()), text_order());
    }
    let ghost joined = names_of(front@) + names_of(back@);
    front.append(&mut back);
    assert(names_of(front@) == joined);
    if front.len() > DISPLAY_LIMIT {
        front.truncate(DISPLAY_LIMIT);
        assert(names_of(front@) == joined.take(DISPLAY_LIMIT as int));
    }
    front
}

/// The rows of the picker for a query as it was typed.
pub fn visible_rows(query: &str, candidates: &Vec<CompactString>) -> (r: Vec<OpenWithRow>)
    ensures
        row_views(r@) == rows_of(query@, names_of(candidates@)),
{
    let typed = trimmed(query);
    let found = matching_binaries(typed.as_str(), candidates);
    let ghost names = names_of(found@);
    let mut rows: Vec<OpenWithRow> = Vec::new();
    let ghost mut head: Seq<RowView> = Seq::empty();
    if !typed.as_str().is_empty() {
        proof {
            head = seq![RowView::Custom(typed@)];
        }
        rows.push(OpenWithRow::Custom(typed));
    }
    assert(row_views(rows@) == head);
    let mut i: usize = 0;
    let ghost program = |name: Seq<char>| RowView::Binary(name);
    assert(head + names.take(0).map_values(program) == head);
    while i < found.len()
        invariant
            i <= found.len(),
            names == names_of(found@),
            program == (|name: Seq<char>| RowView::Binary(name)),
            row_views(rows@) == head + names.take(i as int).map_values(program),
        decreases found.len() - i,
    {
        let row = OpenWithRow::Binary(found[i].clone());
        proof {
            assert(row@ == program(names[i as int]));
            assert(row_views(rows@.push(row)) == row_views(rows@).push(row@));
            assert(names.take(i + 1) == names.take(i as int).push(names[i as int]));
            assert(names.take(i + 1).map_values(program) == names.take(i as int).map_values(
                program,
            ).push(row@));
        }
        rows.push(row);
        assert(row_views(rows@) == head + names.take(i + 1).map_values(program));
        i += 1;
    }
    assert(names.take(i as int) == names);
    assert(head + names.map_values(program) == rows_of(query@, names_of(candidates@)));
    rows
}

/// The row that a highlight names: the last one where the highlight lies past the end.
pub open spec fn clamped(selected: nat, rows: nat) -> nat {
    if rows == 0 {
        0
    } else if selected < rows {
        selected
    } else {
        (rows - 1) as nat
    }
}

/// The state of the open picker.
#[derive(Debug, PartialEq, Eq)]
pub struct OpenWithPrompt {
    pub target: FilePath,
    pub target_name: CompactString,
    pub query: String,
    pub candidates: Vec<CompactString>,
    pub selected: usize,
    pub generation: u64,
    pub listing_complete: bool,
    pub listing_error: Option<String>,
}

/// What an [`OpenWithPrompt`] holds.
#[verifier::ext_equal]
pub struct PromptView {
    pub target: Seq<u8>,
    pub target_name: Seq<char>,
    pub query: Seq<char>,
    pub candidates: Seq<Seq<char>>,
    pub selected: nat,
    pub generation: u64,
    pub listing_complete: bool,
    pub listing_error: Option<Seq<char>>,
}

/// The characters of an optional text.
pub open spec fn opt_text(text: Option<String>) -> Option<Seq<char>> {
    match text {
        Some(t) => Some(t@),
        None => None,
    }
}

impl View for OpenWithPrompt {
    type V = PromptView;

    open spec fn view(&self) -> PromptView {
        PromptView {
            target: self.target@,
            target_name: compact_chars(self.target_name),
            query: self.query@,
            candidates: names_of(self.candidates@),
            selected: self.selected as nat,
            generation: self.generation,
            listing_complete: self.listing_complete,
            listing_error: opt_text(self.listing_error),
        }
    }
}

impl Clone for OpenWithPrompt {
    fn clone(&self) -> (r: OpenWithPrompt)
        ensures
            r@ == self@,
    {
        OpenWithPrompt {
            target: self.target.clone(),
            target_name: self.target_name.clone(),
            query: self.query.clone(),
            candidates: cloned_names(&self.candidates),
            selected: self.selected,
            generation: self.generation,
            listing_complete: self.listing_complete,
            listing_error: self.listing_error.clone(),
        }
    }
}

impl PromptView {
    pub open spec fn rows(self) -> Seq<RowView> {
        rows_of(self.query, self.candidates)
    }

    /// The picker for a file, before anything was typed or listed.
    pub open spec fn fresh(target: Seq<u8>, generation: u64) -> PromptView {
        PromptView {
            target,
            target_name: shown_name(target),
            query: Seq::empty(),
            candidates: Seq::empty(),
            selected: 0,
            generation,
            listing_complete: false,
            listing_error: None,
        }
    }

    /// The highlight, moved back onto the rows that there are.
    pub open spec fn with_clamped_highlight(self) -> PromptView {
        PromptView { selected: clamped(self.selected, self.rows().len()), ..self }
    }

    /// The picker once the search path is listed.
    pub open spec fn with_candidates(self, names: Seq<Seq<char>>) -> PromptView {
        PromptView {
            candidates: names,
            listing_complete: true,
            listing_error: None,
            ..self
        }.with_clamped_highlight()
    }

    /// One row up, but not past the first.
    pub open spec fn with_highlight_above(self) -> PromptView {
        let selected = if self.selected == 0 {
            0
        } else {
            (self.selected - 1) as nat
        };
        PromptView { selected, ..self }.with_clamped_highlight()
    }

    /// One row down, but not past the last.
    pub open spec fn with_highlight_below(self) -> PromptView {
        if self.rows().len() == 0 {
            self
        } else {
            PromptView { selected: self.selected + 1, ..self }.with_clamped_highlight()
        }
    }

    /// What the highlighted row launches.
    pub open spec fn confirmed(self) -> Result<LaunchView, EditorError> {
        let rows = self.rows();
        if rows.len() == 0 {
            Err(EditorError::Empty)
        } else {
            let command = rows[clamped(self.selected, rows.len()) as int].command();
            match launch_of(command, self.target) {
                Some(launch) => Ok(launch),
                None => Err(EditorError::Empty),
            }
        }
    }
}

impl OpenWithPrompt {
    pub fn new(target: FilePath, generation: u64) -> (r: OpenWithPrompt)
        ensures
            r@ == PromptView::fresh(target@, generation),
    {
        let target_name = target.shown_name();
        OpenWithPrompt {
            target,
            target_name,
            query: String::new(),
            candidates: Vec::new(),
            selected: 0,
            generation,
            listing_complete: false,
            listing_error: None,
        }
    }

    pub fn visible_rows(&self) -> (r: Vec<OpenWithRow>)
        ensures
            row_views(r@) == self@.rows(),
    {
        visible_rows(self.query.as_str(), &self.candidates)
    }

    /// Moves a highlight that lies past the end onto the last row.
    pub fn clamp_selected(&mut self)
        ensures
            final(self)@ == old(self)@.with_clamped_highlight(),
    {
        let rows = self.visible_rows();
        let len: usize = rows.len();
        assert(self@.rows().len() == len);
        if len == 0 {
            self.selected = 0;
        } else if self.selected >= len {
            self.selected = len - 1;
        }
    }

    /// Takes the names found on the search path.
    pub fn set_candidates(&mut self, names: Vec<CompactString>)
        ensures
            final(self)@ == old(self)@.with_candidates(names_of(names@)),
    {
        self.candidates = names;
        self.listing_complete = true;
        self.listing_error = None;
        self.clamp_selected();
    }

    /// Moves the highlight one row up, and not past the first row.
    pub fn highlight_above(&mut self)
        ensures
            final(self)@ == old(self)@.with_highlight_above(),
    {
        if self.selected > 0 {
            self.selected = self.selected - 1;
        }
        self.clamp_selected();
    }

    /// Moves the highlight one row down, and not past the last row.
    pub fn highlight_below(&mut self)
        ensures
            final(self)@ == old(self)@.with_highlight_below(),
    {
        let rows = self.visible_rows();
        let len: usize = rows.len();
        assert(self@.rows().len() == len);
        if len > 0 {
            self.selected = if self.selected < len - 1 {
                self.selected + 1
            } else {
                len - 1
            };
        }
    }
}

/// What the keys do: browse the files, or fill in the picker.
#[derive(Debug, PartialEq, Eq)]
pub enum InteractionMode {
    Browser,
    OpenWith(OpenWithPrompt),
}

/// What an [`InteractionMode`] holds.
#[verifier::ext_equal]
pub enum ModeView {
    Browser,
    OpenWith(PromptView),
}

impl View for InteractionMode {
    type V = ModeView;

    open spec fn view(&self) -> ModeView {
        match self {
            InteractionMode::Browser => ModeView::Browser,
            InteractionMode::OpenWith(prompt) => ModeView::OpenWith(prompt@),
        }
    }
}

impl Clone for InteractionMode {
    fn clone(&self) -> (r: InteractionMode)
        ensures
            r@ == self@,
    {
        match self {
            InteractionMode::Browser => InteractionMode::Browser,
            InteractionMode::OpenWith(prompt) => InteractionMode::OpenWith(prompt.clone()),
        }
    }
}

/// What a key does besides changing the picker.
#[derive(Debug, PartialEq, Eq)]
pub enum OpenWithAction {
    Nothing,
    Close,
    Launch(EditorLaunch),
    /// The picker stays open; the message becomes the notice.
    Notice(String),
}

/// What an [`OpenWithAction`] asks for.
#[verifier::ext_equal]
pub enum ActionView {
    Nothing,
    Close,
    Launch(LaunchView),
    Notice(Seq<char>),
}

impl View for OpenWithAction {
    type V = ActionView;

    open spec fn view(&self) -> ActionView {
        match self {
            OpenWithAction::Nothing => ActionView::Nothing,
            OpenWithAction::Close => ActionView::Close,
            OpenWithAction::Launch(spec) => ActionView::Launch(spec@),
            OpenWithAction::Notice(message) => ActionView::Notice(message@),
        }
    }
}

impl Clone for OpenWithAction {
    fn clone(&self) -> (r: OpenWithAction)
        ensures
            r@ == self@,
    {
        match self {
            OpenWithAction::Nothing => OpenWithAction::Nothing,
            OpenWithAction::Close => OpenWithAction::Close,
            OpenWithAction::Launch(spec) => OpenWithAction::Launch(spec.clone()),
            OpenWithAction::Notice(message) => OpenWithAction::Notice(message.clone()),
        }
    }
}

/// What the highlighted row launches. A highlight past the end names the last row; without rows
/// the command is empty.
pub fn confirm(prompt: &OpenWithPrompt) -> (r: Result<EditorLaunch, EditorError>)
    ensures
        match prompt@.confirmed() {
            Ok(launch) => r matches Ok(spec) && spec@ == launch,
            Err(error) => r == Err::<EditorLaunch, EditorError>(error),
        },
{
    let rows = prompt.visible_rows();
    assert(prompt@.rows().len() == rows.len());
    if rows.len() == 0 {
        return Err(EditorError::Empty);
    }
    let index: usize = if prompt.selected < rows.len() {
        prompt.selected
    } else {
        rows.len() - 1
    };
    assert(prompt@.rows()[index as int] == rows@[index as int]@);
    launch_spec(rows[index].command(), &prompt.target)
}

/// The picker after a key, and what else the key does.
pub open spec fn picker_step(prompt: PromptView, key: KeyEvent) -> (PromptView, ActionView) {
    let bare = key.modifiers == KeyModifiers::bare();
    let shifted = key.modifiers == (KeyModifiers { shift: true, ..KeyModifiers::bare() });
    if key.kind != KeyEventKind::Press {
        (prompt, ActionView::Nothing)
    } else if bare && key.code == KeyCode::Esc {
        (prompt, ActionView::Close)
    } else if bare && key.code == KeyCode::Enter {
        match prompt.confirmed() {
            Ok(launch) => (prompt, ActionView::Launch(launch)),
            Err(error) => (prompt, ActionView::Notice(error.message())),
        }
    } else if bare && (key.code == KeyCode::Up || key.code == KeyCode::Char('k')) {
        (prompt.with_highlight_above(), ActionView::Nothing)
    } else if bare && (key.code == KeyCode::Down || key.code == KeyCode::Char('j')) {
        (prompt.with_highlight_below(), ActionView::Nothing)
    } else if bare && key.code == KeyCode::Backspace {
        let query = if prompt.query.len() == 0 {
            prompt.query
        } else {
            prompt.query.drop_last()
        };
        (PromptView { query, selected: 0, ..prompt }, ActionView::Nothing)
    } else if key.modifiers.control && key.code == KeyCode::Char('u') {
        (PromptView { query: Seq::empty(), selected: 0, ..prompt }, ActionView::Nothing)
    } else if bare || shifted {
        match key.code {
            KeyCode::Char(typed) => (
                PromptView { query: prompt.query.push(typed), selected: 0, ..prompt },
                ActionView::Nothing,
            ),
            _ => (prompt, ActionView::Nothing),
        }
    } else {
        (prompt, ActionView::Nothing)
    }
}

/// The keys of the picker. `j` and `k` move its highlight, not that of the file list; `q` types
/// `q`.
pub fn handle_key(prompt: &mut OpenWithPrompt, key: KeyEvent) -> (r: OpenWithAction)
    ensures
        final(prompt)@ == picker_step(old(prompt)@, key).0,
        r@ == picker_step(old(prompt)@, key).1,
{
    if key.kind != KeyEventKind::Press {
        return OpenWithAction::Nothing;
    }
    let bare: bool = key.modifiers == KeyModifiers::none();
    let shifted: bool = key.modifiers == KeyModifiers::only_shift();
    if bare && key.code == KeyCode::Esc {
        return OpenWithAction::Close;
    }
    if bare && key.code == KeyCode::Enter {
        return match confirm(prompt) {
            Ok(spec) => OpenWithAction::Launch(spec),
            Err(error) => OpenWithAction::Notice(error.to_string()),
        };
    }
    if bare && (key.code == KeyCode::Up || key.code == KeyCode::Char('k')) {
        prompt.highlight_above();
    } else if bare && (key.code == KeyCode::Down || key.code == KeyCode::Char('j')) {
        prompt.highlight_below();
    } else if bare && key.code == KeyCode::Backspace {
        let chars = chars_of(prompt.query.as_str());
        let len: usize = chars.len();
        if len > 0 {
            prompt.query = string_of(&chars, 0, len - 1);
            assert(prompt.query@ == old(prompt).query@.drop_last());
        }
        prompt.selected = 0;
    } else if key.modifiers.control && key.code == KeyCode::Char('u') {
        prompt.query = String::new();
        prompt.selected = 0;
    } else if bare || shifted {
        if let KeyCode::Char(typed) = key.code {
            prompt.query.push(typed);
            prompt.selected = 0;
        }
    }
    OpenWithAction::Nothing
}

proof fn lemma_filter_keeps_members(names: Seq<Seq<char>>, keep: spec_fn(Seq<char>) -> bool)
    ensures
        forall|name: Seq<char>| #[trigger]
            names.filter(keep).contains(name) ==> names.contains(name) && keep(name),
    decreases names.len(),
{
    reveal(Seq::filter);
    if names.len() > 0 {
        let rest = names.drop_last();
        lemma_filter_keeps_members(rest, keep);
        assert forall|name: Seq<char>| #[trigger]
            names.filter(keep).contains(name) implies names.contains(name) && keep(name) by {
            let kept = names.filter(keep);
            let k = choose|k: int| 0 <= k < kept.len() && kept[k] == name;
            if k < rest.filter(keep).len() {
                assert(rest.filter(keep)[k] == name);
                assert(rest.filter(keep).contains(name));
                let j = choose|j: int| 0 <= j < rest.len() && rest[j] == name;
                assert(names[j] == name);
            } else {
                assert(names[names.len() - 1] == name);
            }
        }
    }
}

/// Every program offered is one of the candidates.
pub proof fn offered_programs_are_candidates(query: Seq<char>, candidates: Seq<Seq<char>>)
    ensures
        forall|name: Seq<char>| #[trigger]
            matches_of(query, candidates).contains(name) ==> candidates.contains(name),
{
    if query.len() == 0 {
        lemma_filter_keeps_members(
            curated_names(),
            |name: Seq<char>| candidates.contains(name),
        );
    } else {
        let needle = needle_of(query);
        let front = candidates.filter(starting(needle));
        let back = candidates.filter(holding(needle));
        text_order_is_total();
        lemma_filter_keeps_members(candidates, starting(needle));
        lemma_filter_keeps_members(candidates, holding(needle));
        front.lemma_sort_by_ensures(text_order());
        back.lemma_sort_by_ensures(text_order());
        let all = front.sort_by(text_order()) + back.sort_by(text_order());
        assert forall|name: Seq<char>| #[trigger]
            matches_of(query, candidates).contains(name) implies candidates.contains(name) by {
            let offered = matches_of(query, candidates);
            let k = choose|k: int| 0 <= k < offered.len() && offered[k] == name;
            assert(all[k] == name);
            if k < front.sort_by(text_order()).len() {
                assert(front.sort_by(text_order())[k] == name);
                assert(front.sort_by(text_order()).contains(name));
                assert(front.contains(name));
            } else {
                let at = k - front.sort_by(text_order()).len();
                assert(back.sort_by(text_order())[at] == name);
                assert(back.sort_by(text_order()).contains(name));
                assert(back.contains(name));
            }
        }
    }
}

/// Programs that begin with the query come before those that merely hold it, and each of the two
/// groups is in alphabetical order.
pub proof fn beginnings_rank_first(query: Seq<char>, candidates: Seq<Seq<char>>)
    requires
        query.len() > 0,
    ensures
        forall|i: int, j: int|
            #![trigger matches_of(query, candidates)[i], matches_of(query, candidates)[j]]
            0 <= i < j < matches_of(query, candidates).len() ==> {
                let earlier = matches_of(query, candidates)[i];
                let later = matches_of(query, candidates)[j];
                ||| starting(needle_of(query))(earlier) && holding(needle_of(query))(later)
                ||| starting(needle_of(query))(earlier) == starting(needle_of(query))(later)
                    && text_leq(earlier, later)
            },
{
    let needle = needle_of(query);
    let front = candidates.filter(starting(needle));
    let back = candidates.filter(holding(needle));
    text_order_is_total();
    lemma_filter_keeps_members(candidates, starting(needle));
    lemma_filter_keeps_members(candidates, holding(needle));
    front.lemma_sort_by_ensures(text_order());
    back.lemma_sort_by_ensures(text_order());
    let a = front.sort_by(text_order());
    let b = back.sort_by(text_order());
    let offered = matches_of(query, candidates);
    assert forall|i: int| 0 <= i < a.len() implies starting(needle)(#[trigger] a[i]) by {
        assert(a.contains(a[i]));
    }
    assert forall|i: int| 0 <= i < b.len() implies holding(needle)(#[trigger] b[i]) by {
        assert(b.contains(b[i]));
    }
    assert forall|i: int, j: int|
        #![trigger offered[i], offered[j]]
        0 <= i < j < offered.len() implies {
        let earlier = offered[i];
        let later = offered[j];
        ||| starting(needle)(earlier) && holding(needle)(later)
        ||| starting(needle)(earlier) == starting(needle)(later) && text_leq(earlier, later)
    } by {
        assert(offered[i] == (a + b)[i] && offered[j] == (a + b)[j]);
        if j < a.len() {
            assert(text_order()(a[i], a[j]));
        } else if i >= a.len() {
            assert(text_order()(b[i - a.len()], b[j - a.len()]));
        }
    }
}

/// There are never more than [`DISPLAY_LIMIT`] programs among the rows.
pub proof fn offered_programs_are_capped(query: Seq<char>, candidates: Seq<Seq<char>>)
    ensures
        matches_of(query, candidates).len() <= DISPLAY_LIMIT,
{
    curated_names().lemma_filter_len(|name: Seq<char>| candidates.contains(name));
}

/// A query that is not blank is offered as a command in the first row; every other row is a
/// program.
pub proof fn typed_command_comes_first(query: Seq<char>, candidates: Seq<Seq<char>>)
    ensures
        trim(query).len() > 0 ==> rows_of(query, candidates).len() > 0 && rows_of(
            query,
            candidates,
        )[0] == RowView::Custom(trim(query)),
        forall|i: int|
            (if trim(query).len() > 0 {
                1int
            } else {
                0int
            }) <= i < rows_of(query, candidates).len() ==> (#[trigger] rows_of(
                query,
                candidates,
            )[i]) is Binary,
{
}

/// A key leaves the target, the candidates and the generation of the picker as they are, and the
/// highlight on a row wherever there are rows.
pub proof fn picker_keeps_its_highlight(prompt: PromptView, key: KeyEvent)
    requires
        prompt.selected == clamped(prompt.selected, prompt.rows().len()),
    ensures
        picker_step(prompt, key).0.selected == clamped(
            picker_step(prompt, key).0.selected,
            picker_step(prompt, key).0.rows().len(),
        ),
        picker_step(prompt, key).0.target == prompt.target,
        picker_step(prompt, key).0.candidates == prompt.candidates,
        picker_step(prompt, key).0.generation == prompt.generation,
{
}

} // verus!
