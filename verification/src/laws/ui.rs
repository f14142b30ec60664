//! Laws of what is shown.

use vstd::prelude::*;

use crate::app::open_with::{PromptView, RowView};
use crate::app::state::StateView;
use crate::fs::entry::EntryView;
use crate::path::{file_name_of, parent_of, same_place};
use crate::preview::PreviewView;
use crate::text::{lines, numeral, utf8_lossy};
use crate::ui::layout::{
    can_be_centered, centered_columns, centered_in, centered_rows, inside, pane, Rect, PANE_SHARES,
};
use crate::ui::panes::current::{current_rows, recount_status_of};
use crate::ui::panes::open_with::{
    body_of, empty_hint, overlay_of, row_label, OVERLAY_PERCENT, OVERLAY_ROWS,
};
use crate::ui::panes::parent::{last_leading_here, parent_pane_of};
use crate::ui::panes::preview::{
    page_of, preview_text_of, rows_of_line, rows_of_lines, scroll_limit_of, scroll_range,
    wrapped_rows,
};
use crate::ui::panes::{label_of, PaneRowView};

verus! {

/// The first pane takes a fifth of the columns and the first two take three fifths, each to the
/// nearest column.
pub proof fn panes_take_their_shares(area: Rect)
    requires
        area.fits(),
    ensures
        -5 < 2 * (5 * pane(area, 0).width - area.width) <= 5,
        -5 < 2 * (5 * (pane(area, 0).width + pane(area, 1).width) - 3 * area.width) <= 5,
        pane(area, 0).width + pane(area, 1).width + pane(area, 2).width == area.width,
        PANE_SHARES@ == seq![20u16, 40u16, 40u16],
{
    assert(PANE_SHARES@ =~= seq![20u16, 40u16, 40u16]);
}

/// A border takes one cell on every side; where there is no room for it nothing is inside.
pub proof fn borders_take_one_cell(area: Rect)
    ensures
        area.width >= 2 && area.height >= 2 ==> inside(area).width + 2 == area.width && inside(
            area,
        ).height + 2 == area.height,
        area.width >= 2 && area.height >= 2 && area.fits() ==> inside(area).x == area.x + 1
            && inside(area).y == area.y + 1,
        area.width < 2 || area.height < 2 ==> inside(area) == (Rect {
            x: 0,
            y: 0,
            width: 0,
            height: 0,
        }),
{
}

/// The middle of an area that fits has the same room on either side, give or take one cell, the
/// share of the width that was asked for, rounded down, and the rows that were asked for, and at
/// least one of each and no more than there are. An empty area is its own middle.
pub proof fn the_middle_is_in_the_middle(area: Rect, percent_x: u16, height: u16)
    requires
        area.fits(),
    ensures
        can_be_centered(area, percent_x, height),
        ({
            let m = centered_in(area, percent_x, height);
            let left = m.x - area.x;
            let right = area.x + area.width - (m.x + m.width);
            let above = m.y - area.y;
            let below = area.y + area.height - (m.y + m.height);
            area.width > 0 && area.height > 0 ==> {
                &&& 0 <= left <= right <= left + 1
                &&& 0 <= above <= below <= above + 1
                &&& percent_x >= 100 ==> m.width == area.width
                &&& percent_x < 100 && area.width * percent_x >= 100 ==> m.width * 100
                    <= area.width * percent_x < (m.width + 1) * 100
                &&& area.width * percent_x < 100 && percent_x < 100 ==> m.width == 1
                &&& 0 < height <= area.height ==> m.height == height
                &&& height > area.height ==> m.height == area.height
                &&& height == 0 ==> m.height == 1
            }
        }),
        area.width == 0 || area.height == 0 ==> centered_in(area, percent_x, height) == area,
{
    if area.width > 0 && area.height > 0 {
        let w = centered_columns(area, percent_x);
        let h = centered_rows(area, height);
        assert(1 <= w <= area.width && 1 <= h <= area.height);
        assert(percent_x < 100 ==> area.width * percent_x / 100 <= area.width) by (nonlinear_arith);
        assert(percent_x >= 100 ==> area.width * 100 / 100 == area.width);
        assert(area.width * percent_x >= 0) by (nonlinear_arith);
    }
}

/// A page is the inside of the pane less one row, and at least one row.
pub proof fn a_page_leaves_one_row(area: Rect)
    ensures
        inside(area).height >= 2 ==> page_of(area) == inside(area).height - 1,
        inside(area).height < 2 ==> page_of(area) == 1,
{
}

/// The rows of a text are those of its lines together, and one where there are none. A line takes
/// one row without a width, or if it is empty.
pub proof fn rows_add_up(list: Seq<Seq<char>>, line: Seq<char>, text: Seq<char>, width: nat)
    ensures
        rows_of_lines(Seq::<Seq<char>>::empty(), width) == 0,
        rows_of_lines(list.push(line), width) == rows_of_lines(list, width) + rows_of_line(
            line,
            width,
        ),
        rows_of_line(line, 0) == 1,
        rows_of_line(Seq::<char>::empty(), width) == 1,
        lines(text).len() == 0 ==> wrapped_rows(text, width) == 1,
        lines(text).len() > 0 ==> wrapped_rows(text, width) == rows_of_lines(lines(text), width),
{
    assert(list.push(line).drop_last() == list);
    if lines(text).len() > 0 {
        let l = lines(text);
        crate::ui::panes::preview::every_character_has_a_cell(l.last(), 1);
        if width > 0 {
            crate::ui::panes::preview::every_character_has_a_cell(l.last(), width);
        }
    }
}

/// Scrolled as far as it goes, the last row of a text is the last in the pane; a text that fits
/// does not scroll, and none scrolls further than the largest distance.
pub proof fn scrolling_ends_at_the_last_row(rows: nat, height: u16)
    ensures
        rows <= height ==> scroll_range(rows, height) == 0,
        height < rows <= height + 65535 ==> scroll_range(rows, height) + height == rows,
        rows > height + 65535 ==> scroll_range(rows, height) == 65535,
{
}

/// The preview scrolls as far as its text, wrapped at the width inside the pane, goes past the
/// rows inside the pane.
pub proof fn the_preview_scrolls_over_its_text(state: StateView, area: Rect)
    ensures
        scroll_limit_of(state, area) == scroll_range(
            wrapped_rows(preview_text_of(state), inside(area).width as nat),
            inside(area).height,
        ),
{
}

/// What the preview pane says: that nothing is selected; that a directory is one; or the name and
/// the size of a file, and then its contents, if they are those of this very file, or else that
/// they are being loaded.
pub proof fn the_preview_says_this(state: StateView, entry: EntryView)
    ensures
        state.highlighted() is None ==> preview_text_of(state) == "(nothing selected)"@,
        state.highlighted() == Some(entry) && entry.is_dir ==> preview_text_of(state) == entry.name
            + "/\n<directory>"@,
        state.highlighted() == Some(entry) && !entry.is_dir ==> preview_text_of(state)
            == entry.name + "\n"@ + numeral(entry.size as nat) + " bytes\n\n"@ + (
        match state.preview {
            PreviewView::Text { path, content, truncated } => if !same_place(path, entry.path) {
                "Loading preview..."@
            } else if truncated {
                content + "\n\n[truncated]"@
            } else {
                content
            },
            PreviewView::Binary { path } => if same_place(path, entry.path) {
                "<binary file>"@
            } else {
                "Loading preview..."@
            },
            PreviewView::Error { path, message } => if same_place(path, entry.path) {
                "preview failed: "@ + message
            } else {
                "Loading preview..."@
            },
            _ => "Loading preview..."@,
        }),
{
}

/// An entry is shown by its name, with a slash behind it if it is a directory. Every entry of the
/// current directory has its line, in order, and the highlighted one alone is marked.
pub proof fn every_entry_has_its_line(state: StateView, entry: EntryView)
    ensures
        entry.is_dir ==> label_of(entry) == entry.name + seq!['/'],
        !entry.is_dir ==> label_of(entry) == entry.name,
        current_rows(state).len() == state.entries.len(),
        forall|i: int|
            0 <= i < state.entries.len() ==> #[trigger] current_rows(state)[i] == (PaneRowView {
                label: label_of(state.entries[i]),
                highlighted: state.highlight() == Some(i as nat),
            }),
{
    assert(entry.name.push('/') == entry.name + seq!['/']);
}

/// What the title says of the recursive count.
pub proof fn the_title_tells_of_the_count(state: StateView, count: u64)
    ensures
        state.is_counting_recursively ==> recount_status_of(state)
            == "counting recursively... (Esc to cancel)"@,
        !state.is_counting_recursively && state.recursive_file_count == Some(count)
            ==> recount_status_of(state) == numeral(count as nat)
            + " files recursively (r to recount)"@,
        !state.is_counting_recursively && state.recursive_file_count is None ==> recount_status_of(
            state,
        ) == "press 'r' to count files recursively"@,
{
}

proof fn lemma_last_leading_here(state: StateView, n: int)
    requires
        0 <= n <= state.parent_entries.len(),
    ensures
        match last_leading_here(state, n) {
            Some(i) => i < n && (file_name_of(state.current_dir) matches Some(name)
                && state.parent_entries[i as int].name == utf8_lossy(name)) && forall|j: int|
                i < j < n ==> (#[trigger] state.parent_entries[j]).name != utf8_lossy(
                    file_name_of(state.current_dir)->0,
                ),
            None => file_name_of(state.current_dir) matches Some(name) ==> forall|j: int|
                0 <= j < n ==> (#[trigger] state.parent_entries[j]).name != utf8_lossy(name),
        },
    decreases n,
{
    if n > 0 {
        lemma_last_leading_here(state, n - 1);
    }
}

/// The parent pane says that the root has no parent, or that the scan failed, or lists every
/// entry of the parent in order. There the entries with the name of the current directory are
/// marked, and the last of them is brought into sight.
pub proof fn the_parent_pane_shows_where_we_are(state: StateView)
    ensures
        ({
            let shown = parent_pane_of(state);
            let here = file_name_of(state.current_dir);
            let marked = |i: int|
                here is Some && state.parent_entries[i].name == utf8_lossy(here->0);
            let listed = parent_of(state.current_dir) is Some && state.parent_scan_error is None;
            &&& parent_of(state.current_dir) is None ==> shown.selected is None && shown.rows
                == seq![
                PaneRowView { label: "(filesystem root, no parent)"@, highlighted: false },
            ]
            &&& parent_of(state.current_dir) is Some && state.parent_scan_error is Some
                ==> shown.selected is None && shown.rows == seq![
                PaneRowView {
                    label: "scan failed: "@ + state.parent_scan_error->0,
                    highlighted: false,
                },
            ]
            &&& listed ==> shown.rows.len() == state.parent_entries.len()
            &&& listed ==> forall|i: int|
                0 <= i < state.parent_entries.len() ==> #[trigger] shown.rows[i] == (PaneRowView {
                    label: label_of(state.parent_entries[i]),
                    highlighted: marked(i),
                })
            &&& listed && shown.selected is Some ==> {
                let at = shown.selected->0 as int;
                &&& 0 <= at < state.parent_entries.len() && shown.rows[at].highlighted
                &&& forall|j: int|
                    at < j < state.parent_entries.len() ==> !(
                    #[trigger] shown.rows[j]).highlighted
            }
            &&& listed && shown.selected is None ==> forall|j: int|
                0 <= j < state.parent_entries.len() ==> !(#[trigger] shown.rows[j]).highlighted
        }),
{
    lemma_last_leading_here(state, state.parent_entries.len() as int);
}

/// What the picker shows: the query behind a prompt, and a line for every row, the typed command
/// marked as such; or, without rows, why there are none.
pub proof fn the_picker_shows_its_rows(prompt: PromptView, text: Seq<char>)
    ensures
        row_label(RowView::Custom(text)) == "run  "@ + text,
        row_label(RowView::Binary(text)) == text,
        !prompt.listing_complete ==> empty_hint(prompt) == "loading PATH…"@,
        prompt.listing_complete && prompt.listing_error == Some(text) ==> empty_hint(prompt)
            == "listing failed: "@ + text,
        prompt.listing_complete && prompt.listing_error is None ==> empty_hint(prompt)
            == "(type a command)"@,
        ({
            let body = body_of(prompt);
            let rows = crate::app::open_with::rows_of(prompt.query, prompt.candidates);
            &&& body.query == "> "@ + prompt.query
            &&& rows.len() == 0 ==> body.items == seq![empty_hint(prompt)] && body.selected is None
            &&& rows.len() > 0 ==> body.items.len() == rows.len()
            &&& rows.len() > 0 ==> forall|i: int|
                0 <= i < rows.len() ==> #[trigger] body.items[i] == row_label(rows[i])
            &&& prompt.selected < rows.len() ==> body.selected == Some(prompt.selected)
            &&& 0 < rows.len() <= prompt.selected ==> body.selected == Some(
                (rows.len() - 1) as nat,
            )
        }),
{
}

/// The overlay lies in the middle of the screen, is framed from three by three cells on and
/// filled from four by five on.
pub proof fn the_overlay_needs_room(prompt: PromptView, screen: Rect)
    ensures
        ({
            let shown = overlay_of(prompt, screen);
            let area = centered_in(screen, 60, 16);
            &&& shown.area == area
            &&& shown.title == (if area.width >= 3 && area.height >= 3 {
                Some("Open with — "@ + prompt.target_name)
            } else {
                None::<Seq<char>>
            })
            &&& shown.body is Some == (area.width >= 4 && area.height >= 5)
            &&& shown.body is Some ==> shown.body == Some(body_of(prompt))
        }),
        OVERLAY_PERCENT == 60,
        OVERLAY_ROWS == 16,
{
}

/// A rectangle is made as it was asked for, and cut off where it would leave the coordinate range.
pub proof fn rectangles_end_within_the_range(x: u16, y: u16, width: u16, height: u16)
    ensures
        ({
            let r = Rect::clipped(x, y, width as int, height as int);
            &&& r.fits()
            &&& r.x == x && r.y == y
            &&& x + width <= 65535 ==> r.width == width
            &&& x + width > 65535 ==> r.x + r.width == 65535
            &&& y + height <= 65535 ==> r.height == height
            &&& y + height > 65535 ==> r.y + r.height == 65535
        }),
{
}

} // verus!
