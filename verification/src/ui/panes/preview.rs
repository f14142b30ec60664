//! The preview pane: what is known of the highlighted entry and the cached
//! contents of the file.

use vstd::prelude::*;

use crate::app::state::StateView;
use crate::app::AppState;
use crate::fs::entry::EntryView;
use crate::fs::FileEntry;
use crate::path::same_place;
use crate::preview::{FilePreview, PreviewView};
use crate::text::{chars_of, line_scan, lines, numeral, push_numeral};
use crate::ui::layout::{inner_area, inside, Rect};

verus! {

/// The title of the pane.
pub const TITLE: &'static str = "[3] Preview";

/// The name and the size of a file, above its contents.
pub open spec fn header_of(entry: EntryView) -> Seq<char> {
    entry.name + "\n"@ + numeral(entry.size as nat) + " bytes\n\n"@
}

/// What is shown of a file's contents; while they are not there, that they are being loaded.
pub open spec fn body_of(preview: PreviewView, path: Seq<u8>) -> Seq<char> {
    match preview {
        PreviewView::Text { path: of, content, truncated } if same_place(of, path) => if truncated {
            content + "\n\n[truncated]"@
        } else {
            content
        },
        PreviewView::Binary { path: of } if same_place(of, path) => "<binary file>"@,
        PreviewView::Error { path: of, message } if same_place(of, path) => "preview failed: "@
            + message,
        _ => "Loading preview..."@,
    }
}

/// The text of the preview pane.
pub open spec fn preview_text_of(state: StateView) -> Seq<char> {
    match state.highlighted() {
        None => "(nothing selected)"@,
        Some(entry) => if entry.is_dir {
            entry.name + "/\n<directory>"@
        } else {
            header_of(entry) + body_of(state.preview, entry.path)
        },
    }
}

/// Appends what is shown of the contents of the file at the entry's path.
fn push_body(text: &mut String, preview: &FilePreview, entry: &FileEntry)
    ensures
        final(text)@ == old(text)@ + body_of(preview@, entry@.path),
{
    match preview {
        FilePreview::Text { path, content, truncated } => {
            if path.same_place(&entry.path) {
                text.append(content.as_str());
                if *truncated {
                    text.append("\n\n[truncated]");
                    assert(text@ == old(text)@ + (content@ + "\n\n[truncated]"@));
                }
                return ;
            }
        },
        FilePreview::Binary { path } => {
            if path.same_place(&entry.path) {
                text.append("<binary file>");
                return ;
            }
        },
        FilePreview::Error { path, message } => {
            if path.same_place(&entry.path) {
                text.append("preview failed: ");
                text.append(message.as_str());
                assert(text@ == old(text)@ + ("preview failed: "@ + message@));
                return ;
            }
        },
        _ => {},
    }
    text.append("Loading preview...");
}

pub fn preview_text(state: &AppState) -> (r: String)
    ensures
        r@ == preview_text_of(state@),
{
    match state.selected_entry() {
        None => "(nothing selected)".to_owned(),
        Some(entry) => {
            let mut text: String = entry.name.as_str().to_owned();
            if entry.is_dir {
                text.append("/\n<directory>");
                return text;
            }
            text.append("\n");
            push_numeral(&mut text, entry.size);
            text.append(" bytes\n\n");
            push_body(&mut text, &state.preview, entry);
            text
        },
    }
}

/// The rows that a line takes when it is wrapped. Without any width each line takes one.
pub open spec fn rows_of_line(line: Seq<char>, width: nat) -> nat {
    if line.len() == 0 || width == 0 {
        1
    } else {
        ((line.len() + width - 1) / width as int) as nat
    }
}

/// The rows that some lines take one below the other.
pub open spec fn rows_of_lines(list: Seq<Seq<char>>, width: nat) -> nat
    decreases list.len(),
{
    if list.len() == 0 {
        0
    } else {
        rows_of_lines(list.drop_last(), width) + rows_of_line(list.last(), width)
    }
}

/// The rows that a text takes: at least one.
pub open spec fn wrapped_rows(text: Seq<char>, width: nat) -> nat {
    let rows = rows_of_lines(lines(text), width);
    if rows == 0 {
        1
    } else {
        rows
    }
}

proof fn lemma_rows_of_line_bound(line: Seq<char>, width: nat)
    ensures
        rows_of_line(line, width) >= 1,
        line.len() > 0 ==> rows_of_line(line, width) <= line.len(),
{
    if line.len() > 0 && width > 0 {
        let n = line.len() as int;
        let w = width as int;
        assert(1 <= (n + w - 1) / w <= n) by (nonlinear_arith)
            requires
                n >= 1,
                w >= 1,
        ;
    }
}

fn line_rows(len: usize, width: usize, Ghost(line): Ghost<Seq<char>>) -> (r: usize)
    requires
        line.len() == len,
    ensures
        r == rows_of_line(line, width as nat),
{
    if len == 0 || width == 0 {
        return 1;
    }
    let full: usize = len / width;
    let rest: usize = len % width;
    proof {
        let n = len as int;
        let w = width as int;
        assert((n + w - 1) / w == n / w + (if n % w == 0 {
            0int
        } else {
            1int
        })) by (nonlinear_arith)
            requires
                n >= 1,
                w >= 1,
        ;
        lemma_rows_of_line_bound(line, width as nat);
    }
    if rest == 0 {
        full
    } else {
        full + 1
    }
}

/// How many rows a text takes when its lines are wrapped at a width.
pub fn wrapped_line_count(text: &str, width: u16) -> (r: usize)
    ensures
        r == wrapped_rows(text@, width as nat),
{
    let chars = chars_of(text);
    let columns: usize = width as usize;
    let mut total: usize = 0;
    let mut len: usize = 0;
    let mut returned: bool = false;
    let mut i: usize = 0;
    while i < chars.len()
        invariant
            i <= chars.len(),
            chars@ == text@,
            columns == width,
            ({
                let (closed, open) = line_scan(text@.take(i as int));
                &&& total == rows_of_lines(closed, columns as nat)
                &&& len == open.len()
                &&& returned == (open.len() > 0 && open.last() == '\r')
            }),
            total + len <= i,
        decreases chars.len() - i,
    {
        let c: char = chars[i];
        let ghost (closed, open) = line_scan(text@.take(i as int));
        assert(text@.take(i + 1).drop_last() == text@.take(i as int));
        assert(text@.take(i + 1).last() == c);
        if c == '\n' {
            let kept: usize = if returned {
                len - 1
            } else {
                len
            };
            let ghost line = if returned {
                open.drop_last()
            } else {
                open
            };
            let rows: usize = line_rows(kept, columns, Ghost(line));
            proof {
                lemma_rows_of_line_bound(line, columns as nat);
                assert(closed.push(line).drop_last() == closed);
            }
            total = total + rows;
            len = 0;
            returned = false;
        } else {
            len = len + 1;
            returned = c == '\r';
        }
        i += 1;
    }
    assert(text@.take(i as int) == text@);
    let ghost (closed, open) = line_scan(text@);
    if len > 0 {
        let rows: usize = line_rows(len, columns, Ghost(open));
        proof {
            lemma_rows_of_line_bound(open, columns as nat);
            assert(closed.push(open).drop_last() == closed);
        }
        total = total + rows;
    }
    if total == 0 {
        1
    } else {
        total
    }
}

/// How far a text of so many rows scrolls in a pane of a given height, up to the largest distance
/// that can be scrolled.
pub open spec fn scroll_range(rows: nat, height: u16) -> u16 {
    if rows <= height {
        0
    } else if rows - height >= u16::MAX {
        u16::MAX
    } else {
        (rows - height) as u16
    }
}

/// How far a text scrolls in the inside of a pane.
pub fn scroll_limit_for_text(text: &str, inner: Rect) -> (r: u16)
    ensures
        r == scroll_range(wrapped_rows(text@, inner.width as nat), inner.height),
{
    let rows: usize = wrapped_line_count(text, inner.width);
    let height: usize = inner.height as usize;
    if rows <= height {
        0
    } else {
        let over: usize = rows - height;
        if over >= 65535 {
            u16::MAX
        } else {
            over as u16
        }
    }
}

/// How far the preview scrolls in an area (the full pane, border and all).
pub open spec fn scroll_limit_of(state: StateView, area: Rect) -> u16 {
    scroll_range(
        wrapped_rows(preview_text_of(state), inside(area).width as nat),
        inside(area).height,
    )
}

pub fn scroll_limit(state: &AppState, area: Rect) -> (r: u16)
    ensures
        r == scroll_limit_of(state@, area),
{
    let text = preview_text(state);
    scroll_limit_for_text(text.as_str(), inner_area(area))
}

/// Rows to jump by a page: the inside of the pane less a row that stays, and at least one.
pub open spec fn page_of(area: Rect) -> u16 {
    if inside(area).height <= 2 {
        1
    } else {
        (inside(area).height - 1) as u16
    }
}

pub fn page_size(area: Rect) -> (r: u16)
    ensures
        r == page_of(area),
{
    let height: u16 = inner_area(area).height;
    if height <= 2 {
        1
    } else {
        height - 1
    }
}

/// The preview pane as it is painted.
#[derive(Debug, PartialEq, Eq)]
pub struct PreviewPane {
    pub text: String,
    /// Rows of the wrapped text that lie above the pane.
    pub scroll: u16,
}

/// The text of the pane, and the scroll position within what there is to see.
pub fn preview_pane(state: &AppState, area: Rect) -> (r: PreviewPane)
    ensures
        r.text@ == preview_text_of(state@),
        r.scroll == (if state.preview_scroll <= scroll_limit_of(state@, area) {
            state.preview_scroll
        } else {
            scroll_limit_of(state@, area)
        }),
{
    let text = preview_text(state);
    let limit: u16 = scroll_limit_for_text(text.as_str(), inner_area(area));
    let scroll: u16 = if state.preview_scroll <= limit {
        state.preview_scroll
    } else {
        limit
    };
    PreviewPane { text, scroll }
}

/// A text takes at least one row, and so many that every character has a cell.
pub proof fn every_character_has_a_cell(line: Seq<char>, width: nat)
    requires
        width > 0,
    ensures
        rows_of_line(line, width) >= 1,
        line.len() <= rows_of_line(line, width) * width,
        line.len() > 0 ==> (rows_of_line(line, width) - 1) * width < line.len(),
{
    lemma_rows_of_line_bound(line, width);
    if line.len() > 0 {
        let n = line.len() as int;
        let w = width as int;
        assert(n <= ((n + w - 1) / w) * w && ((n + w - 1) / w - 1) * w < n) by (nonlinear_arith)
            requires
                n >= 1,
                w >= 1,
        ;
    }
}

} // verus!
