//! The overlay of the open-with picker.

use vstd::prelude::*;

use crate::app::open_with::{
    clamped, row_views, InteractionMode, ModeView, OpenWithPrompt, OpenWithRow, PromptView,
    RowView,
};
use crate::app::AppState;
use crate::text::texts_of;
use crate::ui::layout::{can_be_centered, centered, centered_in, Rect};

verus! {

/// The overlay takes this share of the width, in percent.
pub const OVERLAY_PERCENT: u16 = 60;

/// The overlay takes this many rows.
pub const OVERLAY_ROWS: u16 = 16;

/// The keys of the picker, below its rows.
pub const FOOTER: &'static str = "Enter open   Esc cancel   type a command";

/// The overlay as it is painted.
#[derive(Debug, PartialEq, Eq)]
pub struct Overlay {
    /// What is cleared.
    pub area: Rect,
    /// The title of the frame; an area too small for a frame is only cleared.
    pub title: Option<String>,
    /// What stands in the frame, where there is room for it.
    pub body: Option<OverlayBody>,
}

/// The inside of the overlay.
#[derive(Debug, PartialEq, Eq)]
pub struct OverlayBody {
    pub query: String,
    pub items: Vec<String>,
    pub selected: Option<usize>,
}

/// What an [`OverlayBody`] shows.
#[verifier::ext_equal]
pub struct BodyView {
    pub query: Seq<char>,
    pub items: Seq<Seq<char>>,
    pub selected: Option<nat>,
}

impl View for OverlayBody {
    type V = BodyView;

    open spec fn view(&self) -> BodyView {
        BodyView {
            query: self.query@,
            items: texts_of(self.items@),
            selected: match self.selected {
                Some(i) => Some(i as nat),
                None => None,
            },
        }
    }
}

/// What an [`Overlay`] shows.
#[verifier::ext_equal]
pub struct OverlayView {
    pub area: Rect,
    pub title: Option<Seq<char>>,
    pub body: Option<BodyView>,
}

impl View for Overlay {
    type V = OverlayView;

    open spec fn view(&self) -> OverlayView {
        OverlayView {
            area: self.area,
            title: match self.title {
                Some(title) => Some(title@),
                None => None,
            },
            body: match self.body {
                Some(body) => Some(body@),
                None => None,
            },
        }
    }
}

/// The line of a row: a typed command is marked as such.
pub open spec fn row_label(row: RowView) -> Seq<char> {
    match row {
        RowView::Custom(query) => "run  "@ + query,
        RowView::Binary(name) => name,
    }
}

/// What stands in place of the rows where there are none.
pub open spec fn empty_hint(prompt: PromptView) -> Seq<char> {
    if !prompt.listing_complete {
        "loading PATH…"@
    } else {
        match prompt.listing_error {
            Some(error) => "listing failed: "@ + error,
            None => "(type a command)"@,
        }
    }
}

/// The inside of the overlay.
pub open spec fn body_of(prompt: PromptView) -> BodyView {
    let rows = prompt.rows();
    BodyView {
        query: "> "@ + prompt.query,
        items: if rows.len() == 0 {
            seq![empty_hint(prompt)]
        } else {
            rows.map_values(|row: RowView| row_label(row))
        },
        selected: if rows.len() == 0 {
            None
        } else {
            Some(clamped(prompt.selected, rows.len()))
        },
    }
}

/// The overlay for a prompt on a screen.
pub open spec fn overlay_of(prompt: PromptView, screen: Rect) -> OverlayView {
    let area = centered_in(screen, OVERLAY_PERCENT, OVERLAY_ROWS);
    let framed = area.width >= 3 && area.height >= 3;
    let filled = framed && area.width - 2 >= 2 && area.height - 2 >= 3;
    OverlayView {
        area,
        title: if framed {
            Some("Open with — "@ + prompt.target_name)
        } else {
            None
        },
        body: if filled {
            Some(body_of(prompt))
        } else {
            None
        },
    }
}

fn label(row: &OpenWithRow) -> (r: String)
    ensures
        r@ == row_label(row@),
{
    match row {
        OpenWithRow::Custom(query) => {
            let mut r: String = "run  ".to_owned();
            r.append(query.as_str());
            r
        },
        OpenWithRow::Binary(name) => name.as_str().to_owned(),
    }
}

fn hint(prompt: &OpenWithPrompt) -> (r: String)
    ensures
        r@ == empty_hint(prompt@),
{
    if !prompt.listing_complete {
        return "loading PATH…".to_owned();
    }
    match &prompt.listing_error {
        Some(error) => {
            let mut r: String = "listing failed: ".to_owned();
            r.append(error.as_str());
            r
        },
        None => "(type a command)".to_owned(),
    }
}

fn body(prompt: &OpenWithPrompt) -> (r: OverlayBody)
    ensures
        r@ == body_of(prompt@),
{
    let mut query: String = "> ".to_owned();
    query.append(prompt.query.as_str());
    let rows = prompt.visible_rows();
    let ghost all = prompt@.rows();
    assert(all.len() == rows.len());
    let mut items: Vec<String> = Vec::new();
    if rows.len() == 0 {
        let line = hint(prompt);
        items.push(line);
        assert(texts_of(items@) == seq![line@]);
        return OverlayBody { query, items, selected: None };
    }
    let mut i: usize = 0;
    let ghost show = |row: RowView| row_label(row);
    while i < rows.len()
        invariant
            i <= rows.len(),
            all == row_views(rows@),
            show == (|row: RowView| row_label(row)),
            texts_of(items@) == all.take(i as int).map_values(show),
        decreases rows.len() - i,
    {
        let line = label(&rows[i]);
        proof {
            assert(line@ == show(all[i as int]));
            assert(texts_of(items@.push(line)) == texts_of(items@).push(line@));
            assert(all.take(i + 1) == all.take(i as int).push(all[i as int]));
            assert(all.take(i + 1).map_values(show) == all.take(i as int).map_values(show).push(
                line@,
            ));
        }
        items.push(line);
        i += 1;
    }
    assert(all.take(i as int) == all);
    let selected: usize = if prompt.selected < rows.len() {
        prompt.selected
    } else {
        rows.len() - 1
    };
    OverlayBody { query, items, selected: Some(selected) }
}

/// The overlay, while the picker is open.
pub fn overlay(state: &AppState, screen: Rect) -> (r: Option<Overlay>)
    requires
        state@.mode is OpenWith ==> can_be_centered(screen, OVERLAY_PERCENT, OVERLAY_ROWS),
    ensures
        match state@.mode {
            ModeView::OpenWith(prompt) => r matches Some(shown) && shown@ == overlay_of(
                prompt,
                screen,
            ),
            ModeView::Browser => r is None,
        },
{
    match &state.mode {
        InteractionMode::Browser => None,
        InteractionMode::OpenWith(prompt) => {
            let area = centered(screen, OVERLAY_PERCENT, OVERLAY_ROWS);
            if area.width < 3 || area.height < 3 {
                return Some(Overlay { area, title: None, body: None });
            }
            let mut title: String = "Open with — ".to_owned();
            title.append(prompt.target_name.as_str());
            if area.width - 2 < 2 || area.height - 2 < 3 {
                return Some(Overlay { area, title: Some(title), body: None });
            }
            Some(Overlay { area, title: Some(title), body: Some(body(prompt)) })
        },
    }
}

} // verus!
