//! Where the panes and the overlay lie on the screen.

use ratatui::layout::{Constraint, Direction, Layout, Margin, Rect as RawRect};
use vstd::prelude::*;

verus! {

/// A rectangle of terminal cells.
#[derive(Debug, Clone, Copy, PartialEq, Eq, Structural)]
pub struct Rect {
    pub x: u16,
    pub y: u16,
    pub width: u16,
    pub height: u16,
}

impl Rect {
    /// The rectangle, without what lies past the coordinate range.
    pub open spec fn clipped(x: u16, y: u16, width: int, height: int) -> Rect {
        Rect {
            x,
            y,
            width: if x + width <= u16::MAX {
                width as u16
            } else {
                (u16::MAX - x) as u16
            },
            height: if y + height <= u16::MAX {
                height as u16
            } else {
                (u16::MAX - y) as u16
            },
        }
    }

    /// A rectangle within the coordinate range: what lies past it is cut off.
    pub fn new(x: u16, y: u16, width: u16, height: u16) -> (r: Rect)
        ensures
            r == Rect::clipped(x, y, width as int, height as int),
    {
        let most_columns: u16 = u16::MAX - x;
        let most_rows: u16 = u16::MAX - y;
        Rect {
            x,
            y,
            width: if width <= most_columns {
                width
            } else {
                most_columns
            },
            height: if height <= most_rows {
                height
            } else {
                most_rows
            },
        }
    }

    /// The columns that lie within the coordinate range.
    pub open spec fn columns(self) -> int {
        if self.x + self.width <= u16::MAX {
            self.width as int
        } else {
            u16::MAX - self.x
        }
    }

    /// Whether the far edges lie within the coordinate range.
    pub open spec fn fits(self) -> bool {
        self.x + self.width <= u16::MAX && self.y + self.height <= u16::MAX
    }

    /// Whether the other rectangle lies within this one.
    pub open spec fn holds(self, other: Rect) -> bool {
        &&& self.x <= other.x && other.x + other.width <= self.x + self.width
        &&& self.y <= other.y && other.y + other.height <= self.y + self.height
    }
}

/// The shares of the panes in the width of the screen, in percent.
pub const PANE_SHARES: [u16; 3] = [20, 40, 40];

/// The edge behind so many percent of the columns, rounded to the nearest column; halves are
/// rounded up.
pub open spec fn edge(columns: int, percent: int) -> int {
    (2 * percent * columns + 100) / 200
}

/// The percentages of the shares before share `i`.
pub open spec fn share_before(shares: Seq<u16>, i: int) -> int
    decreases i,
{
    if i <= 0 {
        0
    } else {
        share_before(shares, i - 1) + shares[i - 1]
    }
}

/// The part of an area that share `i` of its width takes up, all rows of it.
pub open spec fn part(area: Rect, shares: Seq<u16>, i: int) -> Rect {
    let left = edge(area.columns(), share_before(shares, i));
    let right = edge(area.columns(), share_before(shares, i + 1));
    Rect {
        x: (area.x + left) as u16,
        y: area.y,
        width: (right - left) as u16,
        height: area.height,
    }
}

/// The left edge of pane `i`, counted from the left edge of the screen: the panes take a fifth,
/// two fifths and two fifths of the columns, each edge rounded to the nearest column.
pub open spec fn pane_edge(columns: int, i: int) -> int {
    if i <= 0 {
        0
    } else if i == 1 {
        (2 * columns + 5) / 10
    } else if i == 2 {
        (6 * columns + 5) / 10
    } else {
        columns
    }
}

/// Pane `i` of the screen.
pub open spec fn pane(area: Rect, i: int) -> Rect {
    let left = pane_edge(area.columns(), i);
    let right = pane_edge(area.columns(), i + 1);
    Rect {
        x: (area.x + left) as u16,
        y: area.y,
        width: (right - left) as u16,
        height: area.height,
    }
}

/// `Layout::split` of the `ratatui` crate, horizontally, without a margin, for one
/// `Constraint::Percentage` per share.
///
/// Shares that make up the whole can all be met exactly, so the solver meets them: each edge
/// lies behind as many percent of the columns as the shares before it add up to, rounded to the
/// nearest column. The rows are those of the area. Columns past the coordinate range are cut
/// off.
#[verifier::external_body]
fn solved_columns(area: Rect, shares: [u16; 3]) -> (r: [Rect; 3])
    requires
        shares@[0] + shares@[1] + shares@[2] == 100,
    ensures
        r@ == seq![part(area, shares@, 0), part(area, shares@, 1), part(area, shares@, 2)],
{
    let whole = RawRect { x: area.x, y: area.y, width: area.width, height: area.height };
    let split = Layout::default()
        .direction(Direction::Horizontal)
        .constraints([
            Constraint::Percentage(shares[0]),
            Constraint::Percentage(shares[1]),
            Constraint::Percentage(shares[2]),
        ])
        .split(whole);
    let plain = |r: RawRect| Rect { x: r.x, y: r.y, width: r.width, height: r.height };
    [plain(split[0]), plain(split[1]), plain(split[2])]
}

/// The panes for the parent, the current directory and the preview, from left to right. Paging
/// the preview and painting it both go by this split.
pub fn split_panes(area: Rect) -> (r: [Rect; 3])
    ensures
        r@ == seq![pane(area, 0), pane(area, 1), pane(area, 2)],
{
    proof {
        lemma_pane_edges(area.columns());
    }
    solved_columns(area, PANE_SHARES)
}

/// The shares put the edges where the panes have them.
proof fn lemma_pane_edges(columns: int)
    ensures
        forall|i: int|
            0 <= i <= 3 ==> edge(columns, #[trigger] share_before(PANE_SHARES@, i)) == pane_edge(
                columns,
                i,
            ),
{
    reveal_with_fuel(share_before, 4);
    assert(2 * 0 * columns == 0) by (nonlinear_arith);
    assert(2 * 20 * columns == 40 * columns) by (nonlinear_arith);
    assert(2 * 60 * columns == 120 * columns) by (nonlinear_arith);
    assert(2 * 100 * columns == 200 * columns) by (nonlinear_arith);
    assert forall|i: int| 0 <= i <= 3 implies edge(
        columns,
        #[trigger] share_before(PANE_SHARES@, i),
    ) == pane_edge(columns, i) by {
        assert(i == 0 || i == 1 || i == 2 || i == 3);
    }
}

/// What a border of one cell leaves of an area. An area too small for it has no inside.
pub open spec fn inside(area: Rect) -> Rect {
    if area.width < 2 || area.height < 2 {
        Rect { x: 0, y: 0, width: 0, height: 0 }
    } else {
        Rect {
            x: if area.x == u16::MAX {
                area.x
            } else {
                (area.x + 1) as u16
            },
            y: if area.y == u16::MAX {
                area.y
            } else {
                (area.y + 1) as u16
            },
            width: (area.width - 2) as u16,
            height: (area.height - 2) as u16,
        }
    }
}

/// `Rect::inner` of the `ratatui` crate with a margin of one cell on every side: the area
/// without its border, or the zero rectangle where the area is smaller than its border.
#[verifier::external_body]
pub(crate) fn inner_area(area: Rect) -> (r: Rect)
    ensures
        r == inside(area),
{
    let whole = RawRect { x: area.x, y: area.y, width: area.width, height: area.height };
    let inner = whole.inner(Margin::new(1, 1));
    Rect { x: inner.x, y: inner.y, width: inner.width, height: inner.height }
}

/// `value`, moved between `low` and `high`.
pub open spec fn clamp(value: int, low: int, high: int) -> int {
    if value < low {
        low
    } else if value > high {
        high
    } else {
        value
    }
}

/// The columns that the middle of an area takes: so many percent of them, and at least one.
pub open spec fn centered_columns(area: Rect, percent_x: u16) -> int {
    let share = if percent_x > 100 {
        100
    } else {
        percent_x as int
    };
    clamp(area.width * share / 100, 1, area.width as int)
}

/// The rows that the middle of an area takes.
pub open spec fn centered_rows(area: Rect, height: u16) -> int {
    clamp(height as int, 1, area.height as int)
}

/// Whether the middle of an area begins within the coordinate range.
pub open spec fn can_be_centered(area: Rect, percent_x: u16, height: u16) -> bool {
    area.width > 0 && area.height > 0 ==> {
        &&& area.x + (area.width - centered_columns(area, percent_x)) / 2 <= u16::MAX
        &&& area.y + (area.height - centered_rows(area, height)) / 2 <= u16::MAX
    }
}

/// The middle of an area: so many percent of its width, and so many rows.
pub open spec fn centered_in(area: Rect, percent_x: u16, height: u16) -> Rect {
    if area.width == 0 || area.height == 0 {
        area
    } else {
        let w = centered_columns(area, percent_x);
        let h = centered_rows(area, height);
        Rect::clipped(
            (area.x + (area.width - w) / 2) as u16,
            (area.y + (area.height - h) / 2) as u16,
            w,
            h,
        )
    }
}

/// The size of the middle of an area that is not empty.
fn centered_size(area: Rect, percent_x: u16, height: u16) -> (r: (u16, u16))
    requires
        area.width > 0,
        area.height > 0,
    ensures
        r.0 == centered_columns(area, percent_x),
        r.1 == centered_rows(area, height),
        1 <= r.0 <= area.width,
        1 <= r.1 <= area.height,
{
    let share: u32 = if percent_x > 100 {
        100
    } else {
        percent_x as u32
    };
    let all: u32 = area.width as u32;
    assert(0 <= all * share <= 65535 * 100) by (nonlinear_arith)
        requires
            all <= 65535,
            share <= 100,
    ;
    assert(all * share / 100 <= all) by (nonlinear_arith)
        requires
            share <= 100,
    ;
    let wanted: u16 = (all * share / 100) as u16;
    let w: u16 = if wanted < 1 {
        1
    } else {
        wanted
    };
    let h: u16 = if height < 1 {
        1
    } else if height > area.height {
        area.height
    } else {
        height
    };
    (w, h)
}

/// Whether the middle of an area begins within the coordinate range.
pub fn centerable(area: Rect, percent_x: u16, height: u16) -> (r: bool)
    ensures
        r == can_be_centered(area, percent_x, height),
{
    if area.width == 0 || area.height == 0 {
        return true;
    }
    let (w, h) = centered_size(area, percent_x, height);
    (area.width - w) / 2 <= u16::MAX - area.x && (area.height - h) / 2 <= u16::MAX - area.y
}

pub fn centered(area: Rect, percent_x: u16, height: u16) -> (r: Rect)
    requires
        can_be_centered(area, percent_x, height),
    ensures
        r == centered_in(area, percent_x, height),
{
    if area.width == 0 || area.height == 0 {
        return area;
    }
    let (w, h) = centered_size(area, percent_x, height);
    Rect::new(area.x + (area.width - w) / 2, area.y + (area.height - h) / 2, w, h)
}

/// The panes lie side by side and make up the whole screen, as far as it lies within the
/// coordinate range.
pub proof fn panes_tile_the_screen(area: Rect)
    ensures
        pane(area, 0).x == area.x,
        pane(area, 1).x == pane(area, 0).x + pane(area, 0).width,
        pane(area, 2).x == pane(area, 1).x + pane(area, 1).width,
        area.x + area.columns() == pane(area, 2).x + pane(area, 2).width,
        forall|i: int|
            0 <= i < 3 ==> (#[trigger] pane(area, i)).y == area.y && pane(area, i).height
                == area.height,
{
}

/// The middle of an area lies within the area, and is not empty unless the area is.
pub proof fn centered_area_stays_inside(area: Rect, percent_x: u16, height: u16)
    requires
        can_be_centered(area, percent_x, height),
    ensures
        area.holds(centered_in(area, percent_x, height)),
        area.fits() && area.width > 0 && area.height > 0 ==> centered_in(
            area,
            percent_x,
            height,
        ).width > 0 && centered_in(area, percent_x, height).height > 0,
{
    let w = centered_columns(area, percent_x);
    let h = centered_rows(area, height);
    if area.width > 0 && area.height > 0 {
        assert(1 <= w <= area.width && 1 <= h <= area.height);
    }
}

} // verus!
