//! Screen layout of the file manager, computed by ratatui's layout solver.
use ratatui::layout::{Constraint, Direction, Layout, Rect};
use vstd::prelude::*;

verus! {

/// A rectangle of terminal cells.
#[derive(Debug, Clone, Copy, PartialEq, Eq, Structural)]
pub struct Area {
    pub x: u16,
    pub y: u16,
    pub width: u16,
    pub height: u16,
}

/// Whether a split stacks its parts top to bottom or left to right.
#[derive(Debug, Clone, Copy, PartialEq, Eq, Structural)]
pub enum SplitDirection {
    Vertical,
    Horizontal,
}

/// How much room one part of a split asks for.
#[derive(Debug, Clone, Copy, PartialEq, Eq, Structural)]
pub enum Extent {
    /// At least this many cells.
    Min(u16),
    /// Exactly this many cells.
    Length(u16),
    /// This percentage of the room.
    Percentage(u16),
}

/// How far an extent reaches from `start` once clamped to the coordinate
/// space, as `Rect::new` clamps it.
pub open spec fn clamped(start: u16, extent: u16) -> int {
    if extent > 65535 - start {
        65535 - start
    } else {
        extent as int
    }
}

/// The area inside a one-cell border on all sides, as ratatui's
/// `Block::inner` gives it for a block with all borders and no padding
/// drawn over `Rect::new(x, y, width, height)`: one cell in from the left
/// and the top (where there is room), two cells narrower and shorter (but
/// not below zero).
pub open spec fn bordered_inner_of(area: Area) -> Area {
    let w = clamped(area.x, area.width);
    let h = clamped(area.y, area.height);
    Area {
        x: (if w > 0 { area.x + 1 } else { area.x as int }) as u16,
        y: (if h > 0 { area.y + 1 } else { area.y as int }) as u16,
        width: (if w > 2 { w - 2 } else { 0 }) as u16,
        height: (if h > 2 { h - 2 } else { 0 }) as u16,
    }
}

/// The cross axis of a split keeps the area's extent: a vertical split
/// keeps the column and the (clamped) width of `area`, a horizontal one its
/// row and (clamped) height.
pub open spec fn keeps_cross_axis(area: Area, direction: SplitDirection, part: Area) -> bool {
    match direction {
        SplitDirection::Vertical => part.x == area.x && part.width == clamped(area.x, area.width),
        SplitDirection::Horizontal => part.y == area.y && part.height == clamped(
            area.y,
            area.height,
        ),
    }
}

/// The two parts that `ratatui::layout::Layout::split` gives for a layout
/// in `direction` with the constraints `first` and `second`, over
/// `Rect::new(area...)`: `.0` is the part for `first`, `.1` the part for
/// `second` (the source builds one part per constraint, in their order).
/// Where the parts start and end along the split axis is the optimum of the
/// constraint system that ratatui hands to the cassowary solver; the layout
/// is a function of these arguments alone (ratatui keeps it in a cache
/// keyed by them), so it is named here rather than written out.
pub uninterp spec fn split_parts(area: Area, direction: SplitDirection, first: Extent, second: Extent) -> (Area, Area);

/// `ratatui::layout::Layout::split` with two constraints over
/// `Rect::new(area...)`, which clamps the width and height to the coordinate
/// space. The contract states that the result is `split_parts` of the
/// arguments and, by the source (`changes_to_rects`), that every part copies
/// the position and size of the area on the axis that is not split. It
/// does not say where the solver puts the cut along the split axis; that is
/// what the name stands for. `split` panics only when the solver refuses a
/// constraint that ratatui itself generates.
#[verifier::external_body]
fn split_in_two(area: Area, direction: SplitDirection, first: Extent, second: Extent) -> (parts: (
    Area,
    Area,
))
    ensures
        parts == split_parts(area, direction, first, second),
        keeps_cross_axis(area, direction, parts.0),
        keeps_cross_axis(area, direction, parts.1),
{
    let c = |e: Extent| match e {
        Extent::Min(n) => Constraint::Min(n),
        Extent::Length(n) => Constraint::Length(n),
        Extent::Percentage(n) => Constraint::Percentage(n),
    };
    let d = match direction {
        SplitDirection::Vertical => Direction::Vertical,
        SplitDirection::Horizontal => Direction::Horizontal,
    };
    let r = Layout::default().direction(d).constraints([c(first), c(second)]).split(
        Rect::new(area.x, area.y, area.width, area.height));
    let part = |k: usize| Area { x: r[k].x, y: r[k].y, width: r[k].width, height: r[k].height };
    (part(0), part(1))
}

/// Where the parts of the screen go.
#[derive(Debug, Clone, Copy)]
pub struct ScreenLayout {
    /// The left pane's outer area.
    pub left: Area,
    /// The right pane's outer area.
    pub right: Area,
    /// The status bar / command line.
    pub status: Area,
}

/// The listing area of the screen: the part above the one-line status bar
/// (`Min(1)` over `Length(1)`).
pub open spec fn listing_area(screen: Area) -> Area {
    split_parts(screen, SplitDirection::Vertical, Extent::Min(1), Extent::Length(1)).0
}

/// The listing area fills the screen but for one line at the bottom for the
/// status bar (`Min(1)` over `Length(1)`), and is split 50/50 into the two
/// panes (`Percentage(50)` beside `Percentage(50)`), left then right. The
/// status bar spans the screen's width, and the two panes share one row and
/// one height.
pub fn screen_layout(screen: Area) -> (layout: ScreenLayout)
    ensures
        layout.status == split_parts(
            screen,
            SplitDirection::Vertical,
            Extent::Min(1),
            Extent::Length(1),
        ).1,
        layout.left == split_parts(
            listing_area(screen),
            SplitDirection::Horizontal,
            Extent::Percentage(50),
            Extent::Percentage(50),
        ).0,
        layout.right == split_parts(
            listing_area(screen),
            SplitDirection::Horizontal,
            Extent::Percentage(50),
            Extent::Percentage(50),
        ).1,
        layout.status.x == screen.x,
        layout.status.width == clamped(screen.x, screen.width),
        layout.left.y == layout.right.y,
        layout.left.height == layout.right.height,
{
    let (listing, status) = split_in_two(
        screen,
        SplitDirection::Vertical,
        Extent::Min(1),
        Extent::Length(1),
    );
    let (left, right) = split_in_two(
        listing,
        SplitDirection::Horizontal,
        Extent::Percentage(50),
        Extent::Percentage(50),
    );
    ScreenLayout { left, right, status }
}

/// The area inside a pane's border, where its entries are listed.
pub fn pane_inner(area: Area) -> (inner: Area)
    ensures
        inner == bordered_inner_of(area),
{
    let w = if area.width > 65535 - area.x {
        65535 - area.x
    } else {
        area.width
    };
    let h = if area.height > 65535 - area.y {
        65535 - area.y
    } else {
        area.height
    };
    Area {
        x: if w > 0 {
            area.x + 1
        } else {
            area.x
        },
        y: if h > 0 {
            area.y + 1
        } else {
            area.y
        },
        width: if w > 2 {
            w - 2
        } else {
            0
        },
        height: if h > 2 {
            h - 2
        } else {
            0
        },
    }
}

/// Whether a pane's border and title are drawn as the active pane's.
#[derive(Debug, Clone, Copy, PartialEq, Eq, Structural)]
pub enum PaneFrame {
    /// Bold cyan.
    Active,
    /// Dark grey.
    Inactive,
}

/// The frame style of pane `pane_idx` when `active_pane` has the focus.
pub fn pane_frame(pane_idx: usize, active_pane: usize) -> (frame: PaneFrame)
    ensures
        frame == (if pane_idx == active_pane {
            PaneFrame::Active
        } else {
            PaneFrame::Inactive
        }),
{
    if pane_idx == active_pane {
        PaneFrame::Active
    } else {
        PaneFrame::Inactive
    }
}

} // verus!
