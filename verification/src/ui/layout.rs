//! How the screen is divided: the decisions the layout makes from the terminal size.
use vstd::prelude::*;

verus! {

/// Whether the screen keeps a one-cell margin: only a screen at least 72 wide and 20 high.
pub fn keeps_margin(width: u16, height: u16) -> (b: bool)
    ensures
        b == (width >= 72 && height >= 20),
{
    width >= 72 && height >= 20
}

/// How the content area is split between the services list and the activity pane.
#[derive(Clone, Copy, Debug, PartialEq, Eq, Structural)]
pub enum ContentSplit {
    /// Side by side, the list this wide, a one-column separator between.
    SideBySide(u16),
    /// Stacked, the list taking this percentage of the height, a blank row between.
    StackedPercent(u16),
    /// Stacked, the list this many rows high, a blank row between.
    StackedRows(u16),
}

/// A wide area (96 columns or more) puts the list beside the activity pane, a third of the
/// width but between 30 and 42 columns; a narrower one stacks them, the list taking 42% of
/// a low area (under 30 rows) or 12 rows of a higher one.
pub open spec fn content_split_spec(width: u16, height: u16) -> ContentSplit {
    if width >= 96 {
        let third = width / 3;
        ContentSplit::SideBySide(
            if third < 30 {
                30
            } else if third > 42 {
                42
            } else {
                third
            },
        )
    } else if height < 30 {
        ContentSplit::StackedPercent(42)
    } else {
        ContentSplit::StackedRows(12)
    }
}

pub fn content_split(width: u16, height: u16) -> (c: ContentSplit)
    ensures
        c == content_split_spec(width, height),
{
    if width >= 96 {
        let third = width / 3;
        ContentSplit::SideBySide(
            if third < 30 {
                30
            } else if third > 42 {
                42
            } else {
                third
            },
        )
    } else if height < 30 {
        ContentSplit::StackedPercent(42)
    } else {
        ContentSplit::StackedRows(12)
    }
}

/// Where the toast goes in a screen area: at most 50 columns wide (leaving a column on
/// each side), one row below the top, one column from the right edge, at most 3 rows high.
pub fn toast_area(x: u16, y: u16, width: u16, height: u16) -> (r: (u16, u16, u16, u16))
    ensures
        ({
            let w = if width >= 2 {
                if width - 2 < 50 { width - 2 } else { 50 }
            } else {
                0
            };
            let gap = if width >= w + 1 { width - w - 1 } else { 0 };
            &&& r.2 == w
            &&& r.0 == if x + gap > u16::MAX { u16::MAX as int } else { x + gap }
            &&& r.1 == if y + 1 > u16::MAX { u16::MAX as int } else { y + 1 }
            &&& r.3 == if height < 3 { height } else { 3 }
        }),
{
    let w = if width.saturating_sub(2) < 50 {
        width.saturating_sub(2)
    } else {
        50
    };
    let gap = width.saturating_sub(w).saturating_sub(1);
    (x.saturating_add(gap), y.saturating_add(1), w, if height < 3 {
        height
    } else {
        3
    })
}

} // verus!
