//! The areas of the screen: the pane that shows lines, and the footer below it.

use vstd::prelude::*;
use ratatui::layout::{Constraint, Direction, Layout, Rect};

verus! {

/// A rectangle of the terminal, in cells.
#[derive(Clone, Copy, Debug, PartialEq, Eq, Structural)]
pub struct Area {
    pub x: u16,
    pub y: u16,
    pub width: u16,
    pub height: u16,
}

/// The rows that the footer takes.
pub const FOOTER_ROWS: u16 = 3;

/// Splits `area` into an upper part of at least `least_above` rows and a lower
/// part that asks for `rows_below` rows, with ratatui's `Layout::split`.
/// ratatui builds each part of a vertical split with the left edge and the
/// width of the rectangle it was given, and `Rect::new` cuts that width where
/// the right edge would leave the range of 16 bits: so much is claimed.
/// Nothing is claimed of the rows, which ratatui's constraint solver decides.
#[verifier::external_body]
fn split_vertically(area: Area, least_above: u16, rows_below: u16) -> (parts: (Area, Area))
    ensures
        spans_columns(parts.0, area),
        spans_columns(parts.1, area),
{
    let chunks = Layout::default()
        .direction(Direction::Vertical)
        .constraints([Constraint::Min(least_above), Constraint::Length(rows_below)])
        .split(Rect::new(area.x, area.y, area.width, area.height));
    let (a, b) = (chunks[0], chunks[1]);
    (
        Area { x: a.x, y: a.y, width: a.width, height: a.height },
        Area { x: b.x, y: b.y, width: b.width, height: b.height },
    )
}

/// Splits the screen into the pane that shows lines and the footer below it.
/// Both span the columns of the screen; which rows each takes, the split says.
pub(crate) fn pane_and_footer(screen: Area) -> (parts: (Area, Area))
    ensures
        spans_columns(parts.0, screen),
        spans_columns(parts.1, screen),
{
    split_vertically(screen, 0, FOOTER_ROWS)
}

/// The width that a part of `area` has once the area is split into rows: the
/// area's own, cut where its right edge would leave the range of 16 bits.
pub open spec fn spanned_width(area: Area) -> u16 {
    if area.width > u16::MAX - area.x {
        (u16::MAX - area.x) as u16
    } else {
        area.width
    }
}

/// Whether `part` spans the columns of `area`: it begins at the area's left
/// edge and is as wide as the area.
pub open spec fn spans_columns(part: Area, area: Area) -> bool {
    part.x == area.x && part.width == spanned_width(area)
}

/// The rows that a pane's border takes.
pub const BORDER_ROWS: u16 = 2;

/// The rows of the terminal that do not show lines: the pane's border and the footer.
pub const CHROME_ROWS: u16 = 5;

/// `a - b`, or zero where `b` is the larger.
pub open spec fn minus_or_zero(a: nat, b: nat) -> nat {
    if a > b {
        (a - b) as nat
    } else {
        0
    }
}

/// The number of lines that fit into a pane of the given height, inside its border.
pub fn lines_in_pane(pane_height: u16) -> (visible: usize)
    ensures
        visible == minus_or_zero(pane_height as nat, BORDER_ROWS as nat),
{
    if pane_height > BORDER_ROWS {
        (pane_height - BORDER_ROWS) as usize
    } else {
        0
    }
}

/// The number of lines that a terminal of the given height shows, apart from
/// border and footer.
pub fn lines_in_terminal(terminal_height: u16) -> (visible: usize)
    ensures
        visible == minus_or_zero(terminal_height as nat, CHROME_ROWS as nat),
{
    if terminal_height > CHROME_ROWS {
        (terminal_height - CHROME_ROWS) as usize
    } else {
        0
    }
}

} // verus!
