//! Terminal-cell rectangles and the saturating arithmetic used on them.

use vstd::prelude::*;

verus! {

/// `a + b`, saturated at `u16::MAX`.
pub open spec fn sat_add(a: u16, b: u16) -> u16 {
    if a + b > u16::MAX {
        u16::MAX
    } else {
        (a + b) as u16
    }
}

/// `a - b`, saturated at zero.
pub open spec fn sat_sub(a: u16, b: u16) -> u16 {
    if a >= b {
        (a - b) as u16
    } else {
        0
    }
}

/// `|a - b|`.
pub open spec fn abs_diff(a: u16, b: u16) -> u16 {
    if a >= b {
        (a - b) as u16
    } else {
        (b - a) as u16
    }
}

/// A rectangular area of terminal cells: top-left corner plus size.
#[derive(Clone, Copy, Debug, PartialEq, Eq, Structural, Default)]
pub struct Rect {
    pub x: u16,
    pub y: u16,
    pub width: u16,
    pub height: u16,
}

impl Rect {
    /// One past the right-most column (saturating).
    pub open spec fn spec_right(self) -> u16 {
        sat_add(self.x, self.width)
    }

    /// One past the bottom-most row (saturating).
    pub open spec fn spec_bottom(self) -> u16 {
        sat_add(self.y, self.height)
    }

    /// Horizontal centre column.
    pub open spec fn spec_center_x(self) -> u16 {
        sat_add(self.x, (self.width / 2) as u16)
    }

    /// Vertical centre row.
    pub open spec fn spec_center_y(self) -> u16 {
        sat_add(self.y, (self.height / 2) as u16)
    }

    /// The cell `(x, y)` lies inside the rectangle.
    pub open spec fn spec_contains(self, x: u16, y: u16) -> bool {
        x >= self.x && y >= self.y && x < self.spec_right() && y < self.spec_bottom()
    }

    /// Build a rectangle from its corner and size.
    pub fn new(x: u16, y: u16, width: u16, height: u16) -> (r: Rect)
        ensures
            r == (Rect { x, y, width, height }),
    {
        Rect { x, y, width, height }
    }
}

/// One past the right-most column of `rect`.
pub fn right(rect: Rect) -> (r: u16)
    ensures
        r == rect.spec_right(),
{
    rect.x.saturating_add(rect.width)
}

/// One past the bottom-most row of `rect`.
pub fn bottom(rect: Rect) -> (r: u16)
    ensures
        r == rect.spec_bottom(),
{
    rect.y.saturating_add(rect.height)
}

/// Horizontal centre of `rect`.
pub fn center_x(rect: Rect) -> (r: u16)
    ensures
        r == rect.spec_center_x(),
{
    rect.x.saturating_add(rect.width / 2)
}

/// Vertical centre of `rect`.
pub fn center_y(rect: Rect) -> (r: u16)
    ensures
        r == rect.spec_center_y(),
{
    rect.y.saturating_add(rect.height / 2)
}

/// Whether the cell `(x, y)` lies inside `rect`.
pub fn contains(rect: Rect, x: u16, y: u16) -> (r: bool)
    ensures
        r == rect.spec_contains(x, y),
{
    x >= rect.x && y >= rect.y && x < right(rect) && y < bottom(rect)
}

/// `|a - b|` on `u16`.
pub fn abs_diff_u16(a: u16, b: u16) -> (r: u16)
    ensures
        r == abs_diff(a, b),
{
    if a >= b {
        a - b
    } else {
        b - a
    }
}

} // verus!
