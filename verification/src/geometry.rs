//! Screen rectangles in terminal cells, as `ratatui::layout::Rect` defines
//! them, and the centring and circle-sizing rules of the welcome screen.

use vstd::prelude::*;

verus! {

/// Terminal cells are about twice as tall as they are wide.
pub const TERMINAL_CELL_ASPECT_RATIO: u16 = 2;

/// A rectangle of terminal cells: its top-left corner and its size.
#[derive(Clone, Copy, Debug, PartialEq, Eq, Structural)]
pub struct Rect {
    pub x: u16,
    pub y: u16,
    pub width: u16,
    pub height: u16,
}

/// The smaller of two `u16`s.
pub open spec fn min16(a: u16, b: u16) -> u16 {
    if a <= b {
        a
    } else {
        b
    }
}

/// The larger of two `u16`s.
pub open spec fn max16(a: u16, b: u16) -> u16 {
    if a >= b {
        a
    } else {
        b
    }
}

/// `a + b`, or `u16::MAX` where that overflows.
pub open spec fn sat_add(a: u16, b: u16) -> u16 {
    if a + b > u16::MAX {
        u16::MAX
    } else {
        (a + b) as u16
    }
}

/// `a - b`, or 0 where that goes below zero.
pub open spec fn sat_sub(a: u16, b: u16) -> u16 {
    if a < b {
        0
    } else {
        (a - b) as u16
    }
}

/// What `Rect::new` builds: the size is cut so that the rectangle ends
/// within `u16` coordinates.
pub open spec fn rect(x: u16, y: u16, width: u16, height: u16) -> Rect {
    Rect { x, y, width: min16(width, (u16::MAX - x) as u16), height: min16(height, (u16::MAX - y) as u16) }
}

impl Rect {
    /// A rectangle at (`x`, `y`), its size cut to end within `u16` coordinates.
    pub fn new(x: u16, y: u16, width: u16, height: u16) -> (r: Rect)
        ensures
            r == rect(x, y, width, height),
    {
        let max_width = u16::MAX - x;
        let max_height = u16::MAX - y;
        let width = if width > max_width {
            max_width
        } else {
            width
        };
        let height = if height > max_height {
            max_height
        } else {
            height
        };
        Rect { x, y, width, height }
    }

    /// Whether the rectangle covers no cell.
    pub fn is_empty(self) -> (r: bool)
        ensures
            r == (self.width == 0 || self.height == 0),
    {
        self.width == 0 || self.height == 0
    }

    /// The first column right of the rectangle, at most `u16::MAX`.
    pub open spec fn spec_right(self) -> u16 {
        sat_add(self.x, self.width)
    }

    /// The first row below the rectangle, at most `u16::MAX`.
    pub open spec fn spec_bottom(self) -> u16 {
        sat_add(self.y, self.height)
    }

    /// The first column right of the rectangle.
    pub fn right(self) -> (r: u16)
        ensures
            r == self.spec_right(),
    {
        self.x.saturating_add(self.width)
    }

    /// The first row below the rectangle.
    pub fn bottom(self) -> (r: u16)
        ensures
            r == self.spec_bottom(),
    {
        self.y.saturating_add(self.height)
    }

    /// Whether the rectangle ends within `u16` coordinates, as every rectangle
    /// that `Rect::new` builds does.
    pub open spec fn fits(self) -> bool {
        self.x + self.width <= u16::MAX && self.y + self.height <= u16::MAX
    }
}

/// The smaller of two `u16`s.
pub fn min_u16(a: u16, b: u16) -> (r: u16)
    ensures
        r == min16(a, b),
{
    if a <= b {
        a
    } else {
        b
    }
}

/// The larger of two `u16`s.
pub fn max_u16(a: u16, b: u16) -> (r: u16)
    ensures
        r == max16(a, b),
{
    if a >= b {
        a
    } else {
        b
    }
}

/// Where a `width` x `height` box sits centred in `area`: its size is cut to
/// the area's, and it is shifted by half the room left on each axis.
pub open spec fn spec_centered_rect(area: Rect, width: u16, height: u16) -> Rect {
    let w = min16(width, area.width);
    let h = min16(height, area.height);
    rect((area.x + (area.width - w) / 2) as u16, (area.y + (area.height - h) / 2) as u16, w, h)
}

/// A `width` x `height` box centred in `area`, cut to the area's size.
pub fn centered_rect(area: Rect, width: u16, height: u16) -> (r: Rect)
    requires
        area.x + (area.width - min16(width, area.width)) / 2 <= u16::MAX,
        area.y + (area.height - min16(height, area.height)) / 2 <= u16::MAX,
    ensures
        r == spec_centered_rect(area, width, height),
        area.fits() ==> {
            &&& r.width == min16(width, area.width)
            &&& r.height == min16(height, area.height)
            &&& area.x <= r.x && r.spec_right() <= area.spec_right()
            &&& area.y <= r.y && r.spec_bottom() <= area.spec_bottom()
            &&& (r.x - area.x) <= (area.spec_right() - r.spec_right()) <= (r.x - area.x) + 1
            &&& (r.y - area.y) <= (area.spec_bottom() - r.spec_bottom()) <= (r.y - area.y) + 1
        },
{
    let width = min_u16(width, area.width);
    let height = min_u16(height, area.height);
    Rect::new(
        area.x + (area.width - width) / 2,
        area.y + (area.height - height) / 2,
        width,
        height,
    )
}

/// The width of a visual circle `height` rows tall: twice the height, since a
/// cell is twice as tall as wide, cut to `available_width`.
pub open spec fn spec_circular_width(height: u16, available_width: u16) -> u16 {
    min16(
        if height * TERMINAL_CELL_ASPECT_RATIO > u16::MAX {
            u16::MAX
        } else {
            (height * TERMINAL_CELL_ASPECT_RATIO) as u16
        },
        available_width,
    )
}

/// The width of a circle `height` rows tall that fits in `available_width`.
pub fn circular_width(height: u16, available_width: u16) -> (r: u16)
    ensures
        r == spec_circular_width(height, available_width),
        r <= available_width,
        2 * height <= available_width ==> r == 2 * height,
{
    let doubled = if height <= u16::MAX / TERMINAL_CELL_ASPECT_RATIO {
        height * TERMINAL_CELL_ASPECT_RATIO
    } else {
        u16::MAX
    };
    min_u16(doubled, available_width)
}

} // verus!
