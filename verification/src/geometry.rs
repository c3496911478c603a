//! Screen rectangles in terminal cells, and the saturating `u16` arithmetic
//! that the layouts use.

use vstd::prelude::*;

verus! {

/// A rectangle of terminal cells, with ratatui's `Rect` semantics.
#[derive(Debug, Clone, Copy, PartialEq, Eq, Default, Structural)]
pub struct Rect {
    pub x: u16,
    pub y: u16,
    pub width: u16,
    pub height: u16,
}

/// `a + b` saturated to `u16::MAX`.
pub open spec fn sat_add(a: int, b: int) -> int {
    if a + b > u16::MAX as int {
        u16::MAX as int
    } else {
        a + b
    }
}

/// `a - b` saturated at zero.
pub open spec fn sat_sub(a: int, b: int) -> int {
    if a - b < 0 {
        0
    } else {
        a - b
    }
}

/// `a * b` saturated to `u16::MAX`.
pub open spec fn sat_mul(a: int, b: int) -> int {
    if a * b > u16::MAX as int {
        u16::MAX as int
    } else {
        a * b
    }
}

pub open spec fn min(a: int, b: int) -> int {
    if a <= b {
        a
    } else {
        b
    }
}

pub open spec fn max(a: int, b: int) -> int {
    if a >= b {
        a
    } else {
        b
    }
}

/// The rectangle `Rect::new(x, y, width, height)` builds: width and height
/// are clamped so that the rectangle ends at or before `u16::MAX`.
pub open spec fn rect_new(x: u16, y: u16, width: u16, height: u16) -> Rect {
    Rect {
        x,
        y,
        width: if width as int > u16::MAX - x { (u16::MAX - x) as u16 } else { width },
        height: if height as int > u16::MAX - y { (u16::MAX - y) as u16 } else { height },
    }
}

/// The first column right of `r` (saturating).
pub open spec fn right_of(r: Rect) -> int {
    sat_add(r.x as int, r.width as int)
}

impl Rect {
    /// A rectangle, with width and height limited so that it stays inside
    /// the `u16` coordinate space.
    pub fn new(x: u16, y: u16, width: u16, height: u16) -> (r: Rect)
        ensures
            r == rect_new(x, y, width, height),
    {
        let max_width = u16::MAX - x;
        let max_height = u16::MAX - y;
        let width = if width > max_width {
            max_width
        } else {
            width
        };
        let height = if height > max_height {
            max_height
        } else {
            height
        };
        Rect { x, y, width, height }
    }

    /// The zero-sized rectangle at the origin.
    pub fn zero() -> (r: Rect)
        ensures
            r == (Rect { x: 0, y: 0, width: 0, height: 0 }),
    {
        Rect { x: 0, y: 0, width: 0, height: 0 }
    }

    /// The first column right of the rectangle, clamped to `u16::MAX`.
    pub fn right(&self) -> (r: u16)
        ensures
            r == right_of(*self),
    {
        self.x.saturating_add(self.width)
    }

    /// Whether the rectangle covers no cell.
    pub fn is_empty(&self) -> (r: bool)
        ensures
            r == (self.width == 0 || self.height == 0),
    {
        self.width == 0 || self.height == 0
    }
}

} // verus!
