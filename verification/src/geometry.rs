//! Rectangle arithmetic for damage regions.
//!
//! Small helpers over axis-aligned rectangles with unsigned coordinates: the
//! enclosing boundary of two rectangles and an overlap test, as the window
//! glue around the multiplexer uses them to coalesce exposed regions.

use vstd::prelude::*;

verus! {

/// Whether `value` lies in the closed interval `[min, max]`.
pub open spec fn value_in_range_spec(value: u16, min: u16, max: u16) -> bool {
    value >= min && value <= max
}

/// Decide whether `value` lies in the closed interval `[min, max]`.
pub fn value_in_range(value: u16, min: u16, max: u16) -> (r: bool)
    ensures
        r == value_in_range_spec(value, min, max),
{
    value >= min && value <= max
}

/// An axis-aligned rectangle: its top-left corner and its extent.
#[derive(Debug, Clone, Copy, PartialEq, Eq, Structural)]
pub struct Rect {
    /// The left edge.
    pub x: u16,
    /// The top edge.
    pub y: u16,
    /// The horizontal extent.
    pub width: u16,
    /// The vertical extent.
    pub height: u16,
}

impl Rect {
    /// Whether the far edges stay representable.
    pub open spec fn fits(&self) -> bool {
        self.x + self.width <= u16::MAX && self.y + self.height <= u16::MAX
    }

    /// The right edge.
    pub fn right(&self) -> (r: u16)
        requires
            self.x + self.width <= u16::MAX,
        ensures
            r == self.x + self.width,
    {
        self.x + self.width
    }

    /// The bottom edge.
    pub fn bottom(&self) -> (r: u16)
        requires
            self.y + self.height <= u16::MAX,
        ensures
            r == self.y + self.height,
    {
        self.y + self.height
    }

    /// The smallest rectangle that encloses both `self` and `other`.
    pub fn enclosing_boundary_with(&self, other: &Rect) -> (r: Self)
        requires
            self.fits(),
            other.fits(),
        ensures
            r.fits(),
            r.x == if self.x < other.x {
                self.x as int
            } else {
                other.x as int
            },
            r.y == if self.y < other.y {
                self.y as int
            } else {
                other.y as int
            },
            r.x + r.width == if self.x + self.width > other.x + other.width {
                self.x + self.width
            } else {
                other.x + other.width
            },
            r.y + r.height == if self.y + self.height > other.y + other.height {
                self.y + self.height
            } else {
                other.y + other.height
            },
    {
        let left = if self.x < other.x {
            self.x
        } else {
            other.x
        };
        let self_right = self.right();
        let other_right = other.right();
        let right = if self_right > other_right {
            self_right
        } else {
            other_right
        };

        let top = if self.y < other.y {
            self.y
        } else {
            other.y
        };
        let self_bottom = self.bottom();
        let other_bottom = other.bottom();
        let bottom = if self_bottom > other_bottom {
            self_bottom
        } else {
            other_bottom
        };

        Rect { x: left, y: top, width: right - left, height: bottom - top }
    }

    /// Whether `self` and `other` overlap: each axis interval of one touches
    /// the other's.
    pub open spec fn intersects_spec(&self, other: &Rect) -> bool {
        let x_overlaps = value_in_range_spec(self.x, other.x, (other.x + other.width) as u16)
            || value_in_range_spec(other.x, self.x, (self.x + self.width) as u16);
        let y_overlaps = value_in_range_spec(self.y, other.y, (other.y + other.height) as u16)
            || value_in_range_spec(other.y, self.y, (self.y + self.height) as u16);
        x_overlaps && y_overlaps
    }

    /// Decide whether `self` and `other` overlap.
    pub fn intersects_with(&self, other: &Rect) -> (r: bool)
        requires
            self.fits(),
            other.fits(),
        ensures
            r == self.intersects_spec(other),
    {
        let x_overlaps = value_in_range(self.x, other.x, other.right())
            || value_in_range(other.x, self.x, self.right());

        let y_overlaps = value_in_range(self.y, other.y, other.bottom())
            || value_in_range(other.y, self.y, self.bottom());

        x_overlaps && y_overlaps
    }
}

/// The overlap test means closed-interval overlap on each axis: two
/// rectangles intersect exactly when their horizontal extents touch and
/// their vertical extents touch.  In particular the test is symmetric, and
/// every rectangle intersects itself.
pub proof fn lemma_intersects_is_interval_overlap(a: Rect, b: Rect)
    requires
        a.fits(),
        b.fits(),
    ensures
        a.intersects_spec(&b) == (a.x <= b.x + b.width && b.x <= a.x + a.width && a.y <= b.y
            + b.height && b.y <= a.y + a.height),
        a.intersects_spec(&b) == b.intersects_spec(&a),
        a.intersects_spec(&a),
{
}

} // verus!
