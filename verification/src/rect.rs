//! Axis-aligned rectangles and their overlap queries: the foundation for
//! every spatial computation in the crate.

use vstd::prelude::*;

use crate::{sat_add, sat_add_i64, sat_sub_i64};

verus! {

/// An axis-aligned rectangle in fixed-point world coordinates.
///
/// The invariant every rectangle in the library keeps is [`Rect::wf`]:
/// `width` and `height` are nonnegative.  The right and bottom edges are
/// `x + width` and `y + height`, saturated at the `i64` range.
#[derive(Clone, Copy, Debug, PartialEq, Eq, Structural)]
pub struct Rect {
    pub x: i64,
    pub y: i64,
    pub width: i64,
    pub height: i64,
}

impl Rect {
    /// Well-formedness: a rectangle never has a negative extent.
    pub open spec fn wf(self) -> bool {
        0 <= self.width && 0 <= self.height
    }

    /// The x coordinate of the right edge.
    pub open spec fn right(self) -> int {
        sat_add(self.x as int, self.width as int)
    }

    /// The y coordinate of the bottom edge.
    pub open spec fn bottom(self) -> int {
        sat_add(self.y as int, self.height as int)
    }

    /// Whether `self` and `other` overlap.  Touching edges count as an
    /// overlap; the overlap rectangle is then zero-area.
    pub open spec fn spec_has_overlap(self, other: Rect) -> bool {
        !(self.right() < other.x || other.right() < self.x) && !(self.bottom() < other.y
            || other.bottom() < self.y)
    }

    /// The minimal rectangle covering the intersection of `self` and
    /// `other`; meaningful when `spec_has_overlap` holds.
    pub open spec fn spec_overlap(self, other: Rect) -> Rect {
        let x = if self.x > other.x {
            self.x
        } else {
            other.x
        };
        let y = if self.y > other.y {
            self.y
        } else {
            other.y
        };
        let r = if self.right() < other.right() {
            self.right()
        } else {
            other.right()
        };
        let b = if self.bottom() < other.bottom() {
            self.bottom()
        } else {
            other.bottom()
        };
        Rect { x, y, width: (r - x) as i64, height: (b - y) as i64 }
    }

    /// Whether `inner` lies entirely within `self`.
    pub open spec fn spec_contains_rect(self, inner: Rect) -> bool {
        self.x <= inner.x && inner.right() <= self.right() && self.y <= inner.y
            && inner.bottom() <= self.bottom()
    }

    /// The area, as an unbounded integer.
    pub open spec fn area(self) -> int {
        self.width * self.height
    }

    pub fn new(x: i64, y: i64, width: i64, height: i64) -> (r: Rect)
        requires
            0 <= width,
            0 <= height,
        ensures
            r == (Rect { x, y, width, height }),
            r.wf(),
    {
        Rect { x, y, width, height }
    }

    /// Replaces the extent, keeping the position.
    pub fn size(self, width: i64, height: i64) -> (r: Rect)
        requires
            0 <= width,
            0 <= height,
        ensures
            r == (Rect { x: self.x, y: self.y, width, height }),
            r.wf(),
    {
        Rect { width, height, ..self }
    }

    /// A zero-sized rectangle at a point.
    pub fn from_point(p: (i64, i64)) -> (r: Rect)
        ensures
            r == (Rect { x: p.0, y: p.1, width: 0i64, height: 0i64 }),
            r.wf(),
    {
        Rect { x: p.0, y: p.1, width: 0, height: 0 }
    }

    /// The top-left corner.
    pub fn point(&self) -> (r: (i64, i64))
        ensures
            r == (self.x, self.y),
    {
        (self.x, self.y)
    }

    /// The bottom-right corner, saturated at the `i64` range.
    pub fn bottom_right(&self) -> (r: (i64, i64))
        ensures
            r.0 as int == self.right(),
            r.1 as int == self.bottom(),
    {
        (sat_add_i64(self.x, self.width), sat_add_i64(self.y, self.height))
    }

    /// Overlap test; touching edges count as overlapping.
    pub fn has_overlap(&self, other: &Rect) -> (r: bool)
        ensures
            r == self.spec_has_overlap(*other),
    {
        let (sr, sb) = self.bottom_right();
        let (or_, ob) = other.bottom_right();

        // When one rect is fully left of the other.
        if sr < other.x || or_ < self.x {
            return false;
        }

        // When one rect is fully above the other.
        if sb < other.y || ob < self.y {
            return false;
        }

        true
    }

    /// The intersection of two rectangles, or `None` when they are
    /// disjoint.  Touching rectangles yield a zero-area intersection.
    pub fn overlap(&self, other: &Rect) -> (r: Option<Rect>)
        requires
            self.wf(),
            other.wf(),
        ensures
            r is Some <==> self.spec_has_overlap(*other),
            r matches Some(o) ==> o == self.spec_overlap(*other) && o.wf(),
    {
        if !self.has_overlap(other) {
            return None;
        }

        let x = if self.x > other.x {
            self.x
        } else {
            other.x
        };
        let y = if self.y > other.y {
            self.y
        } else {
            other.y
        };

        let (sr, sb) = self.bottom_right();
        let (or_, ob) = other.bottom_right();
        let r = if sr < or_ {
            sr
        } else {
            or_
        };
        let b = if sb < ob {
            sb
        } else {
            ob
        };

        Some(Rect { x, y, width: r - x, height: b - y })
    }
}

impl Default for Rect {
    /// The zero-sized rectangle at the origin.
    fn default() -> (r: Rect)
        ensures
            r == (Rect { x: 0i64, y: 0i64, width: 0i64, height: 0i64 }),
            r.wf(),
    {
        Rect { x: 0, y: 0, width: 0, height: 0 }
    }
}

/// The overlap of two well-formed overlapping rectangles is contained in
/// both, and its area is at most either area.
pub proof fn lemma_overlap_properties(a: Rect, b: Rect)
    requires
        a.wf(),
        b.wf(),
        a.spec_has_overlap(b),
    ensures
        a.spec_overlap(b).wf(),
        a.spec_contains_rect(a.spec_overlap(b)),
        b.spec_contains_rect(a.spec_overlap(b)),
        a.spec_overlap(b).area() <= a.area(),
        a.spec_overlap(b).area() <= b.area(),
{
    let o = a.spec_overlap(b);
    assert(o.width <= a.width && o.height <= a.height);
    assert(o.width <= b.width && o.height <= b.height);
    assert(o.area() <= a.area()) by (nonlinear_arith)
        requires
            0 <= o.width <= a.width,
            0 <= o.height <= a.height,
    ;
    assert(o.area() <= b.area()) by (nonlinear_arith)
        requires
            0 <= o.width <= b.width,
            0 <= o.height <= b.height,
    ;
}

} // verus!
