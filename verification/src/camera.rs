//! The camera: a view rectangle kept near a followed target and inside
//! the world.
//!
//! [`Camera::get_offset`] starts from the current view position.  When a
//! target rectangle is given, the view is pushed just far enough — never
//! more — to keep the target inside a margin-sized band.  When world
//! bounds are configured, the view is then clamped so it never shows
//! space outside them; and when the viewport is wider (or taller) than
//! the world itself, so that the two clamps would fight, that axis
//! re-centers on the target's midpoint instead.
//!
//! The bounds rectangle encodes edges, not extents: `x`/`y` are the
//! world's minimum edges, `width`/`height` its maximum edges.

use vstd::prelude::*;

use crate::rect::Rect;
use crate::{sat_add, sat_add_i64, sat_sub, sat_sub_i64};

verus! {

/// The camera's offset on one axis after following the target: pushed
/// down to `t - margin_lo` when it sits above it, then up to
/// `t + extent + margin_hi - view` when it sits below that.
pub open spec fn follow_axis(v: int, view: int, t: int, extent: int, m_lo: int, m_hi: int) -> int {
    let upper = sat_sub(t, m_lo);
    let v1 = if v > upper {
        upper
    } else {
        v
    };
    let lower = sat_sub(sat_add(sat_add(t, extent), m_hi), view);
    if v1 < lower {
        lower
    } else {
        v1
    }
}

/// The camera's offset on one axis after the world-bounds clamp, for a
/// world spanning `lo..hi` on this axis.  When the view fits the world,
/// clamp to the near edge, then to the far edge; when it cannot fit and a
/// target is known, center on the target's midpoint.
pub open spec fn bound_axis(v: int, view: int, lo: int, hi: int, t: Option<(int, int)>) -> int {
    if view > sat_sub(hi, lo) && t is Some {
        let m = t.unwrap();
        sat_sub(sat_add(m.0, m.1 / 2), view / 2)
    } else {
        let v1 = if v < lo {
            lo
        } else {
            v
        };
        if sat_add(v1, view) > hi {
            sat_sub(hi, view)
        } else {
            v1
        }
    }
}

/// The offset the camera settles on, both axes.
pub open spec fn camera_offset(
    area: Rect,
    margin: Rect,
    bounds: Option<Rect>,
    target: Option<Rect>,
) -> (int, int) {
    let x0 = match target {
        Some(t) => follow_axis(
            area.x as int,
            area.width as int,
            t.x as int,
            t.width as int,
            margin.x as int,
            margin.width as int,
        ),
        None => area.x as int,
    };
    let y0 = match target {
        Some(t) => follow_axis(
            area.y as int,
            area.height as int,
            t.y as int,
            t.height as int,
            margin.y as int,
            margin.height as int,
        ),
        None => area.y as int,
    };
    match bounds {
        Some(b) => (
            bound_axis(
                x0,
                area.width as int,
                b.x as int,
                b.width as int,
                match target {
                    Some(t) => Some((t.x as int, t.width as int)),
                    None => None,
                },
            ),
            bound_axis(
                y0,
                area.height as int,
                b.y as int,
                b.height as int,
                match target {
                    Some(t) => Some((t.y as int, t.height as int)),
                    None => None,
                },
            ),
        ),
        None => (x0, y0),
    }
}

/// The translation a renderer applies for a camera offset: its negation.
#[derive(Clone, Copy, Debug, PartialEq, Eq, Structural)]
pub struct ViewTransform {
    pub translate_x: i64,
    pub translate_y: i64,
}

/// The margin band a new camera keeps its target inside, in subunits.
pub const FOLLOW_MARGIN: i64 = 1000;

/// A camera: a view rectangle, a follow margin, and optional world
/// bounds.  `update` commits the newly computed offset; `get_transform`
/// reads it without committing.
#[derive(Debug)]
pub struct Camera {
    area: Rect,
    margin: Rect,
    max_bounds: Option<Rect>,
}

impl Camera {
    /// The view rectangle: current offset plus viewport extent.
    pub closed spec fn spec_area(self) -> Rect {
        self.area
    }

    /// The follow margin.
    pub closed spec fn spec_margin(self) -> Rect {
        self.margin
    }

    /// The world bounds, when configured.
    pub closed spec fn spec_bounds(self) -> Option<Rect> {
        self.max_bounds
    }

    pub open spec fn wf(self) -> bool {
        self.spec_area().wf()
    }

    /// A camera over the given view rectangle, with the default follow
    /// margin and no world bounds.
    pub fn new(rect: Rect) -> (r: Camera)
        requires
            rect.wf(),
        ensures
            r.spec_area() == rect,
            r.spec_margin() == (Rect {
                x: FOLLOW_MARGIN,
                y: FOLLOW_MARGIN,
                width: FOLLOW_MARGIN,
                height: FOLLOW_MARGIN,
            }),
            r.spec_bounds() is None,
            r.wf(),
    {
        Camera {
            area: rect,
            margin: Rect::new(FOLLOW_MARGIN, FOLLOW_MARGIN, FOLLOW_MARGIN, FOLLOW_MARGIN),
            max_bounds: None,
        }
    }

    /// Configures the world bounds.
    pub fn with_bounds(self, rect: Rect) -> (r: Camera)
        ensures
            r.spec_area() == self.spec_area(),
            r.spec_margin() == self.spec_margin(),
            r.spec_bounds() == Some(rect),
            r.wf() == self.wf(),
    {
        Camera { max_bounds: Some(rect), ..self }
    }

    /// One axis of the follow clamp.
    fn follow_axis_exec(v: i64, view: i64, t: i64, extent: i64, m_lo: i64, m_hi: i64) -> (r: i64)
        ensures
            r as int == follow_axis(
                v as int,
                view as int,
                t as int,
                extent as int,
                m_lo as int,
                m_hi as int,
            ),
    {
        let upper = sat_sub_i64(t, m_lo);
        let v1 = if v > upper {
            upper
        } else {
            v
        };
        let lower = sat_sub_i64(sat_add_i64(sat_add_i64(t, extent), m_hi), view);
        if v1 < lower {
            lower
        } else {
            v1
        }
    }

    /// One axis of the world-bounds clamp.
    fn bound_axis_exec(v: i64, view: i64, lo: i64, hi: i64, t: Option<(i64, i64)>) -> (r: i64)
        requires
            view >= 0,
            t matches Some(m) ==> m.1 >= 0,
        ensures
            r as int == bound_axis(
                v as int,
                view as int,
                lo as int,
                hi as int,
                match t {
                    Some(m) => Some((m.0 as int, m.1 as int)),
                    None => None,
                },
            ),
    {
        if view > sat_sub_i64(hi, lo) && t.is_some() {
            let m = t.unwrap();
            sat_sub_i64(sat_add_i64(m.0, m.1 / 2), view / 2)
        } else {
            let v1 = if v < lo {
                lo
            } else {
                v
            };
            if sat_add_i64(v1, view) > hi {
                sat_sub_i64(hi, view)
            } else {
                v1
            }
        }
    }

    /// The offset the camera would settle on for this target, without
    /// committing it.
    pub fn get_offset(&self, target: Option<&Rect>) -> (r: (i64, i64))
        requires
            self.wf(),
            target matches Some(t) ==> t.wf(),
        ensures
            (r.0 as int, r.1 as int) == camera_offset(
                self.spec_area(),
                self.spec_margin(),
                self.spec_bounds(),
                match target {
                    Some(t) => Some(*t),
                    None => None,
                },
            ),
    {
        let mut x = self.area.x;
        let mut y = self.area.y;

        // Adjust the position based on the target, if it exists.
        if let Some(t) = target {
            x = Self::follow_axis_exec(
                x,
                self.area.width,
                t.x,
                t.width,
                self.margin.x,
                self.margin.width,
            );
            y = Self::follow_axis_exec(
                y,
                self.area.height,
                t.y,
                t.height,
                self.margin.y,
                self.margin.height,
            );
        }

        // Adjust x and y relative to the world bounds.
        if let Some(b) = &self.max_bounds {
            x = Self::bound_axis_exec(
                x,
                self.area.width,
                b.x,
                b.width,
                match target {
                    Some(t) => Some((t.x, t.width)),
                    None => None,
                },
            );
            y = Self::bound_axis_exec(
                y,
                self.area.height,
                b.y,
                b.height,
                match target {
                    Some(t) => Some((t.y, t.height)),
                    None => None,
                },
            );
        }

        (x, y)
    }

    /// The view translation for this target, without committing the
    /// offset; for read-only debug rendering.
    pub fn get_transform(&self, target: Option<&Rect>) -> (r: ViewTransform)
        requires
            self.wf(),
            target matches Some(t) ==> t.wf(),
        ensures
            ({
                let off = camera_offset(
                    self.spec_area(),
                    self.spec_margin(),
                    self.spec_bounds(),
                    match target {
                        Some(t) => Some(*t),
                        None => None,
                    },
                );
                r.translate_x as int == sat_sub(0, off.0) && r.translate_y as int == sat_sub(
                    0,
                    off.1,
                )
            }),
    {
        let (x, y) = self.get_offset(target);
        ViewTransform { translate_x: sat_sub_i64(0, x), translate_y: sat_sub_i64(0, y) }
    }

    /// Commits the offset this target settles on and returns the view
    /// translation for the renderer.
    pub fn update(&mut self, target: Option<&Rect>) -> (r: ViewTransform)
        requires
            old(self).wf(),
            target matches Some(t) ==> t.wf(),
        ensures
            ({
                let off = camera_offset(
                    old(self).spec_area(),
                    old(self).spec_margin(),
                    old(self).spec_bounds(),
                    match target {
                        Some(t) => Some(*t),
                        None => None,
                    },
                );
                &&& final(self).spec_area().x as int == off.0
                &&& final(self).spec_area().y as int == off.1
                &&& final(self).spec_area().width == old(self).spec_area().width
                &&& final(self).spec_area().height == old(self).spec_area().height
                &&& final(self).spec_margin() == old(self).spec_margin()
                &&& final(self).spec_bounds() == old(self).spec_bounds()
                &&& final(self).wf()
                &&& r.translate_x as int == sat_sub(0, off.0)
                &&& r.translate_y as int == sat_sub(0, off.1)
            }),
    {
        let (x, y) = self.get_offset(target);

        self.area.x = x;
        self.area.y = y;

        ViewTransform { translate_x: sat_sub_i64(0, x), translate_y: sat_sub_i64(0, y) }
    }
}

/// Camera clamp: with world bounds spanning `0..hi` on an axis and a
/// target fully inside them, a view that fits the world ends the axis
/// clamp inside `0..hi`; one that cannot fit centers on the target's
/// midpoint instead.
pub proof fn lemma_bound_axis_clamps(v: int, view: int, hi: int, t: (int, int))
    requires
        0 <= view,
        0 <= t.0,
        0 <= t.1,
        t.0 + t.1 <= hi,
        hi < i64::MAX,
    ensures
        view <= hi ==> 0 <= bound_axis(v, view, 0, hi, Some(t)),
        view <= hi ==> bound_axis(v, view, 0, hi, Some(t)) + view <= hi,
        view > hi ==> bound_axis(v, view, 0, hi, Some(t)) == sat_sub(t.0 + t.1 / 2, view / 2),
{
    if view <= hi {
        assert(sat_sub(hi, 0) == hi);
        let v1 = if v < 0 {
            0int
        } else {
            v
        };
        if sat_add(v1, view) > hi {
            assert(bound_axis(v, view, 0, hi, Some(t)) == sat_sub(hi, view));
            assert(sat_sub(hi, view) == hi - view);
        }
    } else {
        assert(sat_add(t.0, t.1 / 2) == t.0 + t.1 / 2);
    }
}

/// Camera clamp, both axes: with world bounds `[0, 0, W, H]` and a target
/// fully inside them, the offset the camera settles on never lets the
/// view extend past the world — unless the viewport itself exceeds the
/// world on an axis, in which case that axis centers on the target.
pub proof fn lemma_camera_clamp(area: Rect, margin: Rect, b: Rect, t: Rect)
    requires
        area.wf(),
        t.wf(),
        b.x == 0,
        b.y == 0,
        0 <= t.x,
        t.x + t.width <= b.width,
        0 <= t.y,
        t.y + t.height <= b.height,
        b.width < i64::MAX,
        b.height < i64::MAX,
    ensures
        area.width <= b.width ==> 0 <= camera_offset(area, margin, Some(b), Some(t)).0
            && camera_offset(area, margin, Some(b), Some(t)).0 + area.width <= b.width,
        area.height <= b.height ==> 0 <= camera_offset(area, margin, Some(b), Some(t)).1
            && camera_offset(area, margin, Some(b), Some(t)).1 + area.height <= b.height,
        area.width > b.width ==> camera_offset(area, margin, Some(b), Some(t)).0 == sat_sub(
            t.x + t.width / 2,
            area.width / 2,
        ),
        area.height > b.height ==> camera_offset(area, margin, Some(b), Some(t)).1 == sat_sub(
            t.y + t.height / 2,
            area.height / 2,
        ),
{
    let x0 = follow_axis(
        area.x as int,
        area.width as int,
        t.x as int,
        t.width as int,
        margin.x as int,
        margin.width as int,
    );
    let y0 = follow_axis(
        area.y as int,
        area.height as int,
        t.y as int,
        t.height as int,
        margin.y as int,
        margin.height as int,
    );
    lemma_bound_axis_clamps(x0, area.width as int, b.width as int, (t.x as int, t.width as int));
    lemma_bound_axis_clamps(y0, area.height as int, b.height as int, (t.y as int, t.height as int));
}

} // verus!
