//! Position/shape and movement components.
//!
//! [`Object`] is an entity's physical presence: a rectangle plus visibility
//! and solidity flags.  [`Movement`] integrates forces into a per-tick
//! velocity: persistent forces are reapplied every tick, instantaneous
//! forces are consumed once, the result is clamped to an optional per-axis
//! maximum speed (never flipping the sign), and a fixed horizontal drag
//! opposes the remaining motion, snapping to zero when it would overshoot.

use vstd::prelude::*;

use crate::rect::Rect;
use crate::{sat_add, sat_add_i64, Vec2};

verus! {

/// Horizontal drag per tick, in subunits (four tenths of a world unit).
pub const DRAG: i64 = 4;

/// A position/shape component: a rectangle, a visibility flag and a
/// solidity flag.  Only solid objects take part in collisions.
#[derive(Clone, Copy, Debug, PartialEq, Eq, Structural)]
pub struct Object {
    pub rect: Rect,
    pub visible: bool,
    pub is_solid: bool,
}

impl Object {
    /// Whether this object takes part in overlap-based collision.
    pub open spec fn solid(self) -> bool {
        self.is_solid
    }

    pub open spec fn wf(self) -> bool {
        self.rect.wf()
    }

    pub fn new(x: i64, y: i64, width: i64, height: i64) -> (r: Object)
        requires
            0 <= width,
            0 <= height,
        ensures
            r.rect == (Rect { x, y, width, height }),
            r.visible,
            r.solid(),
            r.wf(),
    {
        Object { rect: Rect::new(x, y, width, height), visible: true, is_solid: true }
    }

    /// A visible, solid object of the given size at the origin.
    pub fn with_size(width: i64, height: i64) -> (r: Object)
        requires
            0 <= width,
            0 <= height,
        ensures
            r.rect == (Rect { x: 0i64, y: 0i64, width, height }),
            r.visible,
            r.solid(),
            r.wf(),
    {
        Object::new(0, 0, width, height)
    }

    /// Sets whether the object collides.
    pub fn collision(self, is_solid: bool) -> (r: Object)
        ensures
            r.rect == self.rect,
            r.visible == self.visible,
            r.solid() == is_solid,
    {
        Object { is_solid, ..self }
    }

    /// Moves the object to the given position.
    pub fn at(self, x: i64, y: i64) -> (r: Object)
        ensures
            r.rect == (Rect { x, y, ..self.rect }),
            r.visible == self.visible,
            r.solid() == self.solid(),
    {
        Object { rect: Rect { x, y, ..self.rect }, ..self }
    }

    /// The object after a displacement of `(x, y)`, saturated at the
    /// coordinate range.
    pub open spec fn spec_moved_by(self, x: int, y: int) -> Object {
        Object {
            rect: Rect {
                x: sat_add(self.rect.x as int, x) as i64,
                y: sat_add(self.rect.y as int, y) as i64,
                ..self.rect
            },
            ..self
        }
    }

    /// Displaces the object, saturating at the coordinate range.
    pub fn move_by(&mut self, x: i64, y: i64)
        ensures
            *final(self) == old(self).spec_moved_by(x as int, y as int),
    {
        self.rect.x = sat_add_i64(self.rect.x, x);
        self.rect.y = sat_add_i64(self.rect.y, y);
    }

    /// The overlap of two objects: `None` unless both are solid and their
    /// rectangles overlap.
    pub open spec fn spec_object_overlap(self, other: Object) -> Option<Rect> {
        if !self.solid() || !other.solid() {
            None
        } else if self.rect.spec_has_overlap(other.rect) {
            Some(self.rect.spec_overlap(other.rect))
        } else {
            None
        }
    }

    /// Overlap between two objects; a non-solid object overlaps nothing.
    pub fn overlap(&self, other: &Object) -> (r: Option<Rect>)
        requires
            self.wf(),
            other.wf(),
        ensures
            r == self.spec_object_overlap(*other),
            r matches Some(o) ==> o.wf(),
    {
        if !self.is_solid || !other.is_solid {
            return None;
        }
        self.rect.overlap(&other.rect)
    }
}

impl Default for Object {
    /// A visible, solid, zero-sized object at the origin.
    fn default() -> (r: Object)
        ensures
            r.rect == (Rect { x: 0i64, y: 0i64, width: 0i64, height: 0i64 }),
            r.visible,
            r.solid(),
            r.wf(),
    {
        Object { rect: Rect::new(0, 0, 0, 0), visible: true, is_solid: true }
    }
}

/// The mathematical model of a [`Movement`] component.
pub ghost struct MovementModel {
    /// Current velocity, in subunits per tick.
    pub speed: (int, int),
    /// Persistent forces, reapplied every tick.
    pub forces: Seq<(int, int)>,
    /// One-shot forces, consumed by the next velocity recomputation.
    pub instantaneous: Seq<(int, int)>,
    /// Optional per-axis speed bound (a nonnegative magnitude).
    pub max_speed: (Option<int>, Option<int>),
    /// Whether a velocity recomputation is pending.
    pub dirty: bool,
}

/// Left fold of saturating addition over a sequence of integers.
pub open spec fn sum_sat(s: Seq<int>) -> int
    decreases s.len(),
{
    if s.len() == 0 {
        0
    } else {
        sat_add(sum_sat(s.drop_last()), s.last())
    }
}

/// The mathematical model of a force list.
pub open spec fn force_models(v: Seq<Vec2>) -> Seq<(int, int)> {
    v.map_values(|f: Vec2| (f.x as int, f.y as int))
}

/// The horizontal components of a force sequence.
pub open spec fn xs_of(s: Seq<(int, int)>) -> Seq<int> {
    s.map_values(|f: (int, int)| f.0)
}

/// The vertical components of a force sequence.
pub open spec fn ys_of(s: Seq<(int, int)>) -> Seq<int> {
    s.map_values(|f: (int, int)| f.1)
}

/// Clamps `v` to the magnitude bound `m`, when one is set.  The clamp never
/// flips the sign: it only shortens the vector component.
pub open spec fn clamp_axis(v: int, m: Option<int>) -> int {
    match m {
        Option::None => v,
        Option::Some(mx) => if v > mx {
            mx
        } else if v < -mx {
            -mx
        } else {
            v
        },
    }
}

/// One tick of horizontal drag: opposes the motion by [`DRAG`], snapping to
/// zero when the drag would overshoot.
pub open spec fn drag_axis(v: int) -> int {
    if v >= DRAG as int {
        v - DRAG as int
    } else if v <= -(DRAG as int) {
        v + DRAG as int
    } else {
        0
    }
}

/// The velocity recomputation of one tick: fold in the one-shot and the
/// persistent forces, clamp each axis to the configured maximum, and apply
/// horizontal drag.
pub open spec fn step_speed(m: MovementModel) -> (int, int) {
    let vx0 = sat_add(sat_add(m.speed.0, sum_sat(xs_of(m.instantaneous))), sum_sat(xs_of(m.forces)));
    let vy0 = sat_add(sat_add(m.speed.1, sum_sat(ys_of(m.instantaneous))), sum_sat(ys_of(m.forces)));
    let vx1 = clamp_axis(vx0, m.max_speed.0);
    let vy1 = clamp_axis(vy0, m.max_speed.1);
    (drag_axis(vx1), vy1)
}

/// The whole model after one [`Movement::update`] on a dirty component.
pub open spec fn step_model(m: MovementModel) -> MovementModel {
    MovementModel {
        speed: step_speed(m),
        forces: m.forces,
        instantaneous: Seq::empty(),
        max_speed: m.max_speed,
        dirty: false,
    }
}

/// A movement component: a velocity accumulated from forces.
#[derive(Debug)]
pub struct Movement {
    speed: Vec2,
    forces: Vec<Vec2>,
    instantaneous_forces: Vec<Vec2>,
    max_speed: (Option<i64>, Option<i64>),
    dirty: bool,
}

impl View for Movement {
    type V = MovementModel;

    closed spec fn view(&self) -> MovementModel {
        MovementModel {
            speed: (self.speed.x as int, self.speed.y as int),
            forces: force_models(self.forces@),
            instantaneous: force_models(self.instantaneous_forces@),
            max_speed: (
                match self.max_speed.0 {
                    Option::None => Option::None,
                    Option::Some(v) => Option::Some(v as int),
                },
                match self.max_speed.1 {
                    Option::None => Option::None,
                    Option::Some(v) => Option::Some(v as int),
                },
            ),
            dirty: self.dirty,
        }
    }
}

impl Movement {
    /// Well-formedness: configured maximum speeds are nonnegative, and a
    /// settled (non-dirty) velocity respects them.
    pub open spec fn wf(self) -> bool {
        (self@.max_speed.0 matches Some(mx) ==> 0 <= mx) && (self@.max_speed.1 matches Some(my)
            ==> 0 <= my) && (!self@.dirty ==> clamped(self@.speed.0, self@.max_speed.0) && clamped(
            self@.speed.1,
            self@.max_speed.1,
        ))
    }

    /// A movement at rest: no forces, no speed bound, one recomputation
    /// pending.
    pub fn new() -> (r: Movement)
        ensures
            r@ == (MovementModel {
                speed: (0int, 0int),
                forces: Seq::<(int, int)>::empty(),
                instantaneous: Seq::<(int, int)>::empty(),
                max_speed: (Option::<int>::None, Option::<int>::None),
                dirty: true,
            }),
            r.wf(),
    {
        let r = Movement {
            speed: Vec2::zero(),
            forces: Vec::new(),
            instantaneous_forces: Vec::new(),
            max_speed: (None, None),
            dirty: true,
        };
        proof {
            assert(r@.forces =~= Seq::<(int, int)>::empty());
            assert(r@.instantaneous =~= Seq::<(int, int)>::empty());
        }
        r
    }

    /// Configures the per-axis speed bounds (nonnegative magnitudes).
    pub fn with_max_speed(self, max_speed: (Option<i64>, Option<i64>)) -> (r: Movement)
        requires
            self.wf(),
            self@.dirty,
            max_speed.0 matches Some(mx) ==> 0 <= mx,
            max_speed.1 matches Some(my) ==> 0 <= my,
        ensures
            r@ == (MovementModel {
                max_speed: (
                    match max_speed.0 {
                        Option::None => Option::<int>::None,
                        Option::Some(v) => Option::Some(v as int),
                    },
                    match max_speed.1 {
                        Option::None => Option::<int>::None,
                        Option::Some(v) => Option::Some(v as int),
                    },
                ),
                ..self@
            }),
            r.wf(),
    {
        Movement { max_speed, ..self }
    }

    /// Adds a persistent force, reapplied on every recomputation.
    pub fn with_force(self, force: Vec2) -> (r: Movement)
        requires
            self.wf(),
        ensures
            r@ == (MovementModel {
                forces: self@.forces.push((force.x as int, force.y as int)),
                dirty: true,
                ..self@
            }),
            r.wf(),
    {
        let mut m = self;
        m.add_force(force);
        m
    }

    /// Adds a persistent force and marks the velocity for recomputation.
    pub fn add_force(&mut self, force: Vec2)
        requires
            old(self).wf(),
        ensures
            final(self)@ == (MovementModel {
                forces: old(self)@.forces.push((force.x as int, force.y as int)),
                dirty: true,
                ..old(self)@
            }),
            final(self).wf(),
    {
        self.forces.push(force);
        self.dirty = true;
        proof {
            assert(self@.forces =~= old(self)@.forces.push((force.x as int, force.y as int)));
        }
    }

    /// Adds a one-shot force, consumed by the next recomputation.
    pub fn add_instantaneous_force(&mut self, force: Vec2)
        requires
            old(self).wf(),
        ensures
            final(self)@ == (MovementModel {
                instantaneous: old(self)@.instantaneous.push((force.x as int, force.y as int)),
                dirty: true,
                ..old(self)@
            }),
            final(self).wf(),
    {
        self.instantaneous_forces.push(force);
        self.dirty = true;
        proof {
            assert(self@.instantaneous =~= old(self)@.instantaneous.push(
                (force.x as int, force.y as int),
            ));
        }
    }

    /// Recomputes the velocity once per tick: a no-op unless a force was
    /// added (or the component is new) since the last recomputation.
    pub fn update(&mut self)
        requires
            old(self).wf(),
        ensures
            old(self)@.dirty ==> final(self)@ == step_model(old(self)@),
            !old(self)@.dirty ==> final(self)@ == old(self)@,
            final(self).wf(),
            !final(self)@.dirty,
    {
        if !self.dirty {
            return ;
        }

        let instantaneous_total = sum_forces(&self.instantaneous_forces);
        let force_total = sum_forces(&self.forces);
        self.speed.x = sat_add_i64(sat_add_i64(self.speed.x, instantaneous_total.x), force_total.x);
        self.speed.y = sat_add_i64(sat_add_i64(self.speed.y, instantaneous_total.y), force_total.y);

        if let Some(mx) = self.max_speed.0 {
            if self.speed.x > mx {
                self.speed.x = mx;
            } else if self.speed.x < -mx {
                self.speed.x = -mx;
            }
        }

        if let Some(my) = self.max_speed.1 {
            if self.speed.y > my {
                self.speed.y = my;
            } else if self.speed.y < -my {
                self.speed.y = -my;
            }
        }

        self.instantaneous_forces.clear();

        if self.speed.x >= DRAG {
            self.speed.x = self.speed.x - DRAG;
        } else if self.speed.x <= -DRAG {
            self.speed.x = self.speed.x + DRAG;
        } else {
            self.speed.x = 0;
        }

        self.dirty = false;
        proof {
            assert(self@.instantaneous =~= Seq::<(int, int)>::empty());
        }
    }

    /// Zeroes the velocity on both axes.
    pub fn reset_speed(&mut self)
        requires
            old(self).wf(),
        ensures
            final(self)@ == (MovementModel { speed: (0int, 0int), ..old(self)@ }),
            final(self).wf(),
    {
        self.speed = Vec2::zero();
    }

    /// Zeroes the vertical velocity; used by the collision system on
    /// impact while falling.
    pub fn reset_speed_y(&mut self)
        requires
            old(self).wf(),
        ensures
            final(self)@ == (MovementModel {
                speed: (old(self)@.speed.0, 0int),
                ..old(self)@
            }),
            final(self).wf(),
    {
        self.speed.y = 0;
    }

    /// The horizontal displacement for this tick, finalizing the tick's
    /// velocity first.
    pub fn dx(&mut self) -> (r: i64)
        requires
            old(self).wf(),
        ensures
            old(self)@.dirty ==> final(self)@ == step_model(old(self)@),
            !old(self)@.dirty ==> final(self)@ == old(self)@,
            final(self).wf(),
            !final(self)@.dirty,
            r as int == final(self)@.speed.0,
    {
        self.update();
        self.speed.x
    }

    /// The vertical displacement for this tick, finalizing the tick's
    /// velocity first.
    pub fn dy(&mut self) -> (r: i64)
        requires
            old(self).wf(),
        ensures
            old(self)@.dirty ==> final(self)@ == step_model(old(self)@),
            !old(self)@.dirty ==> final(self)@ == old(self)@,
            final(self).wf(),
            !final(self)@.dirty,
            r as int == final(self)@.speed.1,
    {
        self.update();
        self.speed.y
    }
}

/// Whether `v` respects the optional magnitude bound `m`.
pub open spec fn clamped(v: int, m: Option<int>) -> bool {
    m matches Some(mx) ==> -mx <= v <= mx
}

/// Folding saturating addition over a sequence of zeroes yields zero.
pub proof fn lemma_sum_sat_zero(s: Seq<int>)
    requires
        forall|i: int| 0 <= i < s.len() ==> s[i] == 0,
    ensures
        sum_sat(s) == 0,
    decreases s.len(),
{
    if s.len() > 0 {
        lemma_sum_sat_zero(s.drop_last());
    }
}

/// Speed clamping never flips the sign of a velocity component and never
/// lengthens it; it only shortens the component to the configured bound.
pub proof fn lemma_clamp_axis_sign(v: int, m: Option<int>)
    requires
        m matches Some(mx) ==> 0 <= mx,
    ensures
        clamp_axis(v, m) * v >= 0,
        vstd::math::abs(clamp_axis(v, m)) <= vstd::math::abs(v),
        v == 0 ==> clamp_axis(v, m) == 0,
        clamped(clamp_axis(v, m), m),
{
    let c = clamp_axis(v, m);
    assert(c * v >= 0) by (nonlinear_arith)
        requires
            (0 <= c && 0 <= v) || (c <= 0 && v <= 0),
    ;
}

/// Movement clamp: whenever a per-axis maximum speed is set, the velocity
/// that one tick's recomputation settles on respects it, on both axes.
pub proof fn lemma_update_clamp(m: MovementModel)
    requires
        m.max_speed.0 matches Some(mx) ==> 0 <= mx,
        m.max_speed.1 matches Some(my) ==> 0 <= my,
    ensures
        clamped(step_speed(m).0, m.max_speed.0),
        clamped(step_speed(m).1, m.max_speed.1),
{
    let vx0 = sat_add(sat_add(m.speed.0, sum_sat(xs_of(m.instantaneous))), sum_sat(xs_of(m.forces)));
    lemma_clamp_axis_sign(vx0, m.max_speed.0);
    let vy0 = sat_add(sat_add(m.speed.1, sum_sat(ys_of(m.instantaneous))), sum_sat(ys_of(m.forces)));
    lemma_clamp_axis_sign(vy0, m.max_speed.1);
}

/// Drag monotonicity: with no horizontal force components and a settled
/// in-bound velocity, one tick strictly shrinks a nonzero horizontal
/// velocity without flipping its sign, and keeps a zero one at zero.
pub proof fn lemma_drag_monotonic(m: MovementModel)
    requires
        forall|i: int| 0 <= i < m.forces.len() ==> #[trigger] m.forces[i].0 == 0,
        forall|i: int| 0 <= i < m.instantaneous.len() ==> #[trigger] m.instantaneous[i].0 == 0,
        i64::MIN <= m.speed.0 <= i64::MAX,
        m.max_speed.0 matches Some(mx) ==> 0 <= mx,
        clamped(m.speed.0, m.max_speed.0),
    ensures
        m.speed.0 != 0 ==> vstd::math::abs(step_speed(m).0) < vstd::math::abs(m.speed.0),
        step_speed(m).0 * m.speed.0 >= 0,
        m.speed.0 == 0 ==> step_speed(m).0 == 0,
{
    assert forall|i: int| 0 <= i < xs_of(m.forces).len() implies #[trigger] xs_of(m.forces)[i]
        == 0 by {
        assert(m.forces[i].0 == 0);
    }
    assert forall|i: int|
        0 <= i < xs_of(m.instantaneous).len() implies #[trigger] xs_of(m.instantaneous)[i] == 0 by {
        assert(m.instantaneous[i].0 == 0);
    }
    lemma_sum_sat_zero(xs_of(m.forces));
    lemma_sum_sat_zero(xs_of(m.instantaneous));
    let v = m.speed.0;
    assert(sat_add(sat_add(v, 0), 0) == v);
    assert(clamp_axis(v, m.max_speed.0) == v);
    let d = drag_axis(v);
    assert(d * v >= 0) by (nonlinear_arith)
        requires
            (0 <= d && 0 <= v) || (d <= 0 && v <= 0),
    ;
}

/// Saturating componentwise sum of a force list.
fn sum_forces(forces: &Vec<Vec2>) -> (r: Vec2)
    ensures
        r.x as int == sum_sat(xs_of(force_models(forces@))),
        r.y as int == sum_sat(ys_of(force_models(forces@))),
{
    let ghost m = force_models(forces@);
    let mut total = Vec2::zero();
    let mut i: usize = 0;
    while i < forces.len()
        invariant
            0 <= i <= forces.len(),
            m == force_models(forces@),
            total.x as int == sum_sat(xs_of(m.take(i as int))),
            total.y as int == sum_sat(ys_of(m.take(i as int))),
        decreases forces.len() - i,
    {
        let f = forces[i];
        total.x = sat_add_i64(total.x, f.x);
        total.y = sat_add_i64(total.y, f.y);
        i = i + 1;
        proof {
            assert(xs_of(m.take(i as int)).drop_last() =~= xs_of(m.take(i as int - 1)));
            assert(ys_of(m.take(i as int)).drop_last() =~= ys_of(m.take(i as int - 1)));
            assert(xs_of(m.take(i as int)).last() == m[i as int - 1].0);
            assert(ys_of(m.take(i as int)).last() == m[i as int - 1].1);
        }
    }
    proof {
        assert(m.take(forces@.len() as int) =~= m);
    }
    total
}

} // verus!
