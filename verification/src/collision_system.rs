//! Per-axis collision resolution against the tile grid.
//!
//! Each tick, for every entity with both a shape and (possibly) a movement
//! component, the system integrates the X displacement, pushes the shape
//! back out of every solid cell it now overlaps, then does the same for Y.
//! Corrections are applied cumulatively, one per overlapping cell, in the
//! deterministic order the broad-phase query returns (columns outward,
//! rows inner); this is the documented policy for the rare multi-cell
//! overlap.  Side-effects of a hit while falling: the vertical velocity is
//! zeroed, and a landing (a hit from the top) re-arms the player's jump.

use vstd::prelude::*;

use crate::entity::EntityManager;
use crate::grid::TileGrid;
use crate::input::InputModel;
use crate::object::{step_model, MovementModel, Object};

verus! {

/// The movement model once a tick's displacement has been read from it:
/// recomputed when dirty, untouched otherwise.
pub open spec fn stepped_movement(m: MovementModel) -> MovementModel {
    if m.dirty {
        step_model(m)
    } else {
        m
    }
}

/// One X-axis correction: when the moving object overlaps a solid cell, it
/// is pushed back by exactly the overlap width, opposing the motion.
pub open spec fn resolve_cell_x(obj: Object, cell: Object, dx: int) -> (Object, bool) {
    match obj.spec_object_overlap(cell) {
        Some(ov) => (
            obj.spec_moved_by(
                if dx > 0 {
                    -(ov.width as int)
                } else {
                    ov.width as int
                },
                0,
            ),
            true,
        ),
        None => (obj, false),
    }
}

/// One Y-axis correction, by the overlap height.
pub open spec fn resolve_cell_y(obj: Object, cell: Object, dy: int) -> (Object, bool) {
    match obj.spec_object_overlap(cell) {
        Some(ov) => (
            obj.spec_moved_by(
                0,
                if dy > 0 {
                    -(ov.height as int)
                } else {
                    ov.height as int
                },
            ),
            true,
        ),
        None => (obj, false),
    }
}

/// X-axis corrections folded over the candidate cells in query order; the
/// flag records whether any cell was hit.
pub open spec fn resolve_seq_x(obj: Object, cells: Seq<Object>, dx: int) -> (Object, bool)
    decreases cells.len(),
{
    if cells.len() == 0 {
        (obj, false)
    } else {
        let prefix = resolve_seq_x(obj, cells.drop_last(), dx);
        let last = resolve_cell_x(prefix.0, cells.last(), dx);
        (last.0, prefix.1 || last.1)
    }
}

/// Y-axis corrections folded over the candidate cells in query order.
pub open spec fn resolve_seq_y(obj: Object, cells: Seq<Object>, dy: int) -> (Object, bool)
    decreases cells.len(),
{
    if cells.len() == 0 {
        (obj, false)
    } else {
        let prefix = resolve_seq_y(obj, cells.drop_last(), dy);
        let last = resolve_cell_y(prefix.0, cells.last(), dy);
        (last.0, prefix.1 || last.1)
    }
}

/// A fold that records no hit moves nothing.
pub proof fn lemma_resolve_seq_x_no_hit(obj: Object, cells: Seq<Object>, dx: int)
    requires
        !resolve_seq_x(obj, cells, dx).1,
    ensures
        resolve_seq_x(obj, cells, dx).0 == obj,
    decreases cells.len(),
{
    if cells.len() > 0 {
        lemma_resolve_seq_x_no_hit(obj, cells.drop_last(), dx);
    }
}

/// A fold that records no hit moves nothing.
pub proof fn lemma_resolve_seq_y_no_hit(obj: Object, cells: Seq<Object>, dy: int)
    requires
        !resolve_seq_y(obj, cells, dy).1,
    ensures
        resolve_seq_y(obj, cells, dy).0 == obj,
    decreases cells.len(),
{
    if cells.len() > 0 {
        lemma_resolve_seq_y_no_hit(obj, cells.drop_last(), dy);
    }
}

/// A candidate cell that overlaps the object where it starts is never
/// missed: the X-axis fold records a hit.
pub proof fn lemma_resolve_seq_x_hits(obj: Object, cells: Seq<Object>, dx: int, k: int)
    requires
        0 <= k < cells.len(),
        obj.spec_object_overlap(cells[k]) is Some,
    ensures
        resolve_seq_x(obj, cells, dx).1,
    decreases cells.len(),
{
    if k < cells.len() - 1 {
        assert(cells.drop_last()[k] == cells[k]);
        lemma_resolve_seq_x_hits(obj, cells.drop_last(), dx, k);
    } else {
        let prefix = resolve_seq_x(obj, cells.drop_last(), dx);
        if !prefix.1 {
            lemma_resolve_seq_x_no_hit(obj, cells.drop_last(), dx);
            assert(prefix.0 == obj);
        }
    }
}

/// A candidate cell that overlaps the object where it starts is never
/// missed: the Y-axis fold records a hit.
pub proof fn lemma_resolve_seq_y_hits(obj: Object, cells: Seq<Object>, dy: int, k: int)
    requires
        0 <= k < cells.len(),
        obj.spec_object_overlap(cells[k]) is Some,
    ensures
        resolve_seq_y(obj, cells, dy).1,
    decreases cells.len(),
{
    if k < cells.len() - 1 {
        assert(cells.drop_last()[k] == cells[k]);
        lemma_resolve_seq_y_hits(obj, cells.drop_last(), dy, k);
    } else {
        let prefix = resolve_seq_y(obj, cells.drop_last(), dy);
        if !prefix.1 {
            lemma_resolve_seq_y_no_hit(obj, cells.drop_last(), dy);
            assert(prefix.0 == obj);
        }
    }
}

/// The objects of the cells the broad phase returns for a rectangle.
pub open spec fn candidate_objects(g: TileGrid, r: crate::rect::Rect) -> Seq<Object> {
    g.tile_indices(r).map_values(|i: int| g.spec_cells()[i].object)
}

/// An object carried through one collision tick: move by `(dx, 0)` and
/// resolve against the cells now touched (when `dx` is nonzero), then the
/// same for the Y axis.
pub open spec fn resolved_object(obj: Object, g: TileGrid, dx: int, dy: int) -> (
    Object,
    bool,
    bool,
) {
    let moved_x = obj.spec_moved_by(dx, 0);
    let x_phase = if dx != 0 {
        resolve_seq_x(moved_x, candidate_objects(g, moved_x.rect), dx)
    } else {
        (moved_x, false)
    };
    let moved_y = x_phase.0.spec_moved_by(0, dy);
    let y_phase = if dy != 0 {
        resolve_seq_y(moved_y, candidate_objects(g, moved_y.rect), dy)
    } else {
        (moved_y, false)
    };
    (y_phase.0, x_phase.1, y_phase.1)
}

/// A solid object that properly overlaps a solid cell sitting on the tile
/// lattice cannot slip through the broad phase: the candidate list holds
/// that cell, and the object's overlap with it is real.
pub proof fn lemma_candidates_catch_solid_cell(obj: Object, g: TileGrid, c: int, r: int) -> (k:
    int)
    requires
        g.wf(),
        obj.wf(),
        obj.solid(),
        g.spec_width() * g.spec_tilesize() <= i64::MAX,
        g.spec_height() * g.spec_tilesize() <= i64::MAX,
        0 <= c < g.spec_width(),
        0 <= r < g.spec_height(),
        g.spec_cells()[r * g.spec_width() + c].object.solid(),
        g.spec_cells()[r * g.spec_width() + c].object.rect == (crate::rect::Rect {
            x: (c * g.spec_tilesize()) as i64,
            y: (r * g.spec_tilesize()) as i64,
            width: g.spec_tilesize() as i64,
            height: g.spec_tilesize() as i64,
        }),
        obj.rect.x < (c + 1) * g.spec_tilesize(),
        c * g.spec_tilesize() < obj.rect.x + obj.rect.width,
        obj.rect.y < (r + 1) * g.spec_tilesize(),
        r * g.spec_tilesize() < obj.rect.y + obj.rect.height,
    ensures
        0 <= k < candidate_objects(g, obj.rect).len(),
        obj.spec_object_overlap(candidate_objects(g, obj.rect)[k]) is Some,
{
    let ts = g.spec_tilesize();
    let w = g.spec_width();
    let h = g.spec_height();
    crate::grid::lemma_broad_phase_covers(g, obj.rect, c, r);
    let idxs = g.tile_indices(obj.rect);
    let v = r * w + c;
    let ki = idxs.index_of(v);
    assert(0 <= ki < idxs.len() && idxs[ki] == v);
    assert(0 <= v < w * h) by (nonlinear_arith)
        requires
            0 <= c < w,
            0 <= r < h,
            v == r * w + c,
    ;
    let cands = candidate_objects(g, obj.rect);
    assert(cands[ki] == g.spec_cells()[v].object);
    let cell = g.spec_cells()[v].object;

    assert(0 <= c * ts && (c + 1) * ts <= w * ts && 0 <= r * ts && (r + 1) * ts <= h * ts)
        by (nonlinear_arith)
        requires
            0 <= c < w,
            0 <= r < h,
            0 < ts,
    ;
    assert((c + 1) * ts == c * ts + ts && (r + 1) * ts == r * ts + ts) by (nonlinear_arith);
    assert(cell.rect.right() == (c + 1) * ts);
    assert(cell.rect.bottom() == (r + 1) * ts);
    assert(obj.rect.right() > c * ts);
    assert(obj.rect.bottom() > r * ts);
    assert(obj.rect.spec_has_overlap(cell.rect));
    ki
}

/// A solid object that properly overlaps a solid lattice cell when the
/// X-axis corrections begin has a hit recorded: walls are not skipped.
pub proof fn lemma_solid_cell_hit_x(obj: Object, g: TileGrid, dx: int, c: int, r: int)
    requires
        g.wf(),
        obj.wf(),
        obj.solid(),
        g.spec_width() * g.spec_tilesize() <= i64::MAX,
        g.spec_height() * g.spec_tilesize() <= i64::MAX,
        0 <= c < g.spec_width(),
        0 <= r < g.spec_height(),
        g.spec_cells()[r * g.spec_width() + c].object.solid(),
        g.spec_cells()[r * g.spec_width() + c].object.rect == (crate::rect::Rect {
            x: (c * g.spec_tilesize()) as i64,
            y: (r * g.spec_tilesize()) as i64,
            width: g.spec_tilesize() as i64,
            height: g.spec_tilesize() as i64,
        }),
        obj.rect.x < (c + 1) * g.spec_tilesize(),
        c * g.spec_tilesize() < obj.rect.x + obj.rect.width,
        obj.rect.y < (r + 1) * g.spec_tilesize(),
        r * g.spec_tilesize() < obj.rect.y + obj.rect.height,
    ensures
        resolve_seq_x(obj, candidate_objects(g, obj.rect), dx).1,
{
    let k = lemma_candidates_catch_solid_cell(obj, g, c, r);
    lemma_resolve_seq_x_hits(obj, candidate_objects(g, obj.rect), dx, k);
}

/// Landing is detected: an object that properly overlaps a solid lattice
/// cell when the Y-axis corrections begin has a hit recorded, so a
/// falling entity ends the tick with its vertical velocity zeroed and its
/// jump re-armed (see [`lemma_landing_resets_jump`]).
pub proof fn lemma_solid_cell_hit_y(obj: Object, g: TileGrid, dy: int, c: int, r: int)
    requires
        g.wf(),
        obj.wf(),
        obj.solid(),
        g.spec_width() * g.spec_tilesize() <= i64::MAX,
        g.spec_height() * g.spec_tilesize() <= i64::MAX,
        0 <= c < g.spec_width(),
        0 <= r < g.spec_height(),
        g.spec_cells()[r * g.spec_width() + c].object.solid(),
        g.spec_cells()[r * g.spec_width() + c].object.rect == (crate::rect::Rect {
            x: (c * g.spec_tilesize()) as i64,
            y: (r * g.spec_tilesize()) as i64,
            width: g.spec_tilesize() as i64,
            height: g.spec_tilesize() as i64,
        }),
        obj.rect.x < (c + 1) * g.spec_tilesize(),
        c * g.spec_tilesize() < obj.rect.x + obj.rect.width,
        obj.rect.y < (r + 1) * g.spec_tilesize(),
        r * g.spec_tilesize() < obj.rect.y + obj.rect.height,
    ensures
        resolve_seq_y(obj, candidate_objects(g, obj.rect), dy).1,
{
    let k = lemma_candidates_catch_solid_cell(obj, g, c, r);
    lemma_resolve_seq_y_hits(obj, candidate_objects(g, obj.rect), dy, k);
}

/// Everything one collision tick does to one entity's components.
pub ghost struct EntityStepOutcome {
    /// The movement model after the tick, when the entity has one.
    pub movement: Option<MovementModel>,
    /// The shape after the tick, when the entity has one.
    pub object: Option<Object>,
    /// Whether any X-axis overlap was corrected.
    pub hit_x: bool,
    /// Whether any Y-axis overlap was corrected.
    pub hit_y: bool,
    /// Whether the entity landed: hit on the Y axis while moving down.
    pub landed: bool,
    /// The input model after the tick, when the entity has one.
    pub input: Option<InputModel>,
}

/// The outcome of one collision tick for entity `id` of store `em`:
/// displacement from the movement component (zero without one), per-axis
/// resolution of the shape, vertical velocity zeroed on a hit while
/// falling, and the jump re-armed on a landing.
pub open spec fn entity_step(em: EntityManager, id: u64, g: TileGrid) -> EntityStepOutcome {
    let mov = if em.spec_movements().spec_contains(id) {
        Some(stepped_movement(em.spec_movements().spec_map()[id]@))
    } else {
        None
    };
    let dx = match mov {
        Some(m) => m.speed.0,
        None => 0,
    };
    let dy = match mov {
        Some(m) => m.speed.1,
        None => 0,
    };
    let resolved = if em.spec_objects().spec_contains(id) {
        Some(resolved_object(em.spec_objects().spec_map()[id], g, dx, dy))
    } else {
        None
    };
    let hit_x = match resolved {
        Some(r) => r.1,
        None => false,
    };
    let hit_y = match resolved {
        Some(r) => r.2,
        None => false,
    };
    let landed = hit_y && dy > 0;
    let mov_final = match mov {
        Some(m) => if (hit_x || hit_y) && dy > 0 {
            Some(MovementModel { speed: (m.speed.0, 0int), ..m })
        } else {
            Some(m)
        },
        None => None,
    };
    let input_final = if em.spec_inputs().spec_contains(id) {
        let i = em.spec_inputs().spec_map()[id]@;
        Some(
            if landed {
                crate::input::spec_input_reset_jump(i)
            } else {
                i
            },
        )
    } else {
        None
    };
    EntityStepOutcome {
        movement: mov_final,
        object: match resolved {
            Some(r) => Some(r.0),
            None => None,
        },
        hit_x,
        hit_y,
        landed,
        input: input_final,
    }
}

/// What [`CollisionSystem::update_entity`] leaves of entity `id`, given
/// the store it started from.
pub open spec fn entity_step_applied(
    pre: EntityManager,
    post: EntityManager,
    id: u64,
    g: TileGrid,
) -> bool {
    let out = entity_step(pre, id, g);
    &&& (pre.spec_objects().spec_contains(id) ==> post.spec_objects().spec_map()[id]
        == out.object.unwrap())
    &&& (pre.spec_movements().spec_contains(id) ==> post.spec_movements().spec_map()[id]@
        == out.movement.unwrap() && post.spec_movements().spec_map()[id].wf())
    &&& (pre.spec_inputs().spec_contains(id) ==> post.spec_inputs().spec_map()[id]@
        == out.input.unwrap())
}

/// The frame of one [`CollisionSystem::update_entity`] call: nothing but
/// the three component values of `id` moves.
pub open spec fn only_entity_touched(pre: EntityManager, post: EntityManager, id: u64) -> bool {
    &&& post.spec_next_id() == pre.spec_next_id()
    &&& post.spec_entities() == pre.spec_entities()
    &&& post.spec_names() == pre.spec_names()
    &&& post.spec_assets() == pre.spec_assets()
    &&& post.spec_target() == pre.spec_target()
    &&& post.spec_objects().key_seq() == pre.spec_objects().key_seq()
    &&& post.spec_movements().key_seq() == pre.spec_movements().key_seq()
    &&& post.spec_inputs().key_seq() == pre.spec_inputs().key_seq()
    &&& forall|k: u64|
        k != id && pre.spec_objects().spec_contains(k) ==> post.spec_objects().spec_map()[k] == (
        #[trigger] pre.spec_objects().spec_map()[k])
    &&& forall|k: u64|
        k != id && pre.spec_movements().spec_contains(k) ==> post.spec_movements().spec_map()[k]
            == (#[trigger] pre.spec_movements().spec_map()[k])
    &&& forall|k: u64|
        k != id && pre.spec_inputs().spec_contains(k) ==> post.spec_inputs().spec_map()[k] == (
        #[trigger] pre.spec_inputs().spec_map()[k])
}

/// What one whole collision tick does to the store: every entity with a
/// shape steps as [`entity_step`] says, from the shared starting state;
/// everything else — and every component of a shapeless entity — stays.
pub open spec fn collision_tick_applied(
    pre: EntityManager,
    post: EntityManager,
    g: TileGrid,
) -> bool {
    &&& post.spec_next_id() == pre.spec_next_id()
    &&& post.spec_entities() == pre.spec_entities()
    &&& post.spec_names() == pre.spec_names()
    &&& post.spec_assets() == pre.spec_assets()
    &&& post.spec_target() == pre.spec_target()
    &&& post.spec_objects().key_seq() == pre.spec_objects().key_seq()
    &&& post.spec_movements().key_seq() == pre.spec_movements().key_seq()
    &&& post.spec_inputs().key_seq() == pre.spec_inputs().key_seq()
    &&& forall|k: u64| #[trigger]
        pre.spec_objects().spec_contains(k) ==> entity_step_applied(pre, post, k, g)
    &&& forall|k: u64|
        pre.spec_movements().spec_contains(k) && !pre.spec_objects().spec_contains(k)
            ==> post.spec_movements().spec_map()[k] == (
        #[trigger] pre.spec_movements().spec_map()[k])
    &&& forall|k: u64|
        pre.spec_inputs().spec_contains(k) && !pre.spec_objects().spec_contains(k)
            ==> post.spec_inputs().spec_map()[k] == (#[trigger] pre.spec_inputs().spec_map()[k])
}

/// [`entity_step`] reads only the grid and the components of `id`: two
/// stores that agree there agree on the outcome.
pub proof fn lemma_entity_step_local(a: EntityManager, b: EntityManager, id: u64, g: TileGrid)
    requires
        a.spec_objects().spec_contains(id) == b.spec_objects().spec_contains(id),
        a.spec_movements().spec_contains(id) == b.spec_movements().spec_contains(id),
        a.spec_inputs().spec_contains(id) == b.spec_inputs().spec_contains(id),
        a.spec_objects().spec_contains(id) ==> a.spec_objects().spec_map()[id]
            == b.spec_objects().spec_map()[id],
        a.spec_movements().spec_contains(id) ==> a.spec_movements().spec_map()[id]
            == b.spec_movements().spec_map()[id],
        a.spec_inputs().spec_contains(id) ==> a.spec_inputs().spec_map()[id]
            == b.spec_inputs().spec_map()[id],
    ensures
        entity_step(a, id, g) == entity_step(b, id, g),
{
}

/// The collision resolution system; stateless between ticks.
#[derive(Debug)]
pub struct CollisionSystem {}

impl CollisionSystem {
    pub fn new() -> (r: CollisionSystem)
        ensures
            r == (CollisionSystem {  }),
    {
        CollisionSystem {}
    }

    /// Carries one shape through the tick: the X move and its
    /// corrections, then the Y move and its corrections.
    fn resolve_object(object: &mut Object, grid: &TileGrid, dx: i64, dy: i64) -> (hits: (
        bool,
        bool,
    ))
        requires
            old(object).wf(),
            grid.wf(),
        ensures
            (*final(object), hits.0, hits.1) == resolved_object(
                *old(object),
                *grid,
                dx as int,
                dy as int,
            ),
            final(object).wf(),
    {
        let mut hitx = false;
        let mut hity = false;
        object.move_by(dx, 0);
        if dx != 0 {
            let ghost o1 = *object;
            let tiles = grid.collidable_tiles(&object.rect);
            let ghost cands = candidate_objects(*grid, o1.rect);
            proof {
                assert(cands.len() == tiles@.len());
            }
            let mut i: usize = 0;
            while i < tiles.len()
                invariant
                    grid.wf(),
                    0 <= i <= tiles@.len(),
                    cands == candidate_objects(*grid, o1.rect),
                    cands.len() == tiles@.len(),
                    forall|k: int|
                        0 <= k < tiles@.len() ==> 0 <= #[trigger] tiles@[k]
                            < grid.spec_cells().len(),
                    forall|k: int|
                        0 <= k < tiles@.len() ==> #[trigger] cands[k]
                            == grid.spec_cells()[tiles@[k] as int].object,
                    (*object, hitx) == resolve_seq_x(o1, cands.take(i as int), dx as int),
                    object.wf(),
                decreases tiles@.len() - i,
            {
                let cell = grid.cell_at(tiles[i]);
                match object.overlap(&cell.object) {
                    Some(overlap) => {
                        hitx = true;
                        if dx > 0 {
                            object.move_by(-overlap.width, 0);
                        } else {
                            object.move_by(overlap.width, 0);
                        }
                    },
                    None => {},
                }
                proof {
                    assert(cands.take(i as int + 1).drop_last() =~= cands.take(i as int));
                    assert(cands.take(i as int + 1).last() == cands[i as int]);
                }
                i = i + 1;
            }
            proof {
                assert(cands.take(cands.len() as int) =~= cands);
            }
        }

        object.move_by(0, dy);
        if dy != 0 {
            let ghost o3 = *object;
            let tiles = grid.collidable_tiles(&object.rect);
            let ghost cands = candidate_objects(*grid, o3.rect);
            proof {
                assert(cands.len() == tiles@.len());
            }
            let mut i: usize = 0;
            while i < tiles.len()
                invariant
                    grid.wf(),
                    0 <= i <= tiles@.len(),
                    cands == candidate_objects(*grid, o3.rect),
                    cands.len() == tiles@.len(),
                    forall|k: int|
                        0 <= k < tiles@.len() ==> 0 <= #[trigger] tiles@[k]
                            < grid.spec_cells().len(),
                    forall|k: int|
                        0 <= k < tiles@.len() ==> #[trigger] cands[k]
                            == grid.spec_cells()[tiles@[k] as int].object,
                    (*object, hity) == resolve_seq_y(o3, cands.take(i as int), dy as int),
                    object.wf(),
                decreases tiles@.len() - i,
            {
                let cell = grid.cell_at(tiles[i]);
                match object.overlap(&cell.object) {
                    Some(overlap) => {
                        hity = true;
                        if dy > 0 {
                            object.move_by(0, -overlap.height);
                        } else {
                            object.move_by(0, overlap.height);
                        }
                    },
                    None => {},
                }
                proof {
                    assert(cands.take(i as int + 1).drop_last() =~= cands.take(i as int));
                    assert(cands.take(i as int + 1).last() == cands[i as int]);
                }
                i = i + 1;
            }
            proof {
                assert(cands.take(cands.len() as int) =~= cands);
            }
        }
        (hitx, hity)
    }

    /// One collision tick for one entity: integrate X, resolve X, then
    /// integrate and resolve Y, and apply the hit side-effects.
    pub fn update_entity(&self, entity_manager: &mut EntityManager, id: u64, grid: &TileGrid)
        requires
            old(entity_manager).wf(),
            grid.wf(),
        ensures
            final(entity_manager).wf(),
            entity_step_applied(*old(entity_manager), *final(entity_manager), id, *grid),
            only_entity_touched(*old(entity_manager), *final(entity_manager), id),
    {
        let ghost em0 = *old(entity_manager);
        let mut dx: i64 = 0;
        let mut dy: i64 = 0;
        match entity_manager.get_movement_mut(id) {
            Some(movement) => {
                dx = movement.dx();
                dy = movement.dy();
            },
            None => {},
        }

        let ghost em1 = *entity_manager;
        proof {
            if em0.spec_movements().spec_contains(id) {
                let m1 = stepped_movement(em0.spec_movements().spec_map()[id]@);
                assert(em1.spec_movements().spec_map()[id]@ == m1);
                assert(dx as int == m1.speed.0 && dy as int == m1.speed.1);
                assert(crate::entity::unchanged_but_movements(em0, em1));
                assert(em1.spec_movements().key_seq() == em0.spec_movements().key_seq());
            } else {
                assert(em1 == em0);
                assert(dx == 0 && dy == 0);
            }
        }
        let mut hitx = false;
        let mut hity = false;
        match entity_manager.get_object_mut(id) {
            Some(object) => {
                let hits = Self::resolve_object(object, grid, dx, dy);
                hitx = hits.0;
                hity = hits.1;
            },
            None => {},
        }

        let ghost em2 = *entity_manager;
        proof {
            if em0.spec_objects().spec_contains(id) {
                let rr = resolved_object(em0.spec_objects().spec_map()[id], *grid, dx as int, dy as int);
                assert(em2.spec_objects().spec_map()[id] == rr.0);
                assert(hitx == rr.1 && hity == rr.2);
                assert(crate::entity::unchanged_but_objects(em1, em2));
                assert(em2.spec_objects().key_seq() == em1.spec_objects().key_seq());
            } else {
                assert(em2 == em1);
                assert(!hitx && !hity);
            }
        }

        if (hitx || hity) && dy > 0 {
            match entity_manager.get_movement_mut(id) {
                Some(movement) => movement.reset_speed_y(),
                None => {},
            }
        }

        let ghost em3 = *entity_manager;
        proof {
            if em0.spec_movements().spec_contains(id) {
                let m1 = stepped_movement(em0.spec_movements().spec_map()[id]@);
                if (hitx || hity) && dy > 0 {
                    assert(em3.spec_movements().spec_map()[id]@ == (MovementModel {
                        speed: (m1.speed.0, 0int),
                        ..m1
                    }));
                } else {
                    assert(em3.spec_movements().spec_map()[id]@ == m1);
                }
                assert(em3.spec_movements().spec_map()[id].wf());
            }
            assert(em3.spec_objects() == em2.spec_objects());
            assert(em3.spec_inputs() == em2.spec_inputs());
        }

        if hity && dy > 0 {
            match entity_manager.get_input_mut(id) {
                Some(entity_input) => entity_input.reset_jump(),
                None => {},
            }
        }
        proof {
            let out = entity_step(em0, id, *grid);
            if em0.spec_inputs().spec_contains(id) {
                assert(entity_manager.spec_inputs().spec_map()[id]@ == out.input.unwrap());
            }
            if em0.spec_objects().spec_contains(id) {
                assert(entity_manager.spec_objects().spec_map()[id] == out.object.unwrap());
            }
            if em0.spec_movements().spec_contains(id) {
                assert(entity_manager.spec_movements().spec_map()[id]@ == out.movement.unwrap());
            }
        }
    }

    /// One collision tick over the whole store: every entity with a shape,
    /// in insertion order.
    pub fn update(&self, entity_manager: &mut EntityManager, grid: &TileGrid)
        requires
            old(entity_manager).wf(),
            grid.wf(),
        ensures
            final(entity_manager).wf(),
            collision_tick_applied(*old(entity_manager), *final(entity_manager), *grid),
    {
        let ghost pre = *old(entity_manager);
        let ids = entity_manager.get_entities();
        let mut i: usize = 0;
        while i < ids.len()
            invariant
                entity_manager.wf(),
                grid.wf(),
                ids@ == pre.spec_objects().key_seq(),
                0 <= i <= ids@.len(),
                pre.wf(),
                entity_manager.spec_next_id() == pre.spec_next_id(),
                entity_manager.spec_entities() == pre.spec_entities(),
                entity_manager.spec_names() == pre.spec_names(),
                entity_manager.spec_assets() == pre.spec_assets(),
                entity_manager.spec_target() == pre.spec_target(),
                entity_manager.spec_objects().key_seq() == pre.spec_objects().key_seq(),
                entity_manager.spec_movements().key_seq() == pre.spec_movements().key_seq(),
                entity_manager.spec_inputs().key_seq() == pre.spec_inputs().key_seq(),
                forall|j: int|
                    0 <= j < i ==> #[trigger] entity_step_applied(
                        pre,
                        *entity_manager,
                        ids@[j],
                        *grid,
                    ),
                forall|k: u64|
                    pre.spec_objects().spec_contains(k) && !ids@.take(i as int).contains(k)
                        ==> entity_manager.spec_objects().spec_map()[k] == (
                    #[trigger] pre.spec_objects().spec_map()[k]),
                forall|k: u64|
                    pre.spec_movements().spec_contains(k) && !ids@.take(i as int).contains(k)
                        ==> entity_manager.spec_movements().spec_map()[k] == (
                    #[trigger] pre.spec_movements().spec_map()[k]),
                forall|k: u64|
                    pre.spec_inputs().spec_contains(k) && !ids@.take(i as int).contains(k)
                        ==> entity_manager.spec_inputs().spec_map()[k] == (
                    #[trigger] pre.spec_inputs().spec_map()[k]),
            decreases ids@.len() - i,
        {
            let id = ids[i];
            let ghost cur = *entity_manager;
            proof {
                assert(pre.spec_objects().key_seq()[i as int] == id);
                assert(pre.spec_objects().spec_contains(id));
                if ids@.take(i as int).contains(id) {
                    let w = choose|w: int| 0 <= w < i && ids@.take(i as int)[w] == id;
                    assert(pre.spec_objects().key_seq()[w] == id);
                    assert(false);
                }
                assert(cur.spec_objects().spec_map()[id] == pre.spec_objects().spec_map()[id]);
                if pre.spec_movements().spec_contains(id) {
                    assert(cur.spec_movements().spec_map()[id]
                        == pre.spec_movements().spec_map()[id]);
                }
                if pre.spec_inputs().spec_contains(id) {
                    assert(cur.spec_inputs().spec_map()[id] == pre.spec_inputs().spec_map()[id]);
                }
                lemma_entity_step_local(pre, cur, id, *grid);
            }
            self.update_entity(entity_manager, id, grid);
            proof {
                assert(entity_step_applied(pre, *entity_manager, id, *grid));
                assert forall|j: int| 0 <= j < i + 1 implies #[trigger] entity_step_applied(
                    pre,
                    *entity_manager,
                    ids@[j],
                    *grid,
                ) by {
                    if j < i as int {
                        let idj = ids@[j];
                        if idj == id {
                            assert(pre.spec_objects().key_seq()[j] == idj);
                            assert(false);
                        }
                        assert(entity_step_applied(pre, cur, idj, *grid));
                        if pre.spec_objects().spec_contains(idj) {
                            assert(entity_manager.spec_objects().spec_map()[idj]
                                == cur.spec_objects().spec_map()[idj]);
                        }
                        if pre.spec_movements().spec_contains(idj) {
                            assert(entity_manager.spec_movements().spec_map()[idj]
                                == cur.spec_movements().spec_map()[idj]);
                        }
                        if pre.spec_inputs().spec_contains(idj) {
                            assert(entity_manager.spec_inputs().spec_map()[idj]
                                == cur.spec_inputs().spec_map()[idj]);
                        }
                    }
                }
                assert forall|k: u64|
                    pre.spec_objects().spec_contains(k) && !ids@.take(i as int + 1).contains(
                        k,
                    ) implies entity_manager.spec_objects().spec_map()[k] == (
                #[trigger] pre.spec_objects().spec_map()[k]) by {
                    assert(!ids@.take(i as int).contains(k)) by {
                        if ids@.take(i as int).contains(k) {
                            let w = choose|w: int|
                                0 <= w < i && #[trigger] ids@.take(i as int)[w] == k;
                            assert(ids@.take(i as int + 1)[w] == k);
                        }
                    }
                    assert(k != id) by {
                        assert(ids@.take(i as int + 1)[i as int] == ids@[i as int]);
                    }
                }
                assert forall|k: u64|
                    pre.spec_movements().spec_contains(k) && !ids@.take(i as int + 1).contains(
                        k,
                    ) implies entity_manager.spec_movements().spec_map()[k] == (
                #[trigger] pre.spec_movements().spec_map()[k]) by {
                    assert(!ids@.take(i as int).contains(k)) by {
                        if ids@.take(i as int).contains(k) {
                            let w = choose|w: int|
                                0 <= w < i && #[trigger] ids@.take(i as int)[w] == k;
                            assert(ids@.take(i as int + 1)[w] == k);
                        }
                    }
                    assert(k != id) by {
                        assert(ids@.take(i as int + 1)[i as int] == ids@[i as int]);
                    }
                }
                assert forall|k: u64|
                    pre.spec_inputs().spec_contains(k) && !ids@.take(i as int + 1).contains(
                        k,
                    ) implies entity_manager.spec_inputs().spec_map()[k] == (
                #[trigger] pre.spec_inputs().spec_map()[k]) by {
                    assert(!ids@.take(i as int).contains(k)) by {
                        if ids@.take(i as int).contains(k) {
                            let w = choose|w: int|
                                0 <= w < i && #[trigger] ids@.take(i as int)[w] == k;
                            assert(ids@.take(i as int + 1)[w] == k);
                        }
                    }
                    assert(k != id) by {
                        assert(ids@.take(i as int + 1)[i as int] == ids@[i as int]);
                    }
                }
            }
            i = i + 1;
        }
        proof {
            assert forall|k: u64| #[trigger]
                pre.spec_objects().spec_contains(k) implies entity_step_applied(
                pre,
                *entity_manager,
                k,
                *grid,
            ) by {
                let w = choose|w: int|
                    0 <= w < pre.spec_objects().key_seq().len() && pre.spec_objects().key_seq()[w]
                        == k;
                assert(ids@[w] == k);
                assert(entity_step_applied(pre, *entity_manager, ids@[w], *grid));
            }
            assert forall|k: u64|
                pre.spec_movements().spec_contains(k) && !pre.spec_objects().spec_contains(
                    k,
                ) implies entity_manager.spec_movements().spec_map()[k] == (
            #[trigger] pre.spec_movements().spec_map()[k]) by {
                if ids@.take(ids@.len() as int).contains(k) {
                    let w = choose|w: int|
                        0 <= w < ids@.len() && #[trigger] ids@.take(ids@.len() as int)[w] == k;
                    assert(pre.spec_objects().key_seq()[w] == k);
                    assert(false);
                }
            }
            assert forall|k: u64|
                pre.spec_inputs().spec_contains(k) && !pre.spec_objects().spec_contains(
                    k,
                ) implies entity_manager.spec_inputs().spec_map()[k] == (
            #[trigger] pre.spec_inputs().spec_map()[k]) by {
                if ids@.take(ids@.len() as int).contains(k) {
                    let w = choose|w: int|
                        0 <= w < ids@.len() && #[trigger] ids@.take(ids@.len() as int)[w] == k;
                    assert(pre.spec_objects().key_seq()[w] == k);
                    assert(false);
                }
            }
        }
    }
}

/// Collision idempotence: an entity that is not moving — whatever it
/// overlaps — is left exactly where it stands, with no hit recorded.
pub proof fn lemma_no_motion_no_correction(em: EntityManager, id: u64, g: TileGrid)
    requires
        em.spec_objects().spec_contains(id),
        em.spec_movements().spec_contains(id) ==> stepped_movement(
            em.spec_movements().spec_map()[id]@,
        ).speed == (0int, 0int),
    ensures
        entity_step(em, id, g).object == Some(em.spec_objects().spec_map()[id]),
        !entity_step(em, id, g).hit_x,
        !entity_step(em, id, g).hit_y,
        !entity_step(em, id, g).landed,
        em.spec_movements().spec_contains(id) ==> entity_step(em, id, g).movement == Some(
            stepped_movement(em.spec_movements().spec_map()[id]@),
        ),
{
    let obj = em.spec_objects().spec_map()[id];
    assert(obj.spec_moved_by(0, 0) == obj);
    assert(obj.spec_moved_by(0, 0).spec_moved_by(0, 0) == obj);
}

/// Landing: an entity that hits on the Y axis while falling ends the tick
/// with zero vertical velocity, the landing recorded, and — when it is
/// player-controlled — its jump re-armed for the next press.
pub proof fn lemma_landing_resets_jump(em: EntityManager, id: u64, g: TileGrid)
    requires
        em.spec_movements().spec_contains(id),
        stepped_movement(em.spec_movements().spec_map()[id]@).speed.1 > 0,
        entity_step(em, id, g).hit_y,
    ensures
        entity_step(em, id, g).landed,
        entity_step(em, id, g).movement.unwrap().speed.1 == 0,
        em.spec_inputs().spec_contains(id) ==> entity_step(em, id, g).input.unwrap()
            == crate::input::spec_input_reset_jump(em.spec_inputs().spec_map()[id]@),
        (em.spec_inputs().spec_contains(id) && em.spec_inputs().spec_map()[id]@ is Player) ==> (
        entity_step(em, id, g).input.unwrap() matches InputModel::Player(q) && !q.jumping),
{
}

} // verus!
