//! One simulation tick, in its load-bearing order: key state folded into
//! the input components, input forces handed to the movement components,
//! then collision resolution.  The camera reads the settled target shape
//! afterwards, through [`crate::entity::EntityManager::get_target_rect`]
//! and [`crate::camera::Camera::update`].

use vstd::prelude::*;

use crate::collision_system::{collision_tick_applied, CollisionSystem};
use crate::entity::EntityManager;
use crate::grid::TileGrid;
use crate::input::{input_step, spec_input_force, KeyState};
use crate::object::MovementModel;

verus! {

/// What folding one tick of key state into the store does: every input
/// component steps by [`input_step`]; nothing else moves.
pub open spec fn inputs_updated(pre: EntityManager, post: EntityManager, keys: KeyState) -> bool {
    &&& post.spec_next_id() == pre.spec_next_id()
    &&& post.spec_entities() == pre.spec_entities()
    &&& post.spec_names() == pre.spec_names()
    &&& post.spec_objects() == pre.spec_objects()
    &&& post.spec_assets() == pre.spec_assets()
    &&& post.spec_movements() == pre.spec_movements()
    &&& post.spec_target() == pre.spec_target()
    &&& post.spec_inputs().key_seq() == pre.spec_inputs().key_seq()
    &&& forall|k: u64| #[trigger]
        pre.spec_inputs().spec_contains(k) ==> post.spec_inputs().spec_map()[k]@ == input_step(
            pre.spec_inputs().spec_map()[k]@,
            keys,
        )
}

/// Folds one tick of key state into every input component.
pub fn interact(entity_manager: &mut EntityManager, keys: &KeyState)
    requires
        old(entity_manager).wf(),
    ensures
        final(entity_manager).wf(),
        inputs_updated(*old(entity_manager), *final(entity_manager), *keys),
{
    let ghost pre = *old(entity_manager);
    let ids = entity_manager.input_ids();
    let mut i: usize = 0;
    while i < ids.len()
        invariant
            entity_manager.wf(),
            pre.wf(),
            ids@ == pre.spec_inputs().key_seq(),
            0 <= i <= ids@.len(),
            entity_manager.spec_next_id() == pre.spec_next_id(),
            entity_manager.spec_entities() == pre.spec_entities(),
            entity_manager.spec_names() == pre.spec_names(),
            entity_manager.spec_objects() == pre.spec_objects(),
            entity_manager.spec_assets() == pre.spec_assets(),
            entity_manager.spec_movements() == pre.spec_movements(),
            entity_manager.spec_target() == pre.spec_target(),
            entity_manager.spec_inputs().key_seq() == pre.spec_inputs().key_seq(),
            forall|j: int|
                0 <= j < i ==> entity_manager.spec_inputs().spec_map()[ids@[j]]@ == input_step(
                    pre.spec_inputs().spec_map()[#[trigger] ids@[j]]@,
                    *keys,
                ),
            forall|k: u64|
                pre.spec_inputs().spec_contains(k) && !ids@.take(i as int).contains(k)
                    ==> entity_manager.spec_inputs().spec_map()[k] == (
                #[trigger] pre.spec_inputs().spec_map()[k]),
        decreases ids@.len() - i,
    {
        let id = ids[i];
        let ghost cur = *entity_manager;
        proof {
            assert(pre.spec_inputs().key_seq()[i as int] == id);
            assert(pre.spec_inputs().spec_contains(id));
            if ids@.take(i as int).contains(id) {
                let w = choose|w: int| 0 <= w < i && ids@.take(i as int)[w] == id;
                assert(pre.spec_inputs().key_seq()[w] == id);
                assert(false);
            }
            assert(cur.spec_inputs().spec_map()[id] == pre.spec_inputs().spec_map()[id]);
        }
        match entity_manager.get_input_mut(id) {
            Some(entity_input) => entity_input.update(keys),
            None => {
                proof {
                    assert(false);
                }
            },
        }
        proof {
            assert forall|j: int|
                0 <= j < i + 1 implies entity_manager.spec_inputs().spec_map()[ids@[j]]@
                == input_step(pre.spec_inputs().spec_map()[#[trigger] ids@[j]]@, *keys) by {
                if j < i as int {
                    let idj = ids@[j];
                    if idj == id {
                        assert(pre.spec_inputs().key_seq()[j] == idj);
                        assert(false);
                    }
                }
            }
            assert forall|k: u64|
                pre.spec_inputs().spec_contains(k) && !ids@.take(i as int + 1).contains(
                    k,
                ) implies entity_manager.spec_inputs().spec_map()[k] == (
            #[trigger] pre.spec_inputs().spec_map()[k]) by {
                assert(!ids@.take(i as int).contains(k)) by {
                    if ids@.take(i as int).contains(k) {
                        let w = choose|w: int| 0 <= w < i && #[trigger] ids@.take(i as int)[w] == k;
                        assert(ids@.take(i as int + 1)[w] == k);
                    }
                }
                assert(k != id) by {
                    assert(ids@.take(i as int + 1)[i as int] == ids@[i as int]);
                }
            }
        }
        i = i + 1;
    }
    proof {
        assert forall|k: u64| #[trigger]
            pre.spec_inputs().spec_contains(k) implies entity_manager.spec_inputs().spec_map()[k]@
            == input_step(pre.spec_inputs().spec_map()[k]@, *keys) by {
            let w = choose|w: int|
                0 <= w < pre.spec_inputs().key_seq().len() && pre.spec_inputs().key_seq()[w] == k;
            assert(ids@[w] == k);
            assert(entity_manager.spec_inputs().spec_map()[ids@[w]]@ == input_step(
                pre.spec_inputs().spec_map()[ids@[w]]@,
                *keys,
            ));
        }
    }
}

/// A movement model with one more one-shot force folded in.
pub open spec fn with_instantaneous_force(m: MovementModel, fx: int, fy: int) -> MovementModel {
    MovementModel { instantaneous: m.instantaneous.push((fx, fy)), dirty: true, ..m }
}

/// What the force-gathering phase does: every entity with both an input
/// and a movement component has its input's force added as a one-shot
/// force; nothing else moves.
pub open spec fn forces_applied(pre: EntityManager, post: EntityManager) -> bool {
    &&& post.spec_next_id() == pre.spec_next_id()
    &&& post.spec_entities() == pre.spec_entities()
    &&& post.spec_names() == pre.spec_names()
    &&& post.spec_objects() == pre.spec_objects()
    &&& post.spec_assets() == pre.spec_assets()
    &&& post.spec_inputs() == pre.spec_inputs()
    &&& post.spec_target() == pre.spec_target()
    &&& post.spec_movements().key_seq() == pre.spec_movements().key_seq()
    &&& forall|k: u64| #[trigger]
        pre.spec_movements().spec_contains(k) ==> post.spec_movements().spec_map()[k]@ == (
        if pre.spec_inputs().spec_contains(k) {
            with_instantaneous_force(
                pre.spec_movements().spec_map()[k]@,
                spec_input_force(pre.spec_inputs().spec_map()[k]@).x as int,
                spec_input_force(pre.spec_inputs().spec_map()[k]@).y as int,
            )
        } else {
            pre.spec_movements().spec_map()[k]@
        })
}

/// Hands every input component's force to the same entity's movement
/// component as a one-shot force.
pub fn apply_input_forces(entity_manager: &mut EntityManager)
    requires
        old(entity_manager).wf(),
    ensures
        final(entity_manager).wf(),
        forces_applied(*old(entity_manager), *final(entity_manager)),
{
    let ghost pre = *old(entity_manager);
    let ids = entity_manager.input_ids();
    let mut i: usize = 0;
    while i < ids.len()
        invariant
            entity_manager.wf(),
            pre.wf(),
            ids@ == pre.spec_inputs().key_seq(),
            0 <= i <= ids@.len(),
            entity_manager.spec_next_id() == pre.spec_next_id(),
            entity_manager.spec_entities() == pre.spec_entities(),
            entity_manager.spec_names() == pre.spec_names(),
            entity_manager.spec_objects() == pre.spec_objects(),
            entity_manager.spec_assets() == pre.spec_assets(),
            entity_manager.spec_inputs() == pre.spec_inputs(),
            entity_manager.spec_target() == pre.spec_target(),
            entity_manager.spec_movements().key_seq() == pre.spec_movements().key_seq(),
            forall|j: int|
                0 <= j < i && pre.spec_movements().spec_contains(#[trigger] ids@[j])
                    ==> entity_manager.spec_movements().spec_map()[ids@[j]]@
                    == with_instantaneous_force(
                    pre.spec_movements().spec_map()[ids@[j]]@,
                    spec_input_force(pre.spec_inputs().spec_map()[ids@[j]]@).x as int,
                    spec_input_force(pre.spec_inputs().spec_map()[ids@[j]]@).y as int,
                ),
            forall|k: u64|
                pre.spec_movements().spec_contains(k) && !ids@.take(i as int).contains(k)
                    ==> entity_manager.spec_movements().spec_map()[k] == (
                #[trigger] pre.spec_movements().spec_map()[k]),
        decreases ids@.len() - i,
    {
        let id = ids[i];
        let ghost cur = *entity_manager;
        proof {
            assert(pre.spec_inputs().key_seq()[i as int] == id);
            assert(pre.spec_inputs().spec_contains(id));
            if ids@.take(i as int).contains(id) {
                let w = choose|w: int| 0 <= w < i && ids@.take(i as int)[w] == id;
                assert(pre.spec_inputs().key_seq()[w] == id);
                assert(false);
            }
            if pre.spec_movements().spec_contains(id) {
                assert(cur.spec_movements().spec_map()[id] == pre.spec_movements().spec_map()[id]);
            }
        }
        let mut force = crate::Vec2::zero();
        match entity_manager.get_input(id) {
            Some(entity_input) => {
                force = entity_input.get_force();
            },
            None => {
                proof {
                    assert(false);
                }
            },
        }
        match entity_manager.get_movement_mut(id) {
            Some(movement) => movement.add_instantaneous_force(force),
            None => {},
        }
        proof {
            assert forall|j: int|
                0 <= j < i + 1 && pre.spec_movements().spec_contains(
                    #[trigger] ids@[j],
                ) implies entity_manager.spec_movements().spec_map()[ids@[j]]@
                == with_instantaneous_force(
                pre.spec_movements().spec_map()[ids@[j]]@,
                spec_input_force(pre.spec_inputs().spec_map()[ids@[j]]@).x as int,
                spec_input_force(pre.spec_inputs().spec_map()[ids@[j]]@).y as int,
            ) by {
                if j < i as int {
                    let idj = ids@[j];
                    if idj == id {
                        assert(pre.spec_inputs().key_seq()[j] == idj);
                        assert(false);
                    }
                }
            }
            assert forall|k: u64|
                pre.spec_movements().spec_contains(k) && !ids@.take(i as int + 1).contains(
                    k,
                ) implies entity_manager.spec_movements().spec_map()[k] == (
            #[trigger] pre.spec_movements().spec_map()[k]) by {
                assert(!ids@.take(i as int).contains(k)) by {
                    if ids@.take(i as int).contains(k) {
                        let w = choose|w: int| 0 <= w < i && #[trigger] ids@.take(i as int)[w] == k;
                        assert(ids@.take(i as int + 1)[w] == k);
                    }
                }
                assert(k != id) by {
                    assert(ids@.take(i as int + 1)[i as int] == ids@[i as int]);
                }
            }
        }
        i = i + 1;
    }
    proof {
        assert forall|k: u64| #[trigger]
            pre.spec_movements().spec_contains(k) implies entity_manager.spec_movements().spec_map(
        )[k]@ == (if pre.spec_inputs().spec_contains(k) {
            with_instantaneous_force(
                pre.spec_movements().spec_map()[k]@,
                spec_input_force(pre.spec_inputs().spec_map()[k]@).x as int,
                spec_input_force(pre.spec_inputs().spec_map()[k]@).y as int,
            )
        } else {
            pre.spec_movements().spec_map()[k]@
        }) by {
            if pre.spec_inputs().spec_contains(k) {
                let w = choose|w: int|
                    0 <= w < pre.spec_inputs().key_seq().len() && pre.spec_inputs().key_seq()[w]
                        == k;
                assert(ids@[w] == k);
                assert(pre.spec_movements().spec_contains(ids@[w])
                    ==> entity_manager.spec_movements().spec_map()[ids@[w]]@
                    == with_instantaneous_force(
                    pre.spec_movements().spec_map()[ids@[w]]@,
                    spec_input_force(pre.spec_inputs().spec_map()[ids@[w]]@).x as int,
                    spec_input_force(pre.spec_inputs().spec_map()[ids@[w]]@).y as int,
                ));
            } else {
                if ids@.take(ids@.len() as int).contains(k) {
                    let w = choose|w: int|
                        0 <= w < ids@.len() && #[trigger] ids@.take(ids@.len() as int)[w] == k;
                    assert(pre.spec_inputs().key_seq()[w] == k);
                    assert(false);
                }
            }
        }
    }
}

/// One simulation step after the inputs were read: gather forces from the
/// input components, then resolve every entity against the grid.
pub fn update(entity_manager: &mut EntityManager, grid: &TileGrid)
    requires
        old(entity_manager).wf(),
        grid.wf(),
    ensures
        final(entity_manager).wf(),
        exists|mid: EntityManager|
            #[trigger] forces_applied(*old(entity_manager), mid) && collision_tick_applied(
                mid,
                *final(entity_manager),
                *grid,
            ),
{
    apply_input_forces(entity_manager);
    let ghost mid = *entity_manager;
    let collision_system = CollisionSystem::new();
    collision_system.update(entity_manager, grid);
    proof {
        assert(forces_applied(*old(entity_manager), mid) && collision_tick_applied(
            mid,
            *entity_manager,
            *grid,
        ));
    }
}

} // verus!
