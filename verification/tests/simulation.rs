//! The entity store, collision resolution scenarios, and whole ticks.

use platformrs::collision_system::CollisionSystem;
use platformrs::entity::{EntityBuilder, EntityManager, NIL_ENTITY};
use platformrs::grid::{Cell, TileGrid};
use platformrs::input::{Input, KeyState, PlayerInput, JUMP_FORCE};
use platformrs::object::{Movement, Object, DRAG};
use platformrs::rect::Rect;
use platformrs::tick;
use platformrs::Vec2;

/// A 3x3 grid of 100-subunit tiles, solid everywhere except the center.
fn boxed_room() -> TileGrid {
    let mut cells = Vec::new();
    for y in 0..3i64 {
        for x in 0..3i64 {
            let solid = !(x == 1 && y == 1);
            cells.push(Cell::with_size(100, 100).collision(solid).at(x * 100, y * 100));
        }
    }
    TileGrid::new(3, 3, 100, cells)
}

#[test]
fn store_assigns_distinct_identifiers_and_joins_components() {
    let mut em = EntityManager::new();
    let a = em.add(
        EntityBuilder::new()
            .with_name("player".to_owned())
            .with_asset("hillSmall".to_owned())
            .with_object(Object::with_size(10, 10).at(5, 5))
            .with_movement(Movement::new())
            .with_input(Input::Player(PlayerInput::new())),
    );
    let b = em.add(EntityBuilder::new().with_object(Object::with_size(1, 1)));
    assert_ne!(a, NIL_ENTITY);
    assert_ne!(b, NIL_ENTITY);
    assert_ne!(a, b);

    assert_eq!(em.by_name(&"player".to_owned()), a);
    assert_eq!(em.by_name(&"nobody".to_owned()), NIL_ENTITY);
    assert_eq!(em.get_entities(), vec![a, b]);
    assert!(em.get_object(a).is_some());
    assert!(em.get_movement(a).is_some());
    assert!(em.get_input(a).is_some());
    assert!(em.get_movement(b).is_none());
    assert_eq!(em.get_asset(a).map(|s| s.as_str()), Some("hillSmall"));
    assert_eq!(em.get_assets().len(), 1);
    assert_eq!(em.get_objects().len(), 2);
}

#[test]
fn rebinding_a_name_points_to_the_newest_entity() {
    let mut em = EntityManager::new();
    let first = em.add(
        EntityBuilder::new().with_name("player".to_owned()).with_object(Object::with_size(1, 1)),
    );
    let second = em.add(
        EntityBuilder::new()
            .with_name("player".to_owned())
            .with_object(Object::with_size(2, 2).at(9, 9)),
    );
    assert_ne!(first, second);
    assert_eq!(em.by_name(&"player".to_owned()), second);
    em.set_target("player".to_owned());
    assert_eq!(em.get_target_rect().unwrap().width, 2);
}

#[test]
fn target_rect_follows_the_named_entity() {
    let mut em = EntityManager::new();
    em.add(
        EntityBuilder::new()
            .with_name("player".to_owned())
            .with_object(Object::with_size(10, 20).at(30, 40)),
    );
    assert!(em.get_target_rect().is_none());
    em.set_target("player".to_owned());
    let r = em.get_target_rect().unwrap();
    assert_eq!((r.x, r.y, r.width, r.height), (30, 40, 10, 20));
    em.set_target("nobody".to_owned());
    assert!(em.get_target_rect().is_none());
}

#[test]
fn moving_entity_is_pushed_back_flush_with_the_wall() {
    // The scenario: a 3x3 grid, all cells solid except the interior
    // center; a tile-sized entity in the center cell moving right must
    // end flush with the wall: its right edge exactly on the left edge
    // of the solid cell in the third column.
    let grid = boxed_room();
    let mut em = EntityManager::new();
    let id = em.add(
        EntityBuilder::new()
            .with_object(Object::with_size(100, 100).at(100, 100))
            .with_movement(Movement::new()),
    );
    // An impulse that leaves dx = 20 after drag.
    em.get_movement_mut(id).unwrap().add_instantaneous_force(Vec2::new(20 + DRAG, 0));

    CollisionSystem::new().update(&mut em, &grid);

    let obj = em.get_object(id).unwrap();
    assert_eq!(obj.rect.x + obj.rect.width, 200);
    assert_eq!((obj.rect.x, obj.rect.y), (100, 100));
}

#[test]
fn resting_entity_inside_solid_tile_is_not_corrected() {
    // Collision idempotence: without motion there is no correction, even
    // for a solid entity fully inside a solid tile.
    let grid = boxed_room();
    let mut em = EntityManager::new();
    let id = em.add(
        EntityBuilder::new()
            .with_object(Object::with_size(40, 40).at(10, 10))
            .with_movement(Movement::new()),
    );

    CollisionSystem::new().update(&mut em, &grid);

    let obj = em.get_object(id).unwrap();
    assert_eq!((obj.rect.x, obj.rect.y), (10, 10));
}

#[test]
fn entity_without_movement_stays_put() {
    let grid = boxed_room();
    let mut em = EntityManager::new();
    let id = em.add(EntityBuilder::new().with_object(Object::with_size(40, 40).at(120, 120)));
    CollisionSystem::new().update(&mut em, &grid);
    let obj = em.get_object(id).unwrap();
    assert_eq!((obj.rect.x, obj.rect.y), (120, 120));
}

#[test]
fn landing_zeroes_vertical_speed_and_rearms_the_jump() {
    let grid = boxed_room();
    let mut em = EntityManager::new();
    let id = em.add(
        EntityBuilder::new()
            .with_object(Object::with_size(50, 50).at(120, 140))
            .with_movement(Movement::new())
            .with_input(Input::Player(PlayerInput::new())),
    );
    // Consume the jump in midair: a first press is honored...
    tick::interact(&mut em, &KeyState::new(false, false, false, true));
    assert_eq!(em.get_input(id).unwrap().get_force().y, -JUMP_FORCE);
    // ...and a held key yields no second impulse.
    tick::interact(&mut em, &KeyState::new(false, false, false, true));
    assert_eq!(em.get_input(id).unwrap().get_force().y, 0);

    // Fall onto the floor row: an impulse that leaves dy = 20 after the
    // recomputation (drag is horizontal only).
    em.get_movement_mut(id).unwrap().reset_speed();
    em.get_movement_mut(id).unwrap().add_instantaneous_force(Vec2::new(0, 20));
    CollisionSystem::new().update(&mut em, &grid);

    // Landed flush on the floor row at y = 200, vertical speed reset.
    let obj = em.get_object(id).unwrap();
    assert_eq!(obj.rect.y + obj.rect.height, 200);
    let m = em.get_movement_mut(id).unwrap();
    assert_eq!(m.dy(), 0);

    // The landing re-armed the jump: release, then press again.
    tick::interact(&mut em, &KeyState::released());
    tick::interact(&mut em, &KeyState::new(false, false, false, true));
    assert_eq!(em.get_input(id).unwrap().get_force().y, -JUMP_FORCE);
}

#[test]
fn whole_tick_moves_a_steered_entity() {
    let grid = boxed_room();
    let mut em = EntityManager::new();
    let id = em.add(
        EntityBuilder::new()
            .with_object(Object::with_size(10, 10).at(120, 120))
            .with_movement(Movement::new())
            .with_input(Input::Player(PlayerInput::new())),
    );

    // Steer right for one tick: force 50, drag 4, no bound.
    tick::interact(&mut em, &KeyState::new(false, true, false, false));
    tick::update(&mut em, &grid);

    let obj = em.get_object(id).unwrap();
    assert_eq!(obj.rect.x, 120 + 50 - DRAG);
    assert_eq!(obj.rect.y, 120);
}

#[test]
fn inert_input_applies_no_force() {
    let grid = boxed_room();
    let mut em = EntityManager::new();
    let id = em.add(
        EntityBuilder::new()
            .with_object(Object::with_size(10, 10).at(120, 120))
            .with_movement(Movement::new())
            .with_input(Input::Inert),
    );
    tick::interact(&mut em, &KeyState::new(false, true, false, true));
    tick::update(&mut em, &grid);
    let obj = em.get_object(id).unwrap();
    assert_eq!((obj.rect.x, obj.rect.y), (120, 120));
}
