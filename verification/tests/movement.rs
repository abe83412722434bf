//! The movement integrator: forces, clamping, drag, and the dirty flag.

use platformrs::object::{Movement, DRAG};
use platformrs::Vec2;

#[test]
fn forces_accumulate_and_instantaneous_forces_clear() {
    let mut m = Movement::new();
    m.add_force(Vec2::new(0, 5));
    m.add_instantaneous_force(Vec2::new(10, -30));
    // First tick: 10 sideways (minus drag), 5 + -30 vertically.
    assert_eq!(m.dx(), 10 - DRAG);
    assert_eq!(m.dy(), -25);
    // Second tick: the impulse is gone, the persistent force stays.
    m.add_instantaneous_force(Vec2::new(0, 0));
    assert_eq!(m.dy(), -20);
}

#[test]
fn update_without_new_forces_is_a_no_op() {
    let mut m = Movement::new();
    m.add_instantaneous_force(Vec2::new(20, 0));
    assert_eq!(m.dx(), 20 - DRAG);
    // No force added since: a second update must not re-apply drag.
    m.update();
    m.update();
    assert_eq!(m.dx(), 20 - DRAG);
}

#[test]
fn speed_clamps_to_max_per_axis() {
    let mut m = Movement::new().with_max_speed((Some(10), Some(20)));
    m.add_instantaneous_force(Vec2::new(500, -300));
    // Clamped to (10, -20); drag then takes 4 off the x axis.
    assert_eq!(m.dx(), 10 - DRAG);
    assert_eq!(m.dy(), -20);
}

#[test]
fn clamp_never_flips_the_sign() {
    let mut m = Movement::new().with_max_speed((Some(10), None));
    m.add_instantaneous_force(Vec2::new(-500, 0));
    let dx = m.dx();
    assert_eq!(dx, -(10 - DRAG));
    assert!(dx <= 0);
}

#[test]
fn drag_strictly_decreases_speed_until_zero() {
    let mut m = Movement::new();
    m.add_instantaneous_force(Vec2::new(11, 0));
    let mut previous = m.dx();
    assert_eq!(previous, 7);
    // Tick with zero forces: |vx| falls by DRAG each time, then snaps to
    // zero and stays there.
    for expected in [3i64, 0, 0, 0] {
        m.add_instantaneous_force(Vec2::new(0, 0));
        let v = m.dx();
        assert_eq!(v, expected);
        assert!(v.abs() < previous.abs() || previous == 0);
        previous = v;
    }
}

#[test]
fn drag_does_not_touch_the_vertical_axis() {
    let mut m = Movement::new();
    m.add_instantaneous_force(Vec2::new(0, 11));
    assert_eq!(m.dy(), 11);
    m.add_instantaneous_force(Vec2::new(0, 0));
    assert_eq!(m.dy(), 11);
}

#[test]
fn reset_speed_zeroes_both_axes() {
    let mut m = Movement::new();
    m.add_instantaneous_force(Vec2::new(30, 40));
    m.dx();
    m.dy();
    m.reset_speed();
    assert_eq!(m.dx(), 0);
    assert_eq!(m.dy(), 0);
}

#[test]
fn reset_speed_y_keeps_horizontal_speed() {
    let mut m = Movement::new();
    m.add_instantaneous_force(Vec2::new(30, 40));
    m.dx();
    m.dy();
    m.reset_speed_y();
    assert_eq!(m.dx(), 30 - DRAG);
    assert_eq!(m.dy(), 0);
}

#[test]
fn builder_force_applies_every_tick() {
    let mut m = Movement::new().with_force(Vec2::new(0, 5));
    assert_eq!(m.dy(), 5);
    m.add_instantaneous_force(Vec2::new(0, 0));
    assert_eq!(m.dy(), 10);
    m.add_instantaneous_force(Vec2::new(0, 0));
    assert_eq!(m.dy(), 15);
}
