//! Simulation core of a tile-based 2D platformer.
//!
//! The crate tracks movable entities, integrates their movement from
//! accumulated forces, resolves the resulting motion against a static tile
//! grid, and keeps a camera centered on a target rectangle.
//!
//! All positions, sizes and speeds are fixed-point integers: one world unit
//! is split into [`UNIT`] subunits, so a speed of `5` subunits per tick is
//! half a world unit per tick.  Every coordinate computation saturates at the
//! `i64` range (see [`sat_add`]), which keeps the whole library total: no
//! operation here panics or overflows, whatever values a caller hands in.

use vstd::prelude::*;

pub mod camera;
pub mod collision_system;
pub mod config;
pub mod entity;
pub mod error;
pub mod grid;
pub mod input;
pub mod object;
pub mod rect;
pub mod tick;

verus! {

/// Number of fixed-point subunits in one world unit.
pub const UNIT: i64 = 10;

/// `a + b` clamped to the `i64` range.
pub open spec fn sat_add(a: int, b: int) -> int {
    if a + b > i64::MAX {
        i64::MAX as int
    } else if a + b < i64::MIN {
        i64::MIN as int
    } else {
        a + b
    }
}

/// `a - b` clamped to the `i64` range.
pub open spec fn sat_sub(a: int, b: int) -> int {
    sat_add(a, -b)
}

/// Saturating addition on machine integers; the library's one arithmetic
/// primitive for world coordinates.
pub fn sat_add_i64(a: i64, b: i64) -> (r: i64)
    ensures
        r as int == sat_add(a as int, b as int),
{
    if b >= 0 {
        if a > i64::MAX - b {
            i64::MAX
        } else {
            a + b
        }
    } else {
        if a < i64::MIN - b {
            i64::MIN
        } else {
            a + b
        }
    }
}

/// Saturating subtraction on machine integers.
pub fn sat_sub_i64(a: i64, b: i64) -> (r: i64)
    ensures
        r as int == sat_sub(a as int, b as int),
{
    if b >= 0 {
        if a < i64::MIN + b {
            i64::MIN
        } else {
            a - b
        }
    } else {
        if a > i64::MAX + b {
            i64::MAX
        } else {
            a - b
        }
    }
}

/// A two-dimensional vector of fixed-point world coordinates, used for
/// forces, speeds and displacements.
#[derive(Clone, Copy, Debug, PartialEq, Eq, Structural)]
pub struct Vec2 {
    pub x: i64,
    pub y: i64,
}

impl Vec2 {
    pub fn new(x: i64, y: i64) -> (r: Vec2)
        ensures
            r == (Vec2 { x, y }),
    {
        Vec2 { x, y }
    }

    /// The zero vector.
    pub fn zero() -> (r: Vec2)
        ensures
            r == (Vec2 { x: 0i64, y: 0i64 }),
    {
        Vec2 { x: 0, y: 0 }
    }
}

} // verus!
