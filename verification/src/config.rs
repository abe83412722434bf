//! Fixed configuration of the simulation session.

use vstd::prelude::*;

verus! {

/// Tile extent of a session, in subunits (seventy world units).
pub const CONFIG_TILESIZE: i64 = 700;

/// Viewport width, in subunits: eighteen tiles.
pub const CONFIG_SCREEN_WIDTH: i64 = 700 * 18;

/// Viewport height, in subunits: fifteen tiles.
pub const CONFIG_SCREEN_HEIGHT: i64 = 700 * 15;

/// The session configuration: the tile extent and the viewport size, all
/// in subunits of world space.  The renderer divides by [`crate::UNIT`]
/// for device pixels.
#[derive(Clone, Copy, Debug, PartialEq, Eq, Structural)]
pub struct Config {
    pub tilesize: i64,
    pub screen_width: i64,
    pub screen_height: i64,
}

impl Config {
    /// The default session configuration.
    pub fn new() -> (r: Config)
        ensures
            r == (Config {
                tilesize: CONFIG_TILESIZE,
                screen_width: CONFIG_SCREEN_WIDTH,
                screen_height: CONFIG_SCREEN_HEIGHT,
            }),
            r.tilesize > 0,
            r.screen_width > 0,
            r.screen_height > 0,
    {
        Config {
            tilesize: CONFIG_TILESIZE,
            screen_width: CONFIG_SCREEN_WIDTH,
            screen_height: CONFIG_SCREEN_HEIGHT,
        }
    }
}

} // verus!
