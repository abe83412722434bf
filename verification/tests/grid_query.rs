//! The tile grid and its broad-phase query.

use platformrs::grid::{Cell, TileGrid, DEMO_HEIGHT, DEMO_TILESIZE, DEMO_WIDTH};
use platformrs::rect::Rect;

/// A `w` by `h` grid of solid tiles of extent `ts`.
fn solid_grid(w: u16, h: u16, ts: u16) -> TileGrid {
    let mut cells = Vec::new();
    for y in 0..h {
        for x in 0..w {
            cells.push(
                Cell::with_size(ts as i64, ts as i64).at(x as i64 * ts as i64, y as i64 * ts as i64),
            );
        }
    }
    TileGrid::new(w, h, ts, cells)
}

#[test]
fn query_returns_spanned_cells_in_column_major_order() {
    let g = solid_grid(4, 4, 10);
    // A rectangle spanning columns 1..3 and rows 1..2.
    let r = Rect::new(12, 11, 12, 5);
    let idx = g.collidable_tiles(&r);
    // Columns outward, rows inner: columns 1 and 2 of row 1.
    assert_eq!(idx, vec![1 * 4 + 1, 1 * 4 + 2]);
}

#[test]
fn query_clamps_negative_coordinates_to_zero() {
    let g = solid_grid(3, 3, 10);
    let r = Rect::new(-25, -25, 12, 12);
    let idx = g.collidable_tiles(&r);
    // Clamped to column 0, row 0, then spanning two columns and rows
    // from there; columns outward, rows inner.
    assert_eq!(idx, vec![0, 3, 1, 4]);
}

#[test]
fn query_beyond_the_grid_returns_nothing() {
    let g = solid_grid(3, 3, 10);
    let r = Rect::new(100, 100, 5, 5);
    assert!(g.collidable_tiles(&r).is_empty());
}

#[test]
fn query_overlapping_the_far_edge_does_not_wrap() {
    let g = solid_grid(3, 3, 10);
    // Spans columns 2..4; column 3 does not exist and must not wrap to
    // the next row.
    let r = Rect::new(25, 5, 10, 2);
    let idx = g.collidable_tiles(&r);
    assert_eq!(idx, vec![0 * 3 + 2]);
}

#[test]
fn query_is_an_over_approximation() {
    let g = solid_grid(3, 3, 10);
    // A rectangle halfway across a boundary reports both cells it spans.
    let r = Rect::new(5, 0, 10, 10);
    let idx = g.collidable_tiles(&r);
    assert_eq!(idx, vec![0, 1]);
}

#[test]
fn cell_builders_compose() {
    let c = Cell::with_size(10, 10).with_asset("box".to_owned()).collision(false).at(30, 40);
    assert_eq!(c.get_name().as_deref(), Some("box"));
    let r = c.get_rect();
    assert_eq!((r.x, r.y, r.width, r.height), (30, 40, 10, 10));
}

#[test]
fn demo_world_is_a_walled_room() {
    let g = TileGrid::default();
    assert_eq!(g.width(), DEMO_WIDTH);
    assert_eq!(g.height(), DEMO_HEIGHT);
    assert_eq!(g.tilesize(), DEMO_TILESIZE);
    assert_eq!(g.len(), DEMO_WIDTH as usize * DEMO_HEIGHT as usize);

    let w = DEMO_WIDTH as usize;
    // A border cell is solid, an interior cell is not.
    assert!(g.cell_at(0).object.is_solid);
    assert!(g.cell_at(w - 1).object.is_solid);
    assert!(g.cell_at(1 * w).object.is_solid);
    assert!(!g.cell_at(1 * w + 1).object.is_solid);
    assert!(!g.cell_at(5 * w + 7).object.is_solid);

    // Cells sit on the tile lattice.
    let ts = DEMO_TILESIZE as i64;
    let c = g.cell_at(2 * w + 3);
    assert_eq!((c.object.rect.x, c.object.rect.y), (3 * ts, 2 * ts));
    assert_eq!((c.object.rect.width, c.object.rect.height), (ts, ts));
    assert_eq!(g.cell_at(0).asset_name.as_deref(), Some("box"));
    assert_eq!(c.asset_name.as_deref(), Some("dirtCenter"));
}
