//! The static tile grid and its broad-phase spatial query.
//!
//! A [`TileGrid`] is a flat, row-major sequence of `width * height` cells;
//! cell `(x, y)` sits at index `y * width + x` and never moves at runtime.
//! [`TileGrid::collidable_tiles`] answers "which cells could a rectangle
//! touch": an over-approximating broad phase that returns the indices of
//! every cell whose column and row fall in the span the rectangle covers,
//! leaving the exact overlap test to [`crate::object::Object::overlap`].

use vstd::prelude::*;

use crate::object::Object;
use crate::rect::Rect;
use crate::{sat_add, sat_add_i64};

verus! {

/// One cell of the grid: a position/shape object plus an optional display
/// asset reference.
#[derive(Debug)]
pub struct Cell {
    pub asset_name: Option<String>,
    pub object: Object,
}

impl Cell {
    pub open spec fn wf(self) -> bool {
        self.object.wf()
    }

    /// A solid, unnamed cell of the given size at the origin.
    pub fn with_size(width: i64, height: i64) -> (r: Cell)
        requires
            0 <= width,
            0 <= height,
        ensures
            r.object.rect == (Rect { x: 0i64, y: 0i64, width, height }),
            r.object.visible,
            r.object.solid(),
            r.asset_name is None,
            r.wf(),
    {
        Cell { object: Object::with_size(width, height), asset_name: None }
    }

    /// Sets whether the cell collides.
    pub fn collision(self, collides: bool) -> (r: Cell)
        ensures
            r.object.rect == self.object.rect,
            r.object.visible == self.object.visible,
            r.object.solid() == collides,
            r.asset_name == self.asset_name,
    {
        Cell { object: self.object.collision(collides), ..self }
    }

    /// Moves the cell to the given position.
    pub fn at(self, x: i64, y: i64) -> (r: Cell)
        ensures
            r.object.rect == (Rect { x, y, ..self.object.rect }),
            r.object.visible == self.object.visible,
            r.object.solid() == self.object.solid(),
            r.asset_name == self.asset_name,
    {
        Cell { object: self.object.at(x, y), ..self }
    }

    /// Names the display asset the cell is drawn with.
    pub fn with_asset(self, asset_name: String) -> (r: Cell)
        ensures
            r.object == self.object,
            r.asset_name matches Some(n) && n@ == asset_name@,
    {
        Cell { asset_name: Some(asset_name), ..self }
    }

    /// The display asset reference, if any.
    pub fn get_name(&self) -> (r: &Option<String>)
        ensures
            r == &self.asset_name,
    {
        &self.asset_name
    }

    /// The cell's rectangle.
    pub fn get_rect(&self) -> (r: &Rect)
        ensures
            r == &self.object.rect,
    {
        &self.object.rect
    }
}

impl Default for Cell {
    /// A solid, unnamed, zero-sized cell at the origin.
    fn default() -> (r: Cell)
        ensures
            r.object.rect == (Rect { x: 0i64, y: 0i64, width: 0i64, height: 0i64 }),
            r.object.visible,
            r.object.solid(),
            r.asset_name is None,
            r.wf(),
    {
        Cell { object: Object::default(), asset_name: None }
    }
}

/// The ceiling of `v / d`, for nonnegative `v` and positive `d`.
pub open spec fn ceil_div(v: int, d: int) -> int {
    v / d + if v % d == 0 {
        0int
    } else {
        1int
    }
}

/// Number of columns in the demo world.
pub const DEMO_WIDTH: u16 = 30;

/// Number of rows in the demo world.
pub const DEMO_HEIGHT: u16 = 15;

/// Tile extent of the demo world, in subunits (seventy world units).
pub const DEMO_TILESIZE: u16 = 700;

/// Whether cell `i` of the demo world is a solid border tile.
pub open spec fn demo_cell_solid(i: int) -> bool {
    let x = i % (DEMO_WIDTH as int);
    let y = i / (DEMO_WIDTH as int);
    x == 0 || y == 0 || x == DEMO_WIDTH as int - 1 || y == DEMO_HEIGHT as int - 1
}

/// The display asset name of cell `i` of the demo world.
pub open spec fn demo_cell_name(i: int) -> Seq<char> {
    if demo_cell_solid(i) {
        "box"@
    } else {
        "dirtCenter"@
    }
}

/// The rectangle of cell `i` of the demo world.
pub open spec fn demo_cell_rect(i: int) -> Rect {
    Rect {
        x: ((i % (DEMO_WIDTH as int)) * DEMO_TILESIZE as int) as i64,
        y: ((i / (DEMO_WIDTH as int)) * DEMO_TILESIZE as int) as i64,
        width: DEMO_TILESIZE as i64,
        height: DEMO_TILESIZE as i64,
    }
}

/// A static grid of tiles, shared read-only by every system during a tick.
#[derive(Debug)]
pub struct TileGrid {
    cells: Vec<Cell>,
    width: u16,
    height: u16,
    tilesize: u16,
}

impl TileGrid {
    /// The cells, in row-major order.
    pub closed spec fn spec_cells(self) -> Seq<Cell> {
        self.cells@
    }

    /// The number of columns.
    pub closed spec fn spec_width(self) -> int {
        self.width as int
    }

    /// The number of rows.
    pub closed spec fn spec_height(self) -> int {
        self.height as int
    }

    /// The world-coordinate extent of one square tile.
    pub closed spec fn spec_tilesize(self) -> int {
        self.tilesize as int
    }

    /// Well-formedness: the cell count matches the dimensions, tiles have
    /// positive extent, and every cell holds a well-formed rectangle.
    pub open spec fn wf(self) -> bool {
        &&& self.spec_cells().len() == self.spec_width() * self.spec_height()
        &&& 1 <= self.spec_tilesize()
        &&& forall|i: int|
            0 <= i < self.spec_cells().len() ==> (#[trigger] self.spec_cells()[i]).wf()
    }

    /// Builds a grid from its parts.
    pub fn new(width: u16, height: u16, tilesize: u16, cells: Vec<Cell>) -> (r: TileGrid)
        requires
            cells@.len() == width as int * height as int,
            1 <= tilesize,
            forall|i: int| 0 <= i < cells@.len() ==> (#[trigger] cells@[i]).wf(),
        ensures
            r.spec_cells() == cells@,
            r.spec_width() == width as int,
            r.spec_height() == height as int,
            r.spec_tilesize() == tilesize as int,
            r.wf(),
    {
        TileGrid { cells, width, height, tilesize }
    }

    /// The number of columns.
    pub fn width(&self) -> (r: u16)
        ensures
            r as int == self.spec_width(),
    {
        self.width
    }

    /// The number of rows.
    pub fn height(&self) -> (r: u16)
        ensures
            r as int == self.spec_height(),
    {
        self.height
    }

    /// The world-coordinate extent of one tile.
    pub fn tilesize(&self) -> (r: u16)
        ensures
            r as int == self.spec_tilesize(),
    {
        self.tilesize
    }

    /// The number of cells.
    pub fn len(&self) -> (r: usize)
        ensures
            r as int == self.spec_cells().len(),
    {
        self.cells.len()
    }

    /// The cell at a row-major index.
    pub fn cell_at(&self, index: usize) -> (r: &Cell)
        requires
            index < self.spec_cells().len(),
        ensures
            *r == self.spec_cells()[index as int],
    {
        &self.cells[index]
    }

    /// The first candidate column of a rectangle: its left edge, clamped
    /// to the world's nonnegative quadrant, in tile units.
    pub open spec fn min_col(self, target: Rect) -> int {
        (if target.x > 0 {
            target.x as int
        } else {
            0int
        }) / self.spec_tilesize()
    }

    /// One past the last candidate column of a rectangle.
    pub open spec fn max_col(self, target: Rect) -> int {
        let x0 = if target.x > 0 {
            target.x as int
        } else {
            0int
        };
        ceil_div(sat_add(x0, target.width as int), self.spec_tilesize())
    }

    /// The first candidate row of a rectangle.
    pub open spec fn min_row(self, target: Rect) -> int {
        (if target.y > 0 {
            target.y as int
        } else {
            0int
        }) / self.spec_tilesize()
    }

    /// One past the last candidate row of a rectangle.
    pub open spec fn max_row(self, target: Rect) -> int {
        let y0 = if target.y > 0 {
            target.y as int
        } else {
            0int
        };
        ceil_div(sat_add(y0, target.height as int), self.spec_tilesize())
    }

    /// One past the last candidate column, clamped to the grid.
    pub open spec fn hi_col(self, target: Rect) -> int {
        if self.max_col(target) < self.spec_width() {
            self.max_col(target)
        } else {
            self.spec_width()
        }
    }

    /// One past the last candidate row, clamped to the grid.
    pub open spec fn hi_row(self, target: Rect) -> int {
        if self.max_row(target) < self.spec_height() {
            self.max_row(target)
        } else {
            self.spec_height()
        }
    }

    /// How many candidate columns the query covers.
    pub open spec fn n_cols(self, target: Rect) -> int {
        if self.hi_col(target) - self.min_col(target) > 0 {
            self.hi_col(target) - self.min_col(target)
        } else {
            0int
        }
    }

    /// How many candidate rows the query covers.
    pub open spec fn n_rows(self, target: Rect) -> int {
        if self.hi_row(target) - self.min_row(target) > 0 {
            self.hi_row(target) - self.min_row(target)
        } else {
            0int
        }
    }

    /// The indices [`TileGrid::collidable_tiles`] returns: every in-bounds
    /// cell whose column and row the rectangle's span covers, column by
    /// column, rows inner.
    pub open spec fn tile_indices(self, target: Rect) -> Seq<int> {
        Seq::new(
            (self.n_cols(target) * self.n_rows(target)) as nat,
            |k: int|
                (self.min_row(target) + k % self.n_rows(target)) * self.spec_width() + (
                self.min_col(target) + k / self.n_rows(target)),
        )
    }

    /// The broad-phase query: the row-major indices of every cell whose
    /// column and row ranges the rectangle's world-space span overlaps
    /// (floor of the minimum edge, ceiling of the maximum edge, clamped so
    /// negative coordinates map to column and row zero).  Spans beyond the
    /// grid bounds yield nothing rather than wrapping or failing.
    pub fn collidable_tiles(&self, target: &Rect) -> (r: Vec<usize>)
        requires
            self.wf(),
            target.wf(),
        ensures
            r@.len() == self.tile_indices(*target).len(),
            forall|k: int|
                0 <= k < r@.len() ==> r@[k] as int == #[trigger] self.tile_indices(*target)[k],
            forall|k: int|
                0 <= k < r@.len() ==> 0 <= #[trigger] r@[k] < self.spec_cells().len(),
    {
        let ghost idxs = self.tile_indices(*target);
        let ts = self.tilesize as u64;

        let x0 = (if target.x > 0 {
            target.x
        } else {
            0
        }) as u64;
        let lo_c_raw = x0 / ts;
        let xe = sat_add_i64(x0 as i64, target.width) as u64;
        let hi_c_raw = xe / ts + if xe % ts != 0 {
            1
        } else {
            0
        };
        let hi_c_w = if hi_c_raw > self.width as u64 {
            self.width as u64
        } else {
            hi_c_raw
        };

        let y0 = (if target.y > 0 {
            target.y
        } else {
            0
        }) as u64;
        let lo_r_raw = y0 / ts;
        let ye = sat_add_i64(y0 as i64, target.height) as u64;
        let hi_r_raw = ye / ts + if ye % ts != 0 {
            1
        } else {
            0
        };
        let hi_r_w = if hi_r_raw > self.height as u64 {
            self.height as u64
        } else {
            hi_r_raw
        };

        proof {
            assert(lo_c_raw as int == self.min_col(*target));
            assert(hi_c_raw as int == self.max_col(*target));
            assert(lo_r_raw as int == self.min_row(*target));
            assert(hi_r_raw as int == self.max_row(*target));
        }

        let mut out: Vec<usize> = Vec::new();
        if lo_c_raw >= hi_c_w || lo_r_raw >= hi_r_w {
            proof {
                let ncols = self.n_cols(*target);
                let nrows = self.n_rows(*target);
                assert(ncols == 0 || nrows == 0);
                assert(ncols * nrows == 0) by (nonlinear_arith)
                    requires
                        ncols == 0 || nrows == 0,
                ;
                assert(idxs.len() == 0);
            }
            return out;
        }

        let lo_c = lo_c_raw as usize;
        let hi_c = hi_c_w as usize;
        let lo_r = lo_r_raw as usize;
        let hi_r = hi_r_w as usize;
        let width = self.width as usize;
        let ghost nrows: int = hi_r as int - lo_r as int;
        proof {
            assert(nrows == self.n_rows(*target));
            assert(idxs.len() == (hi_c as int - lo_c as int) * nrows);
            assert((lo_c as int - lo_c as int) * nrows == 0) by (nonlinear_arith);
        }

        let mut x = lo_c;
        while x < hi_c
            invariant
                self.wf(),
                lo_c <= x <= hi_c,
                lo_c < hi_c,
                lo_r < hi_r,
                hi_c <= self.spec_width(),
                hi_r <= self.spec_height(),
                width == self.spec_width(),
                nrows == hi_r as int - lo_r as int,
                idxs == self.tile_indices(*target),
                lo_c as int == self.min_col(*target),
                lo_r as int == self.min_row(*target),
                hi_c as int == self.hi_col(*target),
                hi_r as int == self.hi_row(*target),
                nrows == self.n_rows(*target),
                idxs.len() == (hi_c as int - lo_c as int) * nrows,
                out@.len() == (x as int - lo_c as int) * nrows,
                forall|k: int| 0 <= k < out@.len() ==> out@[k] as int == #[trigger] idxs[k],
                forall|k: int|
                    0 <= k < out@.len() ==> 0 <= #[trigger] out@[k] < self.spec_cells().len(),
            decreases hi_c - x,
        {
            let mut y = lo_r;
            while y < hi_r
                invariant
                    self.wf(),
                    lo_c <= x < hi_c,
                    lo_r <= y <= hi_r,
                    lo_r < hi_r,
                    hi_c <= self.spec_width(),
                    hi_r <= self.spec_height(),
                    width == self.spec_width(),
                    nrows == hi_r as int - lo_r as int,
                    idxs == self.tile_indices(*target),
                    lo_c as int == self.min_col(*target),
                    lo_r as int == self.min_row(*target),
                    hi_c as int == self.hi_col(*target),
                    hi_r as int == self.hi_row(*target),
                    nrows == self.n_rows(*target),
                    idxs.len() == (hi_c as int - lo_c as int) * nrows,
                    out@.len() == (x as int - lo_c as int) * nrows + (y as int - lo_r as int),
                    forall|k: int| 0 <= k < out@.len() ==> out@[k] as int == #[trigger] idxs[k],
                    forall|k: int|
                        0 <= k < out@.len() ==> 0 <= #[trigger] out@[k] < self.spec_cells().len(),
                decreases hi_r - y,
            {
                proof {
                    let k = (x as int - lo_c as int) * nrows + (y as int - lo_r as int);
                    vstd::arithmetic::div_mod::lemma_fundamental_div_mod_converse(
                        k,
                        nrows,
                        x as int - lo_c as int,
                        y as int - lo_r as int,
                    );
                    assert(0 <= k < idxs.len()) by (nonlinear_arith)
                        requires
                            k == (x as int - lo_c as int) * nrows + (y as int - lo_r as int),
                            idxs.len() == (hi_c as int - lo_c as int) * nrows,
                            lo_c as int <= x as int,
                            (x as int) < hi_c as int,
                            0 <= y as int - lo_r as int,
                            (y as int - lo_r as int) < nrows,
                    ;
                    assert(idxs[k] == y as int * self.spec_width() + x as int);
                    assert((y as int * self.spec_width() + x as int)
                        < self.spec_width() * self.spec_height()) by (nonlinear_arith)
                        requires
                            0 <= x as int,
                            (x as int) < self.spec_width(),
                            0 <= y as int,
                            (y as int) < self.spec_height(),
                    ;
                    assert((y as int * width as int + x as int) < 0x1_0000_0000int)
                        by (nonlinear_arith)
                        requires
                            0 <= x as int,
                            (x as int) < width as int,
                            0 <= y as int,
                            (y as int) < 0x1_0000int,
                            (width as int) < 0x1_0000int,
                    ;
                }
                let index = y * width + x;
                out.push(index);
                y = y + 1;
            }
            x = x + 1;
            proof {
                assert((x as int - lo_c as int) * nrows == (x as int - 1 - lo_c as int) * nrows
                    + nrows) by (nonlinear_arith);
            }
        }
        out
    }
}

/// For a nonnegative `v` below `(c + 1) * ts`, the floor of `v / ts` is
/// at most `c`; for one above `c * ts`, the ceiling is at least `c + 1`.
proof fn lemma_tile_axis_bounds(v_lo: int, v_hi: int, c: int, ts: int)
    requires
        0 < ts,
        0 <= c,
        0 <= v_lo,
        v_lo < (c + 1) * ts,
        c * ts < v_hi,
    ensures
        v_lo / ts <= c,
        c + 1 <= ceil_div(v_hi, ts),
{
    assert(ts * (c + 1) == (c + 1) * ts) by (nonlinear_arith);
    vstd::arithmetic::div_mod::lemma_multiply_divide_lt(v_lo, ts, c + 1);

    if v_hi >= (c + 1) * ts {
        vstd::arithmetic::div_mod::lemma_div_by_multiple(c + 1, ts);
        assert((c + 1) * ts / ts == c + 1);
        vstd::arithmetic::div_mod::lemma_div_is_ordered((c + 1) * ts, v_hi, ts);
        assert(v_hi / ts >= c + 1);
        assert(ceil_div(v_hi, ts) >= v_hi / ts);
    } else {
        vstd::arithmetic::div_mod::lemma_multiply_divide_lt(v_hi, ts, c + 1);
        assert(v_hi / ts <= c);
        vstd::arithmetic::div_mod::lemma_div_by_multiple(c, ts);
        assert(c * ts / ts == c);
        vstd::arithmetic::div_mod::lemma_div_is_ordered(c * ts, v_hi, ts);
        assert(v_hi / ts == c);
        vstd::arithmetic::div_mod::lemma_fundamental_div_mod(v_hi, ts);
        assert(v_hi == ts * (v_hi / ts) + v_hi % ts);
        assert(ts * c == c * ts) by (nonlinear_arith);
        assert(v_hi % ts != 0);
    }
}

/// The broad phase misses nothing: any lattice cell `(c, r)` — the cell
/// spanning `[c*ts, (c+1)*ts]` by `[r*ts, (r+1)*ts]` — whose interior
/// meets the target rectangle has its index among
/// [`TileGrid::tile_indices`].  (A cell only touching the target's left
/// or top edge may be skipped; its overlap would be zero-area.)
pub proof fn lemma_broad_phase_covers(g: TileGrid, target: Rect, c: int, r: int)
    requires
        g.wf(),
        target.wf(),
        g.spec_width() * g.spec_tilesize() <= i64::MAX,
        g.spec_height() * g.spec_tilesize() <= i64::MAX,
        0 <= c < g.spec_width(),
        0 <= r < g.spec_height(),
        target.x < (c + 1) * g.spec_tilesize(),
        c * g.spec_tilesize() < target.x + target.width,
        target.y < (r + 1) * g.spec_tilesize(),
        r * g.spec_tilesize() < target.y + target.height,
    ensures
        g.tile_indices(target).contains(r * g.spec_width() + c),
{
    let ts = g.spec_tilesize();
    let w = g.spec_width();
    let h = g.spec_height();

    let x0: int = if target.x > 0 {
        target.x as int
    } else {
        0int
    };
    let xe = sat_add(x0, target.width as int);
    assert(c * ts < w * ts <= i64::MAX) by (nonlinear_arith)
        requires
            0 <= c,
            c < w,
            0 < ts,
            w * ts <= i64::MAX,
    ;
    assert(x0 + target.width > c * ts);
    assert(xe > c * ts);
    assert(0 < (c + 1) * ts) by (nonlinear_arith)
        requires
            0 <= c,
            0 < ts,
    ;
    assert(x0 < (c + 1) * ts);
    lemma_tile_axis_bounds(x0, xe, c, ts);
    assert(g.min_col(target) <= c);
    assert(c + 1 <= g.max_col(target));
    assert(c < g.hi_col(target));

    let y0: int = if target.y > 0 {
        target.y as int
    } else {
        0int
    };
    let ye = sat_add(y0, target.height as int);
    assert(r * ts < h * ts <= i64::MAX) by (nonlinear_arith)
        requires
            0 <= r,
            r < h,
            0 < ts,
            h * ts <= i64::MAX,
    ;
    assert(y0 + target.height > r * ts);
    assert(ye > r * ts);
    assert(0 < (r + 1) * ts) by (nonlinear_arith)
        requires
            0 <= r,
            0 < ts,
    ;
    assert(y0 < (r + 1) * ts);
    lemma_tile_axis_bounds(y0, ye, r, ts);
    assert(g.min_row(target) <= r);
    assert(r < g.hi_row(target));

    let lo_c = g.min_col(target);
    let lo_r = g.min_row(target);
    let ncols = g.n_cols(target);
    let nrows = g.n_rows(target);
    let k = (c - lo_c) * nrows + (r - lo_r);
    vstd::arithmetic::div_mod::lemma_fundamental_div_mod_converse(k, nrows, c - lo_c, r - lo_r);
    assert(0 <= k < ncols * nrows) by (nonlinear_arith)
        requires
            k == (c - lo_c) * nrows + (r - lo_r),
            0 <= c - lo_c < ncols,
            0 <= r - lo_r < nrows,
    ;
    assert(g.tile_indices(target)[k] == r * w + c);
    assert(g.tile_indices(target).contains(r * w + c));
}

impl Default for TileGrid {
    /// The demo world: a walled room of [`DEMO_WIDTH`] by [`DEMO_HEIGHT`]
    /// tiles, solid along the border and open inside.
    fn default() -> (r: TileGrid)
        ensures
            r.wf(),
            r.spec_width() == DEMO_WIDTH as int,
            r.spec_height() == DEMO_HEIGHT as int,
            r.spec_tilesize() == DEMO_TILESIZE as int,
            forall|i: int|
                0 <= i < r.spec_cells().len() ==> {
                    &&& (#[trigger] r.spec_cells()[i]).object.solid() == demo_cell_solid(i)
                    &&& r.spec_cells()[i].object.rect == demo_cell_rect(i)
                    &&& r.spec_cells()[i].object.visible
                    &&& r.spec_cells()[i].asset_name matches Some(n) && n@ == demo_cell_name(i)
                },
    {
        let ts = DEMO_TILESIZE as i64;
        let mut cells: Vec<Cell> = Vec::new();
        let mut y: u16 = 0;
        while y < DEMO_HEIGHT
            invariant
                0 <= y <= DEMO_HEIGHT,
                cells@.len() == y as int * DEMO_WIDTH as int,
                ts == DEMO_TILESIZE as int,
                forall|i: int|
                    0 <= i < cells@.len() ==> {
                        &&& (#[trigger] cells@[i]).object.solid() == demo_cell_solid(i)
                        &&& cells@[i].object.rect == demo_cell_rect(i)
                        &&& cells@[i].object.visible
                        &&& cells@[i].asset_name matches Some(n) && n@ == demo_cell_name(i)
                        &&& cells@[i].wf()
                    },
            decreases DEMO_HEIGHT as int - y as int,
        {
            let mut x: u16 = 0;
            while x < DEMO_WIDTH
                invariant
                    0 <= y < DEMO_HEIGHT,
                    0 <= x <= DEMO_WIDTH,
                    cells@.len() == y as int * DEMO_WIDTH as int + x as int,
                    ts == DEMO_TILESIZE as int,
                    forall|i: int|
                        0 <= i < cells@.len() ==> {
                            &&& (#[trigger] cells@[i]).object.solid() == demo_cell_solid(i)
                            &&& cells@[i].object.rect == demo_cell_rect(i)
                            &&& cells@[i].object.visible
                            &&& cells@[i].asset_name matches Some(n) && n@ == demo_cell_name(i)
                            &&& cells@[i].wf()
                        },
                decreases DEMO_WIDTH as int - x as int,
            {
                let border = x == 0 || y == 0 || x == DEMO_WIDTH - 1 || y == DEMO_HEIGHT - 1;
                let name = if border {
                    "box"
                } else {
                    "dirtCenter"
                };
                let cell = Cell::with_size(ts, ts).with_asset(name.to_owned()).collision(
                    border,
                ).at(x as i64 * ts, y as i64 * ts);
                proof {
                    let i = y as int * DEMO_WIDTH as int + x as int;
                    vstd::arithmetic::div_mod::lemma_fundamental_div_mod_converse(
                        i,
                        DEMO_WIDTH as int,
                        y as int,
                        x as int,
                    );
                    assert(border == demo_cell_solid(i));
                    assert(cell.asset_name matches Some(n) && n@ == demo_cell_name(i));
                }
                cells.push(cell);
                x = x + 1;
            }
            y = y + 1;
        }
        proof {
            assert(cells@.len() == DEMO_WIDTH as int * DEMO_HEIGHT as int);
        }
        TileGrid::new(DEMO_WIDTH, DEMO_HEIGHT, DEMO_TILESIZE, cells)
    }
}

} // verus!
