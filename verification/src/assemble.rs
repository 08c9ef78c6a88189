//! Assembling one worker's band: every tile of the band is copied into its
//! own disjoint block of one dense pixel buffer.
//!
//! The buffer has one row per pixel row of the band and one column per pixel
//! column of the whole grid, row-major. The tile at tile row `ty`, tile column
//! `tx` occupies the block of `TILE_SIZE` rows starting at pixel row
//! `(ty - start_h) * TILE_SIZE` and `TILE_SIZE` columns starting at pixel
//! column `tx * TILE_SIZE`; no two tiles share a cell.

use crate::codec::Elevation;
use crate::tile::Tile;
use crate::TILE_SIZE;
use vstd::prelude::*;

verus! {

/// One worker's dense elevation buffer: the pixel rows of its band of tiles,
/// by the full pixel width of the grid, row-major.
pub struct WorkerBuffer {
    /// First tile row of the band.
    pub start_h: usize,
    /// One past the last tile row of the band.
    pub end_h: usize,
    /// Tiles per edge of the global grid.
    pub side: usize,
    /// Row-major samples, `height_px()` rows of `width_px()` columns.
    pub cells: Vec<Elevation>,
}

impl WorkerBuffer {
    /// Pixel width of the whole grid.
    pub open spec fn width_px(self) -> int {
        self.side as int * (TILE_SIZE as int)
    }

    /// Pixel height of this band.
    pub open spec fn height_px(self) -> int {
        (self.end_h - self.start_h) * (TILE_SIZE as int)
    }

    /// The band lies inside the grid and the buffer holds exactly one sample
    /// per band pixel.
    pub open spec fn wf(self) -> bool {
        &&& self.start_h <= self.end_h <= self.side
        &&& self.cells@.len() == self.height_px() * self.width_px()
    }

    /// The sample at band-local pixel row `y`, global pixel column `x`.
    pub open spec fn cell(self, y: int, x: int) -> Elevation {
        self.cells@[y * self.width_px() + x]
    }
}

/// A row-major index is within the grid of `h` rows and `w` columns.
proof fn lemma_grid_index_bounds(y: int, x: int, h: int, w: int)
    requires
        0 <= y < h,
        0 <= x < w,
    ensures
        0 <= y * w + x < h * w,
{
    assert(0 <= y * w + x < h * w) by (nonlinear_arith)
        requires
            0 <= y < h,
            0 <= x < w,
    ;
}

/// Distinct cells of a grid have distinct row-major indexes.
proof fn lemma_grid_index_injective(y1: int, x1: int, y2: int, x2: int, w: int)
    requires
        0 <= y1,
        0 <= y2,
        0 <= x1 < w,
        0 <= x2 < w,
        y1 * w + x1 == y2 * w + x2,
    ensures
        y1 == y2,
        x1 == x2,
{
    assert(y1 == y2 && x1 == x2) by (nonlinear_arith)
        requires
            0 <= y1,
            0 <= y2,
            0 <= x1 < w,
            0 <= x2 < w,
            y1 * w + x1 == y2 * w + x2,
    ;
}

/// A fresh worker buffer for the band `[start_h, end_h)` of a grid of `side`
/// tiles per edge, every sample the no-data sentinel.
pub fn new_buffer(start_h: usize, end_h: usize, side: usize) -> (buf: WorkerBuffer)
    requires
        start_h <= end_h <= side,
        side as int * (TILE_SIZE as int) <= usize::MAX as int,
        ((end_h - start_h) * (TILE_SIZE as int)) * (side as int * (TILE_SIZE as int))
            <= usize::MAX as int,
    ensures
        buf.wf(),
        buf.start_h == start_h,
        buf.end_h == end_h,
        buf.side == side,
        forall|k: int| 0 <= k < buf.cells@.len() ==> buf.cells@[k] == Elevation::NoData,
{
    let band_rows: usize = end_h - start_h;
    let w_px: usize = side * TILE_SIZE;
    proof {
        assert(band_rows * (TILE_SIZE as int) <= usize::MAX as int) by (nonlinear_arith)
            requires
                band_rows <= side,
                (band_rows * (TILE_SIZE as int)) * (side as int * (TILE_SIZE as int))
                    <= usize::MAX as int,
                side as int * (TILE_SIZE as int) <= usize::MAX as int,
                TILE_SIZE == 256,
        ;
    }
    let h_px: usize = band_rows * TILE_SIZE;
    let n: usize = h_px * w_px;
    let mut cells: Vec<Elevation> = Vec::new();
    let mut i: usize = 0;
    while i < n
        invariant
            i <= n,
            cells@.len() == i,
            forall|k: int| 0 <= k < i ==> cells@[k] == Elevation::NoData,
        decreases n - i,
    {
        cells.push(Elevation::NoData);
        i = i + 1;
    }
    WorkerBuffer { start_h, end_h, side, cells }
}

/// Copy one tile into its block of the buffer: the `TILE_SIZE` by `TILE_SIZE`
/// block at pixel row `(tile_y - start_h) * TILE_SIZE`, pixel column
/// `tile_x * TILE_SIZE` takes the tile's samples; every other cell is kept.
pub fn place_tile(buf: &mut WorkerBuffer, tile_x: usize, tile_y: usize, t: &Tile)
    requires
        old(buf).wf(),
        t.wf(),
        old(buf).start_h <= tile_y < old(buf).end_h,
        tile_x < old(buf).side,
    ensures
        final(buf).wf(),
        final(buf).start_h == old(buf).start_h,
        final(buf).end_h == old(buf).end_h,
        final(buf).side == old(buf).side,
        forall|py: int, px: int|
            0 <= py < TILE_SIZE && 0 <= px < TILE_SIZE ==> #[trigger] final(buf).cell(
                (tile_y - old(buf).start_h) * (TILE_SIZE as int) + py,
                tile_x * (TILE_SIZE as int) + px,
            ) == t.cell(py, px),
        forall|y: int, x: int|
            0 <= y < old(buf).height_px() && 0 <= x < old(buf).width_px() && !((tile_y - old(
                buf,
            ).start_h) * (TILE_SIZE as int) <= y < (tile_y - old(buf).start_h) * (TILE_SIZE as int)
                + TILE_SIZE && tile_x * (TILE_SIZE as int) <= x < tile_x * (TILE_SIZE as int)
                + TILE_SIZE) ==> #[trigger] final(buf).cell(y, x) == old(buf).cell(y, x),
{
    let total: usize = buf.cells.len();
    proof {
        assert(buf.height_px() * buf.width_px() == total);
        assert(buf.width_px() <= total && buf.height_px() <= total) by (nonlinear_arith)
            requires
                buf.height_px() >= 1,
                buf.width_px() >= 1,
                buf.height_px() * buf.width_px() == total,
        ;
    }
    let w: usize = buf.side * TILE_SIZE;
    let row0: usize = (tile_y - buf.start_h) * TILE_SIZE;
    let col0: usize = tile_x * TILE_SIZE;
    proof {
        assert(row0 + TILE_SIZE <= buf.height_px() && col0 + TILE_SIZE <= buf.width_px())
            by (nonlinear_arith)
            requires
                row0 == (tile_y - buf.start_h) * (TILE_SIZE as int),
                col0 == tile_x * (TILE_SIZE as int),
                buf.start_h <= tile_y < buf.end_h,
                tile_x < buf.side,
                buf.height_px() == (buf.end_h - buf.start_h) * (TILE_SIZE as int),
                buf.width_px() == buf.side as int * (TILE_SIZE as int),
        ;
        lemma_grid_index_bounds(
            buf.height_px() - 1,
            buf.width_px() - 1,
            buf.height_px(),
            buf.width_px(),
        );
    }
    let ghost start = *buf;
    let mut py: usize = 0;
    while py < TILE_SIZE
        invariant
            py <= TILE_SIZE,
            buf.start_h == start.start_h,
            buf.end_h == start.end_h,
            buf.side == start.side,
            buf.cells@.len() == start.cells@.len(),
            start.wf(),
            t.wf(),
            start.start_h <= tile_y < start.end_h,
            tile_x < start.side,
            w == start.width_px(),
            total == start.cells@.len(),
            row0 == (tile_y - start.start_h) * (TILE_SIZE as int),
            col0 == tile_x * (TILE_SIZE as int),
            row0 + TILE_SIZE <= start.height_px(),
            col0 + TILE_SIZE <= start.width_px(),
            forall|yy: int, xx: int|
                0 <= yy < start.height_px() && 0 <= xx < start.width_px() && !(row0 <= yy < row0
                    + py && col0 <= xx < col0 + TILE_SIZE) ==> #[trigger] buf.cell(yy, xx)
                    == start.cell(yy, xx),
            forall|ty: int, txx: int|
                0 <= ty < py && 0 <= txx < TILE_SIZE ==> #[trigger] buf.cell(row0 + ty, col0 + txx)
                    == t.cell(ty, txx),
        decreases TILE_SIZE - py,
    {
        let mut px: usize = 0;
        while px < TILE_SIZE
            invariant
                px <= TILE_SIZE,
                py < TILE_SIZE,
                buf.start_h == start.start_h,
                buf.end_h == start.end_h,
                buf.side == start.side,
                buf.cells@.len() == start.cells@.len(),
                start.wf(),
                t.wf(),
                start.start_h <= tile_y < start.end_h,
                tile_x < start.side,
                w == start.width_px(),
                total == start.cells@.len(),
                row0 == (tile_y - start.start_h) * (TILE_SIZE as int),
                col0 == tile_x * (TILE_SIZE as int),
                row0 + TILE_SIZE <= start.height_px(),
                col0 + TILE_SIZE <= start.width_px(),
                forall|yy: int, xx: int|
                    0 <= yy < start.height_px() && 0 <= xx < start.width_px() && !(row0 <= yy < row0
                        + py + 1 && col0 <= xx < col0 + TILE_SIZE) ==> #[trigger] buf.cell(yy, xx)
                        == start.cell(yy, xx),
                forall|xx: int|
                    px <= xx < TILE_SIZE ==> #[trigger] buf.cell(row0 + py, col0 + xx)
                        == start.cell(row0 + py, col0 + xx),
                forall|ty: int, txx: int|
                    0 <= ty < py && 0 <= txx < TILE_SIZE ==> #[trigger] buf.cell(
                        row0 + ty,
                        col0 + txx,
                    ) == t.cell(ty, txx),
                forall|xx: int|
                    0 <= xx < px ==> #[trigger] buf.cell(row0 + py, col0 + xx) == t.cell(
                        py as int,
                        xx,
                    ),
            decreases TILE_SIZE - px,
        {
            let v = t.at(py, px);
            proof {
                lemma_grid_index_bounds(
                    row0 + py as int,
                    col0 + px as int,
                    start.height_px(),
                    start.width_px(),
                );
            }
            let idx: usize = (row0 + py) * w + (col0 + px);
            let ghost before = *buf;
            buf.cells.set(idx, v);
            proof {
                let y0 = row0 + py as int;
                let x0 = col0 + px as int;
                assert forall|yy: int, xx: int|
                    0 <= yy < start.height_px() && 0 <= xx < start.width_px() && !(yy == y0 && xx
                        == x0) implies #[trigger] buf.cell(yy, xx) == before.cell(yy, xx) by {
                    lemma_grid_index_bounds(yy, xx, start.height_px(), start.width_px());
                    if yy * start.width_px() + xx == idx {
                        lemma_grid_index_injective(yy, xx, y0, x0, start.width_px());
                    }
                }
                assert(buf.cell(y0, x0) == t.cell(py as int, px as int));
            }
            px = px + 1;
        }
        py = py + 1;
    }
}

/// A buffer holds exactly the samples of a row-major sequence of tiles: the
/// tile at band-local tile row `ty - start_h`, tile column `tx` fills its own
/// block of the buffer.
pub open spec fn assembled_from(buf: WorkerBuffer, tiles: Seq<Tile>) -> bool {
    forall|ty: int, tx: int, py: int, px: int|
        buf.start_h <= ty < buf.end_h && 0 <= tx < buf.side && 0 <= py < TILE_SIZE && 0 <= px
            < TILE_SIZE ==> #[trigger] buf.cell(
            (ty - buf.start_h) * (TILE_SIZE as int) + py,
            tx * (TILE_SIZE as int) + px,
        ) == tiles[(ty - buf.start_h) * buf.side + tx].cell(py, px)
}

/// Assemble one worker's buffer from the tiles of its band, given row-major:
/// `tiles[(ty - start_h) * side + tx]` is the tile at tile row `ty`, tile
/// column `tx`. Every buffer cell takes the corresponding tile sample.
pub fn assemble_band(start_h: usize, end_h: usize, side: usize, tiles: &Vec<Tile>) -> (buf:
    WorkerBuffer)
    requires
        start_h <= end_h <= side,
        side as int * (TILE_SIZE as int) <= usize::MAX as int,
        ((end_h - start_h) * (TILE_SIZE as int)) * (side as int * (TILE_SIZE as int))
            <= usize::MAX as int,
        tiles@.len() == (end_h - start_h) * side,
        forall|k: int| 0 <= k < tiles@.len() ==> (#[trigger] tiles@[k]).wf(),
    ensures
        buf.wf(),
        buf.start_h == start_h,
        buf.end_h == end_h,
        buf.side == side,
        assembled_from(buf, tiles@),
{
    let n_tiles: usize = tiles.len();
    let mut buf = new_buffer(start_h, end_h, side);
    let mut ty: usize = start_h;
    while ty < end_h
        invariant
            start_h <= ty <= end_h,
            buf.wf(),
            buf.start_h == start_h,
            buf.end_h == end_h,
            buf.side == side,
            tiles@.len() == (end_h - start_h) * side,
            tiles@.len() <= usize::MAX,
            forall|k: int| 0 <= k < tiles@.len() ==> (#[trigger] tiles@[k]).wf(),
            forall|ty2: int, tx2: int, py: int, px: int|
                start_h <= ty2 < ty && 0 <= tx2 < side && 0 <= py < TILE_SIZE && 0 <= px
                    < TILE_SIZE ==> #[trigger] buf.cell(
                    (ty2 - start_h) * (TILE_SIZE as int) + py,
                    tx2 * (TILE_SIZE as int) + px,
                ) == tiles@[(ty2 - start_h) * side + tx2].cell(py, px),
        decreases end_h - ty,
    {
        let mut tx: usize = 0;
        while tx < side
            invariant
                start_h <= ty < end_h,
                tx <= side,
                buf.wf(),
                buf.start_h == start_h,
                buf.end_h == end_h,
                buf.side == side,
                tiles@.len() == (end_h - start_h) * side,
                tiles@.len() <= usize::MAX,
                forall|k: int| 0 <= k < tiles@.len() ==> (#[trigger] tiles@[k]).wf(),
                forall|ty2: int, tx2: int, py: int, px: int|
                    start_h <= ty2 < ty && 0 <= tx2 < side && 0 <= py < TILE_SIZE && 0 <= px
                        < TILE_SIZE ==> #[trigger] buf.cell(
                        (ty2 - start_h) * (TILE_SIZE as int) + py,
                        tx2 * (TILE_SIZE as int) + px,
                    ) == tiles@[(ty2 - start_h) * side + tx2].cell(py, px),
                forall|tx2: int, py: int, px: int|
                    0 <= tx2 < tx && 0 <= py < TILE_SIZE && 0 <= px < TILE_SIZE
                        ==> #[trigger] buf.cell(
                        (ty - start_h) * (TILE_SIZE as int) + py,
                        tx2 * (TILE_SIZE as int) + px,
                    ) == tiles@[(ty - start_h) * side + tx2].cell(py, px),
            decreases side - tx,
        {
            proof {
                lemma_grid_index_bounds(ty - start_h, tx as int, end_h - start_h, side as int);
                assert(tiles@.len() <= usize::MAX);
            }
            let k: usize = (ty - start_h) * side + tx;
            place_tile(&mut buf, tx, ty, &tiles[k]);
            proof {
                assert forall|ty2: int, tx2: int, py: int, px: int|
                    start_h <= ty2 < ty && 0 <= tx2 < side && 0 <= py < TILE_SIZE && 0 <= px
                        < TILE_SIZE implies #[trigger] buf.cell(
                    (ty2 - start_h) * (TILE_SIZE as int) + py,
                    tx2 * (TILE_SIZE as int) + px,
                ) == tiles@[(ty2 - start_h) * side + tx2].cell(py, px) by {
                    lemma_grid_index_bounds(ty2 - start_h, tx2, end_h - start_h, side as int);
                    lemma_grid_index_bounds(
                        (ty2 - start_h) * (TILE_SIZE as int) + py,
                        tx2 * (TILE_SIZE as int) + px,
                        buf.height_px(),
                        buf.width_px(),
                    );
                }
                assert forall|tx2: int, py: int, px: int|
                    0 <= tx2 < tx && 0 <= py < TILE_SIZE && 0 <= px < TILE_SIZE
                        implies #[trigger] buf.cell(
                    (ty - start_h) * (TILE_SIZE as int) + py,
                    tx2 * (TILE_SIZE as int) + px,
                ) == tiles@[(ty - start_h) * side + tx2].cell(py, px) by {
                    lemma_grid_index_bounds(ty - start_h, tx2, end_h - start_h, side as int);
                }
            }
            tx = tx + 1;
        }
        ty = ty + 1;
    }
    buf
}

/// A worker's band holds exactly the rows it would have in a full single-run
/// grid: if a full-grid buffer and a band buffer are assembled from the same
/// per-tile responses (the band's tiles being the matching slice of the full
/// run's), then every cell of the band equals the cell of the full buffer
/// `start_h * TILE_SIZE` pixel rows further down. Stacked bands therefore
/// concatenate, row-major, to the full run's buffer.
pub proof fn lemma_band_matches_full(
    full: WorkerBuffer,
    part: WorkerBuffer,
    tiles_full: Seq<Tile>,
    tiles_part: Seq<Tile>,
)
    requires
        full.wf(),
        part.wf(),
        full.side == part.side,
        full.start_h == 0,
        full.end_h == full.side,
        tiles_full.len() == full.side * full.side,
        tiles_part == tiles_full.subrange(
            part.start_h * (full.side as int),
            part.end_h * (full.side as int),
        ),
        assembled_from(full, tiles_full),
        assembled_from(part, tiles_part),
    ensures
        forall|y: int, x: int|
            0 <= y < part.height_px() && 0 <= x < part.width_px() ==> #[trigger] part.cell(y, x)
                == full.cell(part.start_h * (TILE_SIZE as int) + y, x),
{
    let side = full.side as int;
    let t = TILE_SIZE as int;
    let s0 = part.start_h as int;
    let s1 = part.end_h as int;
    assert forall|y: int, x: int|
        0 <= y < part.height_px() && 0 <= x < part.width_px() implies #[trigger] part.cell(y, x)
        == full.cell(s0 * t + y, x) by {
        let qy = y / t;
        let py = y % t;
        let tx = x / t;
        let px = x % t;
        vstd::arithmetic::div_mod::lemma_fundamental_div_mod(y, t);
        vstd::arithmetic::div_mod::lemma_mod_bound(y, t);
        vstd::arithmetic::div_mod::lemma_fundamental_div_mod(x, t);
        vstd::arithmetic::div_mod::lemma_mod_bound(x, t);
        assert(0 <= qy < s1 - s0 && 0 <= tx < side) by (nonlinear_arith)
            requires
                y == t * qy + py,
                x == t * tx + px,
                0 <= py < t,
                0 <= px < t,
                0 <= y < (s1 - s0) * t,
                0 <= x < side * t,
                t == 256,
        ;
        let ty = s0 + qy;
        assert(part.cell((ty - s0) * t + py, tx * t + px) == tiles_part[(ty - s0) * side
            + tx].cell(py, px));
        assert(full.cell((ty - 0) * t + py, tx * t + px) == tiles_full[(ty - 0) * side + tx].cell(
            py,
            px,
        ));
        assert((ty - s0) * t + py == y && tx * t + px == x) by (nonlinear_arith)
            requires
                ty == s0 + qy,
                y == t * qy + py,
                x == t * tx + px,
        ;
        assert(ty * t + py == s0 * t + y) by (nonlinear_arith)
            requires
                ty == s0 + qy,
                y == t * qy + py,
        ;
        assert(0 <= (ty - s0) * side + tx < (s1 - s0) * side) by (nonlinear_arith)
            requires
                0 <= qy < s1 - s0,
                ty == s0 + qy,
                0 <= tx < side,
        ;
        assert(s0 * side + ((ty - s0) * side + tx) == ty * side + tx) by (nonlinear_arith)
            requires
                ty == s0 + qy,
        ;
        assert((s1 - s0) * side == s1 * side - s0 * side) by (nonlinear_arith);
        let k = (ty - s0) * side + tx;
        assert(0 <= s0 * side && s0 * side <= s1 * side && s1 * side <= side * side)
            by (nonlinear_arith)
            requires
                0 <= s0 <= s1 <= side,
        ;
        assert(tiles_part[k] == tiles_full.subrange(s0 * side, s1 * side)[k]);
        assert(tiles_full.subrange(s0 * side, s1 * side)[k] == tiles_full[s0 * side + k]);
        assert(tiles_part[(ty - s0) * side + tx] == tiles_full[ty * side + tx]);
    }
}

} // verus!
