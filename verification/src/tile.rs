//! One fetched tile: a dense `TILE_SIZE` by `TILE_SIZE` matrix of elevation
//! samples, row-major, row index = pixel row, column index = pixel column.

use crate::codec::Elevation;
use crate::TILE_PIXELS;
use crate::TILE_SIZE;
use vstd::prelude::*;

verus! {

/// A decoded tile: exactly `TILE_PIXELS` elevation samples, row-major.
#[derive(Clone)]
pub struct Tile {
    pub cells: Vec<Elevation>,
}

impl Tile {
    /// A tile is well formed when it holds exactly one sample per pixel.
    pub open spec fn wf(self) -> bool {
        self.cells@.len() == TILE_PIXELS
    }

    /// The sample of the pixel in row `py`, column `px`.
    pub open spec fn cell(self, py: int, px: int) -> Elevation {
        self.cells@[py * (TILE_SIZE as int) + px]
    }

    /// The sample of the pixel in row `py`, column `px`.
    pub fn at(&self, py: usize, px: usize) -> (e: Elevation)
        requires
            self.wf(),
            py < TILE_SIZE,
            px < TILE_SIZE,
        ensures
            e == self.cell(py as int, px as int),
    {
        self.cells[py * TILE_SIZE + px]
    }
}

/// The tile that stands for a missing map tile: every sample is the no-data
/// sentinel.
pub fn no_data_tile() -> (t: Tile)
    ensures
        t.wf(),
        forall|i: int| 0 <= i < TILE_PIXELS ==> t.cells@[i] == Elevation::NoData,
{
    let mut cells: Vec<Elevation> = Vec::new();
    let mut i: usize = 0;
    while i < TILE_PIXELS
        invariant
            i <= TILE_PIXELS,
            cells@.len() == i,
            forall|k: int| 0 <= k < i ==> cells@[k] == Elevation::NoData,
        decreases TILE_PIXELS - i,
    {
        cells.push(Elevation::NoData);
        i = i + 1;
    }
    Tile { cells }
}

} // verus!
