//! Assembly of a large digital elevation raster from fixed-size map tiles.
//!
//! The raster is a square of `side` tiles per edge, each tile `TILE_SIZE` by
//! `TILE_SIZE` pixels. Cooperating workers each own a disjoint horizontal band
//! of tile rows, decode every tile of their band into exact integer-centimeter
//! elevation samples, and write their band into a disjoint byte range of one
//! shared row-major output file.

pub mod assemble;
pub mod codec;
pub mod fetch;
pub mod output;
pub mod partition;
pub mod process_group;
pub mod render;
pub mod tile;

use vstd::prelude::*;

verus! {

/// Edge length of one tile, in pixels.
pub const TILE_SIZE: usize = 256;

/// Number of pixels in one tile.
pub const TILE_PIXELS: usize = TILE_SIZE * TILE_SIZE;

} // verus!
