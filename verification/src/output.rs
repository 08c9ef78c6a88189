//! Byte layout of the shared output file.
//!
//! The file is one flat row-major grid of the whole raster, four bytes per
//! sample (a big-endian 32-bit float written by the caller), no header. A
//! worker's band occupies one contiguous byte range, computed from its first
//! tile row alone; the ranges of distinct workers never intersect, and
//! together they tile the file exactly.

use crate::partition::band_end;
use crate::partition::band_start;
use crate::partition::is_pow2;
use crate::partition::lemma_bands_partition;
use crate::TILE_SIZE;
use vstd::arithmetic::mul::lemma_mul_inequality;
use vstd::prelude::*;

verus! {

/// Bytes per sample in the output file: one 32-bit float.
pub const BYTES_PER_SAMPLE: u64 = 4;

/// Total size of the output file in bytes, for a grid of `side` tiles per
/// edge: width times height pixels, four bytes each.
pub open spec fn file_size_spec(side: int) -> int {
    (side * (TILE_SIZE as int)) * (side * (TILE_SIZE as int)) * (BYTES_PER_SAMPLE as int)
}

/// Byte offset of the first sample of the band whose first tile row is
/// `start_h`: the bytes of all pixel rows above it.
pub open spec fn band_byte_offset_spec(start_h: int, side: int) -> int {
    (start_h * (TILE_SIZE as int)) * (side * (TILE_SIZE as int)) * (BYTES_PER_SAMPLE as int)
}

/// Byte length of the band `[start_h, end_h)`.
pub open spec fn band_byte_len_spec(start_h: int, end_h: int, side: int) -> int {
    ((end_h - start_h) * (TILE_SIZE as int)) * (side * (TILE_SIZE as int)) * (
    BYTES_PER_SAMPLE as int)
}

/// Total size in bytes of the output file for a grid of `side` tiles per edge.
pub fn file_size_bytes(side: u64) -> (n: u64)
    requires
        file_size_spec(side as int) <= u64::MAX,
    ensures
        n == file_size_spec(side as int),
{
    proof {
        assert(side * (TILE_SIZE as int) <= u64::MAX && (side * (TILE_SIZE as int)) * (side * (
        TILE_SIZE as int)) <= (side * (TILE_SIZE as int)) * (side * (TILE_SIZE as int)) * 4)
            by (nonlinear_arith)
            requires
                (side * (TILE_SIZE as int)) * (side * (TILE_SIZE as int)) * 4 <= u64::MAX,
                side >= 0,
                TILE_SIZE == 256,
        ;
    }
    let w: u64 = side * (TILE_SIZE as u64);
    w * w * BYTES_PER_SAMPLE
}

/// Byte offset at which the band starting at tile row `start_h` begins.
pub fn band_byte_offset(start_h: u64, side: u64) -> (n: u64)
    requires
        start_h <= side,
        file_size_spec(side as int) <= u64::MAX,
    ensures
        n == band_byte_offset_spec(start_h as int, side as int),
{
    proof {
        assert(start_h * (TILE_SIZE as int) <= u64::MAX && side * (TILE_SIZE as int) <= u64::MAX
            && (start_h * (TILE_SIZE as int)) * (side * (TILE_SIZE as int)) <= u64::MAX && (start_h
            * (TILE_SIZE as int)) * (side * (TILE_SIZE as int)) * 4 <= u64::MAX)
            by (nonlinear_arith)
            requires
                0 <= start_h <= side,
                (side * (TILE_SIZE as int)) * (side * (TILE_SIZE as int)) * 4 <= u64::MAX,
                TILE_SIZE == 256,
        ;
    }
    let rows: u64 = start_h * (TILE_SIZE as u64);
    let w: u64 = side * (TILE_SIZE as u64);
    rows * w * BYTES_PER_SAMPLE
}

/// Byte length of the band `[start_h, end_h)`.
pub fn band_byte_len(start_h: u64, end_h: u64, side: u64) -> (n: u64)
    requires
        start_h <= end_h <= side,
        file_size_spec(side as int) <= u64::MAX,
    ensures
        n == band_byte_len_spec(start_h as int, end_h as int, side as int),
{
    proof {
        assert((end_h - start_h) * (TILE_SIZE as int) <= u64::MAX && side * (TILE_SIZE as int)
            <= u64::MAX && ((end_h - start_h) * (TILE_SIZE as int)) * (side * (TILE_SIZE as int))
            <= u64::MAX && ((end_h - start_h) * (TILE_SIZE as int)) * (side * (TILE_SIZE as int))
            * 4 <= u64::MAX) by (nonlinear_arith)
            requires
                0 <= start_h <= end_h <= side,
                (side * (TILE_SIZE as int)) * (side * (TILE_SIZE as int)) * 4 <= u64::MAX,
                TILE_SIZE == 256,
        ;
    }
    let rows: u64 = (end_h - start_h) * (TILE_SIZE as u64);
    let w: u64 = side * (TILE_SIZE as u64);
    rows * w * BYTES_PER_SAMPLE
}

/// The byte ranges of stacked bands are adjacent: the band `[start_h, mid_h)`
/// ends exactly where the band `[mid_h, end_h)` begins, the topmost band
/// begins at byte zero, and a band reaching the last tile row ends exactly at
/// the file size.
pub proof fn lemma_band_bytes_adjacent(start_h: int, mid_h: int, end_h: int, side: int)
    requires
        0 <= start_h <= mid_h <= end_h <= side,
    ensures
        band_byte_offset_spec(start_h, side) + band_byte_len_spec(start_h, mid_h, side)
            == band_byte_offset_spec(mid_h, side),
        band_byte_offset_spec(0, side) == 0,
        band_byte_offset_spec(side, side) == file_size_spec(side),
        band_byte_offset_spec(start_h, side) + band_byte_len_spec(start_h, end_h, side)
            == band_byte_offset_spec(end_h, side),
{
    let t = TILE_SIZE as int;
    assert((start_h * t) * (side * t) * 4 + ((mid_h - start_h) * t) * (side * t) * 4 == (mid_h * t)
        * (side * t) * 4) by (nonlinear_arith);
    assert((start_h * t) * (side * t) * 4 + ((end_h - start_h) * t) * (side * t) * 4 == (end_h * t)
        * (side * t) * 4) by (nonlinear_arith);
    assert((0 * t) * (side * t) * 4 == 0) by (nonlinear_arith);
}

/// The byte ranges that the partitioner assigns to two distinct workers never
/// intersect: the whole range of the lower rank ends at or before the higher
/// rank's range begins. The range of rank `r` is
/// `[band_byte_offset(band_start(r)), band_byte_offset(band_start(r)) +
/// band_byte_len(band_start(r), band_end(r)))`.
pub proof fn lemma_worker_ranges_disjoint(side: nat, worker_count: nat, r1: int, r2: int)
    requires
        is_pow2(worker_count),
        worker_count <= side,
        side % worker_count == 0,
        0 <= r1 < r2 < worker_count,
    ensures
        band_byte_offset_spec(band_start(side as int, worker_count as int, r1), side as int)
            + band_byte_len_spec(
            band_start(side as int, worker_count as int, r1),
            band_end(side as int, worker_count as int, r1),
            side as int,
        ) == band_byte_offset_spec(band_end(side as int, worker_count as int, r1), side as int),
        band_byte_offset_spec(band_end(side as int, worker_count as int, r1), side as int)
            <= band_byte_offset_spec(band_start(side as int, worker_count as int, r2), side as int),
{
    let s = side as int;
    let w = worker_count as int;
    let h = s / w;
    let t = TILE_SIZE as int;
    lemma_bands_partition(side, worker_count);
    assert(h >= 1);
    assert(band_end(s, w, r1) <= band_start(s, w, r2)) by {
        lemma_mul_inequality(r1 + 1, r2, h);
    }
    assert(0 <= r1 * h && (r1 + 1) * h <= w * h) by (nonlinear_arith)
        requires
            0 <= r1,
            r1 + 1 <= w,
            h >= 1,
    ;
    assert(w * h <= s) by {
        vstd::arithmetic::div_mod::lemma_fundamental_div_mod(s, w);
    }
    lemma_band_bytes_adjacent(band_start(s, w, r1), band_end(s, w, r1), band_end(s, w, r1), s);
    let a = band_end(s, w, r1);
    let b = band_start(s, w, r2);
    assert(b <= s) by {
        assert(r2 * h <= (r2 + 1) * h && (r2 + 1) * h <= w * h) by (nonlinear_arith)
            requires
                0 <= r2,
                r2 + 1 <= w,
                h >= 1,
        ;
    }
    assert((a * t) * (s * t) * 4 <= (b * t) * (s * t) * 4) by (nonlinear_arith)
        requires
            0 <= a <= b,
            s >= 0,
            t == 256,
    ;
}

} // verus!
