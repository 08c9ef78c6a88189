//! The elevation codec: one RGB pixel of a tile encodes one elevation sample.
//!
//! The three channels form a 24-bit code `x = r*65536 + g*256 + b` measured in
//! centimeters (the published unit is 0.01 meter per step). Codes below the
//! midpoint `2^23` are non-negative elevations, codes above it wrap around to
//! negative elevations, and the exact midpoint is the "no elevation data"
//! sentinel. The codec is pure and total over all byte triples.

use vstd::prelude::*;

verus! {

/// One decoded elevation sample, held exactly: either the no-data sentinel or
/// a signed number of centimeters in `(-2^23, 2^23)`.
#[derive(Clone, Copy, PartialEq, Eq, Structural, Debug)]
pub enum Elevation {
    NoData,
    Centimeters(i32),
}

/// The signed centimeter reading of a sample; the sentinel reads as zero.
pub open spec fn elev_cm(e: Elevation) -> int {
    match e {
        Elevation::NoData => 0,
        Elevation::Centimeters(c) => c as int,
    }
}

/// What a 24-bit elevation code means.
pub open spec fn decode_code(x: int) -> Elevation {
    if x < 0x80_0000 {
        Elevation::Centimeters(x as i32)
    } else if x > 0x80_0000 {
        Elevation::Centimeters((x - 0x100_0000) as i32)
    } else {
        Elevation::NoData
    }
}

/// The 24-bit code formed by one RGB pixel.
pub open spec fn pixel_code(r: u8, g: u8, b: u8) -> int {
    r as int * 65536 + g as int * 256 + b as int
}

/// Decode one RGB pixel to its elevation sample. Total over all inputs, and a
/// pure function of them: the result is pinned to `decode_code(pixel_code(..))`.
pub fn decode_pixel(r: u8, g: u8, b: u8) -> (e: Elevation)
    ensures
        e == decode_code(pixel_code(r, g, b)),
{
    let x: u32 = (r as u32) * 65536 + (g as u32) * 256 + (b as u32);
    if x < 0x80_0000 {
        Elevation::Centimeters(x as i32)
    } else if x > 0x80_0000 {
        Elevation::Centimeters((x as i32) - 0x100_0000)
    } else {
        Elevation::NoData
    }
}

/// Codes equally far below and above the no-data midpoint decode to data
/// samples whose centimeter readings are exact negatives of each other.
pub proof fn lemma_codec_mirror(d: int)
    requires
        1 <= d < 0x80_0000,
    ensures
        decode_code(0x80_0000 - d) is Centimeters,
        decode_code(0x80_0000 + d) is Centimeters,
        elev_cm(decode_code(0x80_0000 + d)) == -elev_cm(decode_code(0x80_0000 - d)),
{
}

} // verus!
