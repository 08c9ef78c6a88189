//! The grayscale visualization: every elevation sample becomes one 8-bit
//! intensity, scaled so that the reference maximum elevation (Everest,
//! 8848 meters) maps to full white.
//!
//! The intensity of a sample of `c` centimeters is `c * 255 / MAX_ELEVATION_CM`
//! rounded toward zero, clamped to the byte range; the no-data sentinel and
//! negative elevations fall below zero and clamp to black, exactly as the
//! out-of-range behavior of the scaling formula demands.

use crate::assemble::WorkerBuffer;
use crate::codec::Elevation;
use crate::TILE_SIZE;
use vstd::prelude::*;

verus! {

/// The reference maximum elevation, in centimeters: 8848 meters.
pub const MAX_ELEVATION_CM: u64 = 884800;

/// The 8-bit intensity of one elevation sample.
pub open spec fn normalize_spec(e: Elevation) -> u8 {
    match e {
        Elevation::NoData => 0u8,
        Elevation::Centimeters(c) => if c <= 0 {
            0u8
        } else if c as int * 255 / (MAX_ELEVATION_CM as int) >= 255 {
            255u8
        } else {
            (c as int * 255 / (MAX_ELEVATION_CM as int)) as u8
        },
    }
}

/// The grayscale rendering of a sample sequence, one intensity per sample.
pub open spec fn gray_of(cells: Seq<Elevation>) -> Seq<u8> {
    cells.map(|i: int, e: Elevation| normalize_spec(e))
}

/// Normalize one elevation sample to its 8-bit intensity. An elevation of
/// exactly `MAX_ELEVATION_CM` yields 255; zero, negative and no-data samples
/// yield 0.
pub fn normalize(e: Elevation) -> (b: u8)
    ensures
        b == normalize_spec(e),
{
    match e {
        Elevation::NoData => 0,
        Elevation::Centimeters(c) => {
            if c <= 0 {
                0
            } else {
                let q: u64 = (c as u64) * 255 / MAX_ELEVATION_CM;
                if q >= 255 {
                    255
                } else {
                    q as u8
                }
            }
        },
    }
}

/// Render a worker buffer to grayscale bytes, one byte per sample, in the
/// buffer's own row-major order.
pub fn render_gray(buf: &WorkerBuffer) -> (r: Vec<u8>)
    ensures
        r@ == gray_of(buf.cells@),
{
    let n: usize = buf.cells.len();
    let mut out: Vec<u8> = Vec::new();
    let mut i: usize = 0;
    while i < n
        invariant
            i <= n,
            n == buf.cells@.len(),
            out@.len() == i,
            forall|k: int| 0 <= k < i ==> out@[k] == normalize_spec(buf.cells@[k]),
        decreases n - i,
    {
        out.push(normalize(buf.cells[i]));
        i = i + 1;
    }
    proof {
        assert(out@ =~= gray_of(buf.cells@));
    }
    out
}

/// What the JPEG encoder emits for an 8-bit grayscale raster: a function of
/// the pixels and the dimensions alone.
pub uninterp spec fn jpeg_gray_of(pixels: Seq<u8>, width: nat, height: nat) -> Seq<u8>;

/// Relies on `image::codecs::jpeg::JpegEncoder::encode` with an in-memory
/// output buffer: the encoded stream is a function of the pixel bytes and the
/// dimensions alone. `encode` panics unless the buffer holds exactly
/// `width * height` bytes for 8-bit grayscale, and it fails only for
/// dimensions outside `1..=65535` (a write to a `Vec` cannot fail).
#[verifier::external_body]
fn encode_gray_jpeg(pixels: &Vec<u8>, width: u32, height: u32) -> (r: Option<Vec<u8>>)
    requires
        pixels@.len() == width * height,
    ensures
        r matches Some(j) ==> j@ == jpeg_gray_of(pixels@, width as nat, height as nat),
        (1 <= width <= 65535 && 1 <= height <= 65535) ==> r is Some,
{
    let mut out: Vec<u8> = Vec::new();
    let mut encoder = image::codecs::jpeg::JpegEncoder::new(&mut out);
    match encoder.encode(pixels.as_slice(), width, height, image::ExtendedColorType::L8) {
        Ok(()) => Some(out),
        Err(_) => None,
    }
}

/// Render a worker buffer as an encoded grayscale image of its own pixel
/// dimensions. The dimensions must fit the encoder's limit of 65535 pixels
/// per edge.
pub fn render_image(buf: &WorkerBuffer) -> (r: Vec<u8>)
    requires
        buf.wf(),
        1 <= buf.width_px() <= 65535,
        1 <= buf.height_px() <= 65535,
    ensures
        r@ == jpeg_gray_of(gray_of(buf.cells@), buf.width_px() as nat, buf.height_px() as nat),
{
    let pixels = render_gray(buf);
    let width: u32 = (buf.side * TILE_SIZE) as u32;
    let height: u32 = ((buf.end_h - buf.start_h) * TILE_SIZE) as u32;
    proof {
        assert(pixels@.len() == width * height) by (nonlinear_arith)
            requires
                pixels@.len() == buf.height_px() * buf.width_px(),
                width == buf.width_px(),
                height == buf.height_px(),
        ;
    }
    let encoded = encode_gray_jpeg(&pixels, width, height);
    match encoded {
        Some(j) => j,
        None => {
            proof {
                assert(false);
            }
            Vec::new()
        },
    }
}

} // verus!
