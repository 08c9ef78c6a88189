//! Turning one tile-server response into one decoded tile.
//!
//! The transport's verdict arrives as a [`TileResponse`]: either the body
//! bytes of a successful fetch, or the clean "tile does not exist" outcome. A
//! missing tile is legitimate "no elevation data here" and yields a tile full
//! of the no-data sentinel; body bytes are decoded as an image and every RGB
//! pixel is put through the elevation codec. A body that is not a well-formed
//! image of the expected dimensions is a fault, never a no-data tile.

use crate::codec::decode_code;
use crate::codec::decode_pixel;
use crate::codec::pixel_code;
use crate::codec::Elevation;
use crate::tile::no_data_tile;
use crate::tile::Tile;
use crate::TILE_PIXELS;
use crate::TILE_SIZE;
use vstd::prelude::*;

verus! {

/// One outcome of the tile transport: the body of a successful fetch, or the
/// server's affirmative "no such tile".
pub enum TileResponse {
    Found(Vec<u8>),
    NotFound,
}

/// A fault while turning a fetched body into a tile. Faults are fatal to the
/// worker; they are never converted into no-data tiles.
#[derive(Clone, Copy, PartialEq, Eq, Structural, Debug)]
pub enum FetchError {
    /// The body could not be decoded as an image.
    MalformedImage,
    /// The body decoded to an image that is not `TILE_SIZE` by `TILE_SIZE`.
    WrongDimensions,
}

/// An image decoded to 8-bit RGB: its pixel dimensions and its samples,
/// row-major, three bytes per pixel.
pub struct RgbSamples {
    pub width: u32,
    pub height: u32,
    pub samples: Vec<u8>,
}

/// What the image codec yields for a byte stream: `None` when the bytes are
/// not a decodable image, otherwise the width, height and RGB samples. The
/// result is a function of the bytes alone.
pub uninterp spec fn rgb8_of(bytes: Seq<u8>) -> Option<(nat, nat, Seq<u8>)>;

/// Relies on `image::load_from_memory` (format auto-detection and decoding,
/// a pure function of the bytes) and `image::DynamicImage::to_rgb8` /
/// `ImageBuffer::into_raw`: the returned container holds at least
/// `width * height` pixels of three bytes each, row-major.
#[verifier::external_body]
fn decode_rgb8(bytes: &Vec<u8>) -> (r: Option<RgbSamples>)
    ensures
        r is Some <==> rgb8_of(bytes@) is Some,
        r matches Some(d) ==> rgb8_of(bytes@) matches Some(t) && d.width as nat == t.0
            && d.height as nat == t.1 && d.samples@ == t.2 && t.2.len() >= 3 * t.0 * t.1,
{
    match image::load_from_memory(bytes.as_slice()) {
        Ok(img) => {
            let rgb = img.to_rgb8();
            let width = rgb.width();
            let height = rgb.height();
            Some(RgbSamples { width, height, samples: rgb.into_raw() })
        },
        Err(_) => None,
    }
}

/// The elevation sample encoded by pixel `i` of a row-major RGB sample stream.
pub open spec fn sample_elevation(samples: Seq<u8>, i: int) -> Elevation {
    decode_code(pixel_code(samples[3 * i], samples[3 * i + 1], samples[3 * i + 2]))
}

/// Decode every pixel of a `TILE_SIZE` by `TILE_SIZE` RGB image through the
/// elevation codec, in row-major pixel order.
pub fn tile_from_rgb(d: &RgbSamples) -> (t: Tile)
    requires
        d.width == TILE_SIZE,
        d.height == TILE_SIZE,
        d.samples@.len() >= 3 * TILE_PIXELS,
    ensures
        t.wf(),
        forall|i: int| 0 <= i < TILE_PIXELS ==> t.cells@[i] == sample_elevation(d.samples@, i),
{
    let mut cells: Vec<Elevation> = Vec::new();
    let mut i: usize = 0;
    while i < TILE_PIXELS
        invariant
            i <= TILE_PIXELS,
            cells@.len() == i,
            d.samples@.len() >= 3 * TILE_PIXELS,
            forall|k: int| 0 <= k < i ==> cells@[k] == sample_elevation(d.samples@, k),
        decreases TILE_PIXELS - i,
    {
        let r = d.samples[3 * i];
        let g = d.samples[3 * i + 1];
        let b = d.samples[3 * i + 2];
        cells.push(decode_pixel(r, g, b));
        i = i + 1;
    }
    Tile { cells }
}

/// Turn one transport outcome into one tile.
///
/// A clean "no such tile" yields a full tile of no-data sentinels. A fetched
/// body must decode to a `TILE_SIZE` by `TILE_SIZE` image; then every pixel
/// goes through the elevation codec, row-major. Anything else is an error,
/// exactly as stated: an undecodable body is `MalformedImage`, a decodable
/// one of other dimensions is `WrongDimensions`.
pub fn decode_tile_response(resp: &TileResponse) -> (r: Result<Tile, FetchError>)
    ensures
        resp is NotFound ==> (r matches Ok(t) && t.wf() && forall|i: int|
            0 <= i < TILE_PIXELS ==> t.cells@[i] == Elevation::NoData),
        resp matches TileResponse::Found(b) ==> (rgb8_of(b@) is None ==> r == Err::<
            Tile,
            FetchError,
        >(FetchError::MalformedImage)),
        resp matches TileResponse::Found(b) ==> (rgb8_of(b@) matches Some(d) ==> (!(d.0
            == TILE_SIZE && d.1 == TILE_SIZE) ==> r == Err::<Tile, FetchError>(
            FetchError::WrongDimensions,
        ))),
        resp matches TileResponse::Found(b) ==> (rgb8_of(b@) matches Some(d) ==> ((d.0 == TILE_SIZE
            && d.1 == TILE_SIZE) ==> (r matches Ok(t) && t.wf() && forall|i: int|
            0 <= i < TILE_PIXELS ==> t.cells@[i] == sample_elevation(d.2, i)))),
{
    match resp {
        TileResponse::NotFound => Ok(no_data_tile()),
        TileResponse::Found(bytes) => {
            match decode_rgb8(bytes) {
                None => Err(FetchError::MalformedImage),
                Some(d) => {
                    if d.width as usize == TILE_SIZE && d.height as usize == TILE_SIZE {
                        proof {
                            let t = rgb8_of(bytes@).unwrap();
                            assert(t.0 == 256 && t.1 == 256);
                            assert(t.2.len() >= 3 * 256 * 256);
                            assert(d.samples@ == t.2);
                            assert(d.samples@.len() >= 3 * TILE_PIXELS);
                        }
                        Ok(tile_from_rgb(&d))
                    } else {
                        Err(FetchError::WrongDimensions)
                    }
                },
            }
        },
    }
}

} // verus!
