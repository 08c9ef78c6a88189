use elevgrid::assemble::assemble_band;
use elevgrid::assemble::WorkerBuffer;
use elevgrid::codec::Elevation;
use elevgrid::fetch::decode_tile_response;
use elevgrid::fetch::TileResponse;
use elevgrid::output::band_byte_len;
use elevgrid::output::band_byte_offset;
use elevgrid::output::file_size_bytes;
use elevgrid::partition::band;
use elevgrid::render::render_image;
use elevgrid::tile::Tile;
use elevgrid::TILE_SIZE;

fn solid_png(r: u8, g: u8, b: u8) -> Vec<u8> {
    let img = image::RgbImage::from_pixel(256, 256, image::Rgb([r, g, b]));
    let mut bytes: Vec<u8> = Vec::new();
    img.write_to(&mut std::io::Cursor::new(&mut bytes), image::ImageFormat::Png)
        .unwrap();
    bytes
}

fn elevation_to_f32(e: &Elevation) -> f32 {
    match e {
        Elevation::NoData => f32::MIN,
        Elevation::Centimeters(c) => ((*c as f64) * 0.01) as f32,
    }
}

fn serialize(buf: &WorkerBuffer) -> Vec<u8> {
    let mut out: Vec<u8> = Vec::with_capacity(buf.cells.len() * 4);
    for e in buf.cells.iter() {
        out.extend_from_slice(&elevation_to_f32(e).to_be_bytes());
    }
    out
}

fn mock_tiles(n: usize, body: &[u8]) -> Vec<Tile> {
    let tile = decode_tile_response(&TileResponse::Found(body.to_vec())).unwrap();
    let mut v: Vec<Tile> = Vec::new();
    for _ in 0..n {
        v.push(tile.clone());
    }
    v
}

#[test]
fn single_worker_full_run() {
    // side = 8 (zoom level 3), one worker, every tile a solid (0, 0, 100)
    // image: the output is full-size and every sample is 1.0 meters.
    let side = 8usize;
    let body = solid_png(0, 0, 100);
    let tiles = mock_tiles(side * side, &body);
    let buf = assemble_band(0, side, side, &tiles);
    let bytes = serialize(&buf);
    assert_eq!(bytes.len() as u64, file_size_bytes(side as u64));
    assert_eq!(bytes.len(), 8 * 256 * 8 * 256 * 4);
    let one = 1.0f32.to_be_bytes();
    for chunk in bytes.chunks_exact(4) {
        assert_eq!(chunk, one);
        assert_eq!(f32::from_be_bytes([chunk[0], chunk[1], chunk[2], chunk[3]]), 1.0f32);
    }
}

#[test]
fn two_workers_write_disjoint_halves_that_concatenate() {
    let side = 8u64;
    let body = solid_png(0, 1, 44);
    let (s0, e0) = band(side, 2, 0);
    let (s1, e1) = band(side, 2, 1);
    assert_eq!((s0, e0), (0, 4));
    assert_eq!((s1, e1), (4, 8));

    let full_size = file_size_bytes(side);
    let half_size = full_size / 2;

    // worker 0 owns exactly [0, half_size), worker 1 exactly [half_size, full_size)
    assert_eq!(band_byte_offset(s0, side), 0);
    assert_eq!(band_byte_len(s0, e0, side), half_size);
    assert_eq!(band_byte_offset(s1, side), half_size);
    assert_eq!(band_byte_offset(s1, side) + band_byte_len(s1, e1, side), full_size);

    let tiles0 = mock_tiles(((e0 - s0) * side) as usize, &body);
    let tiles1 = mock_tiles(((e1 - s1) * side) as usize, &body);
    let tiles_full = mock_tiles((side * side) as usize, &body);

    let lo = assemble_band(s0 as usize, e0 as usize, side as usize, &tiles0);
    let hi = assemble_band(s1 as usize, e1 as usize, side as usize, &tiles1);
    let full = assemble_band(0, side as usize, side as usize, &tiles_full);

    let lo_bytes = serialize(&lo);
    let hi_bytes = serialize(&hi);
    let full_bytes = serialize(&full);

    assert_eq!(lo_bytes.len() as u64, half_size);
    assert_eq!(hi_bytes.len() as u64, half_size);
    let mut joined = lo_bytes;
    joined.extend_from_slice(&hi_bytes);
    assert_eq!(joined, full_bytes);
}

#[test]
fn rendered_image_is_a_real_grayscale_encoding() {
    // one tile of samples at the reference maximum elevation: a white square
    let cells = vec![Elevation::Centimeters(884800); TILE_SIZE * TILE_SIZE];
    let buf = WorkerBuffer { start_h: 0, end_h: 1, side: 1, cells };
    let jpg = render_image(&buf);
    let decoded = image::load_from_memory(&jpg).unwrap().to_luma8();
    assert_eq!(decoded.dimensions(), (256, 256));
    // lossy encoding: near-white everywhere
    assert!(decoded.pixels().all(|p| p[0] >= 250));
}
