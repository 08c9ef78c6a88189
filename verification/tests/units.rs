use elevgrid::codec::decode_pixel;
use elevgrid::codec::Elevation;
use elevgrid::fetch::decode_tile_response;
use elevgrid::fetch::FetchError;
use elevgrid::fetch::TileResponse;
use elevgrid::output::band_byte_len;
use elevgrid::output::band_byte_offset;
use elevgrid::output::file_size_bytes;
use elevgrid::partition::band;
use elevgrid::partition::check_config;
use elevgrid::partition::is_power_of_two;
use elevgrid::partition::ConfigError;
use elevgrid::process_group::mpi_init;
use elevgrid::render::normalize;
use elevgrid::render::render_gray;
use elevgrid::tile::no_data_tile;
use elevgrid::assemble::WorkerBuffer;
use elevgrid::TILE_PIXELS;

fn solid_png(r: u8, g: u8, b: u8, w: u32, h: u32) -> Vec<u8> {
    let img = image::RgbImage::from_pixel(w, h, image::Rgb([r, g, b]));
    let mut bytes: Vec<u8> = Vec::new();
    img.write_to(&mut std::io::Cursor::new(&mut bytes), image::ImageFormat::Png)
        .unwrap();
    bytes
}

#[test]
fn decode_pixel_is_deterministic() {
    let triples = [(0u8, 0u8, 0u8), (128, 0, 0), (127, 255, 255), (128, 0, 1), (1, 2, 3), (255, 255, 255)];
    for (r, g, b) in triples {
        assert_eq!(decode_pixel(r, g, b), decode_pixel(r, g, b));
    }
}

#[test]
fn decode_pixel_reference_values() {
    // x = 0
    assert_eq!(decode_pixel(0, 0, 0), Elevation::Centimeters(0));
    // x = 2^23, the midpoint: no data
    assert_eq!(decode_pixel(128, 0, 0), Elevation::NoData);
    // x = 2^23 - 1 and x = 2^23 + 1: negatives of each other
    assert_eq!(decode_pixel(127, 255, 255), Elevation::Centimeters(8388607));
    assert_eq!(decode_pixel(128, 0, 1), Elevation::Centimeters(-8388607));
    // in meters: +/- 83886.07, up to float rounding
    let up = (8388607f64 * 0.01) as f32;
    let down = (-8388607f64 * 0.01) as f32;
    assert!((up - 83886.07f32).abs() < 0.01);
    assert!((down + 83886.07f32).abs() < 0.01);
    // a plain positive elevation: 1 meter
    assert_eq!(decode_pixel(0, 0, 100), Elevation::Centimeters(100));
}

#[test]
fn power_of_two_check() {
    assert!(is_power_of_two(1));
    assert!(is_power_of_two(2));
    assert!(is_power_of_two(8));
    assert!(is_power_of_two(1024));
    assert!(!is_power_of_two(0));
    assert!(!is_power_of_two(3));
    assert!(!is_power_of_two(6));
    assert!(!is_power_of_two(12));
}

#[test]
fn config_rejects_bad_worker_counts() {
    assert_eq!(check_config(8, 3), Err(ConfigError::WorkerCountNotPowerOfTwo));
    assert_eq!(check_config(8, 0), Err(ConfigError::WorkerCountNotPowerOfTwo));
    assert_eq!(check_config(8, 6), Err(ConfigError::WorkerCountNotPowerOfTwo));
    assert_eq!(check_config(8, 16), Err(ConfigError::WorkerCountExceedsSide));
    assert_eq!(check_config(8, 1), Ok(()));
    assert_eq!(check_config(8, 2), Ok(()));
    assert_eq!(check_config(8, 8), Ok(()));
}

#[test]
fn bands_cover_the_grid() {
    let side = 8u64;
    for wc in [1u64, 2, 4, 8] {
        let height = side / wc;
        let mut next = 0u64;
        for rank in 0..wc {
            let (s, e) = band(side, wc, rank);
            assert_eq!(s, next);
            assert_eq!(e - s, height);
            next = e;
        }
        assert_eq!(next, side);
    }
}

#[test]
fn band_values_for_two_workers() {
    assert_eq!(band(8, 2, 0), (0, 4));
    assert_eq!(band(8, 2, 1), (4, 8));
    assert_eq!(band(8, 1, 0), (0, 8));
}

#[test]
fn not_found_yields_all_no_data() {
    let t = decode_tile_response(&TileResponse::NotFound).unwrap();
    assert_eq!(t.cells.len(), TILE_PIXELS);
    assert!(t.cells.iter().all(|e| *e == Elevation::NoData));
    let fresh = no_data_tile();
    assert_eq!(fresh.cells.len(), TILE_PIXELS);
    assert!(fresh.cells.iter().all(|e| *e == Elevation::NoData));
}

#[test]
fn found_body_is_decoded_per_pixel() {
    let body = solid_png(0, 0, 100, 256, 256);
    let t = decode_tile_response(&TileResponse::Found(body)).unwrap();
    assert_eq!(t.cells.len(), TILE_PIXELS);
    assert!(t.cells.iter().all(|e| *e == Elevation::Centimeters(100)));
}

#[test]
fn malformed_body_is_an_error() {
    let body = vec![1u8, 2, 3, 4, 5];
    let r = decode_tile_response(&TileResponse::Found(body));
    assert!(matches!(r, Err(FetchError::MalformedImage)));
}

#[test]
fn wrong_dimensions_are_an_error() {
    let body = solid_png(0, 0, 100, 10, 10);
    let r = decode_tile_response(&TileResponse::Found(body));
    assert!(matches!(r, Err(FetchError::WrongDimensions)));
}

#[test]
fn output_layout_values() {
    // side = 8: 2048 x 2048 pixels, 4 bytes each
    assert_eq!(file_size_bytes(8), 8 * 256 * 8 * 256 * 4);
    assert_eq!(band_byte_offset(0, 8), 0);
    assert_eq!(band_byte_offset(4, 8), 8 * 256 * 8 * 256 * 4 / 2);
    assert_eq!(band_byte_offset(8, 8), 8 * 256 * 8 * 256 * 4);
    assert_eq!(band_byte_len(0, 4, 8), 8 * 256 * 8 * 256 * 4 / 2);
    assert_eq!(band_byte_len(4, 8, 8), 8 * 256 * 8 * 256 * 4 / 2);
    assert_eq!(band_byte_len(0, 8, 8), 8 * 256 * 8 * 256 * 4);
}

#[test]
fn normalization_reference_values() {
    // 8848 m maps to full white, 0 m to black
    assert_eq!(normalize(Elevation::Centimeters(884800)), 255);
    assert_eq!(normalize(Elevation::Centimeters(0)), 0);
    assert_eq!(normalize(Elevation::NoData), 0);
    assert_eq!(normalize(Elevation::Centimeters(-500)), 0);
    assert_eq!(normalize(Elevation::Centimeters(999999)), 255);
    // 4424 m is exactly half the scale: 127.5, rounded toward zero
    assert_eq!(normalize(Elevation::Centimeters(442400)), 127);
    // 1 m: 100 * 255 / 884800 = 0.028..., rounds to 0
    assert_eq!(normalize(Elevation::Centimeters(100)), 0);
}

#[test]
fn gray_rendering_maps_every_sample() {
    let cells = vec![
        Elevation::NoData,
        Elevation::Centimeters(884800),
        Elevation::Centimeters(0),
        Elevation::Centimeters(442400),
    ];
    let buf = WorkerBuffer { start_h: 0, end_h: 0, side: 0, cells };
    let gray = render_gray(&buf);
    assert_eq!(gray, vec![0u8, 255, 0, 127]);
}

#[test]
fn degenerate_process_group() {
    assert_eq!(mpi_init(), (1, 0));
}
