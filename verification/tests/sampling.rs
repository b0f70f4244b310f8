use svg_halftone::geom::Point;
use svg_halftone::sampling::{multi_sample_around_point, sample_point, PixelGrid};

fn solid(width: usize, height: usize, luma: u8, alpha: u8) -> PixelGrid {
    let rows = vec![vec![(luma, alpha); width]; height];
    PixelGrid::new(rows).expect("valid grid")
}

#[test]
fn pixel_grid_rejects_empty_and_ragged_input() {
    assert!(PixelGrid::new(Vec::new()).is_none());
    assert!(PixelGrid::new(vec![Vec::new()]).is_none());
    let ragged = vec![vec![(0u8, 0u8); 2], vec![(0u8, 0u8); 3]];
    assert!(PixelGrid::new(ragged).is_none());
}

#[test]
fn pixel_grid_accepts_a_rectangle() {
    let g = solid(3, 2, 10, 255);
    assert_eq!(g.width(), 3);
    assert_eq!(g.height(), 2);
    assert_eq!(g.pixel_at(2, 1), (10, 255));
}

#[test]
fn sample_point_reads_the_nearest_pixel() {
    // 2x2 image with distinct pixels; one output unit per pixel
    let rows = vec![
        vec![(10u8, 255u8), (20u8, 255u8)],
        vec![(30u8, 255u8), (40u8, 255u8)],
    ];
    let img = PixelGrid::new(rows).unwrap();
    let rr = 1_000;
    let s = sample_point(&img, rr, Point { x: 500, y: 500 });
    assert_eq!(s.num, 10 * 255);
    assert_eq!(s.den, 65_025);
    let s = sample_point(&img, rr, Point { x: 1_500, y: 500 });
    assert_eq!(s.num, 20 * 255);
    let s = sample_point(&img, rr, Point { x: 500, y: 1_500 });
    assert_eq!(s.num, 30 * 255);
}

#[test]
fn sample_point_clamps_beyond_every_edge() {
    let rows = vec![
        vec![(10u8, 255u8), (20u8, 255u8)],
        vec![(30u8, 255u8), (40u8, 255u8)],
    ];
    let img = PixelGrid::new(rows).unwrap();
    let rr = 1_000;
    // far beyond the right edge: same value as the edge pixel
    let beyond = sample_point(&img, rr, Point { x: 50_000, y: 500 });
    let edge = sample_point(&img, rr, Point { x: 1_500, y: 500 });
    assert_eq!(beyond, edge);
    assert_eq!(beyond.num, 20 * 255);
    // below the bottom edge
    let beyond = sample_point(&img, rr, Point { x: 500, y: 50_000 });
    assert_eq!(beyond.num, 30 * 255);
    // negative coordinates clamp to pixel 0
    let neg = sample_point(&img, rr, Point { x: -7_000, y: -3 });
    assert_eq!(neg.num, 10 * 255);
}

#[test]
fn intensity_multiplies_luma_and_alpha() {
    let img = solid(1, 1, 100, 51);
    let s = sample_point(&img, 1_000, Point { x: 0, y: 0 });
    assert_eq!(s.num, 100 * 51);
    assert_eq!(s.den, 65_025);
}

#[test]
fn multi_sample_averages_the_five_taps() {
    // 3x3 image: centre dark, cross arms bright
    let rows = vec![
        vec![(0u8, 255u8), (255u8, 255u8), (0u8, 255u8)],
        vec![(255u8, 255u8), (0u8, 255u8), (255u8, 255u8)],
        vec![(0u8, 255u8), (255u8, 255u8), (0u8, 255u8)],
    ];
    let img = PixelGrid::new(rows).unwrap();
    let rr = 1_000;
    // centre of the middle pixel, radius one pixel: four bright taps
    let s = multi_sample_around_point(&img, rr, Point { x: 1_500, y: 1_500 }, 1_000);
    assert_eq!(s.num, 4 * 255 * 255);
    assert_eq!(s.den, 325_125);
}

#[test]
fn multi_sample_of_a_solid_image_is_full_intensity() {
    let img = solid(2, 2, 255, 255);
    let s = multi_sample_around_point(&img, 1_000, Point { x: 1_000, y: 1_000 }, 450);
    assert_eq!(s.num, s.den);
}
