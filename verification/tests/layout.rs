use svg_halftone::geom::{min_distance_respected, Point};
use svg_halftone::grid::{diamond, hex, rect};
use svg_halftone::poisson::poisson;

// Coordinates are milli-units: layout(100, 100, 10) in output units is
// rect(100_000, 100_000, 10_000) here.

#[test]
fn rect_tiling_count_is_exact_when_dimensions_divide_evenly() {
    let points = rect(100_000, 100_000, 10_000);
    assert_eq!(points.len(), 100);
}

#[test]
fn rect_tiling_centers_cells() {
    let points = rect(100_000, 100_000, 10_000);
    // first cell: x*s - s/2 = 10_000 - 5_000 = 5_000 (0.5 units * 10)
    assert_eq!(points[0], Point { x: 5_000, y: 5_000 });
    // last cell of the first column
    assert_eq!(points[9], Point { x: 5_000, y: 95_000 });
    assert_eq!(points[99], Point { x: 95_000, y: 95_000 });
}

#[test]
fn rect_tiling_is_deterministic() {
    let a = rect(100_000, 100_000, 10_000);
    let b = rect(100_000, 100_000, 10_000);
    assert_eq!(a, b);
}

#[test]
fn hex_tiling_is_deterministic() {
    let a = hex(100_000, 100_000, 10_000);
    let b = hex(100_000, 100_000, 10_000);
    assert_eq!(a, b);
}

#[test]
fn diamond_tiling_is_deterministic() {
    let a = diamond(100_000, 100_000, 10_000);
    let b = diamond(100_000, 100_000, 10_000);
    assert_eq!(a, b);
}

#[test]
fn hex_tiling_skips_last_column_on_odd_rows() {
    // spacing 10 units: sy = 8_660, 11 rows, 10 columns; rows 1, 3, 5,
    // 7, 9 and 11 drop their last cell: 110 - 6 = 104 points.
    let points = hex(100_000, 100_000, 10_000);
    assert_eq!(points.len(), 104);
}

#[test]
fn hex_tiling_shifts_odd_rows_by_half_a_column() {
    let points = hex(100_000, 100_000, 10_000);
    // first point sits on row 1 (odd): shifted right by s/2
    let first = points[0];
    assert_eq!(first.x, 10_000 - 5_000 + 5_000);
}

#[test]
fn spacing_larger_than_area_gives_empty_layout() {
    assert_eq!(rect(5_000, 5_000, 10_000).len(), 0);
    assert_eq!(hex(5_000, 5_000, 10_000).len(), 0);
    assert_eq!(diamond(5_000, 5_000, 10_000).len(), 0);
    assert_eq!(poisson(5_000, 5_000, 10_000).len(), 0);
}

#[test]
fn diamond_tiling_row_pitch_is_half_the_spacing() {
    let points = diamond(100_000, 100_000, 10_000);
    // column 1 holds rows at vertical pitch 5_000
    let col1: Vec<_> = points.iter().filter(|p| p.x < 15_000).collect();
    for pair in col1.windows(2) {
        assert_eq!(pair[1].y - pair[0].y, 5_000);
    }
}

#[test]
fn row_count_correction_rebalances_tight_margins() {
    // diamond at spacing 10 units on a 100 x 52 area: 10 rows of pitch
    // 5 would leave only a 2-unit leftover; half a pitch plus half of
    // that falls short of half the spacing, so one row is dropped and
    // its pitch returned to the margin: 9 rows, 5 of them odd and one
    // cell short
    let points = diamond(100_000, 52_000, 10_000);
    assert_eq!(points.len(), 10 * 9 - 5);
    // first point: odd row, shifted by half a column; vertical margin
    // now (2 + 5) / 2 units
    assert_eq!(points[0], Point { x: 10_000, y: 6_000 });
}

#[test]
fn poisson_respects_minimum_distance() {
    // statistical output: assert the invariant, not exact coordinates
    let spacing = 5_000;
    let points = poisson(50_000, 50_000, spacing);
    assert!(points.len() >= 1);
    assert!(min_distance_respected(&points, spacing));
    for p in &points {
        assert!(p.x >= spacing / 2 && p.x <= 50_000 - spacing / 2);
        assert!(p.y >= spacing / 2 && p.y <= 50_000 - spacing / 2);
    }
}

#[test]
fn poisson_runs_differ_but_both_keep_the_invariant() {
    let a = poisson(50_000, 50_000, 5_000);
    let b = poisson(50_000, 50_000, 5_000);
    assert!(min_distance_respected(&a, 5_000));
    assert!(min_distance_respected(&b, 5_000));
}

#[test]
fn min_distance_boundary_is_inclusive() {
    // a near-equilateral triangle: two sides exactly r, one side just
    // over r: all pairs valid
    let r = 1_000;
    let valid = vec![
        Point { x: 0, y: 0 },
        Point { x: 1_000, y: 0 },
        Point { x: 500, y: 867 },
    ];
    assert!(min_distance_respected(&valid, r));
    // pulling the apex one milli-unit down puts two pairs just under r
    let too_close = vec![
        Point { x: 0, y: 0 },
        Point { x: 1_000, y: 0 },
        Point { x: 500, y: 866 },
    ];
    assert!(!min_distance_respected(&too_close, r));
}

#[test]
fn two_points_at_exactly_the_minimum_distance_are_both_valid() {
    let pts = vec![Point { x: 0, y: 0 }, Point { x: 1_000, y: 0 }];
    assert!(min_distance_respected(&pts, 1_000));
    assert!(!min_distance_respected(&pts, 1_001));
}
