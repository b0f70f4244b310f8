use svg_halftone::geom::Point;
use svg_halftone::sampling::PixelGrid;
use svg_halftone::{create_halftone_svg, generate_samples, Grid, Options, Shape};

fn solid(width: usize, height: usize, luma: u8, alpha: u8) -> PixelGrid {
    let rows = vec![vec![(luma, alpha); width]; height];
    PixelGrid::new(rows).expect("valid grid")
}

#[test]
fn white_image_rect_layout_gives_full_size_circles() {
    // 2x2 solid white opaque image, rect layout, spacing one unit:
    // a 2x2 grid of points, every radius 0.45 units
    let img = solid(2, 2, 255, 255);
    let points = svg_halftone::grid::rect(2_000, 2_000, 1_000);
    assert_eq!(points.len(), 4);
    let descs = generate_samples(&img, 1_000, &points, Shape::Circle, 1_000, false);
    assert_eq!(descs.len(), 4);
    for d in &descs {
        assert_eq!(d.kind, Shape::Circle);
        assert_eq!(d.radius, 450);
    }
    assert_eq!(descs[0].center, Point { x: 500, y: 500 });
}

#[test]
fn transparent_image_gives_no_samples() {
    // alpha 0 everywhere: every radius is 0, below the threshold
    let img = solid(4, 3, 255, 0);
    let points = svg_halftone::grid::rect(8_000, 6_000, 1_000);
    assert!(points.len() > 0);
    for multi in [false, true] {
        let descs = generate_samples(&img, 2_000, &points, Shape::Hex, 1_000, multi);
        assert_eq!(descs.len(), 0);
    }
}

#[test]
fn radius_at_the_threshold_is_retained() {
    // spacing 20 units: max radius 9000 milli; luma 17, alpha 34 gives
    // 578 * 9000 / 65025 = exactly 80: retained
    let img = solid(1, 1, 17, 34);
    let points = vec![Point { x: 0, y: 0 }];
    let descs = generate_samples(&img, 1_000, &points, Shape::Circle, 20_000, false);
    assert_eq!(descs.len(), 1);
    assert_eq!(descs[0].radius, 80);
}

#[test]
fn radius_just_below_the_threshold_is_discarded() {
    // luma 17, alpha 33 gives 561 * 9000 / 65025 = 77.6 -> 77 < 80
    let img = solid(1, 1, 17, 33);
    let points = vec![Point { x: 0, y: 0 }];
    let descs = generate_samples(&img, 1_000, &points, Shape::Circle, 20_000, false);
    assert_eq!(descs.len(), 0);
}

#[test]
fn end_to_end_white_image_produces_four_full_circles() {
    let options = Options {
        image: solid(2, 2, 255, 255),
        output_width: 2_000,
        spacing: 1_000,
        shape: Shape::Circle,
        grid: Grid::Rect,
        invert: false,
        cut_paths: false,
        multi_sample: false,
    };
    let root = create_halftone_svg(options);
    assert_eq!(root.name, "svg");
    assert_eq!(root.attributes[0], ("width", "2.000mm".to_string()));
    assert_eq!(root.attributes[1], ("height", "2.000mm".to_string()));
    assert_eq!(root.attributes[2], ("viewBox", "0 0 2.000 2.000".to_string()));
    assert_eq!(
        root.attributes[3],
        ("xmlns", "http://www.w3.org/2000/svg".to_string())
    );
    // white on black: background rect, then the sample group
    assert_eq!(root.children.len(), 2);
    assert_eq!(root.children[0].name, "rect");
    let group = &root.children[1];
    assert_eq!(group.name, "g");
    assert_eq!(group.attributes[0], ("fill", "white".to_string()));
    assert_eq!(group.children.len(), 4);
    for c in &group.children {
        assert_eq!(c.name, "circle");
        assert_eq!(c.attributes[2], ("r", "0.450".to_string()));
    }
}

#[test]
fn end_to_end_markup_is_exact() {
    let options = Options {
        image: solid(2, 2, 255, 255),
        output_width: 2_000,
        spacing: 1_000,
        shape: Shape::Circle,
        grid: Grid::Rect,
        invert: false,
        cut_paths: false,
        multi_sample: false,
    };
    let root = create_halftone_svg(options);
    let expected = "\n<svg width=\"2.000mm\" height=\"2.000mm\" viewBox=\"0 0 2.000 2.000\" xmlns=\"http://www.w3.org/2000/svg\">\n<rect width=\"100%\" height=\"100%\" fill=\"black\"/>\n<g fill=\"white\">\n<circle cx=\"0.500\" cy=\"0.500\" r=\"0.450\"/>\n<circle cx=\"0.500\" cy=\"1.500\" r=\"0.450\"/>\n<circle cx=\"1.500\" cy=\"0.500\" r=\"0.450\"/>\n<circle cx=\"1.500\" cy=\"1.500\" r=\"0.450\"/></g></svg>";
    assert_eq!(root.to_markup(), expected);
}

#[test]
fn end_to_end_transparent_image_produces_no_shapes() {
    let options = Options {
        image: solid(5, 4, 200, 0),
        output_width: 10_000,
        spacing: 1_000,
        shape: Shape::Diamond,
        grid: Grid::Diamond,
        invert: false,
        cut_paths: false,
        multi_sample: true,
    };
    let root = create_halftone_svg(options);
    assert_eq!(root.children.len(), 2);
    assert_eq!(root.children[1].children.len(), 0);
}

#[test]
fn invert_flag_swaps_the_palette() {
    let options = Options {
        image: solid(2, 2, 255, 255),
        output_width: 2_000,
        spacing: 1_000,
        shape: Shape::Circle,
        grid: Grid::Rect,
        invert: true,
        cut_paths: false,
        multi_sample: false,
    };
    let root = create_halftone_svg(options);
    assert_eq!(root.children[0].attributes[2], ("fill", "white".to_string()));
    assert_eq!(root.children[1].attributes[0], ("fill", "black".to_string()));
}

#[test]
fn cut_paths_output_has_no_background() {
    let options = Options {
        image: solid(2, 2, 255, 255),
        output_width: 2_000,
        spacing: 1_000,
        shape: Shape::Hex,
        grid: Grid::Hex,
        invert: false,
        cut_paths: true,
        multi_sample: false,
    };
    let root = create_halftone_svg(options);
    assert_eq!(root.children.len(), 1);
    assert_eq!(root.children[0].name, "g");
    assert_eq!(root.children[0].attributes[2], ("fill", "none".to_string()));
}

#[test]
fn poisson_layout_end_to_end_keeps_shapes_inside_the_area() {
    let options = Options {
        image: solid(10, 10, 255, 255),
        output_width: 50_000,
        spacing: 5_000,
        shape: Shape::Circle,
        grid: Grid::Poisson,
        invert: false,
        cut_paths: false,
        multi_sample: true,
    };
    let root = create_halftone_svg(options);
    let group = &root.children[1];
    assert!(group.children.len() >= 1);
    for c in &group.children {
        assert_eq!(c.name, "circle");
    }
}

#[test]
fn shape_parses_from_its_name() {
    assert_eq!(Shape::from_str("circle"), Ok(Shape::Circle));
    assert_eq!(Shape::from_str("hex"), Ok(Shape::Hex));
    assert_eq!(Shape::from_str("diamond"), Ok(Shape::Diamond));
    assert_eq!(
        Shape::from_str("blob"),
        Err("no shape type named 'blob'".to_string())
    );
}

#[test]
fn grid_parses_from_its_name() {
    assert_eq!(Grid::from_str("rect"), Ok(Grid::Rect));
    assert_eq!(Grid::from_str("hex"), Ok(Grid::Hex));
    assert_eq!(Grid::from_str("diamond"), Ok(Grid::Diamond));
    assert_eq!(Grid::from_str("poisson"), Ok(Grid::Poisson));
    assert_eq!(
        Grid::from_str("spiral"),
        Err("no grid type named 'spiral'".to_string())
    );
}

#[test]
fn shape_and_grid_default_to_each_other() {
    assert_eq!(Shape::from(Grid::Rect), Shape::Circle);
    assert_eq!(Shape::from(Grid::Poisson), Shape::Circle);
    assert_eq!(Shape::from(Grid::Hex), Shape::Hex);
    assert_eq!(Grid::from(Shape::Diamond), Grid::Diamond);
    assert_eq!(Grid::from(Shape::Circle), Grid::Rect);
}
