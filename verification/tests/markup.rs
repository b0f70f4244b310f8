use svg_halftone::svg::{
    black_on_white, circle, cut_paths, dec3, diamond, g, hex, rect, svg, white_on_black,
};

#[test]
fn dec3_renders_three_fraction_digits() {
    assert_eq!(dec3(12_345), "12.345");
    assert_eq!(dec3(450), "0.450");
    assert_eq!(dec3(-80), "-0.080");
    assert_eq!(dec3(0), "0.000");
    assert_eq!(dec3(100_000), "100.000");
    assert_eq!(dec3(-1_500), "-1.500");
}

#[test]
fn circle_markup_is_exact() {
    let e = circle(5_000, 5_000, 450);
    assert_eq!(
        e.to_markup(),
        "\n<circle cx=\"5.000\" cy=\"5.000\" r=\"0.450\"/>"
    );
}

#[test]
fn diamond_markup_lists_the_four_corners() {
    let e = diamond(1_000, 1_000, 500);
    assert_eq!(
        e.to_markup(),
        "\n<polygon points=\"1.000,0.500 1.500,1.000 1.000,1.500 0.500,1.000\"/>"
    );
}

#[test]
fn hex_markup_lists_the_six_corners() {
    // r = 1000: horizontal offset 866, vertical offset 500
    let e = hex(2_000, 2_000, 1_000);
    assert_eq!(
        e.to_markup(),
        "\n<polygon points=\"2.866,2.500 2.000,3.000 1.134,2.500 1.134,1.500 2.000,1.000 2.866,1.500 \"/>"
    );
}

#[test]
fn nested_elements_render_children_and_closing_tag() {
    let inner = circle(1_000, 1_000, 100);
    let group = g(vec![("fill", "white".to_string())], vec![inner]);
    assert_eq!(
        group.to_markup(),
        "\n<g fill=\"white\">\n<circle cx=\"1.000\" cy=\"1.000\" r=\"0.100\"/></g>"
    );
}

#[test]
fn empty_group_self_closes() {
    let group = g(Vec::new(), Vec::new());
    assert_eq!(group.to_markup(), "\n<g/>");
}

#[test]
fn builders_set_their_element_names() {
    assert_eq!(svg(Vec::new(), Vec::new()).name, "svg");
    assert_eq!(rect(Vec::new(), Vec::new()).name, "rect");
    assert_eq!(g(Vec::new(), Vec::new()).name, "g");
}

#[test]
fn cut_paths_wraps_samples_in_one_stroked_group() {
    let out = cut_paths(vec![circle(0, 0, 100)]);
    assert_eq!(out.len(), 1);
    assert_eq!(out[0].name, "g");
    assert_eq!(out[0].attributes[0], ("stroke-width", "0.002mm".to_string()));
    assert_eq!(out[0].attributes[1], ("stroke", "black".to_string()));
    assert_eq!(out[0].attributes[2], ("fill", "none".to_string()));
    assert_eq!(out[0].children.len(), 1);
}

#[test]
fn white_on_black_paints_a_dark_background() {
    let out = white_on_black(vec![circle(0, 0, 100)]);
    assert_eq!(out.len(), 2);
    assert_eq!(out[0].name, "rect");
    assert_eq!(out[0].attributes[2], ("fill", "black".to_string()));
    assert_eq!(out[1].name, "g");
    assert_eq!(out[1].attributes[0], ("fill", "white".to_string()));
    assert_eq!(out[1].children.len(), 1);
}

#[test]
fn black_on_white_paints_a_light_background() {
    let out = black_on_white(Vec::new());
    assert_eq!(out.len(), 2);
    assert_eq!(out[0].attributes[2], ("fill", "white".to_string()));
    assert_eq!(out[1].attributes[0], ("fill", "black".to_string()));
    assert_eq!(out[1].children.len(), 0);
}
