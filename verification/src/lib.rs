//! Halftone sample generation: turns a raster image into a pattern of
//! shapes (circles, hexagons, diamonds) whose size encodes local image
//! intensity, laid out on a regular or blue-noise point distribution,
//! and serialized as vector markup.
//!
//! All output-space lengths and coordinates are fixed-point integers in
//! thousandths of an output unit ("milli-units"), so that the geometry
//! and the acceptance rules can be stated and checked exactly.
use vstd::prelude::*;

pub mod geom;
pub mod grid;
pub mod options;
pub mod poisson;
pub mod sampling;
pub mod svg;

pub use options::Grid;
pub use options::Options;
pub use options::Shape;
pub use sampling::PixelGrid;
pub use svg::Element;

use crate::geom::Point;
use crate::geom::min_dist_ok;
use crate::sampling::spec_sample_point;
use crate::sampling::spec_multi_sample;
use crate::sampling::sample_point;
use crate::sampling::multi_sample_around_point;
use crate::sampling::Intensity;
use crate::svg::spec_dec3;

verus! {

/// Fixed-point scale: coordinate values count thousandths of an output unit.
pub const SCALE: i64 = 1000;

/// Machine bound on dimensions and spacing (milli-units), so that all
/// coordinate arithmetic stays well inside `i64`.
pub const DIM_LIMIT: i64 = 100_000_000;

/// The smallest radius still emitted: 0.08 output units. A sample whose
/// radius comes out below this is discarded; one at exactly this radius
/// is kept.
pub const MIN_RADIUS: i64 = 80;

/// One drawable halftone sample: a shape kind, its centre, and a radius
/// that is never below the visibility threshold.
#[derive(Clone, Copy, PartialEq, Eq, Structural, Debug)]
pub struct ShapeDescriptor {
    pub kind: Shape,
    pub center: Point,
    pub radius: i64,
}

/// The largest radius a sample may take: 45% of the spacing, leaving a
/// visible gap between adjacent maximum-size shapes.
pub open spec fn spec_max_radius(spacing: int) -> int {
    spacing * 45 / 100
}

/// The intensity estimate for one point as a fraction (num, den):
/// a single nearest-pixel lookup, or the five-tap cross average.
pub open spec fn spec_intensity(
    img: PixelGrid,
    rr: int,
    p: Point,
    multi: bool,
    max_radius: i64,
) -> (int, int) {
    if multi {
        (spec_multi_sample(img, rr, p, max_radius), 325125)
    } else {
        (spec_sample_point(img, rr, p), 65025)
    }
}

/// The radius a sample gets: its intensity fraction of the maximum.
pub open spec fn spec_radius(num: int, den: int, max_radius: int) -> int {
    num * max_radius / den
}

/// The descriptors generated for a point sequence, in layout order:
/// each point's intensity scales the maximum radius, and points whose
/// radius falls below `MIN_RADIUS` are dropped.
pub open spec fn spec_descriptors(
    img: PixelGrid,
    rr: int,
    points: Seq<Point>,
    shape: Shape,
    spacing: i64,
    multi: bool,
) -> Seq<ShapeDescriptor>
    decreases points.len(),
{
    if points.len() == 0 {
        Seq::empty()
    } else {
        let rest = spec_descriptors(img, rr, points.drop_last(), shape, spacing, multi);
        let p = points.last();
        let mr = spec_max_radius(spacing as int);
        let num = spec_intensity(img, rr, p, multi, mr as i64).0;
        let den = spec_intensity(img, rr, p, multi, mr as i64).1;
        let radius = spec_radius(num, den, mr);
        if radius < MIN_RADIUS {
            rest
        } else {
            rest.push(ShapeDescriptor { kind: shape, center: p, radius: radius as i64 })
        }
    }
}

/// Turns layout points into shape descriptors: estimates each point's
/// intensity, scales the maximum radius by it, and keeps every sample
/// whose radius reaches the visibility threshold, in layout order.
pub fn generate_samples(
    img: &PixelGrid,
    resolution_ratio: i64,
    points: &Vec<Point>,
    shape: Shape,
    spacing: i64,
    multi_sample: bool,
) -> (r: Vec<ShapeDescriptor>)
    requires
        img.wf(),
        1 <= resolution_ratio,
        1 <= spacing <= DIM_LIMIT,
        forall|i: int|
            0 <= i < points@.len() ==> -2 * DIM_LIMIT <= (#[trigger] points@[i]).x <= 2 * DIM_LIMIT
                && -2 * DIM_LIMIT <= points@[i].y <= 2 * DIM_LIMIT,
    ensures
        r@ == spec_descriptors(
            *img,
            resolution_ratio as int,
            points@,
            shape,
            spacing,
            multi_sample,
        ),
        forall|i: int|
            0 <= i < r@.len() ==> (#[trigger] r@[i]).radius >= MIN_RADIUS && r@[i].kind == shape,
        forall|i: int|
            0 <= i < r@.len() ==> MIN_RADIUS <= (#[trigger] r@[i]).radius <= DIM_LIMIT && -2
                * DIM_LIMIT <= r@[i].center.x <= 2 * DIM_LIMIT && -2 * DIM_LIMIT <= r@[i].center.y
                <= 2 * DIM_LIMIT,
{
    let max_radius: i64 = spacing * 45 / 100;
    proof {
        vstd::arithmetic::div_mod::lemma_div_pos_is_pos(spacing * 45, 100);
        vstd::arithmetic::div_mod::lemma_div_nonincreasing(spacing * 45, 100);
    }
    let mut result: Vec<ShapeDescriptor> = Vec::new();
    let mut i: usize = 0;
    while i < points.len()
        invariant
            img.wf(),
            1 <= resolution_ratio,
            1 <= spacing <= DIM_LIMIT,
            0 <= max_radius <= DIM_LIMIT,
            max_radius == spec_max_radius(spacing as int),
            forall|k: int|
                0 <= k < points@.len() ==> -2 * DIM_LIMIT <= (#[trigger] points@[k]).x <= 2
                    * DIM_LIMIT && -2 * DIM_LIMIT <= points@[k].y <= 2 * DIM_LIMIT,
            i <= points@.len(),
            result@ == spec_descriptors(
                *img,
                resolution_ratio as int,
                points@.take(i as int),
                shape,
                spacing,
                multi_sample,
            ),
            forall|k: int|
                0 <= k < result@.len() ==> (#[trigger] result@[k]).radius >= MIN_RADIUS
                    && result@[k].kind == shape,
            forall|k: int|
                0 <= k < result@.len() ==> MIN_RADIUS <= (#[trigger] result@[k]).radius
                    <= DIM_LIMIT && -2 * DIM_LIMIT <= result@[k].center.x <= 2 * DIM_LIMIT && -2
                    * DIM_LIMIT <= result@[k].center.y <= 2 * DIM_LIMIT,
        decreases points@.len() - i,
    {
        let p = points[i];
        let intensity: Intensity = if multi_sample {
            multi_sample_around_point(img, resolution_ratio, p, max_radius)
        } else {
            sample_point(img, resolution_ratio, p)
        };
        proof {
            assert(intensity.num * max_radius <= 325125 * (DIM_LIMIT as int)) by (nonlinear_arith)
                requires
                    0 <= intensity.num <= 325125,
                    0 <= max_radius <= DIM_LIMIT,
            ;
            assert(intensity.num * max_radius >= 0) by (nonlinear_arith)
                requires
                    0 <= intensity.num,
                    0 <= max_radius,
            ;
            vstd::arithmetic::div_mod::lemma_div_pos_is_pos(
                intensity.num as int * max_radius as int,
                intensity.den as int,
            );
        }
        let radius: i64 = (intensity.num as i64) * max_radius / (intensity.den as i64);
        proof {
            assert(intensity.num as int * max_radius as int <= intensity.den as int
                * max_radius as int) by (nonlinear_arith)
                requires
                    0 <= intensity.num <= intensity.den,
                    0 <= max_radius,
            ;
            vstd::arithmetic::div_mod::lemma_div_is_ordered(
                intensity.num as int * max_radius as int,
                intensity.den as int * max_radius as int,
                intensity.den as int,
            );
            assert(intensity.den as int * max_radius as int == max_radius as int
                * intensity.den as int) by (nonlinear_arith);
            vstd::arithmetic::div_mod::lemma_div_by_multiple(
                max_radius as int,
                intensity.den as int,
            );
            assert(radius <= max_radius);
        }
        if radius >= MIN_RADIUS {
            result.push(ShapeDescriptor { kind: shape, center: p, radius });
        }
        proof {
            let taken = points@.take(i + 1);
            assert(taken.drop_last() =~= points@.take(i as int));
            assert(taken.last() == points@[i as int]);
        }
        i = i + 1;
    }
    proof {
        assert(points@.take(points@.len() as int) =~= points@);
    }
    result
}

/// Law: the visibility threshold is inclusive on the retain side. For a
/// single point, its descriptor is emitted exactly when the computed
/// radius reaches `MIN_RADIUS`: a radius of exactly `MIN_RADIUS` is
/// kept, anything below is dropped.
pub proof fn lemma_radius_threshold(
    img: PixelGrid,
    rr: int,
    p: Point,
    shape: Shape,
    spacing: i64,
    multi: bool,
)
    ensures
        ({
            let mr = spec_max_radius(spacing as int);
            let num = spec_intensity(img, rr, p, multi, mr as i64).0;
            let den = spec_intensity(img, rr, p, multi, mr as i64).1;
            let radius = spec_radius(num, den, mr);
            let descs = spec_descriptors(img, rr, seq![p], shape, spacing, multi);
            &&& (radius >= MIN_RADIUS ==> descs =~= seq![
                ShapeDescriptor { kind: shape, center: p, radius: radius as i64 },
            ])
            &&& (radius < MIN_RADIUS ==> descs =~= Seq::<ShapeDescriptor>::empty())
        }),
{
    reveal_with_fuel(spec_descriptors, 2);
    let pts = seq![p];
    assert(pts.drop_last() =~= Seq::<Point>::empty());
    assert(pts.last() == p);
    assert(spec_descriptors(img, rr, pts.drop_last(), shape, spacing, multi)
        =~= Seq::<ShapeDescriptor>::empty());
}

/// An image is fully transparent when every pixel's alpha is zero.
pub open spec fn fully_transparent(img: PixelGrid) -> bool {
    forall|x: int, y: int|
        0 <= x < img.width && 0 <= y < img.height ==> (#[trigger] img.spec_pixel(x, y)).1 == 0
}

/// A transparent pixel estimates to intensity zero.
proof fn lemma_transparent_sample_zero(img: PixelGrid, rr: int, p: Point)
    requires
        img.wf(),
        fully_transparent(img),
        1 <= rr,
    ensures
        spec_sample_point(img, rr, p) == 0,
{
    sampling::lemma_pixel_index_in_range(p.x as int, rr, img.width as int - 1);
    sampling::lemma_pixel_index_in_range(p.y as int, rr, img.height as int - 1);
    let px = sampling::spec_pixel_index(p.x as int, rr, img.width as int - 1);
    let py = sampling::spec_pixel_index(p.y as int, rr, img.height as int - 1);
    assert(img.spec_pixel(px, py).1 == 0);
    assert(img.spec_pixel(px, py).0 * 0 == 0) by (nonlinear_arith);
}

/// Law: a fully transparent image yields no shape descriptors at all,
/// whatever the layout, shape, spacing or sampling mode: every radius
/// computes to zero, below the visibility threshold.
pub proof fn lemma_transparent_image_empty(
    img: PixelGrid,
    rr: int,
    points: Seq<Point>,
    shape: Shape,
    spacing: i64,
    multi: bool,
)
    requires
        img.wf(),
        fully_transparent(img),
        1 <= rr,
        1 <= spacing <= DIM_LIMIT,
    ensures
        spec_descriptors(img, rr, points, shape, spacing, multi).len() == 0,
    decreases points.len(),
{
    if points.len() > 0 {
        lemma_transparent_image_empty(img, rr, points.drop_last(), shape, spacing, multi);
        let p = points.last();
        let mr = spec_max_radius(spacing as int);
        lemma_transparent_sample_zero(img, rr, p);
        if multi {
            lemma_transparent_sample_zero(
                img,
                rr,
                Point { x: (p.x + mr as i64) as i64, y: p.y },
            );
            lemma_transparent_sample_zero(
                img,
                rr,
                Point { x: (p.x - mr as i64) as i64, y: p.y },
            );
            lemma_transparent_sample_zero(
                img,
                rr,
                Point { x: p.x, y: (p.y + mr as i64) as i64 },
            );
            lemma_transparent_sample_zero(
                img,
                rr,
                Point { x: p.x, y: (p.y - mr as i64) as i64 },
            );
        }
        let den = spec_intensity(img, rr, p, multi, mr as i64).1;
        assert(spec_radius(0, den, mr) == 0) by {
            assert(0 * mr == 0) by (nonlinear_arith);
            vstd::arithmetic::div_mod::lemma_div_of0(den);
        }
    }
}

/// Output height: the width scaled by the image's aspect ratio.
pub open spec fn spec_output_height(o: Options) -> int {
    o.output_width * o.image.height as int / o.image.width as int
}

/// Output-space units per source pixel.
pub open spec fn spec_resolution_ratio(o: Options) -> int {
    o.output_width as int / o.image.width as int
}

/// Inputs a generation run accepts: a well-formed image, a spacing
/// within the machine bound, an output at least one unit per pixel
/// (the fixed-point resolution floor), an output height within the
/// bound, and for the offset tilings a spacing of at least two
/// milli-units, so their row pitch is representable.
pub open spec fn options_ok(o: Options) -> bool {
    &&& o.image.wf()
    &&& 1 <= o.spacing <= DIM_LIMIT
    &&& o.output_width as int >= o.image.width as int
    &&& o.output_width <= DIM_LIMIT
    &&& spec_output_height(o) <= DIM_LIMIT
    &&& (o.grid is Hex ==> o.spacing >= 2)
    &&& (o.grid is Diamond ==> o.spacing >= 2)
}

/// What the layout points of a run are: the exact tiling for the three
/// regular layouts; for the blue-noise layout, any point set that keeps
/// the minimum pairwise distance inside the inset area.
pub open spec fn layout_points_ok(o: Options, pts: Seq<Point>) -> bool {
    let oh = spec_output_height(o) as i64;
    match o.grid {
        Grid::Rect => pts == grid::grid_spec(
            o.output_width,
            oh,
            o.spacing,
            grid::RECT_RATIO,
            false,
        ),
        Grid::Hex => pts == grid::grid_spec(
            o.output_width,
            oh,
            o.spacing,
            grid::HEX_RATIO,
            true,
        ),
        Grid::Diamond => pts == grid::grid_spec(
            o.output_width,
            oh,
            o.spacing,
            grid::DIAMOND_RATIO,
            true,
        ),
        Grid::Poisson => {
            &&& min_dist_ok(pts, o.spacing)
            &&& forall|i: int|
                0 <= i < pts.len() ==> poisson::sample_in_inset(
                    #[trigger] pts[i],
                    o.output_width,
                    oh,
                    o.spacing,
                )
            &&& (o.output_width - o.spacing / 2 > o.spacing / 2 && oh - o.spacing / 2 > o.spacing
                / 2 ==> pts.len() >= 1)
            &&& (!(o.output_width - o.spacing / 2 > o.spacing / 2 && oh - o.spacing / 2
                > o.spacing / 2) ==> pts.len() == 0)
        },
    }
}

/// The markup element one descriptor turns into: a circle with centre
/// and radius attributes, or the four- or six-point polygon.
pub open spec fn is_shape_element(e: Element, d: ShapeDescriptor) -> bool {
    match d.kind {
        Shape::Circle => {
            &&& e.name@ == "circle"@
            &&& e.attributes@.len() == 3
            &&& e.attributes@[0].0@ == "cx"@ && e.attributes@[0].1@ == spec_dec3(d.center.x as int)
            &&& e.attributes@[1].0@ == "cy"@ && e.attributes@[1].1@ == spec_dec3(d.center.y as int)
            &&& e.attributes@[2].0@ == "r"@ && e.attributes@[2].1@ == spec_dec3(d.radius as int)
            &&& e.children@.len() == 0
        },
        Shape::Hex => {
            &&& e.name@ == "polygon"@
            &&& e.attributes@.len() == 1
            &&& e.attributes@[0].0@ == "points"@
            &&& e.attributes@[0].1@ == svg::spec_hex_points(
                d.center.x as int,
                d.center.y as int,
                d.radius as int,
            )
            &&& e.children@.len() == 0
        },
        Shape::Diamond => {
            &&& e.name@ == "polygon"@
            &&& e.attributes@.len() == 1
            &&& e.attributes@[0].0@ == "points"@
            &&& e.attributes@[0].1@ == svg::spec_diamond_points(
                d.center.x as int,
                d.center.y as int,
                d.radius as int,
            )
            &&& e.children@.len() == 0
        },
    }
}

/// Each descriptor has become its markup element, in order.
pub open spec fn shape_elements_ok(elems: Seq<Element>, descs: Seq<ShapeDescriptor>) -> bool {
    &&& elems.len() == descs.len()
    &&& forall|i: int| 0 <= i < descs.len() ==> is_shape_element(#[trigger] elems[i], descs[i])
}

/// The palette wrapping of the sample elements under the root: a single
/// stroked group for cut output; otherwise a full-size background
/// rectangle and a filled group, colours picked by the invert flag.
pub open spec fn palette_ok(root: Element, o: Options, descs: Seq<ShapeDescriptor>) -> bool {
    if o.cut_paths {
        &&& root.children@.len() == 1
        &&& root.children@[0].name@ == "g"@
        &&& root.children@[0].attributes@.len() == 3
        &&& root.children@[0].attributes@[0].0@ == "stroke-width"@
        &&& root.children@[0].attributes@[0].1@ == "0.002mm"@
        &&& root.children@[0].attributes@[1].0@ == "stroke"@
        &&& root.children@[0].attributes@[1].1@ == "black"@
        &&& root.children@[0].attributes@[2].0@ == "fill"@
        &&& root.children@[0].attributes@[2].1@ == "none"@
        &&& shape_elements_ok(root.children@[0].children@, descs)
    } else {
        &&& root.children@.len() == 2
        &&& root.children@[0].name@ == "rect"@
        &&& root.children@[0].attributes@.len() == 3
        &&& root.children@[0].attributes@[0].0@ == "width"@
        &&& root.children@[0].attributes@[0].1@ == "100%"@
        &&& root.children@[0].attributes@[1].0@ == "height"@
        &&& root.children@[0].attributes@[1].1@ == "100%"@
        &&& root.children@[0].attributes@[2].0@ == "fill"@
        &&& root.children@[0].attributes@[2].1@ == (if o.invert {
            "white"@
        } else {
            "black"@
        })
        &&& root.children@[0].children@.len() == 0
        &&& root.children@[1].name@ == "g"@
        &&& root.children@[1].attributes@.len() == 1
        &&& root.children@[1].attributes@[0].0@ == "fill"@
        &&& root.children@[1].attributes@[0].1@ == (if o.invert {
            "black"@
        } else {
            "white"@
        })
        &&& shape_elements_ok(root.children@[1].children@, descs)
    }
}

/// The whole document: an svg root sized in millimetres with the
/// matching view box, holding the palette-wrapped sample elements.
pub open spec fn svg_output_ok(root: Element, o: Options, descs: Seq<ShapeDescriptor>) -> bool {
    &&& root.name@ == "svg"@
    &&& root.attributes@.len() == 4
    &&& root.attributes@[0].0@ == "width"@
    &&& root.attributes@[0].1@ == spec_dec3(o.output_width as int) + "mm"@
    &&& root.attributes@[1].0@ == "height"@
    &&& root.attributes@[1].1@ == spec_dec3(spec_output_height(o)) + "mm"@
    &&& root.attributes@[2].0@ == "viewBox"@
    &&& root.attributes@[2].1@ == "0 0 "@ + spec_dec3(o.output_width as int) + " "@ + spec_dec3(
        spec_output_height(o),
    )
    &&& root.attributes@[3].0@ == "xmlns"@
    &&& root.attributes@[3].1@ == "http://www.w3.org/2000/svg"@
    &&& palette_ok(root, o, descs)
}

/// Runs the whole pipeline: lays points out on the chosen distribution,
/// estimates each point's intensity, keeps the samples above the
/// visibility threshold, and wraps their shapes in a complete document.
/// For the regular tilings the point sequence is pinned exactly; the
/// blue-noise layout is random, and every outcome keeps its minimum
/// pairwise distance inside the inset area.
pub fn create_halftone_svg(options: Options) -> (root: Element)
    requires
        options_ok(options),
    ensures
        exists|pts: Seq<Point>|
            #[trigger] layout_points_ok(options, pts) && svg_output_ok(
                root,
                options,
                spec_descriptors(
                    options.image,
                    spec_resolution_ratio(options),
                    pts,
                    options.shape,
                    options.spacing,
                    options.multi_sample,
                ),
            ),
{
    let image_width: i64 = options.image.width() as i64;
    let image_height: i64 = options.image.height() as i64;
    let output_width: i64 = options.output_width;

    proof {
        assert(0 <= output_width * image_height <= 10_000_000_000_000_000) by (nonlinear_arith)
            requires
                1 <= output_width <= 100_000_000,
                1 <= image_height <= 100_000_000,
        ;
        vstd::arithmetic::div_mod::lemma_div_pos_is_pos(
            output_width as int * image_height as int,
            image_width as int,
        );
        vstd::arithmetic::div_mod::lemma_div_is_ordered(
            image_width as int,
            output_width as int,
            image_width as int,
        );
        vstd::arithmetic::div_mod::lemma_div_by_self(image_width as int);
    }
    let output_height: i64 = output_width * image_height / image_width;
    let resolution_ratio: i64 = output_width / image_width;
    assert(output_height == spec_output_height(options));
    assert(resolution_ratio >= 1);

    let points: Vec<Point> = match options.grid {
        Grid::Rect => grid::rect(output_width, output_height, options.spacing),
        Grid::Hex => grid::hex(output_width, output_height, options.spacing),
        Grid::Diamond => grid::diamond(output_width, output_height, options.spacing),
        Grid::Poisson => poisson::poisson(output_width, output_height, options.spacing),
    };
    proof {
        assert(layout_points_ok(options, points@));
        assert forall|i: int|
            0 <= i < points@.len() implies -2 * DIM_LIMIT <= (#[trigger] points@[i]).x <= 2
            * DIM_LIMIT && -2 * DIM_LIMIT <= points@[i].y <= 2 * DIM_LIMIT by {
            if options.grid is Poisson {
                assert(poisson::sample_in_inset(
                    points@[i],
                    output_width,
                    output_height,
                    options.spacing,
                ));
            }
        }
    }

    let descs = generate_samples(
        &options.image,
        resolution_ratio,
        &points,
        options.shape,
        options.spacing,
        options.multi_sample,
    );

    let mut samples: Vec<Element> = Vec::new();
    let mut k: usize = 0;
    while k < descs.len()
        invariant
            k <= descs@.len(),
            samples@.len() == k,
            forall|i: int|
                0 <= i < descs@.len() ==> MIN_RADIUS <= (#[trigger] descs@[i]).radius <= DIM_LIMIT
                    && -2 * DIM_LIMIT <= descs@[i].center.x <= 2 * DIM_LIMIT && -2 * DIM_LIMIT
                    <= descs@[i].center.y <= 2 * DIM_LIMIT,
            forall|i: int| 0 <= i < k ==> is_shape_element(#[trigger] samples@[i], descs@[i]),
        decreases descs@.len() - k,
    {
        let d = descs[k];
        let e: Element = match d.kind {
            Shape::Circle => svg::circle(d.center.x, d.center.y, d.radius),
            Shape::Hex => svg::hex(d.center.x, d.center.y, d.radius),
            Shape::Diamond => svg::diamond(d.center.x, d.center.y, d.radius),
        };
        samples.push(e);
        k = k + 1;
    }
    proof {
        assert(shape_elements_ok(samples@, descs@));
    }
    let ghost samples_view = samples@;

    let children: Vec<Element> = if options.cut_paths {
        svg::cut_paths(samples)
    } else if options.invert {
        svg::black_on_white(samples)
    } else {
        svg::white_on_black(samples)
    };

    let mut width_attr = svg::dec3(output_width);
    width_attr.append("mm");
    let mut height_attr = svg::dec3(output_height);
    height_attr.append("mm");
    let mut viewbox = "0 0 ".to_owned();
    let ow_str = svg::dec3(output_width);
    viewbox.append(ow_str.as_str());
    viewbox.append(" ");
    let oh_str = svg::dec3(output_height);
    viewbox.append(oh_str.as_str());

    let root = svg::svg(
        vec![
            ("width", width_attr),
            ("height", height_attr),
            ("viewBox", viewbox),
            ("xmlns", "http://www.w3.org/2000/svg".to_owned()),
        ],
        children,
    );
    proof {
        let descs_spec = spec_descriptors(
            options.image,
            spec_resolution_ratio(options),
            points@,
            options.shape,
            options.spacing,
            options.multi_sample,
        );
        assert(svg_output_ok(root, options, descs_spec));
        assert(layout_points_ok(options, points@) && svg_output_ok(root, options, descs_spec));
    }
    root
}

} // verus!
