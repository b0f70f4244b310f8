//! Intensity estimation: maps an output-space point to the effective
//! luminosity of the underlying pixel, as an exact fraction.
//!
//! Intensity is luma times alpha; both channels run 0..=255, so a single
//! lookup is a fraction over 65025 and the five-tap average over 325125.
use vstd::prelude::*;
use crate::geom::{Point, coord_in_range};
use crate::DIM_LIMIT;

verus! {

/// Denominator of a single-pixel intensity: 255 * 255.
pub const PIXEL_DEN: u32 = 65025;

/// Denominator of a five-tap intensity: 5 * 255 * 255.
pub const MULTI_DEN: u32 = 325125;

/// An in-memory pixel source: a rectangle of (luma, alpha) byte pairs,
/// rows from the top. The decoding that fills it is not this crate's
/// concern; the estimator only reads it.
pub struct PixelGrid {
    pub width: usize,
    pub height: usize,
    pub rows: Vec<Vec<(u8, u8)>>,
}

/// An intensity in [0, 1] as the exact fraction `num / den`.
#[derive(Clone, Copy, PartialEq, Eq, Structural, Debug)]
pub struct Intensity {
    pub num: u32,
    pub den: u32,
}

impl Intensity {
    /// A well-formed intensity never exceeds one.
    pub open spec fn wf(self) -> bool {
        1 <= self.den && self.num <= self.den
    }
}

impl PixelGrid {
    /// Non-degenerate, rectangular, and within the machine bound.
    pub open spec fn wf(self) -> bool {
        &&& 1 <= self.width && self.width as int <= DIM_LIMIT as int
        &&& 1 <= self.height && self.height as int <= DIM_LIMIT as int
        &&& self.rows@.len() == self.height
        &&& forall|y: int| 0 <= y < self.height ==> (#[trigger] self.rows@[y])@.len() == self.width
    }

    /// The (luma, alpha) pair of the pixel at column x, row y.
    pub open spec fn spec_pixel(self, x: int, y: int) -> (u8, u8) {
        self.rows@[y]@[x]
    }

    /// Builds a pixel source from rows of (luma, alpha) pairs; rejects an
    /// empty or ragged rectangle and one beyond the machine bound.
    pub fn new(rows: Vec<Vec<(u8, u8)>>) -> (r: Option<PixelGrid>)
        ensures
            match r {
                Some(g) => {
                    &&& g.wf()
                    &&& g.rows@ == rows@
                    &&& g.height == rows@.len()
                    &&& g.width == rows@[0]@.len()
                },
                None => {
                    rows@.len() == 0 || rows@.len() > DIM_LIMIT || rows@[0]@.len() == 0
                        || rows@[0]@.len() > DIM_LIMIT || exists|y: int|
                        0 <= y < rows@.len() && (#[trigger] rows@[y])@.len() != rows@[0]@.len()
                },
            },
    {
        if rows.len() == 0 || rows.len() > DIM_LIMIT as usize {
            return None;
        }
        let width = rows[0].len();
        if width == 0 || width > DIM_LIMIT as usize {
            return None;
        }
        let height = rows.len();
        let mut y: usize = 1;
        while y < height
            invariant
                1 <= y <= height,
                height == rows@.len(),
                width == rows@[0]@.len(),
                forall|i: int| 0 <= i < y ==> (#[trigger] rows@[i])@.len() == width,
            decreases height - y,
        {
            if rows[y].len() != width {
                return None;
            }
            y = y + 1;
        }
        Some(PixelGrid { width, height, rows })
    }

    /// Pixel count across.
    pub fn width(&self) -> (r: usize)
        ensures
            r == self.width,
    {
        self.width
    }

    /// Pixel count down.
    pub fn height(&self) -> (r: usize)
        ensures
            r == self.height,
    {
        self.height
    }

    /// The (luma, alpha) pair at in-bounds pixel coordinates.
    pub fn pixel_at(&self, x: usize, y: usize) -> (r: (u8, u8))
        requires
            self.wf(),
            x < self.width,
            y < self.height,
        ensures
            r == self.spec_pixel(x as int, y as int),
    {
        self.rows[y][x]
    }
}

/// The pixel index a scaled output-space coordinate maps to: the
/// coordinate divided by the resolution ratio, negatives clamped to 0
/// and overruns clamped to the last valid index `limit`.
pub open spec fn spec_pixel_index(n: int, rr: int, limit: int) -> int {
    if n < 0 {
        0
    } else if n / rr > limit {
        limit
    } else {
        n / rr
    }
}

/// Maps one coordinate into a valid pixel index, clamping both ends.
fn pixel_index(n: i64, rr: i64, limit: usize) -> (r: usize)
    requires
        1 <= rr,
        limit as int <= DIM_LIMIT as int,
        -4 * DIM_LIMIT <= n <= 4 * DIM_LIMIT,
    ensures
        r as int == spec_pixel_index(n as int, rr as int, limit as int),
        r <= limit,
{
    if n < 0 {
        return 0;
    }
    proof {
        vstd::arithmetic::div_mod::lemma_div_pos_is_pos(n as int, rr as int);
        vstd::arithmetic::div_mod::lemma_div_nonincreasing(n as int, rr as int);
    }
    let q: i64 = n / rr;
    if q > limit as i64 {
        limit
    } else {
        q as usize
    }
}

/// The effective luminosity numerator of the pixel at (px, py):
/// luma times alpha, over the denominator 65025.
pub open spec fn spec_pixel_value(img: PixelGrid, px: int, py: int) -> int {
    img.spec_pixel(px, py).0 * img.spec_pixel(px, py).1
}

/// Reads one pixel and forms its luminosity numerator.
fn get_pixel_value(img: &PixelGrid, px: usize, py: usize) -> (v: u32)
    requires
        img.wf(),
        px < img.width,
        py < img.height,
    ensures
        v == spec_pixel_value(*img, px as int, py as int),
        v <= PIXEL_DEN,
{
    let (luma, alpha) = img.pixel_at(px, py);
    proof {
        assert(luma as int * alpha as int <= 65025 && luma as int * alpha as int >= 0)
            by (nonlinear_arith)
            requires
                0 <= luma as int <= 255,
                0 <= alpha as int <= 255,
        ;
    }
    (luma as u32) * (alpha as u32)
}

/// The single-point estimate at an output-space point: the luminosity
/// numerator (over 65025) of the nearest pixel, boundary-clamped.
pub open spec fn spec_sample_point(img: PixelGrid, rr: int, p: Point) -> int {
    spec_pixel_value(
        img,
        spec_pixel_index(p.x as int, rr, img.width as int - 1),
        spec_pixel_index(p.y as int, rr, img.height as int - 1),
    )
}

/// Effective luminosity (luma times alpha) of the pixel an output-space
/// point maps to, as an exact fraction in [0, 1]. Points beyond any
/// image edge read the nearest edge pixel: no lookup is ever out of
/// range.
pub fn sample_point(img: &PixelGrid, resolution_ratio: i64, point: Point) -> (r: Intensity)
    requires
        img.wf(),
        1 <= resolution_ratio,
        coord_in_range(point),
    ensures
        r.num == spec_sample_point(*img, resolution_ratio as int, point),
        r.den == PIXEL_DEN,
        r.wf(),
{
    let px = pixel_index(point.x, resolution_ratio, img.width - 1);
    let py = pixel_index(point.y, resolution_ratio, img.height - 1);
    let num = get_pixel_value(img, px, py);
    Intensity { num, den: PIXEL_DEN }
}

/// The sum of the five single-point estimates of the cross pattern:
/// the point itself and the four offsets by `radius` along each axis.
pub open spec fn spec_multi_sample(img: PixelGrid, rr: int, p: Point, radius: i64) -> int {
    spec_sample_point(img, rr, p) + spec_sample_point(
        img,
        rr,
        Point { x: (p.x + radius) as i64, y: p.y },
    ) + spec_sample_point(img, rr, Point { x: (p.x - radius) as i64, y: p.y })
        + spec_sample_point(img, rr, Point { x: p.x, y: (p.y + radius) as i64 })
        + spec_sample_point(img, rr, Point { x: p.x, y: (p.y - radius) as i64 })
}

/// Effective luminosity of the area around a point: the average of five
/// single-point estimates in a cross pattern (the point itself and
/// offsets of `radius` along each axis), as the exact fraction of their
/// sum over five denominators. A five-tap anti-alias approximation for
/// small or irregular samples.
pub fn multi_sample_around_point(
    img: &PixelGrid,
    resolution_ratio: i64,
    point: Point,
    radius: i64,
) -> (r: Intensity)
    requires
        img.wf(),
        1 <= resolution_ratio,
        0 <= radius <= DIM_LIMIT,
        -2 * DIM_LIMIT <= point.x <= 2 * DIM_LIMIT,
        -2 * DIM_LIMIT <= point.y <= 2 * DIM_LIMIT,
    ensures
        r.num == spec_multi_sample(*img, resolution_ratio as int, point, radius),
        r.den == MULTI_DEN,
        r.wf(),
{
    let s0 = sample_point(img, resolution_ratio, point);
    let s1 = sample_point(
        img,
        resolution_ratio,
        Point { x: point.x + radius, y: point.y },
    );
    let s2 = sample_point(
        img,
        resolution_ratio,
        Point { x: point.x - radius, y: point.y },
    );
    let s3 = sample_point(
        img,
        resolution_ratio,
        Point { x: point.x, y: point.y + radius },
    );
    let s4 = sample_point(
        img,
        resolution_ratio,
        Point { x: point.x, y: point.y - radius },
    );
    Intensity { num: s0.num + s1.num + s2.num + s3.num + s4.num, den: MULTI_DEN }
}

/// The clamped pixel index always lands inside [0, limit]: lookups are
/// never out of range, whatever the point.
pub proof fn lemma_pixel_index_in_range(n: int, rr: int, limit: int)
    requires
        1 <= rr,
        0 <= limit,
    ensures
        0 <= spec_pixel_index(n, rr, limit) <= limit,
{
    if n >= 0 {
        vstd::arithmetic::div_mod::lemma_div_pos_is_pos(n, rr);
    }
}

/// Law: the estimate clamps at the image boundary. A point mapping past
/// the last pixel column or row estimates the same as the point on that
/// edge; a negative coordinate estimates the same as coordinate zero.
/// Together with `lemma_pixel_index_in_range` this is the boundary
/// policy: no lookup is ever out of range.
pub proof fn lemma_boundary_clamping(img: PixelGrid, rr: int, p: Point)
    requires
        img.wf(),
        1 <= rr <= DIM_LIMIT,
    ensures
        p.x >= 0 && p.x as int / rr > img.width as int - 1 ==> spec_sample_point(img, rr, p)
            == spec_sample_point(
            img,
            rr,
            Point { x: ((img.width as int - 1) * rr) as i64, y: p.y },
        ),
        p.x < 0 ==> spec_sample_point(img, rr, p) == spec_sample_point(
            img,
            rr,
            Point { x: 0, y: p.y },
        ),
        p.y >= 0 && p.y as int / rr > img.height as int - 1 ==> spec_sample_point(img, rr, p)
            == spec_sample_point(
            img,
            rr,
            Point { x: p.x, y: ((img.height as int - 1) * rr) as i64 },
        ),
        p.y < 0 ==> spec_sample_point(img, rr, p) == spec_sample_point(
            img,
            rr,
            Point { x: p.x, y: 0 },
        ),
{
    let w1 = img.width as int - 1;
    let h1 = img.height as int - 1;
    vstd::arithmetic::div_mod::lemma_div_by_multiple(w1, rr);
    vstd::arithmetic::div_mod::lemma_div_by_multiple(h1, rr);
    assert(0 <= w1 * rr <= 10_000_000_000_000_000) by (nonlinear_arith)
        requires
            0 <= w1 <= 100_000_000,
            1 <= rr <= 100_000_000,
    ;
    assert(0 <= h1 * rr <= 10_000_000_000_000_000) by (nonlinear_arith)
        requires
            0 <= h1 <= 100_000_000,
            1 <= rr <= 100_000_000,
    ;
    vstd::arithmetic::div_mod::lemma_div_of0(rr);
}

} // verus!
