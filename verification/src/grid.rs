//! Regular tilings: rectangular, hexagonal and diamond point layouts.
//!
//! All three share one enumeration: columns spaced `spacing` apart,
//! rows spaced `spacing * ratio / 1000` apart, the whole pattern centred
//! inside the leftover margin. Offset layouts (hex, diamond) shift odd
//! rows right by half a column and drop the last column there, so no
//! shifted cell overhangs the right edge.
use vstd::prelude::*;
use vstd::arithmetic::mul::lemma_mul_inequality;
use vstd::arithmetic::div_mod::lemma_fundamental_div_mod;
use crate::geom::Point;
use crate::DIM_LIMIT;

verus! {

/// Row-pitch ratio numerators over a denominator of 1000.
pub const RECT_RATIO: i64 = 1000;

/// Hexagonal row pitch: sqrt(3)/2 of the column pitch, to three decimals.
pub const HEX_RATIO: i64 = 866;

/// Diamond row pitch: half the column pitch.
pub const DIAMOND_RATIO: i64 = 500;

/// The derived quantities one tiling run works with.
pub ghost struct GridParams {
    /// Horizontal spacing (column pitch).
    pub sx: int,
    /// Vertical spacing (row pitch).
    pub sy: int,
    /// Horizontal leftover: width minus the columns' span.
    pub xr: int,
    /// Vertical leftover after the row-count correction.
    pub yr: int,
    /// Number of columns.
    pub xc: int,
    /// Number of rows after the row-count correction.
    pub yc: int,
    /// Whether odd rows are shifted right by half a column.
    pub offset: bool,
}

/// Column count, row count and leftovers for a tiling of
/// `width x height` at `spacing`, with the row-count correction: when
/// half a row pitch plus half the vertical leftover falls short of half
/// the nominal spacing, one row is dropped and its pitch returned to the
/// margin, so the outer rows are not crowded against the edge.
pub open spec fn grid_params(width: i64, height: i64, spacing: i64, ratio: i64, offset: bool) -> GridParams {
    let sx = spacing as int;
    let sy = spacing * ratio / 1000;
    let xc = width as int / sx;
    let yc0 = height as int / sy;
    let yr0 = height - yc0 * sy;
    // `sy/2 + yr0/2 < spacing/2` stated without the halvings
    let crowded = sy + yr0 < sx;
    GridParams {
        sx,
        sy,
        xr: width - xc * sx,
        yr: if crowded { yr0 + sy } else { yr0 },
        xc,
        yc: if crowded { yc0 - 1 } else { yc0 },
        offset,
    }
}

/// Whether grid cell (x, y) is dropped: offset layouts skip the last
/// column on odd rows, where the half-cell shift would overhang.
pub open spec fn cell_skipped(p: GridParams, x: int, y: int) -> bool {
    p.offset && y % 2 != 0 && x == p.xc
}

/// The output-space point of grid cell (x, y), both 1-based: cell centre
/// plus half the leftover margin, odd rows shifted on offset layouts.
pub open spec fn cell_point(p: GridParams, x: int, y: int) -> Point {
    let shift = if p.offset && y % 2 != 0 { p.sx / 2 } else { 0 };
    Point {
        x: (x * p.sx - p.sx / 2 + p.xr / 2 + shift) as i64,
        y: (y * p.sy - p.sy / 2 + p.yr / 2) as i64,
    }
}

/// The points of column x for rows 1..=y_hi, in row order.
pub open spec fn col_points(p: GridParams, x: int, y_hi: int) -> Seq<Point>
    decreases y_hi,
{
    if y_hi <= 0 {
        Seq::empty()
    } else {
        let rest = col_points(p, x, y_hi - 1);
        if cell_skipped(p, x, y_hi) {
            rest
        } else {
            rest.push(cell_point(p, x, y_hi))
        }
    }
}

/// The points of columns 1..=x_hi, column-major.
pub open spec fn cols_points(p: GridParams, x_hi: int) -> Seq<Point>
    decreases x_hi,
{
    if x_hi <= 0 {
        Seq::empty()
    } else {
        cols_points(p, x_hi - 1) + col_points(p, x_hi, p.yc)
    }
}

/// The whole tiling for the given dimensions, spacing and ratio.
pub open spec fn grid_spec(width: i64, height: i64, spacing: i64, ratio: i64, offset: bool) -> Seq<Point> {
    let p = grid_params(width, height, spacing, ratio, offset);
    cols_points(p, p.xc)
}

/// Inputs on which a tiling is meaningful on this machine: positive
/// spacing whose row pitch is at least one milli-unit, and dimensions
/// within the fixed-point bound. Dimensions smaller than the spacing
/// are allowed and give an empty layout.
pub open spec fn grid_inputs_ok(width: i64, height: i64, spacing: i64, ratio: i64) -> bool {
    &&& 0 <= width <= DIM_LIMIT
    &&& 0 <= height <= DIM_LIMIT
    &&& 1 <= spacing <= DIM_LIMIT
    &&& 1 <= ratio <= 1000
    &&& spacing * ratio >= 1000
}

/// Shared enumeration for the three regular tilings.
fn grid(width: i64, height: i64, spacing: i64, spacing_ratio: i64, offset: bool) -> (r: Vec<Point>)
    requires
        grid_inputs_ok(width, height, spacing, spacing_ratio),
    ensures
        r@ == grid_spec(width, height, spacing, spacing_ratio, offset),
        forall|i: int|
            0 <= i < r@.len() ==> 0 <= (#[trigger] r@[i]).x <= 2 * DIM_LIMIT && 0 <= r@[i].y <= 2
                * DIM_LIMIT,
{
    let ghost p = grid_params(width, height, spacing, spacing_ratio, offset);

    let sx: i64 = spacing;
    proof {
        assert(1000 <= spacing * spacing_ratio <= 100_000_000_000) by (nonlinear_arith)
            requires
                1 <= spacing <= 100_000_000,
                1 <= spacing_ratio <= 1000,
                spacing * spacing_ratio >= 1000,
        ;
        vstd::arithmetic::div_mod::lemma_div_is_ordered(
            spacing as int * spacing_ratio as int,
            100_000_000_000,
            1000,
        );
    }
    let sy: i64 = spacing * spacing_ratio / 1000;
    assert(1 <= sy <= 100_000_000);

    proof {
        lemma_fundamental_div_mod(width as int, sx as int);
        vstd::arithmetic::div_mod::lemma_remainder(width as int, sx as int);
        vstd::arithmetic::div_mod::lemma_div_pos_is_pos(width as int, sx as int);
        vstd::arithmetic::div_mod::lemma_div_nonincreasing(width as int, sx as int);
        lemma_fundamental_div_mod(height as int, sy as int);
        vstd::arithmetic::div_mod::lemma_remainder(height as int, sy as int);
        vstd::arithmetic::div_mod::lemma_div_pos_is_pos(height as int, sy as int);
        vstd::arithmetic::div_mod::lemma_div_nonincreasing(height as int, sy as int);
    }
    let xc: i64 = width / sx;
    let xr: i64 = width - xc * sx;
    let mut yc: i64 = height / sy;
    let mut yr: i64 = height - yc * sy;
    assert(0 <= xc <= width && 0 <= xr < sx);
    assert(0 <= yc <= height && 0 <= yr < sy);

    if sy + yr < sx {
        yc = yc - 1;
        yr = yr + sy;
    }

    assert(sx == p.sx && sy == p.sy && xc == p.xc && xr == p.xr && yc == p.yc && yr == p.yr);

    let mut result: Vec<Point> = Vec::new();
    let mut x: i64 = 1;
    while x <= xc
        invariant
            grid_inputs_ok(width, height, spacing, spacing_ratio),
            p == grid_params(width, height, spacing, spacing_ratio, offset),
            sx == p.sx && sy == p.sy && xc == p.xc && xr == p.xr && yc == p.yc && yr == p.yr,
            1 <= sy <= 100_000_000,
            0 <= xc <= width && 0 <= xr < sx,
            -1 <= yc <= height && 0 <= yr <= 2 * sy,
            1 <= x,
            xc < 1 ==> x == 1,
            x <= xc + 1,
            result@ == cols_points(p, x - 1),
            forall|i: int|
                0 <= i < result@.len() ==> 0 <= (#[trigger] result@[i]).x <= 2 * DIM_LIMIT
                    && 0 <= result@[i].y <= 2 * DIM_LIMIT,
        decreases xc - x + 1,
    {
        proof {
            lemma_mul_inequality(x as int, xc as int, sx as int);
            lemma_fundamental_div_mod(width as int, sx as int);
            vstd::arithmetic::div_mod::lemma_remainder_lower(width as int, sx as int);
            assert(result@ =~= cols_points(p, x - 1) + col_points(p, x as int, 0));
        }
        let mut y: i64 = 1;
        while y <= yc
            invariant
                grid_inputs_ok(width, height, spacing, spacing_ratio),
                p == grid_params(width, height, spacing, spacing_ratio, offset),
                sx == p.sx && sy == p.sy && xc == p.xc && xr == p.xr && yc == p.yc && yr == p.yr,
                1 <= sy <= 100_000_000,
                0 <= xc <= width && 0 <= xr < sx,
                -1 <= yc <= height && 0 <= yr <= 2 * sy,
                1 <= x <= xc,
                1 <= y,
                yc < 1 ==> y == 1,
                yc >= 1 ==> y <= yc + 1,
                x * sx <= width,
                result@ == cols_points(p, x - 1) + col_points(p, x as int, y - 1),
                forall|i: int|
                    0 <= i < result@.len() ==> 0 <= (#[trigger] result@[i]).x <= 2 * DIM_LIMIT
                        && 0 <= result@[i].y <= 2 * DIM_LIMIT,
            decreases yc - y + 1,
        {
            proof {
                lemma_mul_inequality(y as int, yc as int, sy as int);
                lemma_mul_inequality(yc as int, height as int / sy as int, sy as int);
                vstd::arithmetic::div_mod::lemma_remainder_lower(height as int, sy as int);
            }
            assert(y * sy <= height);
            if !(offset && y % 2 != 0 && x == xc) {
                proof {
                    lemma_mul_inequality(1, x as int, sx as int);
                    lemma_mul_inequality(1, y as int, sy as int);
                }
                let shift: i64 = if offset && y % 2 != 0 { sx / 2 } else { 0 };
                let px: i64 = x * sx - sx / 2 + xr / 2 + shift;
                let py: i64 = y * sy - sy / 2 + yr / 2;
                assert(0 <= px <= 2 * DIM_LIMIT && 0 <= py <= 2 * DIM_LIMIT);
                result.push(Point { x: px, y: py });
                proof {
                    assert(result@ =~= cols_points(p, x - 1) + col_points(p, x as int, y as int));
                }
            } else {
                assert(result@ == cols_points(p, x - 1) + col_points(p, x as int, y as int));
            }
            y = y + 1;
        }
        proof {
            assert(col_points(p, x as int, y - 1) == col_points(p, x as int, p.yc));
            assert(cols_points(p, x as int) == cols_points(p, x - 1) + col_points(p, x as int, p.yc));
        }
        x = x + 1;
    }
    proof {
        if xc < 1 {
            assert(cols_points(p, 0) == cols_points(p, p.xc));
        }
    }
    result
}

/// Rectangular tiling: square cells, no row offset.
pub fn rect(width: i64, height: i64, spacing: i64) -> (r: Vec<Point>)
    requires
        grid_inputs_ok(width, height, spacing, RECT_RATIO),
    ensures
        r@ == grid_spec(width, height, spacing, RECT_RATIO, false),
        forall|i: int|
            0 <= i < r@.len() ==> 0 <= (#[trigger] r@[i]).x <= 2 * DIM_LIMIT && 0 <= r@[i].y <= 2
                * DIM_LIMIT,
{
    grid(width, height, spacing, RECT_RATIO, false)
}

/// Hexagonal tiling: rows at sqrt(3)/2 of the column pitch, odd rows offset.
pub fn hex(width: i64, height: i64, spacing: i64) -> (r: Vec<Point>)
    requires
        grid_inputs_ok(width, height, spacing, HEX_RATIO),
    ensures
        r@ == grid_spec(width, height, spacing, HEX_RATIO, true),
        forall|i: int|
            0 <= i < r@.len() ==> 0 <= (#[trigger] r@[i]).x <= 2 * DIM_LIMIT && 0 <= r@[i].y <= 2
                * DIM_LIMIT,
{
    grid(width, height, spacing, HEX_RATIO, true)
}

/// Diamond tiling: rows at half the column pitch, odd rows offset.
pub fn diamond(width: i64, height: i64, spacing: i64) -> (r: Vec<Point>)
    requires
        grid_inputs_ok(width, height, spacing, DIAMOND_RATIO),
    ensures
        r@ == grid_spec(width, height, spacing, DIAMOND_RATIO, true),
        forall|i: int|
            0 <= i < r@.len() ==> 0 <= (#[trigger] r@[i]).x <= 2 * DIM_LIMIT && 0 <= r@[i].y <= 2
                * DIM_LIMIT,
{
    grid(width, height, spacing, DIAMOND_RATIO, true)
}

/// Law: a regular tiling is a pure function of its inputs — any two
/// layouts of the same dimensions, spacing and kind are identical,
/// point for point and in the same order.
pub proof fn lemma_regular_tiling_deterministic(
    a: Seq<Point>,
    b: Seq<Point>,
    width: i64,
    height: i64,
    spacing: i64,
    ratio: i64,
    offset: bool,
)
    requires
        a == grid_spec(width, height, spacing, ratio, offset),
        b == grid_spec(width, height, spacing, ratio, offset),
    ensures
        a == b,
{
}

/// One column of an un-offset tiling holds one point per row.
proof fn lemma_col_len_no_offset(p: GridParams, x: int, y_hi: int)
    requires
        !p.offset,
    ensures
        col_points(p, x, y_hi).len() == if y_hi <= 0 { 0 } else { y_hi },
    decreases y_hi,
{
    if y_hi > 0 {
        lemma_col_len_no_offset(p, x, y_hi - 1);
    }
}

/// An un-offset tiling holds rows x columns points.
proof fn lemma_cols_len_no_offset(p: GridParams, x_hi: int)
    requires
        !p.offset,
    ensures
        cols_points(p, x_hi).len() == if x_hi <= 0 || p.yc <= 0 { 0 } else { x_hi * p.yc },
    decreases x_hi,
{
    if x_hi > 0 {
        lemma_cols_len_no_offset(p, x_hi - 1);
        lemma_col_len_no_offset(p, x_hi, p.yc);
        if p.yc > 0 {
            assert((x_hi - 1) * p.yc + p.yc == x_hi * p.yc) by (nonlinear_arith);
        }
    }
}

/// Law: when the spacing divides both dimensions evenly, the row-count
/// correction does not trigger and the rectangular tiling holds exactly
/// (width / spacing) * (height / spacing) points.
pub proof fn lemma_rect_count_even(width: i64, height: i64, spacing: i64)
    requires
        grid_inputs_ok(width, height, spacing, RECT_RATIO),
        width % spacing == 0,
        height % spacing == 0,
        height >= spacing,
    ensures
        grid_spec(width, height, spacing, RECT_RATIO, false).len()
            == (width / spacing) * (height / spacing),
{
    let p = grid_params(width, height, spacing, RECT_RATIO, false);
    vstd::arithmetic::div_mod::lemma_div_by_multiple(spacing as int, 1000);
    assert(p.sy == spacing);
    lemma_fundamental_div_mod(height as int, spacing as int);
    lemma_fundamental_div_mod(width as int, spacing as int);
    assert(spacing as int * (height as int / spacing as int)
        == (height as int / spacing as int) * spacing) by (nonlinear_arith);
    assert(height - height as int / spacing as int * spacing == 0);
    assert(p.yc == height as int / spacing as int);
    vstd::arithmetic::div_mod::lemma_div_pos_is_pos(height as int, spacing as int);
    assert(height as int / spacing as int >= 1) by {
        vstd::arithmetic::div_mod::lemma_div_is_ordered(spacing as int, height as int, spacing as int);
        vstd::arithmetic::div_mod::lemma_div_by_self(spacing as int);
    }
    lemma_cols_len_no_offset(p, p.xc);
    if p.xc == 0 {
        assert(0 * p.yc == 0) by (nonlinear_arith);
    }
}


} // verus!
