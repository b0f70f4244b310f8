//! Blue-noise layout: Poisson-disk sampling by dart throwing with a
//! uniform background grid as acceleration structure.
//!
//! The background grid's cell side is chosen strictly below
//! `spacing / sqrt(2)`, so two points of one cell are always closer than
//! `spacing`; since no accepted pair ever is, each cell holds at most one
//! sample and one index per cell suffices. Index 0 is the reserved
//! "empty" marker; real sample indices start at 1 over a sentinel entry.
use vstd::prelude::*;
use vstd::arithmetic::div_mod::lemma_fundamental_div_mod;
use vstd::arithmetic::div_mod::lemma_div_is_ordered;
use vstd::arithmetic::div_mod::lemma_div_pos_is_pos;
use vstd::arithmetic::div_mod::lemma_remainder_lower;
use crate::geom::{Point, dist_sq, min_dist_ok, lemma_dist_sq_symm};
use crate::geom::is_closer_than;
use crate::DIM_LIMIT;
use rand::rngs::SmallRng;
use rand::Rng;
use rand::SeedableRng;

verus! {

/// Candidate children tried per active sample before it is retired.
pub const K: u64 = 30;

#[verifier::external_type_specification]
#[verifier::external_body]
pub struct ExSmallRng(SmallRng);

/// Relies on rand's `SmallRng::from_entropy`: a fresh small-state
/// generator seeded from the operating system. Nothing is assumed of the
/// values it will produce.
#[verifier::external_body]
fn rng_new() -> SmallRng {
    SmallRng::from_entropy()
}

/// Relies on rand's `Rng::gen_range` over the half-open range `lo..hi`:
/// the result lies in `[lo, hi)`. The empty range, on which it panics,
/// is excluded by `requires`. Nothing more is assumed: to the callers
/// every admissible value may come back.
#[verifier::external_body]
fn rng_range_i64(rng: &mut SmallRng, lo: i64, hi: i64) -> (r: i64)
    requires
        lo < hi,
    ensures
        lo <= r < hi,
{
    rng.gen_range(lo..hi)
}

/// Relies on rand's `Rng::gen_range` over `0..n`: an index below `n`.
/// The empty range, on which it panics, is excluded by `requires`.
#[verifier::external_body]
fn rng_below(rng: &mut SmallRng, n: usize) -> (r: usize)
    requires
        n > 0,
    ensures
        r < n,
{
    rng.gen_range(0..n)
}

/// The background-grid column of a point (its x cell coordinate).
pub open spec fn cell_col(p: Point, cs: int) -> int {
    p.x as int / cs
}

/// The background-grid row of a point (its y cell coordinate).
pub open spec fn cell_row(p: Point, cs: int) -> int {
    p.y as int / cs
}

/// A cell side fit for minimum distance `r`: positive, and small enough
/// that two grid-registered points of one cell would be closer than `r`.
pub open spec fn cell_size_ok(cs: int, r: int) -> bool {
    &&& 1 <= cs <= r
    &&& 2 * (cs - 1) * (cs - 1) < r * r
}

/// The cell a coordinate `f` falls in, clamped into `[0, len)`: negative
/// coordinates clamp to the first cell, coordinates at or beyond the last
/// cell to the last.
pub open spec fn clamp_cell(f: int, cs: int, len: int) -> int {
    if f < 0 {
        0
    } else if f / cs >= len {
        len - 1
    } else {
        f / cs
    }
}

/// Point `p` lies inside the sampling area inset by half the minimum
/// spacing on all sides, so no sample centre comes closer than
/// `spacing / 2` to the boundary.
pub open spec fn sample_in_inset(p: Point, width: i64, height: i64, spacing: i64) -> bool {
    &&& spacing / 2 <= p.x <= width - spacing / 2
    &&& spacing / 2 <= p.y <= height - spacing / 2
}

/// The background grid is a full rectangle of `cw` columns of `ch` cells.
pub open spec fn grid_wf(grid: Seq<Seq<usize>>, cw: int, ch: int) -> bool {
    &&& grid.len() == cw
    &&& forall|i: int| 0 <= i < cw ==> (#[trigger] grid[i]).len() == ch
}

/// Sample `k` is registered in the grid cell it falls in.
pub open spec fn registered(
    samples: Seq<Point>,
    grid: Seq<Seq<usize>>,
    cs: int,
    cw: int,
    ch: int,
    k: int,
) -> bool {
    let ci = cell_col(samples[k], cs);
    let cj = cell_row(samples[k], cs);
    &&& 0 <= ci < cw
    &&& 0 <= cj < ch
    &&& grid[ci][cj] as int == k
}

/// Cell (ci, cj) is either empty or holds the index of a real sample
/// that falls in exactly this cell.
pub open spec fn cell_sound(
    samples: Seq<Point>,
    grid: Seq<Seq<usize>>,
    cs: int,
    ci: int,
    cj: int,
) -> bool {
    let k = grid[ci][cj] as int;
    ||| k == 0
    ||| (1 <= k < samples.len() && cell_col(samples[k], cs) == ci && cell_row(samples[k], cs)
        == cj)
}

/// The sampler's full state invariant over the sample arena (index 0 is
/// the sentinel) and the background grid.
pub open spec fn state_inv(
    samples: Seq<Point>,
    grid: Seq<Seq<usize>>,
    width: i64,
    height: i64,
    spacing: i64,
    cs: int,
    cw: int,
    ch: int,
) -> bool {
    &&& samples.len() >= 1
    &&& grid_wf(grid, cw, ch)
    &&& forall|k: int|
        1 <= k < samples.len() ==> sample_in_inset(#[trigger] samples[k], width, height, spacing)
    &&& forall|k: int, l: int|
        1 <= k < l < samples.len() ==> dist_sq(samples[k], samples[l]) >= spacing * spacing
    &&& forall|k: int| 1 <= k < samples.len() ==> #[trigger] registered(samples, grid, cs, cw, ch, k)
    &&& forall|ci: int, cj: int|
        0 <= ci < cw && 0 <= cj < ch ==> #[trigger] cell_sound(samples, grid, cs, ci, cj)
}

/// Two points of one background-grid cell are strictly closer than `r`:
/// their coordinates agree up to `cs - 1`, and `2 * (cs - 1)^2 < r^2`.
proof fn lemma_same_cell_close(a: Point, b: Point, cs: int, r: int)
    requires
        cell_size_ok(cs, r),
        0 <= a.x && 0 <= a.y && 0 <= b.x && 0 <= b.y,
        cell_col(a, cs) == cell_col(b, cs),
        cell_row(a, cs) == cell_row(b, cs),
    ensures
        dist_sq(a, b) < r * r,
{
    lemma_fundamental_div_mod(a.x as int, cs);
    lemma_fundamental_div_mod(b.x as int, cs);
    lemma_fundamental_div_mod(a.y as int, cs);
    lemma_fundamental_div_mod(b.y as int, cs);
    vstd::arithmetic::div_mod::lemma_mod_bound(a.x as int, cs);
    vstd::arithmetic::div_mod::lemma_mod_bound(b.x as int, cs);
    vstd::arithmetic::div_mod::lemma_mod_bound(a.y as int, cs);
    vstd::arithmetic::div_mod::lemma_mod_bound(b.y as int, cs);
    assert(-(cs - 1) <= a.x - b.x <= cs - 1);
    assert(-(cs - 1) <= a.y - b.y <= cs - 1);
    assert(dist_sq(a, b) <= 2 * (cs - 1) * (cs - 1)) by (nonlinear_arith)
        requires
            -(cs - 1) <= a.x - b.x <= cs - 1,
            -(cs - 1) <= a.y - b.y <= cs - 1,
            dist_sq(a, b) == (a.x - b.x) * (a.x - b.x) + (a.y - b.y) * (a.y - b.y),
    ;
}

/// A point within distance `r` of a candidate falls in a cell inside the
/// clamped 2r-neighbourhood of the candidate's coordinates.
proof fn lemma_close_in_box(cand: Point, t: Point, r: int, cs: int, cw: int, ch: int)
    requires
        1 <= cs,
        1 <= r,
        1 <= cw,
        1 <= ch,
        0 <= t.x && 0 <= t.y,
        cell_col(t, cs) < cw,
        cell_row(t, cs) < ch,
        dist_sq(cand, t) < r * r,
    ensures
        clamp_cell(cand.x - r, cs, cw) <= cell_col(t, cs) <= clamp_cell(cand.x + r, cs, cw),
        clamp_cell(cand.y - r, cs, ch) <= cell_row(t, cs) <= clamp_cell(cand.y + r, cs, ch),
{
    assert(cand.x - r <= t.x <= cand.x + r && cand.y - r <= t.y <= cand.y + r) by (nonlinear_arith)
        requires
            1 <= r,
            dist_sq(cand, t) < r * r,
            dist_sq(cand, t) == (cand.x - t.x) * (cand.x - t.x) + (cand.y - t.y) * (cand.y - t.y),
    ;
    lemma_div_pos_is_pos(t.x as int, cs);
    lemma_div_pos_is_pos(t.y as int, cs);
    if cand.x - r >= 0 {
        lemma_div_is_ordered(cand.x - r, t.x as int, cs);
    }
    if cand.y - r >= 0 {
        lemma_div_is_ordered(cand.y - r, t.y as int, cs);
    }
    lemma_div_is_ordered(t.x as int, cand.x + r, cs);
    lemma_div_is_ordered(t.y as int, cand.y + r, cs);
}

/// The clamped background-grid index of coordinate `f`.
fn cell_index(f: i64, cs: i64, len: usize) -> (i: usize)
    requires
        1 <= cs <= DIM_LIMIT,
        -4 * DIM_LIMIT <= f <= 4 * DIM_LIMIT,
        1 <= len <= 2 * DIM_LIMIT,
    ensures
        i as int == clamp_cell(f as int, cs as int, len as int),
        i < len,
{
    if f < 0 {
        return 0;
    }
    proof {
        lemma_div_pos_is_pos(f as int, cs as int);
        vstd::arithmetic::div_mod::lemma_div_nonincreasing(f as int, cs as int);
    }
    let q: i64 = f / cs;
    if q >= len as i64 {
        len - 1
    } else {
        q as usize
    }
}

/// Whether no accepted sample lies strictly closer than `r` to the
/// candidate. Only the cells of the candidate's clamped 2r-neighbourhood
/// are consulted; the state invariant makes that search exhaustive, so
/// the answer is exact over the whole sample arena.
fn no_samples_within_r(
    background_grid: &Vec<Vec<usize>>,
    samples: &Vec<Point>,
    cs: i64,
    sample: Point,
    r: i64,
    width: i64,
    height: i64,
) -> (ok: bool)
    requires
        1 <= r <= DIM_LIMIT,
        0 <= width <= DIM_LIMIT,
        0 <= height <= DIM_LIMIT,
        cell_size_ok(cs as int, r as int),
        state_inv(
            samples@,
            background_grid@.map_values(|row: Vec<usize>| row@),
            width,
            height,
            r,
            cs as int,
            background_grid@.len() as int,
            background_grid@[0]@.len() as int,
        ),
        background_grid@.len() >= 1,
        background_grid@.len() <= 2 * DIM_LIMIT,
        background_grid@[0]@.len() >= 1,
        background_grid@[0]@.len() <= 2 * DIM_LIMIT,
        0 <= sample.x <= width,
        0 <= sample.y <= height,
    ensures
        ok <==> (forall|k: int|
            1 <= k < samples@.len() ==> dist_sq(sample, #[trigger] samples@[k]) >= r * r),
{
    let ghost g = background_grid@.map_values(|row: Vec<usize>| row@);
    let ghost cw = background_grid@.len() as int;
    let ghost ch = background_grid@[0]@.len() as int;

    let cells_w: usize = background_grid.len();
    let cells_h: usize = background_grid[0].len();

    let i_min = cell_index(sample.x - r, cs, cells_w);
    let i_max = cell_index(sample.x + r, cs, cells_w);
    let j_min = cell_index(sample.y - r, cs, cells_h);
    let j_max = cell_index(sample.y + r, cs, cells_h);

    proof {
        lemma_div_pos_is_pos(sample.x + r, cs as int);
        lemma_div_pos_is_pos(sample.y + r, cs as int);
        if sample.x - r >= 0 {
            lemma_div_is_ordered(sample.x - r, sample.x + r, cs as int);
        }
        if sample.y - r >= 0 {
            lemma_div_is_ordered(sample.y - r, sample.y + r, cs as int);
        }
        assert(i_min <= i_max);
        assert(j_min <= j_max);
    }

    let mut i = i_min;
    while i <= i_max
        invariant
            1 <= r <= DIM_LIMIT,
            0 <= width <= DIM_LIMIT,
            0 <= height <= DIM_LIMIT,
            cell_size_ok(cs as int, r as int),
            g == background_grid@.map_values(|row: Vec<usize>| row@),
            cw == background_grid@.len() as int,
            ch == background_grid@[0]@.len() as int,
            cells_w == cw && cells_h == ch,
            1 <= cw <= 2 * DIM_LIMIT && 1 <= ch <= 2 * DIM_LIMIT,
            state_inv(samples@, g, width, height, r, cs as int, cw, ch),
            0 <= sample.x <= width,
            0 <= sample.y <= height,
            i_min as int == clamp_cell(sample.x - r, cs as int, cw),
            i_max as int == clamp_cell(sample.x + r, cs as int, cw),
            j_min as int == clamp_cell(sample.y - r, cs as int, ch),
            j_max as int == clamp_cell(sample.y + r, cs as int, ch),
            i_min <= i,
            i <= i_max + 1,
            i_min <= i_max && j_min <= j_max,
            i_max < cells_w && j_max < cells_h,
            forall|k: int|
                1 <= k < samples@.len()
                    && j_min <= cell_row(#[trigger] samples@[k], cs as int) <= j_max
                    && i_min <= cell_col(samples@[k], cs as int) < i
                    ==> dist_sq(sample, samples@[k]) >= r * r,
        decreases i_max + 1 - i,
    {
        let mut j = j_min;
        while j <= j_max
            invariant
                1 <= r <= DIM_LIMIT,
                0 <= width <= DIM_LIMIT,
                0 <= height <= DIM_LIMIT,
                cell_size_ok(cs as int, r as int),
                g == background_grid@.map_values(|row: Vec<usize>| row@),
                cw == background_grid@.len() as int,
                ch == background_grid@[0]@.len() as int,
                cells_w == cw && cells_h == ch,
                1 <= cw <= 2 * DIM_LIMIT && 1 <= ch <= 2 * DIM_LIMIT,
                state_inv(samples@, g, width, height, r, cs as int, cw, ch),
                0 <= sample.x <= width,
                0 <= sample.y <= height,
                i_min as int == clamp_cell(sample.x - r, cs as int, cw),
                i_max as int == clamp_cell(sample.x + r, cs as int, cw),
                j_min as int == clamp_cell(sample.y - r, cs as int, ch),
                j_max as int == clamp_cell(sample.y + r, cs as int, ch),
                i_min <= i <= i_max,
                j_min <= j,
                j <= j_max + 1,
                i_max < cells_w && j_max < cells_h,
                forall|k: int|
                    1 <= k < samples@.len()
                        && j_min <= cell_row(#[trigger] samples@[k], cs as int) <= j_max
                        && i_min <= cell_col(samples@[k], cs as int) < i
                        ==> dist_sq(sample, samples@[k]) >= r * r,
                forall|k: int|
                    1 <= k < samples@.len()
                        && cell_col(#[trigger] samples@[k], cs as int) == i
                        && j_min <= cell_row(samples@[k], cs as int) < j
                        ==> dist_sq(sample, samples@[k]) >= r * r,
            decreases j_max + 1 - j,
        {
            proof {
                assert(g[i as int] == background_grid@[i as int]@);
                assert(g[i as int].len() == ch);
            }
            let index = background_grid[i][j];
            assert(cell_sound(samples@, g, cs as int, i as int, j as int));
            assert(g[i as int][j as int] == background_grid@[i as int]@[j as int]);
            if index != 0 {
                let nearby = samples[index];
                proof {
                    assert(registered(samples@, g, cs as int, cw, ch, index as int));
                    assert(sample_in_inset(samples@[index as int], width, height, r));
                }
                if is_closer_than(r, sample, nearby) {
                    return false;
                }
            }
            proof {
                // every sample falling in cell (i, j) is the registered one
                assert forall|k: int|
                    1 <= k < samples@.len()
                        && cell_col(#[trigger] samples@[k], cs as int) == i
                        && cell_row(samples@[k], cs as int) == j
                    implies dist_sq(sample, samples@[k]) >= r * r by {
                    assert(registered(samples@, g, cs as int, cw, ch, k));
                    assert(g[i as int][j as int] as int == k);
                    assert(index as int == k);
                }
            }
            j = j + 1;
        }
        proof {
            assert forall|k: int|
                1 <= k < samples@.len()
                    && j_min <= cell_row(#[trigger] samples@[k], cs as int) <= j_max
                    && i_min <= cell_col(samples@[k], cs as int) < i + 1
                implies dist_sq(sample, samples@[k]) >= r * r by {
                if cell_col(samples@[k], cs as int) == i {
                    assert(cell_row(samples@[k], cs as int) < j);
                }
            }
        }
        i = i + 1;
    }
    proof {
        assert forall|k: int| 1 <= k < samples@.len() implies dist_sq(
            sample,
            #[trigger] samples@[k],
        ) >= r * r by {
            if dist_sq(sample, samples@[k]) < r * r {
                assert(registered(samples@, g, cs as int, cw, ch, k));
                lemma_close_in_box(sample, samples@[k], r as int, cs as int, cw, ch);
                assert(false);
            }
        }
    }
    true
}

/// Registers an accepted sample: appends it to the arena and the active
/// list and records its index in its background-grid cell. The cell is
/// proven empty: a registrant would share the cell, hence lie closer
/// than the minimum distance the caller has just established.
fn add_sample(
    samples: &mut Vec<Point>,
    active: &mut Vec<usize>,
    background_grid: &mut Vec<Vec<usize>>,
    cs: i64,
    sample: Point,
    width: i64,
    height: i64,
    r: i64,
)
    requires
        1 <= r <= DIM_LIMIT,
        0 <= width <= DIM_LIMIT,
        0 <= height <= DIM_LIMIT,
        1 <= cs <= DIM_LIMIT,
        cell_size_ok(cs as int, r as int),
        state_inv(
            old(samples)@,
            old(background_grid)@.map_values(|row: Vec<usize>| row@),
            width,
            height,
            r,
            cs as int,
            old(background_grid)@.len() as int,
            old(background_grid)@[0]@.len() as int,
        ),
        1 <= old(background_grid)@.len() <= 2 * DIM_LIMIT,
        1 <= old(background_grid)@[0]@.len() <= 2 * DIM_LIMIT,
        sample_in_inset(sample, width, height, r),
        forall|k: int|
            1 <= k < old(samples)@.len() ==> dist_sq(sample, #[trigger] old(samples)@[k]) >= r * r,
        cell_col(sample, cs as int) < old(background_grid)@.len(),
        cell_row(sample, cs as int) < old(background_grid)@[0]@.len(),
    ensures
        final(samples)@ == old(samples)@.push(sample),
        final(active)@ == old(active)@.push(((old(samples)@.len()) as usize)),
        final(background_grid)@.len() == old(background_grid)@.len(),
        final(background_grid)@[0]@.len() == old(background_grid)@[0]@.len(),
        state_inv(
            final(samples)@,
            final(background_grid)@.map_values(|row: Vec<usize>| row@),
            width,
            height,
            r,
            cs as int,
            final(background_grid)@.len() as int,
            final(background_grid)@[0]@.len() as int,
        ),
{
    let ghost g0 = background_grid@.map_values(|row: Vec<usize>| row@);
    let ghost cw = background_grid@.len() as int;
    let ghost ch = background_grid@[0]@.len() as int;

    proof {
        lemma_div_pos_is_pos(sample.x as int, cs as int);
        lemma_div_pos_is_pos(sample.y as int, cs as int);
    }
    let index: usize = samples.len();
    let ci = cell_index(sample.x, cs, background_grid.len());
    let ghost ch_usize = background_grid@[0]@.len();
    proof {
        assert(g0[0] == background_grid@[0]@);
    }
    let row_len: usize = background_grid[0].len();
    let cj = cell_index(sample.y, cs, row_len);
    proof {
        assert(ci as int == cell_col(sample, cs as int));
        assert(cj as int == cell_row(sample, cs as int));
        assert(cell_sound(old(samples)@, g0, cs as int, ci as int, cj as int));
        if g0[ci as int][cj as int] != 0 {
            let k = g0[ci as int][cj as int] as int;
            assert(sample_in_inset(old(samples)@[k], width, height, r));
            lemma_same_cell_close(sample, old(samples)@[k], cs as int, r as int);
            assert(false);
        }
        assert(g0[ci as int][cj as int] == 0);
    }
    samples.push(sample);
    active.push(index);
    proof {
        assert(g0[ci as int] == background_grid@[ci as int]@);
        assert(g0[ci as int].len() == ch);
    }
    background_grid[ci][cj] = index;

    proof {
        let g = background_grid@.map_values(|row: Vec<usize>| row@);
        assert(background_grid@[ci as int]@ =~= g0[ci as int].update(cj as int, index));
        assert forall|i: int| 0 <= i < cw implies #[trigger] g[i] == if i == ci as int {
            g0[ci as int].update(cj as int, index)
        } else {
            g0[i]
        } by {
            assert(g[i] == background_grid@[i]@);
        }
        assert(grid_wf(g, cw, ch));
        assert forall|k: int| 1 <= k < samples@.len() implies #[trigger] registered(
            samples@,
            g,
            cs as int,
            cw,
            ch,
            k,
        ) by {
            if k < index {
                assert(registered(old(samples)@, g0, cs as int, cw, ch, k));
                assert(samples@[k] == old(samples)@[k]);
                let ki = cell_col(samples@[k], cs as int);
                let kj = cell_row(samples@[k], cs as int);
                if ki == ci as int && kj == cj as int {
                    assert(g0[ki][kj] as int == k);
                    assert(false);
                }
                assert(g[ki][kj] == g0[ki][kj]);
            } else {
                assert(samples@[k] == sample);
                assert(g[ci as int][cj as int] == index);
            }
        }
        assert forall|i: int, j: int| 0 <= i < cw && 0 <= j < ch implies #[trigger] cell_sound(
            samples@,
            g,
            cs as int,
            i,
            j,
        ) by {
            if i == ci as int && j == cj as int {
                assert(g[i][j] as int == index as int);
            } else {
                assert(g[i][j] == g0[i][j]);
                assert(cell_sound(old(samples)@, g0, cs as int, i, j));
                if g0[i][j] != 0 {
                    let k = g0[i][j] as int;
                    assert(samples@[k] == old(samples)@[k]);
                }
            }
        }
        assert forall|k: int, l: int| 1 <= k < l < samples@.len() implies dist_sq(
            samples@[k],
            samples@[l],
        ) >= r * r by {
            if l < index {
                assert(samples@[k] == old(samples)@[k] && samples@[l] == old(samples)@[l]);
            } else {
                assert(samples@[l] == sample);
                assert(samples@[k] == old(samples)@[k]);
                assert(dist_sq(sample, old(samples)@[k]) >= r * r);
                lemma_dist_sq_symm(sample, old(samples)@[k]);
            }
        }
        assert forall|k: int| 1 <= k < samples@.len() implies sample_in_inset(
            #[trigger] samples@[k],
            width,
            height,
            r,
        ) by {
            if k < index {
                assert(samples@[k] == old(samples)@[k]);
            }
        }
    }
}

/// Each registered sample owns its cell, so distinct samples sit in
/// distinct cells: the arena can never outgrow the number of cells.
proof fn lemma_sample_count_bound(
    samples: Seq<Point>,
    grid: Seq<Seq<usize>>,
    cs: int,
    cw: int,
    ch: int,
)
    requires
        samples.len() >= 1,
        1 <= cw,
        1 <= ch,
        forall|k: int| 1 <= k < samples.len() ==> #[trigger] registered(samples, grid, cs, cw, ch, k),
    ensures
        samples.len() - 1 <= cw * ch,
{
    let f = |k: int| cell_col(samples[k], cs) * ch + cell_row(samples[k], cs);
    let x = vstd::set_lib::set_int_range(1, samples.len() as int);
    let y = x.map(f);
    vstd::set_lib::lemma_int_range(1, samples.len() as int);
    assert forall|k1: int, k2: int|
        x.contains(k1) && x.contains(k2) && #[trigger] f(k1) == #[trigger] f(k2) implies k1 == k2 by {
        assert(registered(samples, grid, cs, cw, ch, k1));
        assert(registered(samples, grid, cs, cw, ch, k2));
        let c1 = cell_col(samples[k1], cs);
        let r1 = cell_row(samples[k1], cs);
        let c2 = cell_col(samples[k2], cs);
        let r2 = cell_row(samples[k2], cs);
        assert(c1 == c2 && r1 == r2) by (nonlinear_arith)
            requires
                c1 * ch + r1 == c2 * ch + r2,
                0 <= r1 < ch,
                0 <= r2 < ch,
                0 <= c1,
                0 <= c2,
        ;
        assert(grid[c1][r1] as int == k1);
        assert(grid[c2][r2] as int == k2);
    }
    assert(vstd::relations::injective_on(f, x));
    vstd::set_lib::lemma_map_size(x, y, f);
    assert forall|v: int| y.contains(v) implies 0 <= v < cw * ch by {
        let k = choose|k: int| x.contains(k) && #[trigger] f(k) == v;
        assert(registered(samples, grid, cs, cw, ch, k));
        let c = cell_col(samples[k], cs);
        let rr = cell_row(samples[k], cs);
        assert(0 <= c * ch + rr < cw * ch) by (nonlinear_arith)
            requires
                0 <= c < cw,
                0 <= rr < ch,
        ;
    }
    vstd::set_lib::lemma_int_range(0, cw * ch);
    assert(y.subset_of(vstd::set_lib::set_int_range(0, cw * ch)));
    vstd::set_lib::lemma_len_subset(y, vstd::set_lib::set_int_range(0, cw * ch));
}

/// Blue-noise layout by Bridson dart throwing: a randomly grown set of
/// points in the `width x height` area (inset by half the spacing on all
/// sides) in which no two points are closer than `spacing`. Each round
/// an active point tries up to `K` candidate children at distance
/// `spacing` to `2 * spacing`; when one is accepted the same parent
/// stays current for the next round, and a parent whose candidates all
/// fail is retired for good and a new parent is drawn at random.
/// The generator is seeded from entropy, so two runs differ; what every
/// run keeps is the pairwise minimum distance, the inset bounds, and at
/// least one sample whenever the inset area is non-degenerate.
pub fn poisson(width: i64, height: i64, spacing: i64) -> (result: Vec<Point>)
    requires
        0 <= width <= DIM_LIMIT,
        0 <= height <= DIM_LIMIT,
        1 <= spacing <= DIM_LIMIT,
    ensures
        min_dist_ok(result@, spacing),
        forall|i: int|
            0 <= i < result@.len() ==> sample_in_inset(
                #[trigger] result@[i],
                width,
                height,
                spacing,
            ),
        width - spacing / 2 > spacing / 2 && height - spacing / 2 > spacing / 2
            ==> result@.len() >= 1,
        !(width - spacing / 2 > spacing / 2 && height - spacing / 2 > spacing / 2)
            ==> result@.len() == 0,
{
    let half_r: i64 = spacing / 2;
    if width - half_r <= half_r || height - half_r <= half_r {
        return Vec::new();
    }
    let r: i64 = spacing;

    // cell side just below r / sqrt(2): floor(0.707 r) + 1
    proof {
        lemma_remainder_lower(707 * r, 1000);
        vstd::arithmetic::div_mod::lemma_remainder_upper(707 * r, 1000);
        lemma_div_pos_is_pos(707 * r, 1000);
    }
    let m: i64 = 707 * r / 1000;
    proof {
        assert((707 * r / 1000) * 1000 <= 707 * r);
        assert(2 * m * m < r * r) by (nonlinear_arith)
            requires
                m * 1000 <= 707 * r,
                0 <= m,
                1 <= r,
        ;
        assert(707 * r - 1000 < m * 1000);
        assert(m + 1 <= r);
    }
    let cs: i64 = m + 1;
    assert(cell_size_ok(cs as int, r as int));

    proof {
        vstd::arithmetic::div_mod::lemma_div_nonincreasing(width as int, cs as int);
        lemma_div_pos_is_pos(width as int, cs as int);
        vstd::arithmetic::div_mod::lemma_div_nonincreasing(height as int, cs as int);
        lemma_div_pos_is_pos(height as int, cs as int);
    }
    let cells_w: usize = (width / cs + 1) as usize;
    let cells_h: usize = (height / cs + 1) as usize;

    let mut background_grid: Vec<Vec<usize>> = Vec::new();
    while background_grid.len() < cells_w
        invariant
            background_grid@.len() <= cells_w,
            forall|i: int|
                0 <= i < background_grid@.len() ==> (#[trigger] background_grid@[i])@.len()
                    == cells_h,
            forall|i: int, j: int|
                0 <= i < background_grid@.len() && 0 <= j < cells_h
                    ==> background_grid@[i]@[j] == 0,
        decreases cells_w - background_grid@.len(),
    {
        let mut row: Vec<usize> = Vec::new();
        while row.len() < cells_h
            invariant
                row@.len() <= cells_h,
                forall|j: int| 0 <= j < row@.len() ==> row@[j] == 0,
            decreases cells_h - row@.len(),
        {
            row.push(0);
        }
        background_grid.push(row);
    }

    let mut samples: Vec<Point> = Vec::new();
    // index 0 is the reserved "empty" marker, held by a sentinel entry
    samples.push(Point { x: -1, y: -1 });
    let mut active: Vec<usize> = Vec::new();
    let mut rng = rng_new();

    proof {
        let g = background_grid@.map_values(|row: Vec<usize>| row@);
        assert forall|i: int| 0 <= i < cells_w implies (#[trigger] g[i]).len()
            == cells_h by {
            assert(g[i] == background_grid@[i]@);
        }
        assert(grid_wf(g, cells_w as int, cells_h as int));
        assert forall|ci: int, cj: int|
            0 <= ci < cells_w && 0 <= cj < cells_h implies #[trigger] cell_sound(
            samples@,
            g,
            cs as int,
            ci,
            cj,
        ) by {
            assert(g[ci] == background_grid@[ci]@);
            assert(g[ci][cj] == 0);
        }
        assert(state_inv(
            samples@,
            g,
            width,
            height,
            r,
            cs as int,
            cells_w as int,
            cells_h as int,
        ));
    }

    let x0 = rng_range_i64(&mut rng, half_r, width - half_r);
    let y0 = rng_range_i64(&mut rng, half_r, height - half_r);
    let first = Point { x: x0, y: y0 };
    proof {
        lemma_div_pos_is_pos(x0 as int, cs as int);
        lemma_div_pos_is_pos(y0 as int, cs as int);
        lemma_div_is_ordered(x0 as int, width as int, cs as int);
        lemma_div_is_ordered(y0 as int, height as int, cs as int);
    }
    add_sample(&mut samples, &mut active, &mut background_grid, cs, first, width, height, r);

    let ghost cap = (cells_w as int) * (cells_h as int);
    let mut curr_i: usize = 0;
    let mut have_parent: bool = false;
    while active.len() > 0
        invariant
            have_parent ==> curr_i < active@.len(),
            1 <= r <= DIM_LIMIT,
            r == spacing,
            0 <= width <= DIM_LIMIT,
            0 <= height <= DIM_LIMIT,
            half_r == spacing / 2,
            width - half_r > half_r,
            height - half_r > half_r,
            1 <= cs <= DIM_LIMIT,
            cell_size_ok(cs as int, r as int),
            cells_w as int == width as int / cs as int + 1,
            cells_h as int == height as int / cs as int + 1,
            1 <= cells_w as int <= 2 * (DIM_LIMIT as int),
            1 <= cells_h as int <= 2 * (DIM_LIMIT as int),
            background_grid@.len() == cells_w,
            background_grid@[0]@.len() == cells_h,
            state_inv(
                samples@,
                background_grid@.map_values(|row: Vec<usize>| row@),
                width,
                height,
                r,
                cs as int,
                cells_w as int,
                cells_h as int,
            ),
            forall|t: int| 0 <= t < active@.len() ==> 1 <= #[trigger] active@[t] < samples@.len(),
            2 <= samples@.len(),
            cap == (cells_w as int) * (cells_h as int),
        decreases cap + 1 - samples@.len(), active@.len(),
    {
        proof {
            lemma_sample_count_bound(
                samples@,
                background_grid@.map_values(|row: Vec<usize>| row@),
                cs as int,
                cells_w as int,
                cells_h as int,
            );
        }
        if !have_parent {
            curr_i = rng_below(&mut rng, active.len());
        }
        let curr_idx = active[curr_i];
        let curr = samples[curr_idx];
        assert(sample_in_inset(curr, width, height, r));

        let mut attempt: u64 = 0;
        let mut found: bool = false;
        let mut fx: i64 = 0;
        let mut fy: i64 = 0;
        while attempt < K && !found
            invariant
                1 <= r <= DIM_LIMIT,
                0 <= width <= DIM_LIMIT,
                0 <= height <= DIM_LIMIT,
                half_r == r / 2,
                width - half_r > half_r,
                height - half_r > half_r,
                1 <= cs <= DIM_LIMIT,
                cell_size_ok(cs as int, r as int),
                cells_w as int == width as int / cs as int + 1,
                cells_h as int == height as int / cs as int + 1,
                1 <= cells_w as int <= 2 * (DIM_LIMIT as int),
                1 <= cells_h as int <= 2 * (DIM_LIMIT as int),
                background_grid@.len() == cells_w,
                background_grid@[0]@.len() == cells_h,
                state_inv(
                    samples@,
                    background_grid@.map_values(|row: Vec<usize>| row@),
                    width,
                    height,
                    r,
                    cs as int,
                    cells_w as int,
                    cells_h as int,
                ),
                sample_in_inset(curr, width, height, r),
                found ==> sample_in_inset(Point { x: fx, y: fy }, width, height, r),
                found ==> forall|k: int|
                    1 <= k < samples@.len() ==> dist_sq(
                        Point { x: fx, y: fy },
                        #[trigger] samples@[k],
                    ) >= r * r,
            decreases K - attempt,
        {
            let two_r: i64 = 2 * r;
            let dx = rng_range_i64(&mut rng, -two_r, two_r + 1);
            let dy = rng_range_i64(&mut rng, -two_r, two_r + 1);
            proof {
                assert(dx * dx <= 40_000_000_000_000_000) by (nonlinear_arith)
                    requires
                        -200_000_000 <= dx <= 200_000_000,
                ;
                assert(dy * dy <= 40_000_000_000_000_000) by (nonlinear_arith)
                    requires
                        -200_000_000 <= dy <= 200_000_000,
                ;
                assert(dx * dx >= 0 && dy * dy >= 0) by (nonlinear_arith);
                assert(0 <= r * r <= 10_000_000_000_000_000) by (nonlinear_arith)
                    requires
                        1 <= r <= 100_000_000,
                ;
            }
            // keep only candidates in the closed annulus of radii r and 2r
            let d2: i64 = dx * dx + dy * dy;
            let r_sq: i64 = r * r;
            if d2 >= r_sq && d2 <= 4 * r_sq {
                let x = curr.x + dx;
                let y = curr.y + dy;
                if !(x < half_r || y < half_r || x > width - half_r || y > height - half_r) {
                    let cand = Point { x, y };
                    if no_samples_within_r(&background_grid, &samples, cs, cand, r, width, height) {
                        found = true;
                        fx = x;
                        fy = y;
                    }
                }
            }
            attempt = attempt + 1;
        }

        if found {
            let cand = Point { x: fx, y: fy };
            let ghost prev_active = active@;
            let prev_len: usize = samples.len();
            proof {
                lemma_div_pos_is_pos(fx as int, cs as int);
                lemma_div_pos_is_pos(fy as int, cs as int);
                lemma_div_is_ordered(fx as int, width as int, cs as int);
                lemma_div_is_ordered(fy as int, height as int, cs as int);
            }
            add_sample(&mut samples, &mut active, &mut background_grid, cs, cand, width, height, r);
            proof {
                lemma_sample_count_bound(
                    samples@,
                    background_grid@.map_values(|row: Vec<usize>| row@),
                    cs as int,
                    cells_w as int,
                    cells_h as int,
                );
                assert forall|t: int| 0 <= t < active@.len() implies 1 <= #[trigger] active@[t]
                    < samples@.len() by {
                    if t < prev_active.len() {
                        assert(active@[t] == prev_active[t]);
                    } else {
                        assert(active@[t] == prev_len);
                    }
                }
            }
            // the parent that spawned this sample stays current: its
            // candidate search restarts on the next round
            have_parent = true;
        } else {
            // every candidate failed: retire the parent for good
            let ghost prev_active = active@;
            active.swap_remove(curr_i);
            proof {
                assert forall|t: int| 0 <= t < active@.len() implies 1 <= #[trigger] active@[t]
                    < samples@.len() by {
                    if t == curr_i as int {
                        assert(active@[t] == prev_active.last());
                    } else {
                        assert(active@[t] == prev_active[t]);
                    }
                }
            }
            have_parent = false;
        }
    }

    // hand out the accepted samples, sentinel dropped
    let mut result: Vec<Point> = Vec::new();
    let mut i: usize = 1;
    while i < samples.len()
        invariant
            1 <= i <= samples@.len(),
            2 <= samples@.len(),
            1 <= r,
            r == spacing,
            forall|k: int|
                1 <= k < samples@.len() ==> sample_in_inset(
                    #[trigger] samples@[k],
                    width,
                    height,
                    spacing,
                ),
            forall|k: int, l: int|
                1 <= k < l < samples@.len() ==> dist_sq(samples@[k], samples@[l]) >= spacing
                    * spacing,
            result@ == samples@.subrange(1, i as int),
        decreases samples@.len() - i,
    {
        let p = samples[i];
        result.push(p);
        proof {
            assert(result@ =~= samples@.subrange(1, i + 1));
        }
        i = i + 1;
    }
    proof {
        assert(result@ == samples@.subrange(1, samples@.len() as int));
        assert forall|a: int, b: int| 0 <= a < b < result@.len() implies dist_sq(
            result@[a],
            result@[b],
        ) >= spacing * spacing by {
            assert(result@[a] == samples@[a + 1]);
            assert(result@[b] == samples@[b + 1]);
        }
        assert forall|a: int| 0 <= a < result@.len() implies sample_in_inset(
            #[trigger] result@[a],
            width,
            height,
            spacing,
        ) by {
            assert(result@[a] == samples@[a + 1]);
        }
    }
    result
}

} // verus!
