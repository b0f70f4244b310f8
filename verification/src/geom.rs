//! Output-space points, squared distances and the pairwise
//! minimum-distance predicate.
use vstd::prelude::*;
use crate::DIM_LIMIT;

verus! {

/// A point in the output's physical coordinate system, in milli-units.
#[derive(Clone, Copy, PartialEq, Eq, Structural, Debug)]
pub struct Point {
    pub x: i64,
    pub y: i64,
}

/// Squared Euclidean distance between two points, as a mathematical integer.
pub open spec fn dist_sq(a: Point, b: Point) -> int {
    (a.x - b.x) * (a.x - b.x) + (a.y - b.y) * (a.y - b.y)
}

/// Whether a point's coordinates are within the machine bound, with room
/// for the offsets the sampler may add.
pub open spec fn coord_in_range(p: Point) -> bool {
    -4 * DIM_LIMIT <= p.x <= 4 * DIM_LIMIT && -4 * DIM_LIMIT <= p.y <= 4 * DIM_LIMIT
}

/// No two distinct points of the sequence are closer than `min_distance`:
/// every pair is at squared distance at least `min_distance^2`. Two points
/// at exactly `min_distance` apart satisfy it.
pub open spec fn min_dist_ok(s: Seq<Point>, min_distance: i64) -> bool {
    forall|i: int, j: int|
        0 <= i < j < s.len() ==> dist_sq(s[i], s[j]) >= min_distance * min_distance
}

/// Squared distance is symmetric in its arguments.
pub proof fn lemma_dist_sq_symm(a: Point, b: Point)
    ensures
        dist_sq(a, b) == dist_sq(b, a),
{
    assert((a.x - b.x) * (a.x - b.x) == (b.x - a.x) * (b.x - a.x)) by (nonlinear_arith);
    assert((a.y - b.y) * (a.y - b.y) == (b.y - a.y) * (b.y - a.y)) by (nonlinear_arith);
}

/// The squared Euclidean distance between two points. The square stands
/// in for the distance itself: comparisons against a threshold square the
/// threshold instead, so no root is ever taken.
pub fn distance_squared(a: Point, b: Point) -> (r: i64)
    requires
        coord_in_range(a),
        coord_in_range(b),
    ensures
        r == dist_sq(a, b),
{
    proof {
        assert((a.x - b.x) * (a.x - b.x) <= 800_000_000i64 * 800_000_000i64) by (nonlinear_arith)
            requires
                -800_000_000 <= a.x - b.x <= 800_000_000,
        ;
        assert((a.y - b.y) * (a.y - b.y) <= 800_000_000i64 * 800_000_000i64) by (nonlinear_arith)
            requires
                -800_000_000 <= a.y - b.y <= 800_000_000,
        ;
        assert((a.x - b.x) * (a.x - b.x) >= 0) by (nonlinear_arith);
        assert((a.y - b.y) * (a.y - b.y) >= 0) by (nonlinear_arith);
    }
    let dx: i64 = a.x - b.x;
    let dy: i64 = a.y - b.y;
    dx * dx + dy * dy
}

/// Whether two points are strictly closer than `min_distance`: a pair at
/// exactly `min_distance` is not closer.
pub fn is_closer_than(min_distance: i64, a: Point, b: Point) -> (r: bool)
    requires
        0 <= min_distance <= DIM_LIMIT,
        coord_in_range(a),
        coord_in_range(b),
    ensures
        r == (dist_sq(a, b) < min_distance * min_distance),
{
    proof {
        assert(min_distance * min_distance <= 100_000_000i64 * 100_000_000i64) by (nonlinear_arith)
            requires
                0 <= min_distance <= 100_000_000,
        ;
        assert(min_distance * min_distance >= 0) by (nonlinear_arith);
    }
    distance_squared(a, b) < min_distance * min_distance
}

/// Whether every pair of distinct points keeps the minimum distance:
/// the pairwise invariant a blue-noise layout promises of its output.
pub fn min_distance_respected(points: &Vec<Point>, min_distance: i64) -> (r: bool)
    requires
        0 <= min_distance <= DIM_LIMIT,
        forall|i: int| 0 <= i < points@.len() ==> coord_in_range(#[trigger] points@[i]),
    ensures
        r == min_dist_ok(points@, min_distance),
{
    let n = points.len();
    let mut i: usize = 0;
    while i < n
        invariant
            n == points@.len(),
            0 <= min_distance <= DIM_LIMIT,
            forall|k: int| 0 <= k < points@.len() ==> coord_in_range(#[trigger] points@[k]),
            i <= n,
            forall|a: int, b: int|
                0 <= a < b < n && a < i ==> dist_sq(points@[a], points@[b])
                    >= min_distance * min_distance,
        decreases n - i,
    {
        let mut j: usize = i + 1;
        while j < n
            invariant
                n == points@.len(),
                0 <= min_distance <= DIM_LIMIT,
                forall|k: int| 0 <= k < points@.len() ==> coord_in_range(#[trigger] points@[k]),
                i < n,
                i < j <= n,
                forall|a: int, b: int|
                    0 <= a < b < n && a < i ==> dist_sq(points@[a], points@[b])
                        >= min_distance * min_distance,
                forall|b: int|
                    i < b < j ==> dist_sq(points@[i as int], points@[b])
                        >= min_distance * min_distance,
            decreases n - j,
        {
            if is_closer_than(min_distance, points[i], points[j]) {
                return false;
            }
            j = j + 1;
        }
        i = i + 1;
    }
    true
}

} // verus!
