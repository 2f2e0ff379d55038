//! What holds of the measures of a polygon, of its triangles and of the
//! merge of two triangles.
use crate::arith::{lemma_mul_within, magnitude, quotient_toward_zero};
use crate::geometry::point::{spec_turn, Point};
use crate::geometry::polygon::{
    spec_area, spec_best_candidate, spec_corners_without_edge, spec_diagonal_length, spec_edges,
    spec_epsilon_equals, spec_interior_angle, spec_is_candidate, spec_is_concave, spec_may_merge,
    spec_merged_corners, spec_next, spec_prev, spec_shoelace, spec_shoelace_term,
    spec_signed_doubled_area, spec_square, spec_start_points, spec_triangle, spec_triangulation,
    spec_wrap,
};
use vstd::prelude::*;

verus! {

/// The polygon made from the edges of a ring has the corners of the ring,
/// and so agrees with it within every positive tolerance.
pub proof fn lemma_edges_give_ring_back(pts: Seq<Point>, tol: i64)
    ensures
        spec_start_points(spec_edges(pts)) == pts,
        tol >= 1 ==> spec_epsilon_equals(spec_start_points(spec_edges(pts)), pts, tol),
{
    assert(spec_start_points(spec_edges(pts)) =~= pts);
}

/// The area of the square is the square of twice its half side: for an
/// even side, the side times the side.
pub proof fn lemma_square_area(len: i32)
    ensures
        spec_area(spec_square(len)) == (2 * quotient_toward_zero(len as int, 2)) * (2
            * quotient_toward_zero(len as int, 2)),
        len % 2 == 0 ==> spec_area(spec_square(len)) == len * len,
{
    let h = quotient_toward_zero(len as int, 2);
    let pts = spec_square(len);
    let m = -h;
    assert(pts[0] == Point { x: m as i32, y: m as i32 });
    assert(pts[1] == Point { x: h as i32, y: m as i32 });
    assert(pts[2] == Point { x: h as i32, y: h as i32 });
    assert(pts[3] == Point { x: m as i32, y: h as i32 });
    reveal_with_fuel(spec_shoelace, 5);
    assert(m * m == h * h && m * h == -(h * h) && h * m == -(h * h)) by (nonlinear_arith)
        requires
            m == -h,
    ;
    assert(spec_shoelace_term(pts[0], pts[1]) == 2 * (h * h));
    assert(spec_shoelace_term(pts[1], pts[2]) == 2 * (h * h));
    assert(spec_shoelace_term(pts[2], pts[3]) == 2 * (h * h));
    assert(spec_shoelace_term(pts[3], pts[0]) == 2 * (h * h));
    assert(spec_signed_doubled_area(pts) == 8 * (h * h));
    assert((2 * h) * (2 * h) == 4 * (h * h)) by (nonlinear_arith);
    assert(h * h >= 0) by (nonlinear_arith);
    if len % 2 == 0 {
        assert(2 * h == len);
        assert(len * len == (2 * h) * (2 * h)) by (nonlinear_arith)
            requires
                2 * h == len,
        ;
    }
}

/// A triangle is its own triangulation.
pub proof fn lemma_triangulation_of_triangle(ring: Seq<Point>, tol: i64)
    requires
        ring.len() == 3,
    ensures
        spec_triangulation(ring, tol) == Some(seq![ring]),
{
}

/// A ring of `n` corners is cut into `n - 2` pieces of three corners each.
pub proof fn lemma_triangulation_count(ring: Seq<Point>, tol: i64)
    requires
        ring.len() >= 3,
        spec_triangulation(ring, tol) is Some,
    ensures
        spec_triangulation(ring, tol).unwrap().len() == ring.len() - 2,
        forall|i: int|
            0 <= i < ring.len() - 2 ==> (#[trigger] spec_triangulation(ring, tol).unwrap()[i]).len()
                == 3,
    decreases ring.len(),
{
    if ring.len() > 3 {
        let k = spec_best_candidate(ring, tol, ring.len() as int).unwrap();
        let rest = spec_triangulation(ring.remove(k), tol).unwrap();
        lemma_triangulation_count(ring.remove(k), tol);
        let parts = spec_triangulation(ring, tol).unwrap();
        assert(parts == seq![spec_triangle(ring, k)] + rest);
        assert forall|i: int| 0 <= i < ring.len() - 2 implies (#[trigger] parts[i]).len() == 3 by {
            if i > 0 {
                assert(parts[i] == rest[i - 1]);
            }
        }
    }
}

/// The sum of the shoelace terms of the first `k` steps along an open
/// chain of points.
pub open spec fn spec_path_sum(pts: Seq<Point>, k: int) -> int
    decreases k,
{
    if k <= 0 {
        0
    } else {
        spec_path_sum(pts, k - 1) + spec_shoelace_term(pts[k - 1], pts[k])
    }
}

/// Twice the signed areas of the pieces, added up.
pub open spec fn spec_total_doubled_area(parts: Seq<Seq<Point>>) -> int
    decreases parts.len(),
{
    if parts.len() == 0 {
        0
    } else {
        spec_signed_doubled_area(parts[0]) + spec_total_doubled_area(
            parts.subrange(1, parts.len() as int),
        )
    }
}

/// Before the ring closes, its shoelace sum is that of the open chain.
proof fn lemma_shoelace_is_path(pts: Seq<Point>, k: int)
    requires
        0 <= k <= pts.len() - 1,
    ensures
        spec_shoelace(pts, k) == spec_path_sum(pts, k),
    decreases k,
{
    if k > 0 {
        lemma_shoelace_is_path(pts, k - 1);
    }
}

/// Chains that start with the same points have the same sums there.
proof fn lemma_path_head(a: Seq<Point>, b: Seq<Point>, j: int)
    requires
        0 <= j,
        forall|i: int| 0 <= i <= j ==> a[i] == b[i],
    ensures
        spec_path_sum(a, j) == spec_path_sum(b, j),
    decreases j,
{
    if j > 0 {
        lemma_path_head(a, b, j - 1);
    }
}

/// A chain that from `k` on holds the points of another, one place
/// earlier, gains there what the other gains one step later.
proof fn lemma_path_tail(r: Seq<Point>, ring: Seq<Point>, k: int, j: int)
    requires
        0 <= k <= j,
        forall|i: int| k <= i <= j ==> r[i] == ring[i + 1],
    ensures
        spec_path_sum(r, j) - spec_path_sum(r, k) == spec_path_sum(ring, j + 1) - spec_path_sum(
            ring,
            k + 1,
        ),
    decreases j - k,
{
    if j > k {
        lemma_path_tail(r, ring, k, j - 1);
    }
}

/// Swapping the two points of a shoelace term changes its sign.
proof fn lemma_term_swapped(a: Point, b: Point)
    ensures
        spec_shoelace_term(b, a) == -spec_shoelace_term(a, b),
{
    assert(b.x * a.y - b.y * a.x == -(a.x * b.y - a.y * b.x)) by (nonlinear_arith);
}

/// Cutting a corner off splits the signed area: that of the ring is that
/// of the ring without the corner plus that of the triangle cut off.
pub proof fn lemma_cut_splits_area(ring: Seq<Point>, k: int)
    requires
        ring.len() >= 4,
        0 <= k < ring.len(),
    ensures
        spec_signed_doubled_area(ring) == spec_signed_doubled_area(ring.remove(k))
            + spec_signed_doubled_area(spec_triangle(ring, k)),
{
    let n = ring.len() as int;
    let r = ring.remove(k);
    let tri = spec_triangle(ring, k);
    let p = ring[spec_prev(k, n)];
    let x = ring[spec_next(k, n)];
    assert(spec_signed_doubled_area(tri) == spec_shoelace_term(p, ring[k]) + spec_shoelace_term(
        ring[k],
        x,
    ) + spec_shoelace_term(x, p)) by {
        reveal_with_fuel(spec_shoelace, 4);
    }
    lemma_term_swapped(p, x);
    assert(spec_signed_doubled_area(ring) == spec_shoelace(ring, n - 1) + spec_shoelace_term(
        ring[n - 1],
        ring[0],
    ));
    assert(spec_signed_doubled_area(r) == spec_shoelace(r, n - 2) + spec_shoelace_term(
        r[n - 2],
        r[0],
    ));
    lemma_shoelace_is_path(ring, n - 1);
    lemma_shoelace_is_path(r, n - 2);
    if k == 0 {
        lemma_path_tail(r, ring, 0, n - 2);
        assert(spec_path_sum(ring, 1) == spec_path_sum(ring, 0) + spec_shoelace_term(
            ring[0],
            ring[1],
        ));
    } else if k == n - 1 {
        lemma_path_head(r, ring, n - 2);
        assert(spec_path_sum(ring, n - 1) == spec_path_sum(ring, n - 2) + spec_shoelace_term(
            ring[n - 2],
            ring[n - 1],
        ));
    } else {
        lemma_path_head(r, ring, k - 1);
        lemma_path_tail(r, ring, k, n - 2);
        assert(spec_path_sum(ring, k + 1) == spec_path_sum(ring, k) + spec_shoelace_term(
            ring[k],
            ring[k + 1],
        ));
        assert(spec_path_sum(ring, k) == spec_path_sum(ring, k - 1) + spec_shoelace_term(
            ring[k - 1],
            ring[k],
        ));
        assert(spec_path_sum(r, k) == spec_path_sum(r, k - 1) + spec_shoelace_term(r[k - 1], r[k]));
    }
}

/// The signed areas of the triangles of a ring add up to the signed area
/// of the ring.
pub proof fn lemma_triangulation_keeps_area(ring: Seq<Point>, tol: i64)
    requires
        ring.len() >= 3,
        spec_triangulation(ring, tol) is Some,
    ensures
        spec_total_doubled_area(spec_triangulation(ring, tol).unwrap()) == spec_signed_doubled_area(
            ring,
        ),
    decreases ring.len(),
{
    let parts = spec_triangulation(ring, tol).unwrap();
    if ring.len() > 3 {
        let k = spec_best_candidate(ring, tol, ring.len() as int).unwrap();
        let rest = spec_triangulation(ring.remove(k), tol).unwrap();
        lemma_triangulation_keeps_area(ring.remove(k), tol);
        lemma_cut_splits_area(ring, k);
        assert(parts == seq![spec_triangle(ring, k)] + rest);
        assert(parts.subrange(1, parts.len() as int) =~= rest);
    } else {
        assert(parts == seq![ring]);
        assert(parts.subrange(1, parts.len() as int) =~= Seq::<Seq<Point>>::empty());
        assert(spec_total_doubled_area(parts) == spec_signed_doubled_area(ring)
            + spec_total_doubled_area(Seq::<Seq<Point>>::empty()));
    }
}

/// The sizes of twice the signed areas of the pieces, added up.
pub open spec fn spec_total_doubled_size(parts: Seq<Seq<Point>>) -> int
    decreases parts.len(),
{
    if parts.len() == 0 {
        0
    } else {
        magnitude(spec_signed_doubled_area(parts[0])) + spec_total_doubled_size(
            parts.subrange(1, parts.len() as int),
        )
    }
}

/// Twice the signed area of the triangle at a corner is the cross part of
/// the angle at that corner.
pub proof fn lemma_triangle_area_is_turn(ring: Seq<Point>, k: int)
    requires
        ring.len() >= 3,
        0 <= k < ring.len(),
    ensures
        spec_signed_doubled_area(spec_triangle(ring, k)) == spec_interior_angle(ring, k).cross,
{
    let n = ring.len() as int;
    let p = ring[spec_prev(k, n)];
    let c = ring[k];
    let x = ring[spec_next(k, n)];
    assert(spec_signed_doubled_area(spec_triangle(ring, k)) == spec_shoelace_term(p, c)
        + spec_shoelace_term(c, x) + spec_shoelace_term(x, p)) by {
        reveal_with_fuel(spec_shoelace, 4);
    }
    let ax = c.x - p.x;
    let ay = c.y - p.y;
    let bx = x.x - c.x;
    let by = x.y - c.y;
    lemma_mul_within(ax, by, 0x1_0000_0000, 0x1_0000_0000);
    lemma_mul_within(ay, bx, 0x1_0000_0000, 0x1_0000_0000);
    assert(ax * by - ay * bx == (p.x * c.y - p.y * c.x) + (c.x * x.y - c.y * x.x) + (x.x * p.y - x.y
        * p.x)) by (nonlinear_arith)
        requires
            ax == c.x - p.x,
            ay == c.y - p.y,
            bx == x.x - c.x,
            by == x.y - c.y,
    ;
}

/// Where the last triangle does not wind clockwise, no piece does, and the
/// areas of the pieces add up to the area of the ring: the corners that
/// are cut off turn left, so their triangles wind counter-clockwise.
pub proof fn lemma_triangulation_keeps_size(ring: Seq<Point>, tol: i64)
    requires
        ring.len() >= 3,
        spec_triangulation(ring, tol) is Some,
        spec_signed_doubled_area(spec_triangulation(ring, tol).unwrap().last()) >= 0,
    ensures
        spec_signed_doubled_area(ring) >= 0,
        spec_total_doubled_size(spec_triangulation(ring, tol).unwrap()) == magnitude(
            spec_signed_doubled_area(ring),
        ),
    decreases ring.len(),
{
    let parts = spec_triangulation(ring, tol).unwrap();
    if ring.len() > 3 {
        let k = spec_best_candidate(ring, tol, ring.len() as int).unwrap();
        let rest = spec_triangulation(ring.remove(k), tol).unwrap();
        lemma_triangulation_count(ring.remove(k), tol);
        assert(parts == seq![spec_triangle(ring, k)] + rest);
        assert(parts.subrange(1, parts.len() as int) =~= rest);
        assert(parts.last() == rest.last());
        lemma_triangulation_keeps_size(ring.remove(k), tol);
        lemma_cut_splits_area(ring, k);
        lemma_best_candidate_is_candidate(ring, tol, ring.len() as int);
        lemma_triangle_area_is_turn(ring, k);
    } else {
        assert(parts == seq![ring]);
        assert(parts.subrange(1, parts.len() as int) =~= Seq::<Seq<Point>>::empty());
        assert(spec_total_doubled_size(parts) == magnitude(spec_signed_doubled_area(ring))
            + spec_total_doubled_size(Seq::<Seq<Point>>::empty()));
    }
}

/// The corner that is chosen among the first `m` is one of them, can be
/// cut off, and has the shortest diagonal of those that can; no corner
/// before it has a diagonal as short. None is chosen only where none of
/// the `m` can be cut off.
pub proof fn lemma_best_candidate_is_candidate(ring: Seq<Point>, tol: i64, m: int)
    requires
        0 <= m,
    ensures
        match spec_best_candidate(ring, tol, m) {
            Some(k) => {
                &&& 0 <= k < m
                &&& spec_is_candidate(ring, k, tol)
                &&& forall|j: int|
                    0 <= j < m && #[trigger] spec_is_candidate(ring, j, tol)
                        ==> spec_diagonal_length(ring, k) <= spec_diagonal_length(ring, j)
                &&& forall|j: int|
                    0 <= j < k && #[trigger] spec_is_candidate(ring, j, tol)
                        ==> spec_diagonal_length(ring, k) < spec_diagonal_length(ring, j)
            },
            None => forall|j: int| 0 <= j < m ==> !#[trigger] spec_is_candidate(ring, j, tol),
        },
    decreases m,
{
    if m > 0 {
        lemma_best_candidate_is_candidate(ring, tol, m - 1);
    }
}

/// The turn along three points is the same from whichever of them it is
/// counted.
pub proof fn lemma_turn_cycles(a: Point, b: Point, c: Point)
    ensures
        spec_turn(a, b, c) == spec_turn(b, c, a),
        spec_turn(a, b, c) == spec_turn(c, a, b),
{
    assert((b.x - a.x) * (c.y - a.y) - (c.x - a.x) * (b.y - a.y) == (c.x - b.x) * (a.y - b.y) - (a.x
        - b.x) * (c.y - b.y)) by (nonlinear_arith);
    assert((b.x - a.x) * (c.y - a.y) - (c.x - a.x) * (b.y - a.y) == (a.x - c.x) * (b.y - c.y) - (b.x
        - c.x) * (a.y - c.y)) by (nonlinear_arith);
}

/// The cross part of the angle at a corner is the turn along the corner
/// before it, the corner and the corner behind it.
pub proof fn lemma_angle_is_turn(ring: Seq<Point>, k: int)
    requires
        0 <= k < ring.len(),
    ensures
        spec_interior_angle(ring, k).cross == spec_turn(
            ring[spec_prev(k, ring.len() as int)],
            ring[k],
            ring[spec_next(k, ring.len() as int)],
        ),
{
    let n = ring.len() as int;
    let p = ring[spec_prev(k, n)];
    let c = ring[k];
    let x = ring[spec_next(k, n)];
    let ax = c.x - p.x;
    let ay = c.y - p.y;
    let bx = x.x - c.x;
    let by = x.y - c.y;
    lemma_mul_within(ax, by, 0x1_0000_0000, 0x1_0000_0000);
    lemma_mul_within(ay, bx, 0x1_0000_0000, 0x1_0000_0000);
    assert(ax * by - ay * bx == (c.x - p.x) * (x.y - p.y) - (x.x - p.x) * (c.y - p.y))
        by (nonlinear_arith)
        requires
            ax == c.x - p.x,
            ay == c.y - p.y,
            bx == x.x - c.x,
            by == x.y - c.y,
    ;
}

/// Two triangles that turn right at no corner and meet along an edge,
/// which runs the one way in `first` and the other way in `other`, merge
/// into a ring of four corners that turns right at no corner.
pub proof fn lemma_merged_triangles_are_convex(
    first: Seq<Point>,
    other: Seq<Point>,
    s: int,
    o: int,
    tol: i64,
)
    requires
        first.len() == 3,
        other.len() == 3,
        0 <= s < 3,
        0 <= o < 3,
        tol >= 1,
        !spec_is_concave(first),
        !spec_is_concave(other),
        other[o] == first[spec_next(s, 3)],
        other[spec_next(o, 3)] == first[s],
        spec_may_merge(first, other, s, o, tol),
    ensures
        spec_merged_corners(first, other, s, o).len() == 4,
        !spec_is_concave(spec_merged_corners(first, other, s, o)),
{
    let merged = spec_merged_corners(first, other, s, o);
    let a = first[s];
    let b = first[spec_next(s, 3)];
    let p = first[spec_prev(s, 3)];
    let c = other[spec_wrap(o + 2, 3)];
    assert(spec_corners_without_edge(other, o) =~= seq![c]);
    // the corner of `first` that is not on the shared edge
    let ip = spec_prev(s, 3);
    assert(!spec_interior_angle(first, ip).spec_is_reflex());
    lemma_angle_is_turn(first, ip);
    assert(spec_turn(b, p, a) >= 0);
    // the corner of `other` that coincides with `a`
    let ia = spec_next(o, 3);
    assert(!spec_interior_angle(other, ia).spec_is_reflex());
    lemma_angle_is_turn(other, ia);
    assert(spec_turn(b, a, c) >= 0);
    // the two join corners
    assert(spec_turn(p, c, b) > 0);
    assert(spec_turn(c, p, a) > 0);
    lemma_turn_cycles(b, a, c);
    lemma_turn_cycles(p, c, b);
    lemma_turn_cycles(c, p, a);
    assert(spec_turn(a, c, b) >= 0);
    assert(spec_turn(c, b, p) > 0);
    assert(spec_turn(p, a, c) > 0);
    assert(merged.len() == 4);
    assert forall|k: int| 0 <= k < 4 implies !(#[trigger] spec_interior_angle(
        merged,
        k,
    )).spec_is_reflex() by {
        lemma_angle_is_turn(merged, k);
    }
}

} // verus!
