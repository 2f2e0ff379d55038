//! Why the no-fit polygon is convex: the edges of two rings add up to
//! nothing, so a walk along them in the order of their angles comes back
//! to its start, and on such a walk no edge can lie to the right of the
//! edge before it.
use crate::arith::lemma_mul_within;
use crate::geometry::line_segment::LineSegment;
use crate::geometry::point::Point;
use crate::geometry::polygon::{spec_edges, spec_interior_angle, spec_is_concave, spec_next, spec_prev};
use crate::geometry::vector::Vector;
use crate::nfp::{
    lemma_cross_chain, lemma_insert_position, lemma_sorted_is_ordered, spec_angle_below,
    spec_collected_edges, spec_half, spec_in_plane, spec_insert_position,
    spec_sorted_by_angle, spec_walk_corners, spec_walk_fits, spec_walk_order, spec_walk_start,
};
use vstd::prelude::*;

verus! {

/// The displacements of the edges, added up.
pub open spec fn spec_total(edges: Seq<LineSegment>) -> (int, int)
    decreases edges.len(),
{
    if edges.len() == 0 {
        (0, 0)
    } else {
        let t = spec_total(edges.drop_last());
        (
            t.0 + edges.last().to.x - edges.last().from.x,
            t.1 + edges.last().to.y - edges.last().from.y,
        )
    }
}

/// The cross products of `c` with the displacements of the edges, added up.
pub open spec fn spec_cross_total(c: Vector, edges: Seq<LineSegment>) -> int
    decreases edges.len(),
{
    if edges.len() == 0 {
        0
    } else {
        spec_cross_total(c, edges.drop_last()) + (c.x * (edges.last().to.y - edges.last().from.y)
            - c.y * (edges.last().to.x - edges.last().from.x))
    }
}

/// The cross product of `c` with the displacement of an edge.
pub open spec fn spec_cross_with(c: Vector, e: LineSegment) -> int {
    c.x * (e.to.y - e.from.y) - c.y * (e.to.x - e.from.x)
}

/// The cross products with the displacements add up to the cross product
/// with the sum of the displacements.
proof fn lemma_cross_total(c: Vector, edges: Seq<LineSegment>)
    ensures
        spec_cross_total(c, edges) == c.x * spec_total(edges).1 - c.y * spec_total(edges).0,
    decreases edges.len(),
{
    let all = spec_total(edges);
    if edges.len() > 0 {
        lemma_cross_total(c, edges.drop_last());
        let t = spec_total(edges.drop_last());
        let dx = edges.last().to.x - edges.last().from.x;
        let dy = edges.last().to.y - edges.last().from.y;
        assert(c.x * all.1 - c.y * all.0 == (c.x * t.1 - c.y * t.0) + (c.x * dy - c.y * dx))
            by (nonlinear_arith)
            requires
                all.0 == t.0 + dx,
                all.1 == t.1 + dy,
        ;
    } else {
        assert(c.x * all.1 - c.y * all.0 == 0) by (nonlinear_arith)
            requires
                all.0 == 0,
                all.1 == 0,
        ;
    }
}

/// Where no cross product is negative and they add up to zero, each is zero.
proof fn lemma_terms_vanish(c: Vector, edges: Seq<LineSegment>)
    requires
        forall|i: int| 0 <= i < edges.len() ==> spec_cross_with(c, #[trigger] edges[i]) >= 0,
    ensures
        spec_cross_total(c, edges) >= 0,
        spec_cross_total(c, edges) == 0 ==> forall|i: int|
            0 <= i < edges.len() ==> spec_cross_with(c, #[trigger] edges[i]) == 0,
    decreases edges.len(),
{
    if edges.len() > 0 {
        let head = edges.drop_last();
        assert forall|i: int| 0 <= i < head.len() implies spec_cross_with(c, #[trigger] head[i])
            >= 0 by {
            assert(head[i] == edges[i]);
        }
        lemma_terms_vanish(c, head);
        assert(spec_cross_with(c, edges[edges.len() - 1]) >= 0);
        if spec_cross_total(c, edges) == 0 {
            assert forall|i: int| 0 <= i < edges.len() implies spec_cross_with(
                c,
                #[trigger] edges[i],
            ) == 0 by {
                if i < head.len() {
                    assert(head[i] == edges[i]);
                }
            }
        }
    }
}

/// The displacements of two lists, one behind the other, add up to the
/// sums of the two.
proof fn lemma_total_of_joined(a: Seq<LineSegment>, b: Seq<LineSegment>)
    ensures
        spec_total(a + b).0 == spec_total(a).0 + spec_total(b).0,
        spec_total(a + b).1 == spec_total(a).1 + spec_total(b).1,
    decreases b.len(),
{
    if b.len() == 0 {
        assert(a + b =~= a);
    } else {
        assert((a + b).drop_last() =~= a + b.drop_last());
        assert((a + b).last() == b.last());
        lemma_total_of_joined(a, b.drop_last());
    }
}

/// Putting an edge into a list adds its displacement to the sum.
proof fn lemma_total_of_inserted(s: Seq<LineSegment>, pos: int, e: LineSegment)
    requires
        0 <= pos <= s.len(),
    ensures
        spec_total(s.insert(pos, e)).0 == spec_total(s).0 + e.to.x - e.from.x,
        spec_total(s.insert(pos, e)).1 == spec_total(s).1 + e.to.y - e.from.y,
{
    let a = s.subrange(0, pos);
    let b = s.subrange(pos, s.len() as int);
    assert(s =~= a + b);
    assert(s.insert(pos, e) =~= a.push(e) + b);
    lemma_total_of_joined(a, b);
    lemma_total_of_joined(a.push(e), b);
    assert(a.push(e).drop_last() =~= a);
}

/// Ordering the edges keeps the sum of their displacements.
proof fn lemma_total_of_sorted(edges: Seq<LineSegment>, k: int)
    requires
        0 <= k <= edges.len(),
    ensures
        spec_total(spec_sorted_by_angle(edges, k)) == spec_total(edges.subrange(0, k)),
    decreases k,
{
    if k > 0 {
        lemma_total_of_sorted(edges, k - 1);
        let before = spec_sorted_by_angle(edges, k - 1);
        lemma_insert_position(before, edges[k - 1]);
        lemma_total_of_inserted(before, spec_insert_position(before, edges[k - 1]), edges[k - 1]);
        assert(edges.subrange(0, k).drop_last() =~= edges.subrange(0, k - 1));
    } else {
        assert(edges.subrange(0, 0) =~= Seq::<LineSegment>::empty());
    }
}

/// Turning a list round keeps the sum of the displacements.
proof fn lemma_total_of_reversed(s: Seq<LineSegment>)
    ensures
        spec_total(s.reverse()) == spec_total(s),
    decreases s.len(),
{
    if s.len() > 0 {
        let head = s.drop_last();
        lemma_total_of_reversed(head);
        let one = seq![s.last()];
        assert(s.reverse() =~= one + head.reverse());
        lemma_total_of_joined(one, head.reverse());
        assert(one.drop_last() =~= Seq::<LineSegment>::empty());
        assert(one.last() == s.last());
        assert(spec_total(one.drop_last()) == (0int, 0int));
        assert(spec_total(one).0 == s.last().to.x - s.last().from.x);
        assert(spec_total(one).1 == s.last().to.y - s.last().from.y);
        assert(spec_total(s.reverse()).0 == spec_total(s).0);
        assert(spec_total(s.reverse()).1 == spec_total(s).1);
    } else {
        assert(s.reverse() =~= s);
    }
}

/// The first `k` edges of a ring lead from its first corner to corner `k`.
proof fn lemma_total_of_ring_edges(ring: Seq<Point>, k: int)
    requires
        ring.len() >= 1,
        0 <= k <= ring.len(),
    ensures
        spec_total(spec_edges(ring).subrange(0, k)).0 == ring[if k == ring.len() { 0 } else { k }].x
            - ring[0].x,
        spec_total(spec_edges(ring).subrange(0, k)).1 == ring[if k == ring.len() { 0 } else { k }].y
            - ring[0].y,
    decreases k,
{
    let edges = spec_edges(ring);
    if k > 0 {
        lemma_total_of_ring_edges(ring, k - 1);
        assert(edges.subrange(0, k).drop_last() =~= edges.subrange(0, k - 1));
        assert(edges.subrange(0, k).last() == edges[k - 1]);
    } else {
        assert(edges.subrange(0, 0) =~= Seq::<LineSegment>::empty());
    }
}

/// The edges of a ring lead back to where they start: their displacements
/// add up to nothing.
pub proof fn lemma_ring_closes(ring: Seq<Point>)
    requires
        ring.len() >= 1,
    ensures
        spec_total(spec_edges(ring)) == (0int, 0int),
{
    lemma_total_of_ring_edges(ring, ring.len() as int);
    assert(spec_edges(ring).subrange(0, ring.len() as int) =~= spec_edges(ring));
}

/// The walk of the edges of two rings leads back to where it starts.
pub proof fn lemma_walk_closes(first: Seq<Point>, other: Seq<Point>)
    requires
        first.len() >= 1,
        other.len() >= 1,
    ensures
        spec_total(spec_walk_order(spec_collected_edges(first, other))) == (0int, 0int),
{
    let edges = spec_collected_edges(first, other);
    lemma_ring_closes(first);
    lemma_ring_closes(other.reverse());
    lemma_total_of_joined(spec_edges(first), spec_edges(other.reverse()));
    lemma_total_of_sorted(edges, edges.len() as int);
    assert(edges.subrange(0, edges.len() as int) =~= edges);
    lemma_total_of_reversed(spec_sorted_by_angle(edges, edges.len() as int));
}

/// Where the `k`-th edge of a walk starts: at the start of the first edge,
/// moved by the first `k` edges.
proof fn lemma_walk_start(walk: Seq<LineSegment>, k: int)
    requires
        0 <= k <= walk.len(),
        walk.len() >= 1,
    ensures
        spec_walk_start(walk, k).0 == walk[0].from.x + spec_total(walk.subrange(0, k)).0,
        spec_walk_start(walk, k).1 == walk[0].from.y + spec_total(walk.subrange(0, k)).1,
    decreases k,
{
    if k > 0 {
        lemma_walk_start(walk, k - 1);
        assert(walk.subrange(0, k).drop_last() =~= walk.subrange(0, k - 1));
        assert(walk.subrange(0, k).last() == walk[k - 1]);
    } else {
        assert(walk.subrange(0, 0) =~= Seq::<LineSegment>::empty());
    }
}

/// No edge of the walk has a smaller angle than an edge before it.
pub open spec fn spec_ascends(walk: Seq<LineSegment>) -> bool {
    forall|i: int, j: int|
        0 <= i < j < walk.len() ==> !spec_angle_below(
            (#[trigger] walk[j]).direction,
            (#[trigger] walk[i]).direction,
        )
}

/// The direction of each edge is the displacement from its start to its end.
pub open spec fn spec_directions_hold(edges: Seq<LineSegment>) -> bool {
    forall|i: int|
        0 <= i < edges.len() ==> (#[trigger] edges[i]).direction.x == edges[i].to.x
            - edges[i].from.x && edges[i].direction.y == edges[i].to.y - edges[i].from.y
}

/// A vector in the upper half that is not behind `b`, and a vector `c` in
/// the lower half that lies to the right of `b`: the first lies to the
/// left of `c`, or along it.
proof fn lemma_left_across_halves(x: Vector, b: Vector, c: Vector)
    requires
        x.y > 0 || (x.y == 0 && x.x > 0),
        b.y > 0 || (b.y == 0 && b.x > 0),
        c.y < 0 || (c.y == 0 && c.x < 0),
        Vector::spec_cross_product(x, b) >= 0,
        Vector::spec_cross_product(b, c) < 0,
    ensures
        Vector::spec_cross_product(c, x) >= 0,
{
    let p = x.x * c.y - x.y * c.x;
    let q = b.x * c.y - b.y * c.x;
    let r = x.x * b.y - x.y * b.x;
    lemma_cross_chain(x.x as int, x.y as int, b.x as int, b.y as int, c.x as int, c.y as int);
    assert(x.y * q <= 0) by (nonlinear_arith)
        requires
            x.y >= 0,
            q < 0,
    ;
    assert(c.y * r <= 0) by (nonlinear_arith)
        requires
            c.y <= 0,
            r >= 0,
    ;
    assert(b.y * p <= 0);
    assert(c.x * x.y - c.y * x.x == -p) by (nonlinear_arith)
        requires
            p == x.x * c.y - x.y * c.x,
    ;
    if b.y > 0 {
        assert(p <= 0) by (nonlinear_arith)
            requires
                b.y > 0,
                b.y * p <= 0,
        ;
    } else {
        assert(x.y <= 0) by (nonlinear_arith)
            requires
                x.x * b.y - x.y * b.x >= 0,
                b.y == 0,
                b.x > 0,
        ;
        assert(c.y < 0) by (nonlinear_arith)
            requires
                b.x * c.y - b.y * c.x < 0,
                b.y == 0,
                b.x > 0,
        ;
        assert(c.x * x.y - c.y * x.x > 0) by (nonlinear_arith)
            requires
                x.y == 0,
                c.y < 0,
                x.x > 0,
        ;
    }
}

/// A vector whose angle lies between those of `c` and `a`, where `a` lies
/// to the left of `c`: the vector lies to the left of `c`, or along it.
proof fn lemma_left_between(c: Vector, x: Vector, a: Vector)
    requires
        c.x != 0 || c.y != 0,
        x.x != 0 || x.y != 0,
        a.x != 0 || a.y != 0,
        !spec_angle_below(x, c),
        !spec_angle_below(a, x),
        Vector::spec_cross_product(c, a) > 0,
    ensures
        Vector::spec_cross_product(c, x) >= 0,
{
    assert(c.x * x.y - c.y * x.x == -(x.x * c.y - x.y * c.x)) by (nonlinear_arith);
    if spec_half(x) != spec_half(c) {
        let p = c.x * x.y - c.y * x.x;
        let q = a.x * x.y - a.y * x.x;
        let r = c.x * a.y - c.y * a.x;
        lemma_cross_chain(c.x as int, c.y as int, a.x as int, a.y as int, x.x as int, x.y as int);
        assert(c.y * q <= 0) by (nonlinear_arith)
            requires
                c.y >= 0,
                q <= 0,
        ;
        assert(x.y * r <= 0) by (nonlinear_arith)
            requires
                x.y <= 0,
                r > 0,
        ;
        assert(a.y * p <= 0);
        if a.y < 0 {
            assert(p >= 0) by (nonlinear_arith)
                requires
                    a.y < 0,
                    a.y * p <= 0,
            ;
        } else {
            assert(x.y >= 0) by (nonlinear_arith)
                requires
                    a.x * x.y - a.y * x.x <= 0,
                    a.y == 0,
                    a.x < 0,
            ;
            assert(c.x * x.y - c.y * x.x >= 0) by (nonlinear_arith)
                requires
                    x.y == 0,
                    c.y >= 0,
                    x.x < 0,
            ;
        }
    }
}

/// In a walk that ascends and leads back to its start, no edge lies to the
/// right of the edge before it, nor the first to the right of the last:
/// if one did, every edge would lie to the left of it or along it, and
/// the walk could not close.
proof fn lemma_no_right_turn(walk: Seq<LineSegment>, i: int, j: int)
    requires
        walk.len() >= 2,
        spec_ascends(walk),
        spec_directions_hold(walk),
        spec_total(walk) == (0int, 0int),
        0 <= i < walk.len(),
        j == spec_next(i, walk.len() as int),
    ensures
        Vector::spec_cross_product(walk[i].direction, walk[j].direction) >= 0,
{
    let n = walk.len() as int;
    let a = walk[i].direction;
    let c = walk[j].direction;
    if Vector::spec_cross_product(a, c) < 0 {
        assert(a.x != 0 || a.y != 0) by (nonlinear_arith)
            requires
                a.x * c.y - a.y * c.x < 0,
        ;
        assert(c.x != 0 || c.y != 0) by (nonlinear_arith)
            requires
                a.x * c.y - a.y * c.x < 0,
        ;
        assert(c.x * a.y - c.y * a.x == -(a.x * c.y - a.y * c.x)) by (nonlinear_arith);
        assert(c.x * c.y - c.y * c.x == 0) by (nonlinear_arith);
        assert(walk[i].direction == a && walk[j].direction == c);
        if j >= 1 {
            assert(!spec_angle_below(walk[j].direction, walk[i].direction));
            assert(spec_half(a) == 0 && spec_half(c) == 1);
        } else {
            assert(!spec_angle_below(walk[i].direction, walk[j].direction));
        }
        assert forall|m: int| 0 <= m < n implies spec_cross_with(c, #[trigger] walk[m]) >= 0 by {
            let d = walk[m].direction;
            assert(spec_cross_with(c, walk[m]) == Vector::spec_cross_product(c, d));
            if d.x == 0 && d.y == 0 {
                assert(c.x * d.y - c.y * d.x == 0) by (nonlinear_arith)
                    requires
                        d.x == 0,
                        d.y == 0,
                ;
            } else if m == j || m == i {
            } else if j >= 1 {
                assert(c.x * d.y - c.y * d.x == -(d.x * c.y - d.y * c.x)) by (nonlinear_arith);
                if m > j {
                    assert(!spec_angle_below(walk[m].direction, walk[j].direction));
                } else {
                    assert(!spec_angle_below(walk[i].direction, walk[m].direction));
                    assert(d.x * a.y - d.y * a.x == -(a.x * d.y - a.y * d.x)) by (nonlinear_arith);
                    lemma_left_across_halves(d, a, c);
                }
            } else {
                assert(!spec_angle_below(walk[m].direction, walk[j].direction));
                assert(!spec_angle_below(walk[i].direction, walk[m].direction));
                lemma_left_between(c, d, a);
            }
        }
        lemma_cross_total(c, walk);
        lemma_terms_vanish(c, walk);
        assert(spec_cross_total(c, walk) == 0) by (nonlinear_arith)
            requires
                spec_cross_total(c, walk) == c.x * spec_total(walk).1 - c.y * spec_total(walk).0,
                spec_total(walk).0 == 0,
                spec_total(walk).1 == 0,
        ;
        assert(spec_cross_with(c, walk[i]) == 0);
        assert(spec_cross_with(c, walk[i]) == Vector::spec_cross_product(c, a));
    }
}

/// The corners of a walk that ascends, fits the plane and leads back to
/// its start form a ring that turns right at no corner.
pub proof fn lemma_closed_walk_is_convex(walk: Seq<LineSegment>)
    requires
        walk.len() >= 2,
        spec_ascends(walk),
        spec_directions_hold(walk),
        spec_total(walk) == (0int, 0int),
        spec_walk_fits(walk),
    ensures
        !spec_is_concave(spec_walk_corners(walk)),
{
    let n = walk.len() as int;
    let corners = spec_walk_corners(walk);
    lemma_walk_start(walk, n);
    assert(walk.subrange(0, n) =~= walk);
    assert(spec_walk_start(walk, n) == spec_walk_start(walk, 0));
    assert forall|k: int| 0 <= k < n implies !(#[trigger] spec_interior_angle(
        corners,
        k,
    )).spec_is_reflex() by {
        let i = spec_prev(k, n);
        let x = spec_next(k, n);
        lemma_no_right_turn(walk, i, k);
        assert(spec_in_plane(spec_walk_start(walk, i)));
        assert(spec_in_plane(spec_walk_start(walk, k)));
        assert(spec_in_plane(spec_walk_start(walk, x)));
        assert(spec_walk_start(walk, i + 1).0 == spec_walk_start(walk, i).0 + walk[i].to.x
            - walk[i].from.x);
        assert(spec_walk_start(walk, i + 1).1 == spec_walk_start(walk, i).1 + walk[i].to.y
            - walk[i].from.y);
        assert(spec_walk_start(walk, k + 1).0 == spec_walk_start(walk, k).0 + walk[k].to.x
            - walk[k].from.x);
        assert(spec_walk_start(walk, k + 1).1 == spec_walk_start(walk, k).1 + walk[k].to.y
            - walk[k].from.y);
        let arrives = Vector::spec_from_points(corners[i], corners[k]);
        let leaves = Vector::spec_from_points(corners[k], corners[x]);
        assert(arrives == walk[i].direction);
        assert(leaves == walk[k].direction);
        lemma_mul_within(arrives.x as int, leaves.y as int, 0x1_0000_0000, 0x1_0000_0000);
        lemma_mul_within(arrives.y as int, leaves.x as int, 0x1_0000_0000, 0x1_0000_0000);
    }
}

/// Ordering edges whose directions hold gives edges whose directions hold.
proof fn lemma_sorted_keeps_directions(edges: Seq<LineSegment>, k: int)
    requires
        0 <= k <= edges.len(),
        spec_directions_hold(edges),
    ensures
        spec_directions_hold(spec_sorted_by_angle(edges, k)),
    decreases k,
{
    if k > 0 {
        lemma_sorted_keeps_directions(edges, k - 1);
        let before = spec_sorted_by_angle(edges, k - 1);
        let pos = spec_insert_position(before, edges[k - 1]);
        lemma_insert_position(before, edges[k - 1]);
        let after = before.insert(pos, edges[k - 1]);
        assert forall|i: int| 0 <= i < after.len() implies (#[trigger] after[i]).direction.x
            == after[i].to.x - after[i].from.x && after[i].direction.y == after[i].to.y
            - after[i].from.y by {
            if i < pos {
                assert(after[i] == before[i]);
            } else if i > pos {
                assert(after[i] == before[i - 1]);
            }
        }
    }
}

/// The no-fit polygon of two rings turns right at no corner: it is convex.
pub proof fn lemma_nfp_is_convex(first: Seq<Point>, other: Seq<Point>)
    requires
        first.len() >= 1,
        other.len() >= 1,
        spec_walk_fits(spec_walk_order(spec_collected_edges(first, other))),
    ensures
        !spec_is_concave(spec_walk_corners(spec_walk_order(spec_collected_edges(first, other)))),
{
    let edges = spec_collected_edges(first, other);
    let sorted = spec_sorted_by_angle(edges, edges.len() as int);
    let walk = spec_walk_order(edges);
    assert(spec_directions_hold(edges));
    lemma_sorted_keeps_directions(edges, edges.len() as int);
    lemma_sorted_is_ordered(edges, edges.len() as int);
    lemma_walk_closes(first, other);
    assert(spec_ascends(walk)) by {
        assert forall|i: int, j: int| 0 <= i < j < walk.len() implies !spec_angle_below(
            (#[trigger] walk[j]).direction,
            (#[trigger] walk[i]).direction,
        ) by {
            assert(walk[j] == sorted[sorted.len() - 1 - j]);
            assert(walk[i] == sorted[sorted.len() - 1 - i]);
        }
    }
    assert(spec_directions_hold(walk)) by {
        assert forall|i: int| 0 <= i < walk.len() implies (#[trigger] walk[i]).direction.x
            == walk[i].to.x - walk[i].from.x && walk[i].direction.y == walk[i].to.y
            - walk[i].from.y by {
            assert(walk[i] == sorted[sorted.len() - 1 - i]);
        }
    }
    lemma_closed_walk_is_convex(walk);
}

} // verus!
