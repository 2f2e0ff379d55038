//! The no-fit polygon of two convex polygons: the edges of both, ordered
//! by their heading and laid end to end.
use crate::geometry::line_segment::LineSegment;
use crate::geometry::point::Point;
use crate::convexity::lemma_nfp_is_convex;
use crate::geometry::polygon::{spec_edges, spec_is_concave, spec_start_points, Polygon};
use crate::geometry::vector::Vector;
use vstd::prelude::*;

verus! {

/// The direction by which a vector is ordered: the vector itself, and
/// straight up for the zero vector, whose angle counts as a quarter turn.
pub open spec fn spec_heading(v: Vector) -> Vector {
    if v.x == 0 && v.y == 0 {
        Vector { x: 0, y: 1 }
    } else {
        v
    }
}

/// 0 where the angle from the positive x-axis to the heading is below a
/// half turn, 1 where it is a half turn or more.
pub open spec fn spec_half(v: Vector) -> int {
    if v.y > 0 || (v.y == 0 && v.x > 0) {
        0
    } else {
        1
    }
}

/// The angle from the positive x-axis to `a`, counted counter-clockwise
/// from 0 up to a full turn, is smaller than that to `b`.
pub open spec fn spec_angle_below(a: Vector, b: Vector) -> bool {
    let ha = spec_heading(a);
    let hb = spec_heading(b);
    spec_half(ha) < spec_half(hb) || (spec_half(ha) == spec_half(hb) && Vector::spec_cross_product(
        ha,
        hb,
    ) > 0)
}

/// Where an edge goes into a list ordered by falling angle: behind all
/// edges whose angle is not smaller than its own, and so in front of the
/// run of edges at the end of the list whose angle is smaller.
pub open spec fn spec_insert_position(sorted: Seq<LineSegment>, e: LineSegment) -> int
    decreases sorted.len(),
{
    if sorted.len() == 0 {
        0
    } else if spec_angle_below(sorted.last().direction, e.direction) {
        spec_insert_position(sorted.drop_last(), e)
    } else {
        sorted.len() as int
    }
}

/// A list of edges ordered by falling angle, with one more edge put in.
pub open spec fn spec_insert_by_angle(sorted: Seq<LineSegment>, e: LineSegment) -> Seq<LineSegment> {
    sorted.insert(spec_insert_position(sorted, e), e)
}

/// No edge of the list has a smaller angle than an edge behind it.
pub open spec fn spec_descends(edges: Seq<LineSegment>) -> bool {
    forall|i: int, j: int|
        0 <= i < j < edges.len() ==> !spec_angle_below(
            (#[trigger] edges[i]).direction,
            (#[trigger] edges[j]).direction,
        )
}

/// The first `k` edges ordered by falling angle to the positive x-axis;
/// edges of one angle keep the order in which they were given.
pub open spec fn spec_sorted_by_angle(edges: Seq<LineSegment>, k: int) -> Seq<LineSegment>
    decreases k,
{
    if k <= 0 {
        Seq::empty()
    } else {
        spec_insert_by_angle(spec_sorted_by_angle(edges, k - 1), edges[k - 1])
    }
}

/// The order in which the edges are walked: the ordered list from its end,
/// so the edge of the smallest angle comes first.
pub open spec fn spec_walk_order(edges: Seq<LineSegment>) -> Seq<LineSegment> {
    spec_sorted_by_angle(edges, edges.len() as int).reverse()
}

/// Where the `k`-th edge of the walk starts, once every edge has been laid
/// to the end of the one before: the start of the first edge, plus the
/// first `k` edges as displacements.
pub open spec fn spec_walk_start(walk: Seq<LineSegment>, k: int) -> (int, int)
    decreases k,
{
    if k <= 0 {
        (walk[0].from.x as int, walk[0].from.y as int)
    } else {
        let p = spec_walk_start(walk, k - 1);
        (p.0 + walk[k - 1].to.x - walk[k - 1].from.x, p.1 + walk[k - 1].to.y - walk[k - 1].from.y)
    }
}

/// The position is a point of the plane.
pub open spec fn spec_in_plane(p: (int, int)) -> bool {
    i32::MIN <= p.0 <= i32::MAX && i32::MIN <= p.1 <= i32::MAX
}

/// Every edge of the walk starts and ends inside the plane.
pub open spec fn spec_walk_fits(walk: Seq<LineSegment>) -> bool {
    forall|k: int| 0 <= k <= walk.len() ==> spec_in_plane(#[trigger] spec_walk_start(walk, k))
}

/// Where the `k`-th edge of the walk starts, as a point of the plane.
pub open spec fn spec_walk_corner(walk: Seq<LineSegment>, k: int) -> Point {
    Point { x: spec_walk_start(walk, k).0 as i32, y: spec_walk_start(walk, k).1 as i32 }
}

/// The corners of the walk: where each of its edges starts.
pub open spec fn spec_walk_corners(walk: Seq<LineSegment>) -> Seq<Point> {
    Seq::new(walk.len(), |k: int| spec_walk_corner(walk, k))
}

/// The edges of the walk laid end to end: the first as it is, each other
/// one from its corner to the next.
pub open spec fn spec_is_chain(moved: Seq<LineSegment>, walk: Seq<LineSegment>) -> bool {
    &&& moved.len() == walk.len()
    &&& moved[0] == walk[0]
    &&& forall|j: int|
        1 <= j < walk.len() ==> #[trigger] moved[j] == LineSegment::spec_new(
            spec_walk_corner(walk, j),
            spec_walk_corner(walk, j + 1),
        )
}

/// The edges of the stationary polygon, followed by those of the orbiting
/// polygon taken the other way round.
pub open spec fn spec_collected_edges(first: Seq<Point>, other: Seq<Point>) -> Seq<LineSegment> {
    spec_edges(first) + spec_edges(other.reverse())
}

/// The no-fit polygon holds the corners of the walk, and there is none
/// where the walk leaves the plane.
pub open spec fn spec_is_nfp(r: Option<Polygon>, first: Seq<Point>, other: Seq<Point>) -> bool {
    let walk = spec_walk_order(spec_collected_edges(first, other));
    match r {
        Some(p) => spec_walk_fits(walk) && p@ == spec_walk_corners(walk),
        None => !spec_walk_fits(walk),
    }
}

/// Whether the angle from the positive x-axis to `a` is smaller than that to `b`.
pub fn angle_below(a: &Vector, b: &Vector) -> (r: bool)
    requires
        a.is_bounded(),
        b.is_bounded(),
    ensures
        r == spec_angle_below(*a, *b),
{
    let ha: Vector = if a.x == 0 && a.y == 0 { Vector { x: 0, y: 1 } } else { *a };
    let hb: Vector = if b.x == 0 && b.y == 0 { Vector { x: 0, y: 1 } } else { *b };
    let half_a: u8 = if ha.y > 0 || (ha.y == 0 && ha.x > 0) { 0 } else { 1 };
    let half_b: u8 = if hb.y > 0 || (hb.y == 0 && hb.x > 0) { 0 } else { 1 };
    if half_a != half_b {
        half_a < half_b
    } else {
        Vector::cross_product(&ha, &hb) > 0
    }
}

/// Puts the edge into a list ordered by falling angle, behind all edges
/// whose angle is not smaller than its own.
fn insert_by_angle(sorted: &mut Vec<LineSegment>, e: LineSegment)
    requires
        forall|i: int| 0 <= i < old(sorted)@.len() ==> (#[trigger] old(sorted)@[i]).direction.is_bounded(),
        e.direction.is_bounded(),
    ensures
        final(sorted)@ == spec_insert_by_angle(old(sorted)@, e),
        forall|i: int| 0 <= i < final(sorted)@.len() ==> (#[trigger] final(sorted)@[i]).direction.is_bounded(),
{
    let ghost before = sorted@;
    let len: usize = sorted.len();
    let mut j: usize = len;
    assert(before.subrange(0, len as int) =~= before);
    while j > 0 && angle_below(&sorted[j - 1].direction, &e.direction)
        invariant
            j <= len,
            len == before.len(),
            sorted@ == before,
            e.direction.is_bounded(),
            forall|i: int| 0 <= i < before.len() ==> (#[trigger] before[i]).direction.is_bounded(),
            spec_insert_position(before, e) == spec_insert_position(before.subrange(0, j as int), e),
        decreases j,
    {
        proof {
            let head = before.subrange(0, j as int);
            assert(head.last() == before[j - 1]);
            assert(head.drop_last() =~= before.subrange(0, j - 1));
        }
        j -= 1;
    }
    proof {
        let head = before.subrange(0, j as int);
        if j > 0 {
            assert(head.last() == before[j - 1]);
        }
        assert(spec_insert_position(head, e) == j);
    }
    sorted.insert(j, e);
}

/// The edges ordered by falling angle to the positive x-axis; edges of one
/// angle keep their order.
pub fn sort_by_angle(edges: &Vec<LineSegment>) -> (sorted: Vec<LineSegment>)
    requires
        forall|i: int| 0 <= i < edges@.len() ==> (#[trigger] edges@[i]).direction.is_bounded(),
    ensures
        sorted@ == spec_sorted_by_angle(edges@, edges@.len() as int),
        sorted@.to_multiset() == edges@.to_multiset(),
        spec_descends(sorted@),
{
    proof {
        lemma_sorted_is_ordered(edges@, edges@.len() as int);
        assert(edges@.subrange(0, edges@.len() as int) =~= edges@);
    }
    let mut sorted: Vec<LineSegment> = Vec::new();
    let mut k: usize = 0;
    while k < edges.len()
        invariant
            k <= edges@.len(),
            forall|i: int| 0 <= i < edges@.len() ==> (#[trigger] edges@[i]).direction.is_bounded(),
            forall|i: int| 0 <= i < sorted@.len() ==> (#[trigger] sorted@[i]).direction.is_bounded(),
            sorted@ == spec_sorted_by_angle(edges@, k as int),
        decreases edges.len() - k,
    {
        insert_by_angle(&mut sorted, edges[k]);
        k += 1;
    }
    sorted
}

/// Whether the edge can be laid to start at `pt` without leaving the plane.
fn fits_at(edge: &LineSegment, pt: &Point) -> (r: bool)
    ensures
        r == edge.can_move_to(*pt),
{
    let x: i64 = edge.to.x as i64 + (pt.x as i64 - edge.from.x as i64);
    let y: i64 = edge.to.y as i64 + (pt.y as i64 - edge.from.y as i64);
    -0x8000_0000 <= x && x <= 0x7FFF_FFFF && -0x8000_0000 <= y && y <= 0x7FFF_FFFF
}

/// Lays the edges end to end in the given order: the first stays where it
/// is, each other one is moved to start where the one before ends. Gives
/// nothing where an edge would leave the plane.
pub fn walk_edges(walk: &Vec<LineSegment>) -> (chain: Option<Vec<LineSegment>>)
    requires
        walk@.len() >= 1,
    ensures
        match chain {
            Some(moved) => spec_walk_fits(walk@) && spec_is_chain(moved@, walk@)
                && spec_start_points(moved@) == spec_walk_corners(walk@),
            None => !spec_walk_fits(walk@),
        },
{
    let mut edges_sorted: Vec<LineSegment> = Vec::with_capacity(walk.len());
    edges_sorted.push(walk[0]);
    let mut k: usize = 1;
    proof {
        reveal_with_fuel(spec_walk_start, 2);
    }
    while k < walk.len()
        invariant
            1 <= k <= walk@.len(),
            edges_sorted@.len() == k,
            edges_sorted@[0] == walk@[0],
            forall|j: int|
                1 <= j < k ==> #[trigger] edges_sorted@[j] == LineSegment::spec_new(
                    spec_walk_corner(walk@, j),
                    spec_walk_corner(walk@, j + 1),
                ),
            forall|j: int|
                0 <= j < k ==> {
                    &&& (#[trigger] edges_sorted@[j]).from.x == spec_walk_start(walk@, j).0
                    &&& edges_sorted@[j].from.y == spec_walk_start(walk@, j).1
                    &&& edges_sorted@[j].to.x == spec_walk_start(walk@, j + 1).0
                    &&& edges_sorted@[j].to.y == spec_walk_start(walk@, j + 1).1
                },
        decreases walk.len() - k,
    {
        let last_edge: LineSegment = edges_sorted[k - 1];
        let next_edge: LineSegment = walk[k];
        assert(spec_walk_start(walk@, k + 1).0 == spec_walk_start(walk@, k as int).0 + next_edge.to.x
            - next_edge.from.x);
        assert(spec_walk_start(walk@, k + 1).1 == spec_walk_start(walk@, k as int).1 + next_edge.to.y
            - next_edge.from.y);
        if !fits_at(&next_edge, &last_edge.to) {
            assert(!spec_in_plane(spec_walk_start(walk@, k + 1)));
            return None;
        }
        let next_edge_moved: LineSegment = next_edge.copy_to_point(&last_edge.to);
        edges_sorted.push(next_edge_moved);
        k += 1;
    }
    proof {
        assert forall|j: int| 0 <= j <= walk@.len() implies spec_in_plane(
            #[trigger] spec_walk_start(walk@, j),
        ) by {
            if j < walk@.len() {
                assert(edges_sorted@[j].from.x == spec_walk_start(walk@, j).0);
            } else {
                assert(edges_sorted@[j - 1].to.x == spec_walk_start(walk@, j).0);
            }
        }
        assert(spec_start_points(edges_sorted@) =~= spec_walk_corners(walk@));
    }
    Some(edges_sorted)
}

/// The no-fit polygon of two convex polygons, `first` at rest and `other`
/// moving round it. The corners of `other` are taken the other way round,
/// the edges of both are ordered by their angle to the positive x-axis,
/// and laid end to end from the smallest angle on; the corners of the
/// result are where the edges then start. That the two polygons are convex
/// is not looked at. Gives nothing where the chain leaves the plane.
pub fn calculate_convex_nfp(first: &Polygon, other: Polygon) -> (nfp: Option<Polygon>)
    requires
        first.is_ring(),
        other.is_ring(),
    ensures
        spec_is_nfp(nfp, first@, other@),
        nfp matches Some(p) ==> p@.len() == first@.len() + other@.len() && !spec_is_concave(p@),
{
    let mut turned: Polygon = other;
    turned.reverse_orientation();
    let mut all_edges: Vec<LineSegment> = first.calculate_edges();
    let other_edges: Vec<LineSegment> = turned.calculate_edges();
    let mut i: usize = 0;
    while i < other_edges.len()
        invariant
            i <= other_edges@.len(),
            all_edges@ == spec_edges(first@) + other_edges@.subrange(0, i as int),
        decreases other_edges.len() - i,
    {
        all_edges.push(other_edges[i]);
        assert(all_edges@ =~= spec_edges(first@) + other_edges@.subrange(0, i + 1));
        i += 1;
    }
    assert(all_edges@ =~= spec_edges(first@) + other_edges@);
    let sorted: Vec<LineSegment> = sort_by_angle(&all_edges);
    proof {
        lemma_sorted_is_ordered(all_edges@, all_edges@.len() as int);
    }
    let mut walk: Vec<LineSegment> = Vec::with_capacity(sorted.len());
    let mut k: usize = sorted.len();
    while k > 0
        invariant
            k <= sorted@.len(),
            walk@.len() == sorted@.len() - k,
            forall|j: int| 0 <= j < walk@.len() ==> walk@[j] == sorted@[sorted@.len() - 1 - j],
        decreases k,
    {
        k -= 1;
        walk.push(sorted[k]);
    }
    assert(walk@ =~= sorted@.reverse());
    proof {
        if spec_walk_fits(walk@) {
            lemma_nfp_is_convex(first@, other@);
        }
    }
    match walk_edges(&walk) {
        Some(edges_sorted) => Some(Polygon::from_edges(&edges_sorted)),
        None => None,
    }
}

/// Where an edge goes into a list: every edge from there on has a smaller
/// angle, and the edge just before has not.
pub proof fn lemma_insert_position(sorted: Seq<LineSegment>, e: LineSegment)
    ensures
        0 <= spec_insert_position(sorted, e) <= sorted.len(),
        forall|i: int|
            spec_insert_position(sorted, e) <= i < sorted.len() ==> spec_angle_below(
                (#[trigger] sorted[i]).direction,
                e.direction,
            ),
        spec_insert_position(sorted, e) > 0 ==> !spec_angle_below(
            sorted[spec_insert_position(sorted, e) - 1].direction,
            e.direction,
        ),
    decreases sorted.len(),
{
    if sorted.len() > 0 && spec_angle_below(sorted.last().direction, e.direction) {
        let head = sorted.drop_last();
        lemma_insert_position(head, e);
        let pos = spec_insert_position(sorted, e);
        assert forall|i: int| pos <= i < sorted.len() implies spec_angle_below(
            (#[trigger] sorted[i]).direction,
            e.direction,
        ) by {
            if i < head.len() {
                assert(sorted[i] == head[i]);
            }
        }
        if pos > 0 {
            assert(sorted[pos - 1] == head[pos - 1]);
        }
    }
}

/// Of two vectors, the angle of at most one is smaller than that of the other.
pub proof fn lemma_below_is_one_way(a: Vector, b: Vector)
    requires
        spec_angle_below(a, b),
    ensures
        !spec_angle_below(b, a),
{
    let ha = spec_heading(a);
    let hb = spec_heading(b);
    assert(hb.x * ha.y - hb.y * ha.x == -(ha.x * hb.y - ha.y * hb.x)) by (nonlinear_arith);
}

/// `by * (a x c) == ay * (b x c) + cy * (a x b)` for any three vectors.
pub proof fn lemma_cross_chain(ax: int, ay: int, bx: int, by: int, cx: int, cy: int)
    by (nonlinear_arith)
    ensures
        by * (ax * cy - ay * cx) == ay * (bx * cy - by * cx) + cy * (ax * by - ay * bx),
{
}

/// The sign of a product, from the signs of its factors.
proof fn lemma_product_sign(a: int, b: int)
    by (nonlinear_arith)
    ensures
        a >= 0 && b <= 0 ==> a * b <= 0,
        a <= 0 && b <= 0 ==> a * b >= 0,
        a > 0 && a * b <= 0 ==> b <= 0,
        a < 0 && a * b >= 0 ==> b <= 0,
        a > 0 && b > 0 ==> a * b > 0,
        a < 0 && b < 0 ==> a * b > 0,
        a == 0 ==> a * b == 0,
        b == 0 ==> a * b == 0,
{
}

/// Where the angle of `a` is not smaller than that of `b`, and that of `b`
/// not smaller than that of `c`, the angle of `a` is not smaller than
/// that of `c`.
pub proof fn lemma_not_below_chains(a: Vector, b: Vector, c: Vector)
    requires
        !spec_angle_below(a, b),
        !spec_angle_below(b, c),
    ensures
        !spec_angle_below(a, c),
{
    let ha = spec_heading(a);
    let hb = spec_heading(b);
    let hc = spec_heading(c);
    if spec_half(ha) == spec_half(hc) {
        assert(spec_half(hb) == spec_half(ha));
        let p = ha.x * hc.y - ha.y * hc.x;
        let q = hb.x * hc.y - hb.y * hc.x;
        let r = ha.x * hb.y - ha.y * hb.x;
        assert(q <= 0 && r <= 0);
        lemma_cross_chain(ha.x as int, ha.y as int, hb.x as int, hb.y as int, hc.x as int, hc.y as int);
        assert(hb.y * p == ha.y * q + hc.y * r);
        lemma_product_sign(ha.y as int, q);
        lemma_product_sign(hc.y as int, r);
        lemma_product_sign(hb.y as int, p);
        if hb.y == 0 {
            lemma_product_sign(hb.y as int, hc.x as int);
            lemma_product_sign(hb.x as int, hc.y as int);
            assert(q == hb.x * hc.y);
            assert(hc.y == 0);
            lemma_product_sign(ha.x as int, hc.y as int);
            lemma_product_sign(ha.y as int, hc.x as int);
            lemma_product_sign(hc.x as int, ha.y as int);
            assert(ha.y * hc.x == hc.x * ha.y) by (nonlinear_arith);
            assert(p == -(ha.y * hc.x));
        }
        assert(p <= 0);
    }
}

/// Putting an edge into a list that descends gives a list that descends,
/// and that holds the edge besides what the list held.
pub proof fn lemma_insert_keeps_order(sorted: Seq<LineSegment>, e: LineSegment)
    requires
        spec_descends(sorted),
    ensures
        spec_descends(spec_insert_by_angle(sorted, e)),
        spec_insert_by_angle(sorted, e).to_multiset() == sorted.to_multiset().insert(e),
        spec_insert_by_angle(sorted, e).len() == sorted.len() + 1,
{
    let pos = spec_insert_position(sorted, e);
    let after = spec_insert_by_angle(sorted, e);
    lemma_insert_position(sorted, e);
    assert forall|i: int, j: int| 0 <= i < j < after.len() implies !spec_angle_below(
        (#[trigger] after[i]).direction,
        (#[trigger] after[j]).direction,
    ) by {
        if j < pos {
            assert(after[i] == sorted[i] && after[j] == sorted[j]);
        } else if j == pos {
            assert(after[i] == sorted[i]);
            if i < pos - 1 {
                lemma_not_below_chains(sorted[i].direction, sorted[pos - 1].direction, e.direction);
            }
        } else if i == pos {
            assert(after[j] == sorted[j - 1]);
            lemma_below_is_one_way(sorted[j - 1].direction, e.direction);
        } else if i < pos {
            assert(after[i] == sorted[i] && after[j] == sorted[j - 1]);
        } else {
            assert(after[i] == sorted[i - 1] && after[j] == sorted[j - 1]);
        }
    }
    assert(after.remove(pos) =~= sorted);
    vstd::seq_lib::to_multiset_remove(after, pos);
    assert(after[pos] == e);
    sorted.to_multiset_ensures();
    after.to_multiset_ensures();
    assert(after.to_multiset().count(e) > 0) by {
        assert(after.contains(e));
    }
    assert(after.to_multiset() =~= sorted.to_multiset().insert(e));
}

/// The ordered list of the first `k` edges holds just these edges, and
/// none of them has a smaller angle than one behind it.
pub proof fn lemma_sorted_is_ordered(edges: Seq<LineSegment>, k: int)
    requires
        0 <= k <= edges.len(),
    ensures
        spec_sorted_by_angle(edges, k).len() == k,
        spec_sorted_by_angle(edges, k).to_multiset() == edges.subrange(0, k).to_multiset(),
        spec_descends(spec_sorted_by_angle(edges, k)),
    decreases k,
{
    if k > 0 {
        lemma_sorted_is_ordered(edges, k - 1);
        lemma_insert_keeps_order(spec_sorted_by_angle(edges, k - 1), edges[k - 1]);
        assert(edges.subrange(0, k) =~= edges.subrange(0, k - 1).push(edges[k - 1]));
        vstd::seq_lib::to_multiset_build(edges.subrange(0, k - 1), edges[k - 1]);
    } else {
        assert(edges.subrange(0, 0) =~= Seq::<LineSegment>::empty());
        assert(spec_sorted_by_angle(edges, 0) =~= Seq::<LineSegment>::empty());
    }
}

} // verus!
