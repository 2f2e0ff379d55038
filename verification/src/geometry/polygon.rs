//! Polygons: closed rings of points, their measures, their decomposition
//! into triangles and the merge of two convex ones along a shared edge.
use crate::arith::{div_toward_zero, lemma_mul_within, magnitude, quotient_toward_zero};
use crate::geometry::intersection::{
    spec_line_segment_line_segment, Intersection, LineSegmentLineSegmentIntersectionResult,
};
use crate::geometry::line::{Line, LinePointRelation};
use crate::geometry::line_segment::LineSegment;
use crate::geometry::point::Point;
use crate::geometry::polygon_laws::{
    lemma_best_candidate_is_candidate, lemma_triangulation_count, lemma_triangulation_keeps_area,
    spec_total_doubled_area,
};
use crate::geometry::vector::{Angle, Vector};
use vstd::prelude::*;

verus! {

/// Whether two polygons have an edge in common, and which.
#[derive(Debug, Clone, Copy, PartialEq, Eq, Structural)]
pub enum PolygonEdgeRelation {
    /// No edge of the one joins the same points as an edge of the other.
    NoSharedEdge,
    /// The edge of the first with the first index, and the edge of the
    /// other with the second index, join the same two points.
    Shared(usize, usize),
}

/// What merging two convex polygons gives.
#[derive(Debug, Clone)]
pub enum PolygonMergeResult {
    /// The two share no edge, or their union would not be convex.
    NoMerge,
    /// The union of the two.
    Merged(Polygon),
}

/// A polygon: its corners in order. The last corner is joined to the first.
#[derive(Debug, Clone)]
pub struct Polygon {
    pub points: Vec<Point>,
}

impl View for Polygon {
    type V = Seq<Point>;

    open spec fn view(&self) -> Seq<Point> {
        self.points@
    }
}

/// The index after `i` on a ring of `n` corners.
pub open spec fn spec_next(i: int, n: int) -> int {
    if i + 1 >= n {
        0
    } else {
        i + 1
    }
}

/// The index before `i` on a ring of `n` corners.
pub open spec fn spec_prev(i: int, n: int) -> int {
    if i <= 0 {
        n - 1
    } else {
        i - 1
    }
}

/// The index `i`, which may have run past the end of a ring of `n` corners
/// once, brought back onto the ring.
pub open spec fn spec_wrap(i: int, n: int) -> int {
    if i >= n {
        i - n
    } else {
        i
    }
}

/// The edge that starts at corner `i`.
pub open spec fn spec_edge(pts: Seq<Point>, i: int) -> LineSegment {
    LineSegment::spec_new(pts[i], pts[spec_next(i, pts.len() as int)])
}

/// The edges of the ring, in order; the last one closes it.
pub open spec fn spec_edges(pts: Seq<Point>) -> Seq<LineSegment> {
    Seq::new(pts.len(), |i: int| spec_edge(pts, i))
}

/// The start points of the segments.
pub open spec fn spec_start_points(edges: Seq<LineSegment>) -> Seq<Point> {
    Seq::new(edges.len(), |i: int| edges[i].from)
}

/// One term of the shoelace sum: `x_i * y_j - y_i * x_j`.
pub open spec fn spec_shoelace_term(a: Point, b: Point) -> int {
    a.x * b.y - a.y * b.x
}

/// The sum of the shoelace terms of the first `k` edges.
pub open spec fn spec_shoelace(pts: Seq<Point>, k: int) -> int
    decreases k,
{
    if k <= 0 {
        0
    } else {
        spec_shoelace(pts, k - 1) + spec_shoelace_term(
            pts[k - 1],
            pts[spec_next(k - 1, pts.len() as int)],
        )
    }
}

/// Twice the signed area: positive for a counter-clockwise ring.
pub open spec fn spec_signed_doubled_area(pts: Seq<Point>) -> int {
    spec_shoelace(pts, pts.len() as int)
}

/// The area, rounded down to a whole number.
pub open spec fn spec_area(pts: Seq<Point>) -> int {
    magnitude(spec_signed_doubled_area(pts)) / 2
}

/// The angle at corner `i`, from the edge that arrives to the edge that leaves.
pub open spec fn spec_interior_angle(pts: Seq<Point>, i: int) -> Angle {
    let n = pts.len() as int;
    Vector::spec_from_points(pts[spec_prev(i, n)], pts[i]).spec_angle_to(
        Vector::spec_from_points(pts[i], pts[spec_next(i, n)]),
    )
}

/// The angles at the corners, in order.
pub open spec fn spec_angles(pts: Seq<Point>) -> Seq<Angle> {
    Seq::new(pts.len(), |i: int| spec_interior_angle(pts, i))
}

/// The ring turns by more than a half turn at some corner. The threshold
/// is the half turn, here and wherever corners are judged.
pub open spec fn spec_is_concave(pts: Seq<Point>) -> bool {
    exists|i: int| 0 <= i < pts.len() && (#[trigger] spec_interior_angle(pts, i)).spec_is_reflex()
}

/// The point is on an edge of the ring, within `tol`.
pub open spec fn spec_is_point_on(pts: Seq<Point>, pt: Point, tol: i64) -> bool {
    exists|i: int| 0 <= i < pts.len() && (#[trigger] spec_edge(pts, i)).spec_is_point_on(pt, tol)
}

/// The corners of the two rings agree within `tol`, pair by pair, as far as
/// the shorter ring goes.
pub open spec fn spec_epsilon_equals(a: Seq<Point>, b: Seq<Point>, tol: i64) -> bool {
    forall|i: int| 0 <= i < a.len() && i < b.len() ==> (#[trigger] a[i]).spec_epsilon_equals(b[i], tol)
}

/// Edge `s` of `a` and edge `o` of `b` join the same two points.
pub open spec fn spec_coincident(a: Seq<Point>, b: Seq<Point>, s: int, o: int, tol: i64) -> bool {
    spec_edge(a, s).spec_is_from_to_coincident(spec_edge(b, o), tol)
}

/// `(s, o)` is the first pair of coinciding edges, going through the edges
/// of `a` in order and, for each, through those of `b`.
pub open spec fn spec_is_first_shared(a: Seq<Point>, b: Seq<Point>, s: int, o: int, tol: i64)
    -> bool {
    &&& 0 <= s < a.len()
    &&& 0 <= o < b.len()
    &&& spec_coincident(a, b, s, o, tol)
    &&& forall|i: int, j: int|
        0 <= i < a.len() && 0 <= j < b.len() && (i < s || (i == s && j < o))
            ==> !#[trigger] spec_coincident(a, b, i, j, tol)
}

/// No edge of `a` coincides with an edge of `b`.
pub open spec fn spec_no_shared(a: Seq<Point>, b: Seq<Point>, tol: i64) -> bool {
    forall|i: int, j: int|
        0 <= i < a.len() && 0 <= j < b.len() ==> !#[trigger] spec_coincident(a, b, i, j, tol)
}

/// The corners of the ring but the two of edge `e`, in order, starting
/// behind the edge.
pub open spec fn spec_corners_without_edge(pts: Seq<Point>, e: int) -> Seq<Point> {
    Seq::new(
        (pts.len() - 2) as nat,
        |k: int| pts[spec_wrap(e + 2 + k, pts.len() as int)],
    )
}

/// The corners of the square with the given side around the origin. Half
/// the side is rounded toward zero.
pub open spec fn spec_square(len: i32) -> Seq<Point> {
    let h = quotient_toward_zero(len as int, 2) as i32;
    let m = (-h) as i32;
    seq![Point { x: m, y: m }, Point { x: h, y: m }, Point { x: h, y: h }, Point { x: m, y: h }]
}

impl Polygon {
    /// The ring has the three corners that its measures need.
    pub open spec fn is_ring(&self) -> bool {
        self@.len() >= 3
    }

    /// The polygon without corners.
    pub fn new() -> (p: Polygon)
        ensures
            p@ == Seq::<Point>::empty(),
    {
        let pts: Vec<Point> = Vec::new();
        Polygon { points: pts }
    }

    /// The polygon with the given corners.
    pub fn from_points(pts: &Vec<Point>) -> (p: Polygon)
        ensures
            p@ == pts@,
    {
        let mut copied: Vec<Point> = Vec::with_capacity(pts.len());
        let mut i: usize = 0;
        while i < pts.len()
            invariant
                i <= pts.len(),
                copied@ == pts@.subrange(0, i as int),
            decreases pts.len() - i,
        {
            copied.push(pts[i]);
            assert(copied@ == pts@.subrange(0, i + 1));
            i += 1;
        }
        assert(copied@ == pts@);
        Polygon { points: copied }
    }

    /// The polygon whose corners are the start points of the segments, in
    /// order. That each segment ends where the next starts is not looked at.
    pub fn from_edges(edges: &Vec<LineSegment>) -> (p: Polygon)
        ensures
            p@ == spec_start_points(edges@),
    {
        let edge_count: usize = edges.len();
        let mut pts: Vec<Point> = Vec::with_capacity(edge_count);
        let mut n: usize = 0;
        while n < edge_count
            invariant
                n <= edge_count,
                edge_count == edges.len(),
                pts@ == spec_start_points(edges@).subrange(0, n as int),
            decreases edge_count - n,
        {
            pts.push(edges[n].from);
            assert(pts@ == spec_start_points(edges@).subrange(0, n + 1));
            n += 1;
        }
        assert(pts@ == spec_start_points(edges@));
        Polygon { points: pts }
    }

    /// Adds a corner behind the last one.
    pub fn add_point(&mut self, pt: Point)
        ensures
            final(self)@ == old(self)@.push(pt),
    {
        self.points.push(pt)
    }

    /// Whether the corners of the two polygons agree within `tol`, pair by
    /// pair, as far as the shorter one goes.
    pub fn epsilon_equals(&self, other: &Polygon, tol: i64) -> (r: bool)
        ensures
            r == spec_epsilon_equals(self@, other@, tol),
    {
        let mut i: usize = 0;
        while i < self.points.len() && i < other.points.len()
            invariant
                forall|j: int| 0 <= j < i ==> (#[trigger] self@[j]).spec_epsilon_equals(other@[j], tol),
            decreases self.points.len() - i,
        {
            if !self.points[i].epsilon_equals(&other.points[i], tol) {
                return false;
            }
            i += 1;
        }
        true
    }

    /// The area of the polygon, whichever way it winds, rounded down to a
    /// whole number.
    pub fn calculate_area(&self) -> (area: i128)
        requires
            self.is_ring(),
        ensures
            area == spec_area(self@),
    {
        let doubled: i128 = self.signed_doubled_area();
        let size: i128 = if doubled < 0 { -doubled } else { doubled };
        size / 2
    }

    /// Twice the signed area: positive where the corners run
    /// counter-clockwise, negative where they run clockwise.
    pub fn signed_doubled_area(&self) -> (sum: i128)
        requires
            self.is_ring(),
        ensures
            sum == spec_signed_doubled_area(self@),
            i128::MIN < sum,
    {
        let mut sum: i128 = 0;
        let pt_count: usize = self.points.len();
        let mut i: usize = 0;
        while i < pt_count
            invariant
                i <= pt_count,
                pt_count == self@.len(),
                sum == spec_shoelace(self@, i as int),
                -(i as int) * 0x8000_0000_0000_0000 <= sum <= (i as int) * 0x8000_0000_0000_0000,
            decreases pt_count - i,
        {
            let next_index: usize = if i + 1 == pt_count { 0 } else { i + 1 };
            let pt: Point = self.points[i];
            let next_point: Point = self.points[next_index];
            proof {
                lemma_mul_within(pt.x as int, next_point.y as int, 0x8000_0000, 0x8000_0000);
                lemma_mul_within(pt.y as int, next_point.x as int, 0x8000_0000, 0x8000_0000);
            }
            let int_value: i128 = (pt.x as i128) * (next_point.y as i128) - (pt.y as i128) * (
            next_point.x as i128);
            sum = sum + int_value;
            i += 1;
        }
        sum
    }

    /// The edges of the polygon, in order; the last one closes the ring.
    pub fn calculate_edges(&self) -> (edges: Vec<LineSegment>)
        requires
            self.is_ring(),
        ensures
            edges@ == spec_edges(self@),
    {
        let edge_count: usize = self.points.len();
        let mut edges: Vec<LineSegment> = Vec::with_capacity(edge_count);
        let mut i: usize = 0;
        while i < edge_count
            invariant
                i <= edge_count,
                edge_count == self@.len(),
                edges@ == spec_edges(self@).subrange(0, i as int),
            decreases edge_count - i,
        {
            edges.push(self.calculate_single_edge(i));
            assert(edges@ == spec_edges(self@).subrange(0, i + 1));
            i += 1;
        }
        assert(edges@ == spec_edges(self@));
        edges
    }

    /// The edge that starts at the corner with the given index.
    pub fn calculate_single_edge(&self, index: usize) -> (edge: LineSegment)
        requires
            index < self@.len(),
        ensures
            edge == spec_edge(self@, index as int),
            edge.wf(),
    {
        let corner_count: usize = self.points.len();
        let next_index: usize = if index + 1 == corner_count { 0 } else { index + 1 };
        LineSegment::new_from_points(&self.points[index], &self.points[next_index])
    }

    /// Whether the ring turns by more than a half turn at some corner.
    pub fn is_concave(&self) -> (r: bool)
        requires
            self.is_ring(),
        ensures
            r == spec_is_concave(self@),
    {
        let corner_count: usize = self.points.len();
        let mut i: usize = 0;
        while i < corner_count
            invariant
                i <= corner_count,
                corner_count == self@.len(),
                forall|j: int| 0 <= j < i ==> !(#[trigger] spec_interior_angle(self@, j)).spec_is_reflex(),
            decreases corner_count - i,
        {
            if self.interior_angle(i).is_reflex() {
                return true;
            }
            i += 1;
        }
        false
    }

    /// Whether the ring turns by more than a half turn at no corner.
    pub fn is_convex(&self) -> (r: bool)
        requires
            self.is_ring(),
        ensures
            r == !spec_is_concave(self@),
    {
        !self.is_concave()
    }

    /// The angle at the corner with the given index.
    pub fn interior_angle(&self, index: usize) -> (a: Angle)
        requires
            index < self@.len(),
        ensures
            a == spec_interior_angle(self@, index as int),
    {
        let corner_count: usize = self.points.len();
        let prev_index: usize = if index == 0 { corner_count - 1 } else { index - 1 };
        let next_index: usize = if index + 1 == corner_count { 0 } else { index + 1 };
        let v_from_last_corner: Vector = Vector::new_from_points(
            &self.points[prev_index],
            &self.points[index],
        );
        let v_to_next_corner: Vector = Vector::new_from_points(
            &self.points[index],
            &self.points[next_index],
        );
        v_from_last_corner.angle_to(&v_to_next_corner)
    }

    /// The angle at each corner, from the edge that arrives to the edge
    /// that leaves.
    pub fn calculate_angles(&self) -> (angles: Vec<Angle>)
        requires
            self.is_ring(),
        ensures
            angles@ == spec_angles(self@),
    {
        let corner_count: usize = self.points.len();
        let mut angles: Vec<Angle> = Vec::with_capacity(corner_count);
        let mut i: usize = 0;
        while i < corner_count
            invariant
                i <= corner_count,
                corner_count == self@.len(),
                angles@ == spec_angles(self@).subrange(0, i as int),
            decreases corner_count - i,
        {
            angles.push(self.interior_angle(i));
            assert(angles@ == spec_angles(self@).subrange(0, i + 1));
            i += 1;
        }
        assert(angles@ == spec_angles(self@));
        angles
    }

    /// Whether the point is on an edge of the polygon, within `tol`.
    pub fn is_point_on(&self, pt_test: &Point, tol: i64) -> (r: bool)
        requires
            self.is_ring(),
        ensures
            r == spec_is_point_on(self@, *pt_test, tol),
    {
        let edge_count: usize = self.points.len();
        let mut i: usize = 0;
        while i < edge_count
            invariant
                i <= edge_count,
                edge_count == self@.len(),
                forall|j: int| 0 <= j < i ==> !(#[trigger] spec_edge(self@, j)).spec_is_point_on(*pt_test, tol),
            decreases edge_count - i,
        {
            let edge: LineSegment = self.calculate_single_edge(i);
            if edge.is_point_on(pt_test, tol) {
                return true;
            }
            i += 1;
        }
        false
    }

    /// Turns the order of the corners round.
    pub fn reverse_orientation(&mut self)
        ensures
            final(self)@ == old(self)@.reverse(),
    {
        let n: usize = self.points.len();
        let mut turned: Vec<Point> = Vec::with_capacity(n);
        let mut i: usize = 0;
        while i < n
            invariant
                i <= n,
                n == self@.len(),
                turned@.len() == i,
                forall|j: int| 0 <= j < i ==> turned@[j] == self@[n - 1 - j],
            decreases n - i,
        {
            turned.push(self.points[n - 1 - i]);
            i += 1;
        }
        assert(turned@ =~= self@.reverse());
        self.points = turned;
    }

    /// The first pair of an edge of `self` and an edge of `other` that join
    /// the same two points, in either order.
    pub fn shares_an_edge(&self, other: &Polygon, tol: i64) -> (r: PolygonEdgeRelation)
        requires
            self.is_ring(),
            other.is_ring(),
        ensures
            match r {
                PolygonEdgeRelation::NoSharedEdge => spec_no_shared(self@, other@, tol),
                PolygonEdgeRelation::Shared(s, o) => spec_is_first_shared(
                    self@,
                    other@,
                    s as int,
                    o as int,
                    tol,
                ),
            },
    {
        let self_count: usize = self.points.len();
        let other_count: usize = other.points.len();
        let mut s: usize = 0;
        while s < self_count
            invariant
                s <= self_count,
                self_count == self@.len(),
                other_count == other@.len(),
                forall|i: int, j: int|
                    0 <= i < s && 0 <= j < other_count ==> !#[trigger] spec_coincident(
                        self@,
                        other@,
                        i,
                        j,
                        tol,
                    ),
            decreases self_count - s,
        {
            let self_edge: LineSegment = self.calculate_single_edge(s);
            let mut o: usize = 0;
            while o < other_count
                invariant
                    o <= other_count,
                    s < self_count,
                    self_count == self@.len(),
                    other_count == other@.len(),
                    self_edge == spec_edge(self@, s as int),
                    forall|i: int, j: int|
                        0 <= i < s && 0 <= j < other_count ==> !#[trigger] spec_coincident(
                            self@,
                            other@,
                            i,
                            j,
                            tol,
                        ),
                    forall|j: int|
                        0 <= j < o ==> !#[trigger] spec_coincident(self@, other@, s as int, j, tol),
                decreases other_count - o,
            {
                let other_edge: LineSegment = other.calculate_single_edge(o);
                if self_edge.is_from_to_coincident(&other_edge, tol) {
                    return PolygonEdgeRelation::Shared(s, o);
                }
                o += 1;
            }
            s += 1;
        }
        PolygonEdgeRelation::NoSharedEdge
    }

    /// The index of the first corner that agrees with `corner` within `tol`.
    pub fn corner_index(&self, corner: &Point, tol: i64) -> (r: Result<usize, ()>)
        ensures
            match r {
                Ok(i) => i < self@.len() && self@[i as int].spec_epsilon_equals(*corner, tol)
                    && forall|j: int| 0 <= j < i ==> !(#[trigger] self@[j]).spec_epsilon_equals(*corner, tol),
                Err(_) => forall|j: int|
                    0 <= j < self@.len() ==> !(#[trigger] self@[j]).spec_epsilon_equals(*corner, tol),
            },
    {
        let mut i: usize = 0;
        while i < self.points.len()
            invariant
                i <= self@.len(),
                forall|j: int| 0 <= j < i ==> !(#[trigger] self@[j]).spec_epsilon_equals(*corner, tol),
            decreases self.points.len() - i,
        {
            if self.points[i].epsilon_equals(corner, tol) {
                return Ok(i);
            }
            i += 1;
        }
        Err(())
    }

    /// The index of the corner before the edge.
    pub fn prev_corner_before_edge(&self, edge_index: usize) -> (r: usize)
        requires
            edge_index < self@.len(),
        ensures
            r == spec_prev(edge_index as int, self@.len() as int),
            r < self@.len(),
    {
        if edge_index == 0 {
            self.points.len() - 1
        } else {
            edge_index - 1
        }
    }

    /// The index of the corner behind the edge.
    pub fn next_corner_after_edge(&self, edge_index: usize) -> (r: usize)
        requires
            edge_index < self@.len(),
            self.is_ring(),
        ensures
            r == spec_wrap(edge_index + 2, self@.len() as int),
            r < self@.len(),
    {
        let n: usize = self.points.len();
        if edge_index >= n - 2 {
            edge_index - (n - 2)
        } else {
            edge_index + 2
        }
    }

    /// The indices of the two corners of the edge.
    pub fn edge_from_to(&self, edge_index: usize) -> (r: (usize, usize))
        requires
            edge_index < self@.len(),
        ensures
            r.0 == edge_index,
            r.1 == spec_next(edge_index as int, self@.len() as int),
            r.1 < self@.len(),
    {
        let corner_count: usize = self.points.len();
        (edge_index, if edge_index + 1 == corner_count { 0 } else { edge_index + 1 })
    }

    /// The corners of the polygon but the two of the edge, in order,
    /// starting behind the edge.
    pub fn corners_without_edge(&self, edge_index: usize) -> (corners: Vec<Point>)
        requires
            edge_index < self@.len(),
            self.is_ring(),
        ensures
            corners@ == spec_corners_without_edge(self@, edge_index as int),
    {
        let n: usize = self.points.len();
        let mut corners: Vec<Point> = Vec::with_capacity(n - 2);
        let mut index: usize = self.next_corner_after_edge(edge_index);
        let mut k: usize = 0;
        while k < n - 2
            invariant
                k <= n - 2,
                n == self@.len(),
                n >= 3,
                edge_index < n,
                index < n,
                index == spec_wrap(edge_index + 2 + k, n as int),
                corners@ == spec_corners_without_edge(self@, edge_index as int).subrange(0, k as int),
            decreases n - 2 - k,
        {
            corners.push(self.points[index]);
            assert(corners@ == spec_corners_without_edge(self@, edge_index as int).subrange(
                0,
                k + 1,
            ));
            index = if index + 1 == n { 0 } else { index + 1 };
            k += 1;
        }
        assert(corners@ == spec_corners_without_edge(self@, edge_index as int));
        corners
    }

    /// The square with the given side around the origin.
    pub fn square(len: i32) -> (p: Polygon)
        ensures
            p@ == spec_square(len),
    {
        let h: i32 = div_toward_zero(len as i128, 2) as i32;
        let m: i32 = -h;
        let pt0: Point = Point::new().set_values(m, m);
        let pt1: Point = Point::new().set_values(h, m);
        let pt2: Point = Point::new().set_values(h, h);
        let pt3: Point = Point::new().set_values(m, h);
        let mut pts: Vec<Point> = Vec::with_capacity(4);
        pts.push(pt0);
        pts.push(pt1);
        pts.push(pt2);
        pts.push(pt3);
        assert(pts@ =~= spec_square(len));
        Polygon { points: pts }
    }
}

/// The diagonal that cuts corner `k` off: from the corner before it to the
/// corner behind it.
pub open spec fn spec_diagonal(ring: Seq<Point>, k: int) -> LineSegment {
    let n = ring.len() as int;
    LineSegment::spec_new(ring[spec_prev(k, n)], ring[spec_next(k, n)])
}

/// The squared length of the diagonal that cuts corner `k` off.
pub open spec fn spec_diagonal_length(ring: Seq<Point>, k: int) -> int {
    let n = ring.len() as int;
    ring[spec_prev(k, n)].spec_distance_squared(ring[spec_next(k, n)])
}

/// The edge stands in the way of the segment: the two overlap, or meet in
/// a point that is not an end of the edge.
pub open spec fn spec_blocks(line: LineSegment, edge: LineSegment, tol: i64) -> bool {
    match spec_line_segment_line_segment(line, edge, tol) {
        LineSegmentLineSegmentIntersectionResult::NoIntersection => false,
        LineSegmentLineSegmentIntersectionResult::Overlap(_) => true,
        LineSegmentLineSegmentIntersectionResult::Point(pt) => !(pt.spec_epsilon_equals(
            edge.from,
            tol,
        ) || pt.spec_epsilon_equals(edge.to, tol)),
    }
}

/// Corner `k` can be cut off: the ring turns by no more than a half turn
/// there, and no edge stands in the way of the diagonal. The two edges
/// that meet at the corner are not asked.
pub open spec fn spec_is_candidate(ring: Seq<Point>, k: int, tol: i64) -> bool {
    let n = ring.len() as int;
    &&& !spec_interior_angle(ring, k).spec_is_reflex()
    &&& forall|i: int|
        0 <= i < n && i != spec_prev(k, n) && i != k ==> !spec_blocks(
            spec_diagonal(ring, k),
            #[trigger] spec_edge(ring, i),
            tol,
        )
}

/// Among the first `m` corners, the one that can be cut off with the
/// shortest diagonal; of several with equally short diagonals, the first.
pub open spec fn spec_best_candidate(ring: Seq<Point>, tol: i64, m: int) -> Option<int>
    decreases m,
{
    if m <= 0 {
        None
    } else {
        let before = spec_best_candidate(ring, tol, m - 1);
        if spec_is_candidate(ring, m - 1, tol) && (before is None || spec_diagonal_length(
            ring,
            m - 1,
        ) < spec_diagonal_length(ring, before.unwrap())) {
            Some(m - 1)
        } else {
            before
        }
    }
}

/// The triangle that is cut off with corner `k`.
pub open spec fn spec_triangle(ring: Seq<Point>, k: int) -> Seq<Point> {
    let n = ring.len() as int;
    seq![ring[spec_prev(k, n)], ring[k], ring[spec_next(k, n)]]
}

/// The triangles of a ring, in the order in which they are cut off: each
/// time the best candidate of the ring that is left, until three corners
/// remain, which are the last triangle. There are none where some ring
/// on the way has no corner that can be cut off.
pub open spec fn spec_triangulation(ring: Seq<Point>, tol: i64) -> Option<Seq<Seq<Point>>>
    decreases ring.len(),
{
    if ring.len() <= 3 {
        Some(seq![ring])
    } else {
        match spec_best_candidate(ring, tol, ring.len() as int) {
            None => None,
            Some(k) => if 0 <= k < ring.len() {
                spec_prepend(seq![spec_triangle(ring, k)], spec_triangulation(ring.remove(k), tol))
            } else {
                None
            },
        }
    }
}

/// The pieces that are done, followed by the pieces still to come, where
/// these exist.
pub open spec fn spec_prepend(done: Seq<Seq<Point>>, rest: Option<Seq<Seq<Point>>>) -> Option<
    Seq<Seq<Point>>,
> {
    match rest {
        None => None,
        Some(r) => Some(done + r),
    }
}

/// The corners of each polygon of a list.
pub open spec fn spec_views(parts: Seq<Polygon>) -> Seq<Seq<Point>> {
    Seq::new(parts.len(), |i: int| parts[i]@)
}

/// The exec choice names the corner that the spec choice names.
pub open spec fn spec_same_choice(found: Option<usize>, best: Option<int>) -> bool {
    match (found, best) {
        (Some(a), Some(b)) => a == b,
        (None, None) => true,
        _ => false,
    }
}

/// The list of polygons holds the pieces.
pub open spec fn spec_same_parts(found: Option<Vec<Polygon>>, parts: Option<Seq<Seq<Point>>>)
    -> bool {
    match (found, parts) {
        (Some(v), Some(s)) => spec_views(v@) == s,
        (None, None) => true,
        _ => false,
    }
}

/// The two join corners of a merge along edge `s` of `first` and edge `o`
/// of `other` both lie left of the line through the corner before the edge
/// on `first` and the corner behind it on `other`, taken in the one
/// direction and in the other.
pub open spec fn spec_may_merge(first: Seq<Point>, other: Seq<Point>, s: int, o: int, tol: i64)
    -> bool {
    let n1 = first.len() as int;
    let n2 = other.len() as int;
    let prev = first[spec_prev(s, n1)];
    let next = other[spec_wrap(o + 2, n2)];
    Line::spec_relation(prev, next, first[spec_next(s, n1)], tol) == LinePointRelation::Left
        && Line::spec_relation(next, prev, first[s], tol) == LinePointRelation::Left
}

/// The corners of `first` with those of `other` that are not on the shared
/// edge put in between the two ends of that edge; behind all of them where
/// the edge closes the ring of `first`.
pub open spec fn spec_merged_corners(first: Seq<Point>, other: Seq<Point>, s: int, o: int) -> Seq<
    Point,
> {
    let b = spec_next(s, first.len() as int);
    let extra = spec_corners_without_edge(other, o);
    if b == 0 {
        first + extra
    } else {
        first.subrange(0, b) + extra + first.subrange(b, first.len() as int)
    }
}

/// What the merge along the shared edges `s` and `o` gives.
pub open spec fn spec_merge_matches(
    r: PolygonMergeResult,
    first: Seq<Point>,
    other: Seq<Point>,
    s: int,
    o: int,
    tol: i64,
) -> bool {
    match r {
        PolygonMergeResult::NoMerge => !spec_may_merge(first, other, s, o, tol),
        PolygonMergeResult::Merged(p) => spec_may_merge(first, other, s, o, tol) && p@
            == spec_merged_corners(first, other, s, o),
    }
}

/// Whether the edge stands in the way of the segment.
fn blocks(line: &LineSegment, edge: &LineSegment, tol: i64) -> (r: bool)
    requires
        tol >= 1,
    ensures
        r == spec_blocks(*line, *edge, tol),
{
    match Intersection::line_segment_line_segment(line, edge, tol) {
        LineSegmentLineSegmentIntersectionResult::NoIntersection => false,
        LineSegmentLineSegmentIntersectionResult::Overlap(_) => true,
        LineSegmentLineSegmentIntersectionResult::Point(pt) => {
            if pt.epsilon_equals(&edge.from, tol) || pt.epsilon_equals(&edge.to, tol) {
                false
            } else {
                true
            }
        },
    }
}

/// Appends the items of `src` from index `from` up to `to`.
fn append_range(dst: &mut Vec<Point>, src: &Vec<Point>, from: usize, to: usize)
    requires
        from <= to <= src@.len(),
    ensures
        final(dst)@ == old(dst)@ + src@.subrange(from as int, to as int),
{
    let mut i: usize = from;
    while i < to
        invariant
            from <= i <= to,
            to <= src@.len(),
            dst@ == old(dst)@ + src@.subrange(from as int, i as int),
        decreases to - i,
    {
        dst.push(src[i]);
        assert(dst@ == old(dst)@ + src@.subrange(from as int, i + 1));
        i += 1;
    }
}

impl Polygon {
    /// Whether the corner can be cut off: the ring turns by no more than a
    /// half turn there and no other edge stands in the way of the diagonal.
    pub fn is_partition_candidate(&self, corner: usize, tol: i64) -> (r: bool)
        requires
            self.is_ring(),
            corner < self@.len(),
            tol >= 1,
        ensures
            r == spec_is_candidate(self@, corner as int, tol),
    {
        if self.interior_angle(corner).is_reflex() {
            return false;
        }
        let corner_count: usize = self.points.len();
        let prev_index: usize = if corner == 0 { corner_count - 1 } else { corner - 1 };
        let next_index: usize = if corner + 1 == corner_count { 0 } else { corner + 1 };
        let line: LineSegment = LineSegment::new_from_points(
            &self.points[prev_index],
            &self.points[next_index],
        );
        let mut i: usize = 0;
        while i < corner_count
            invariant
                i <= corner_count,
                corner_count == self@.len(),
                tol >= 1,
                prev_index == spec_prev(corner as int, corner_count as int),
                line == spec_diagonal(self@, corner as int),
                forall|j: int|
                    0 <= j < i && j != prev_index && j != corner ==> !spec_blocks(
                        line,
                        #[trigger] spec_edge(self@, j),
                        tol,
                    ),
            decreases corner_count - i,
        {
            if i != prev_index && i != corner {
                let edge: LineSegment = self.calculate_single_edge(i);
                if blocks(&line, &edge, tol) {
                    return false;
                }
            }
            i += 1;
        }
        true
    }

    /// The corner that can be cut off with the shortest diagonal, the first
    /// of them where several are equally short.
    pub fn find_partition(&self, tol: i64) -> (found: Option<usize>)
        requires
            self.is_ring(),
            tol >= 1,
        ensures
            spec_same_choice(found, spec_best_candidate(self@, tol, self@.len() as int)),
            match found {
                Some(k) => {
                    &&& k < self@.len()
                    &&& spec_is_candidate(self@, k as int, tol)
                    &&& forall|j: int|
                        0 <= j < self@.len() && #[trigger] spec_is_candidate(self@, j, tol)
                            ==> spec_diagonal_length(self@, k as int) <= spec_diagonal_length(
                            self@,
                            j,
                        )
                    &&& forall|j: int|
                        0 <= j < k && #[trigger] spec_is_candidate(self@, j, tol)
                            ==> spec_diagonal_length(self@, k as int) < spec_diagonal_length(
                            self@,
                            j,
                        )
                },
                None => forall|j: int|
                    0 <= j < self@.len() ==> !#[trigger] spec_is_candidate(self@, j, tol),
            },
    {
        proof {
            lemma_best_candidate_is_candidate(self@, tol, self@.len() as int);
        }
        let corner_count: usize = self.points.len();
        let mut found: Option<usize> = None;
        let mut shortest: i128 = 0;
        let mut n: usize = 0;
        while n < corner_count
            invariant
                n <= corner_count,
                corner_count == self@.len(),
                corner_count >= 3,
                tol >= 1,
                spec_same_choice(found, spec_best_candidate(self@, tol, n as int)),
                found matches Some(k) ==> k < n && shortest == spec_diagonal_length(self@, k as int),
            decreases corner_count - n,
        {
            if self.is_partition_candidate(n, tol) {
                let prev_index: usize = if n == 0 { corner_count - 1 } else { n - 1 };
                let next_index: usize = if n + 1 == corner_count { 0 } else { n + 1 };
                let length: i128 = self.points[prev_index].distance_to_squared(
                    &self.points[next_index],
                );
                if found.is_none() || length < shortest {
                    found = Some(n);
                    shortest = length;
                }
            }
            n += 1;
        }
        found
    }

    /// Cuts the polygon into triangles: as long as more than three corners
    /// are left, the corner that `find_partition` names is cut off with its
    /// two neighbours; the three that remain are the last triangle. The
    /// corners are expected to run counter-clockwise. Gives nothing where
    /// no corner of a ring on the way can be cut off, as in a ring whose
    /// corners run clockwise.
    pub fn triangulate(&self, tol: i64) -> (parts: Option<Vec<Polygon>>)
        requires
            self.is_ring(),
            tol >= 1,
        ensures
            spec_same_parts(parts, spec_triangulation(self@, tol)),
            parts matches Some(v) ==> v@.len() == self@.len() - 2 && spec_total_doubled_area(
                spec_views(v@),
            ) == spec_signed_doubled_area(self@),
    {
        let mut convex_parts: Vec<Polygon> = Vec::new();
        let mut ring: Polygon = Polygon::from_points(&self.points);
        assert(spec_views(convex_parts@) + spec_triangulation(ring@, tol).unwrap()
            =~= spec_triangulation(ring@, tol).unwrap());
        while ring.points.len() > 3
            invariant
                ring@.len() >= 3,
                tol >= 1,
                spec_triangulation(self@, tol) == spec_prepend(
                    spec_views(convex_parts@),
                    spec_triangulation(ring@, tol),
                ),
            decreases ring@.len(),
        {
            let corner_count: usize = ring.points.len();
            match ring.find_partition(tol) {
                None => {
                    return None;
                },
                Some(middle) => {
                    let from: usize = if middle == 0 { corner_count - 1 } else { middle - 1 };
                    let to: usize = if middle + 1 == corner_count { 0 } else { middle + 1 };
                    let mut corners: Vec<Point> = Vec::with_capacity(3);
                    corners.push(ring.points[from]);
                    corners.push(ring.points[middle]);
                    corners.push(ring.points[to]);
                    let ghost before = ring@;
                    let ghost done = spec_views(convex_parts@);
                    assert(corners@ =~= spec_triangle(before, middle as int));
                    convex_parts.push(Polygon { points: corners });
                    ring.points.remove(middle);
                    proof {
                        assert(ring@ == before.remove(middle as int));
                        assert(spec_views(convex_parts@) =~= done.push(
                            spec_triangle(before, middle as int),
                        ));
                        match spec_triangulation(ring@, tol) {
                            None => {},
                            Some(rest) => {
                                assert(done + (seq![spec_triangle(before, middle as int)] + rest)
                                    =~= done.push(spec_triangle(before, middle as int)) + rest);
                            },
                        }
                    }
                },
            }
        }
        proof {
            assert(spec_triangulation(ring@, tol) == Some(seq![ring@]));
            assert(spec_views(convex_parts@.push(ring)) =~= spec_views(convex_parts@) + seq![ring@]);
        }
        convex_parts.push(ring);
        proof {
            lemma_triangulation_count(self@, tol);
            lemma_triangulation_keeps_area(self@, tol);
        }
        Some(convex_parts)
    }

    /// Merges two convex polygons that share an edge into one. Gives
    /// `NoMerge` where they share no edge, and where a join corner does not
    /// lie strictly left of the line through its two new neighbours.
    pub fn merge_convex_polygon(first: &Polygon, other: &Polygon, tol: i64) -> (r:
        PolygonMergeResult)
        requires
            first.is_ring(),
            other.is_ring(),
        ensures
            spec_no_shared(first@, other@, tol) ==> r is NoMerge,
            forall|s: int, o: int|
                spec_is_first_shared(first@, other@, s, o, tol) ==> spec_merge_matches(
                    r,
                    first@,
                    other@,
                    s,
                    o,
                    tol,
                ),
    {
        let first_edge_index: usize;
        let other_edge_index: usize;
        match first.shares_an_edge(other, tol) {
            PolygonEdgeRelation::NoSharedEdge => {
                assert forall|s: int, o: int|
                    spec_is_first_shared(first@, other@, s, o, tol) implies spec_merge_matches(
                    PolygonMergeResult::NoMerge,
                    first@,
                    other@,
                    s,
                    o,
                    tol,
                ) by {
                    assert(!spec_coincident(first@, other@, s, o, tol));
                }
                return PolygonMergeResult::NoMerge;
            },
            PolygonEdgeRelation::Shared(s, o) => {
                first_edge_index = s;
                other_edge_index = o;
            },
        }
        proof {
            assert(spec_coincident(first@, other@, first_edge_index as int, other_edge_index as int, tol));
            assert forall|s: int, o: int|
                spec_is_first_shared(first@, other@, s, o, tol) implies s == first_edge_index && o
                == other_edge_index by {
                assert(spec_coincident(first@, other@, s, o, tol));
                if s < first_edge_index || (s == first_edge_index && o < other_edge_index) {
                    assert(!spec_coincident(first@, other@, s, o, tol));
                }
                if first_edge_index < s || (first_edge_index == s && other_edge_index < o) {
                    assert(!spec_coincident(
                        first@,
                        other@,
                        first_edge_index as int,
                        other_edge_index as int,
                        tol,
                    ));
                }
            }
        }
        let first_shared_vertex_indices: (usize, usize) = first.edge_from_to(first_edge_index);
        let prev: usize = first.prev_corner_before_edge(first_edge_index);
        let next: usize = other.next_corner_after_edge(other_edge_index);

        match Line::line_point_relation_fast(
            &first.points[prev],
            &other.points[next],
            &first.points[first_shared_vertex_indices.1],
            tol,
        ) {
            LinePointRelation::Right => {
                return PolygonMergeResult::NoMerge;
            },
            LinePointRelation::On => {
                return PolygonMergeResult::NoMerge;
            },
            LinePointRelation::Left => (),
        }
        match Line::line_point_relation_fast(
            &other.points[next],
            &first.points[prev],
            &first.points[first_shared_vertex_indices.0],
            tol,
        ) {
            LinePointRelation::Right => {
                return PolygonMergeResult::NoMerge;
            },
            LinePointRelation::On => {
                return PolygonMergeResult::NoMerge;
            },
            LinePointRelation::Left => (),
        }
        let other_corners: Vec<Point> = other.corners_without_edge(other_edge_index);
        let mut corners: Vec<Point> = Vec::new();
        let first_count: usize = first.points.len();
        if first_shared_vertex_indices.1 == 0 {
            append_range(&mut corners, &first.points, 0, first_count);
            append_range(&mut corners, &other_corners, 0, other_corners.len());
            assert(corners@ =~= first@ + other_corners@);
        } else {
            append_range(&mut corners, &first.points, 0, first_shared_vertex_indices.1);
            append_range(&mut corners, &other_corners, 0, other_corners.len());
            append_range(&mut corners, &first.points, first_shared_vertex_indices.1, first_count);
            assert(corners@ =~= first@.subrange(0, first_shared_vertex_indices.1 as int)
                + other_corners@ + first@.subrange(
                first_shared_vertex_indices.1 as int,
                first_count as int,
            ));
        }
        PolygonMergeResult::Merged(Polygon { points: corners })
    }
}

} // verus!
