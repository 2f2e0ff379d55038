//! Where lines, segments and polygons meet.
use crate::arith::{lemma_mul_within, magnitude, quotient_toward_zero};
use crate::geometry::line::Line;
use crate::geometry::line_segment::{spec_between, LineSegment};
use crate::geometry::point::Point;
use crate::geometry::polygon::{spec_edges, Polygon};
use vstd::prelude::*;

verus! {

/// How two segments meet.
#[derive(Debug, Clone, Copy, PartialEq, Eq, Structural)]
pub enum LineSegmentLineSegmentIntersectionResult {
    /// They do not meet.
    NoIntersection,
    /// They cross or touch in one point.
    Point(Point),
    /// They lie on one line; the segment spans the ends of both.
    Overlap(LineSegment),
}

/// How two infinite lines meet.
#[derive(Debug, Clone, Copy, PartialEq, Eq, Structural)]
pub enum LineLineIntersectionResult {
    /// They are parallel and apart, or cross outside the plane.
    NoIntersection,
    /// They cross in one point.
    Point(Point),
    /// They are the same line.
    Equal,
}

/// How the boundaries of two polygons meet.
#[derive(Debug, Clone)]
pub enum PolygonPolygonIntersectionResult {
    /// No edge of the one meets an edge of the other.
    NoIntersection,
    /// The edges meet in one point.
    Point(Point),
    /// The edges meet more than once; the points are in the order in which
    /// they were found.
    Multiple(Vec<Point>),
}

/// The intersection tests.
pub struct Intersection {}

/// Some point of the list agrees with `p` within `tol`.
pub open spec fn spec_holds(found: Seq<Point>, p: Point, tol: i64) -> bool {
    exists|i: int| 0 <= i < found.len() && (#[trigger] found[i]).spec_epsilon_equals(p, tol)
}

/// The list with `p` behind it, unless a point of the list agrees with `p`
/// within `tol`.
pub open spec fn spec_noted(found: Seq<Point>, p: Point, tol: i64) -> Seq<Point> {
    if spec_holds(found, p, tol) {
        found
    } else {
        found.push(p)
    }
}

/// The list with what two edges add to it: the point in which they meet,
/// or the two ends of their overlap.
pub open spec fn spec_pair_noted(found: Seq<Point>, first: LineSegment, other: LineSegment, tol: i64)
    -> Seq<Point> {
    match spec_line_segment_line_segment(first, other, tol) {
        LineSegmentLineSegmentIntersectionResult::NoIntersection => found,
        LineSegmentLineSegmentIntersectionResult::Point(p) => spec_noted(found, p, tol),
        LineSegmentLineSegmentIntersectionResult::Overlap(s) => spec_noted(
            spec_noted(found, s.from, tol),
            s.to,
            tol,
        ),
    }
}

/// The list with what `edge` and the first `m` of `others` add to it, in order.
pub open spec fn spec_row_noted(
    found: Seq<Point>,
    edge: LineSegment,
    others: Seq<LineSegment>,
    m: int,
    tol: i64,
) -> Seq<Point>
    decreases m,
{
    if m <= 0 {
        found
    } else {
        spec_pair_noted(spec_row_noted(found, edge, others, m - 1, tol), edge, others[m - 1], tol)
    }
}

/// The points in which the first `k` of `edges` meet `others`: edge by
/// edge, and for each edge in the order of `others`. A point that agrees
/// within `tol` with one found before is not listed again.
pub open spec fn spec_all_points(
    edges: Seq<LineSegment>,
    others: Seq<LineSegment>,
    k: int,
    tol: i64,
) -> Seq<Point>
    decreases k,
{
    if k <= 0 {
        Seq::empty()
    } else {
        spec_row_noted(
            spec_all_points(edges, others, k - 1, tol),
            edges[k - 1],
            others,
            others.len() as int,
            tol,
        )
    }
}

/// The points in which the edges of two rings meet.
pub open spec fn spec_meeting_points(first: Seq<Point>, other: Seq<Point>, tol: i64) -> Seq<Point> {
    spec_all_points(spec_edges(first), spec_edges(other), first.len() as int, tol)
}

/// The result names the meeting points: none, the only one, or all of them.
pub open spec fn spec_names_points(r: PolygonPolygonIntersectionResult, pts: Seq<Point>) -> bool {
    match r {
        PolygonPolygonIntersectionResult::NoIntersection => pts.len() == 0,
        PolygonPolygonIntersectionResult::Point(p) => pts.len() == 1 && pts[0] == p,
        PolygonPolygonIntersectionResult::Multiple(v) => pts.len() >= 2 && v@ == pts,
    }
}

/// The numerator of the position of the crossing along `first`:
/// `(x1 - x3)(y3 - y4) - (y1 - y3)(x3 - x4)`.
pub open spec fn spec_first_numerator(first: LineSegment, other: LineSegment) -> int {
    (first.from.x - other.from.x) * (other.from.y - other.to.y) - (first.from.y - other.from.y) * (
    other.from.x - other.to.x)
}

/// The numerator of the position of the crossing along `other`:
/// `-((x1 - x2)(y1 - y3) - (y1 - y2)(x1 - x3))`.
pub open spec fn spec_other_numerator(first: LineSegment, other: LineSegment) -> int {
    -((first.from.x - first.to.x) * (first.from.y - other.from.y) - (first.from.y - first.to.y) * (
    first.from.x - other.from.x))
}

/// The fraction `num / den` lies between 0 and 1.
pub open spec fn spec_in_unit_range(num: int, den: int) -> bool {
    if den > 0 {
        0 <= num <= den
    } else {
        den <= num <= 0
    }
}

/// The coordinate by which collinear points are ordered.
pub open spec fn spec_key(p: Point, by_y: bool) -> int {
    if by_y {
        p.y as int
    } else {
        p.x as int
    }
}

/// The last of the four points whose key is the smallest.
pub open spec fn spec_lowest(a: Point, b: Point, c: Point, d: Point, by_y: bool) -> Point {
    let ka = spec_key(a, by_y);
    let kb = spec_key(b, by_y);
    let kc = spec_key(c, by_y);
    let kd = spec_key(d, by_y);
    if kd <= ka && kd <= kb && kd <= kc {
        d
    } else if kc <= ka && kc <= kb {
        c
    } else if kb <= ka {
        b
    } else {
        a
    }
}

/// The first of the four points whose key is the largest.
pub open spec fn spec_highest(a: Point, b: Point, c: Point, d: Point, by_y: bool) -> Point {
    let ka = spec_key(a, by_y);
    let kb = spec_key(b, by_y);
    let kc = spec_key(c, by_y);
    let kd = spec_key(d, by_y);
    if ka >= kb && ka >= kc && ka >= kd {
        a
    } else if kb >= kc && kb >= kd {
        b
    } else if kc >= kd {
        c
    } else {
        d
    }
}

/// The segment that spans the four ends of two collinear segments: from the
/// end that is lowest in `x` to the one that is highest, or in `y` where all
/// four share one `x`.
pub open spec fn spec_envelope(first: LineSegment, other: LineSegment) -> LineSegment {
    let by_y = first.from.x == first.to.x && first.to.x == other.from.x && other.from.x
        == other.to.x;
    LineSegment::spec_new(
        spec_lowest(first.from, first.to, other.from, other.to, by_y),
        spec_highest(first.from, first.to, other.from, other.to, by_y),
    )
}

/// How two segments meet. Parallel segments (denominator below `tol`)
/// overlap where an end of one is collinear with the other, and miss
/// otherwise; others meet in a point where the crossing lies on both.
pub open spec fn spec_line_segment_line_segment(first: LineSegment, other: LineSegment, tol: i64)
    -> LineSegmentLineSegmentIntersectionResult {
    let d = first.spec_denominator(other);
    if magnitude(d) < tol {
        if Point::spec_are_colinear(first.from, first.to, other.from, tol)
            || Point::spec_are_colinear(other.from, other.to, first.from, tol) {
            LineSegmentLineSegmentIntersectionResult::Overlap(spec_envelope(first, other))
        } else {
            LineSegmentLineSegmentIntersectionResult::NoIntersection
        }
    } else {
        let t = spec_first_numerator(first, other);
        let u = spec_other_numerator(first, other);
        if spec_in_unit_range(t, d) && spec_in_unit_range(u, d) {
            LineSegmentLineSegmentIntersectionResult::Point(
                first.spec_point_at(magnitude(t), magnitude(d)),
            )
        } else {
            LineSegmentLineSegmentIntersectionResult::NoIntersection
        }
    }
}

/// How far apart two parallel lines are: the cross-multiplied difference
/// of their intercepts, or the difference of their `x` where both are
/// vertical.
pub open spec fn spec_gap(first: Line, other: Line) -> int {
    match (first, other) {
        (
            Line::Sloped { rise: _, run: n1, offset: o1 },
            Line::Sloped { rise: _, run: n2, offset: o2 },
        ) => o1 * n2 - o2 * n1,
        (Line::Vertical { x: x1 }, Line::Vertical { x: x2 }) => x1 - x2,
        _ => 0,
    }
}

/// How two lines meet: parallel lines are equal where their gap is below
/// `tol`, and miss otherwise; others cross in a point.
pub open spec fn spec_line_line(first: Line, other: Line, tol: i64) -> LineLineIntersectionResult {
    if first.spec_is_parallel_to(other, tol) {
        if magnitude(spec_gap(first, other)) < tol {
            LineLineIntersectionResult::Equal
        } else {
            LineLineIntersectionResult::NoIntersection
        }
    } else {
        match first.spec_crossing(other) {
            Some(p) => LineLineIntersectionResult::Point(p),
            None => LineLineIntersectionResult::NoIntersection,
        }
    }
}

/// The key of a point.
fn key_of(p: &Point, by_y: bool) -> (k: i32)
    ensures
        k == spec_key(*p, by_y),
{
    if by_y {
        p.y
    } else {
        p.x
    }
}

/// The segment that spans the ends of two collinear segments.
fn envelope(first: &LineSegment, other: &LineSegment) -> (s: LineSegment)
    ensures
        s == spec_envelope(*first, *other),
{
    let by_y: bool = first.from.x == first.to.x && first.to.x == other.from.x && other.from.x
        == other.to.x;
    let ka: i32 = key_of(&first.from, by_y);
    let kb: i32 = key_of(&first.to, by_y);
    let kc: i32 = key_of(&other.from, by_y);
    let kd: i32 = key_of(&other.to, by_y);
    let lowest: Point = if kd <= ka && kd <= kb && kd <= kc {
        other.to
    } else if kc <= ka && kc <= kb {
        other.from
    } else if kb <= ka {
        first.to
    } else {
        first.from
    };
    let highest: Point = if ka >= kb && ka >= kc && ka >= kd {
        first.from
    } else if kb >= kc && kb >= kd {
        first.to
    } else if kc >= kd {
        other.from
    } else {
        other.to
    };
    LineSegment::new_from_points(&lowest, &highest)
}

/// The two numerators of the crossing of two segments.
fn numerators(first: &LineSegment, other: &LineSegment) -> (r: (i128, i128))
    ensures
        r.0 == spec_first_numerator(*first, *other),
        r.1 == spec_other_numerator(*first, *other),
        -0x2_0000_0000_0000_0000 <= r.0 <= 0x2_0000_0000_0000_0000,
        -0x2_0000_0000_0000_0000 <= r.1 <= 0x2_0000_0000_0000_0000,
{
    let gx: i128 = first.from.x as i128 - other.from.x as i128;
    let gy: i128 = first.from.y as i128 - other.from.y as i128;
    let ax: i128 = first.from.x as i128 - first.to.x as i128;
    let ay: i128 = first.from.y as i128 - first.to.y as i128;
    let bx: i128 = other.from.x as i128 - other.to.x as i128;
    let by: i128 = other.from.y as i128 - other.to.y as i128;
    proof {
        lemma_mul_within(gx as int, by as int, 0x1_0000_0000, 0x1_0000_0000);
        lemma_mul_within(gy as int, bx as int, 0x1_0000_0000, 0x1_0000_0000);
        lemma_mul_within(ax as int, gy as int, 0x1_0000_0000, 0x1_0000_0000);
        lemma_mul_within(ay as int, gx as int, 0x1_0000_0000, 0x1_0000_0000);
    }
    (gx * by - gy * bx, -(ax * gy - ay * gx))
}

/// Whether two parallel lines are one line, within `tol`.
fn gap_below(first: &Line, other: &Line, tol: i64) -> (r: bool)
    requires
        first.wf(),
        other.wf(),
    ensures
        r == (magnitude(spec_gap(*first, *other)) < tol),
{
    match (first, other) {
        (
            Line::Sloped { rise: _, run: n1, offset: o1 },
            Line::Sloped { rise: _, run: n2, offset: o2 },
        ) => {
            proof {
                lemma_mul_within(*o2 as int, *n1 as int, 0x2_0000_0000_0000_0000, 0x1_0000_0000);
                lemma_mul_within(*o1 as int, *n2 as int, 0x2_0000_0000_0000_0000, 0x1_0000_0000);
            }
            let gap: i128 = *o1 * (*n2 as i128) - *o2 * (*n1 as i128);
            let size: i128 = if gap < 0 { -gap } else { gap };
            size < tol as i128
        },
        (Line::Vertical { x: x1 }, Line::Vertical { x: x2 }) => {
            let gap: i64 = *x1 as i64 - *x2 as i64;
            let size: i64 = if gap < 0 { -gap } else { gap };
            size < tol
        },
        _ => 0 < tol,
    }
}

/// Puts the point behind the list, unless the list holds one that agrees
/// with it within `tol`.
fn note_point(found: &mut Vec<Point>, p: Point, tol: i64)
    ensures
        final(found)@ == spec_noted(old(found)@, p, tol),
{
    let mut i: usize = 0;
    while i < found.len()
        invariant
            i <= found@.len(),
            found@ == old(found)@,
            forall|j: int| 0 <= j < i ==> !(#[trigger] found@[j]).spec_epsilon_equals(p, tol),
        decreases found.len() - i,
    {
        if found[i].epsilon_equals(&p, tol) {
            return;
        }
        i += 1;
    }
    found.push(p);
}

impl Intersection {
    /// How two infinite lines meet, within the positive tolerance `tol`.
    pub fn line_line(first: &Line, other: &Line, tol: i64) -> (r: LineLineIntersectionResult)
        requires
            first.wf(),
            other.wf(),
            tol >= 1,
        ensures
            r == spec_line_line(*first, *other, tol),
    {
        if first.is_parallel_to(other, tol) {
            if gap_below(first, other, tol) {
                return LineLineIntersectionResult::Equal;
            } else {
                return LineLineIntersectionResult::NoIntersection;
            }
        } else {
            match first.crossing(other) {
                Some(p) => LineLineIntersectionResult::Point(p),
                None => LineLineIntersectionResult::NoIntersection,
            }
        }
    }

    /// How two segments meet, within the positive tolerance `tol`.
    pub fn line_segment_line_segment(first: &LineSegment, other: &LineSegment, tol: i64) -> (r:
        LineSegmentLineSegmentIntersectionResult)
        requires
            tol >= 1,
        ensures
            r == spec_line_segment_line_segment(*first, *other, tol),
            r matches LineSegmentLineSegmentIntersectionResult::Point(p) ==> spec_between(
                first.from.x as int,
                p.x as int,
                first.to.x as int,
            ) && spec_between(first.from.y as int, p.y as int, first.to.y as int),
    {
        let denominator: i128 = first.denominator_with_other(other);
        let size: i128 = if denominator < 0 { -denominator } else { denominator };
        if size < tol as i128 {
            if Point::are_colinear(&first.from, &first.to, &other.from, tol) || Point::are_colinear(
                &other.from,
                &other.to,
                &first.from,
                tol,
            ) {
                LineSegmentLineSegmentIntersectionResult::Overlap(envelope(first, other))
            } else {
                LineSegmentLineSegmentIntersectionResult::NoIntersection
            }
        } else {
            let (t, u) = numerators(first, other);
            let on_both: bool = if denominator > 0 {
                0 <= t && t <= denominator && 0 <= u && u <= denominator
            } else {
                denominator <= t && t <= 0 && denominator <= u && u <= 0
            };
            if on_both {
                let first_param: i128 = if t < 0 { -t } else { t };
                LineSegmentLineSegmentIntersectionResult::Point(
                    first.point_at_normalized_parameter(first_param, size),
                )
            } else {
                LineSegmentLineSegmentIntersectionResult::NoIntersection
            }
        }
    }

    /// Where the boundaries of two polygons meet: every edge of the first
    /// is held against every edge of the other, and each point found is
    /// listed once.
    pub fn polygon_polygon(first: &Polygon, other: &Polygon, tol: i64) -> (r:
        PolygonPolygonIntersectionResult)
        requires
            first.is_ring(),
            other.is_ring(),
            tol >= 1,
        ensures
            spec_names_points(r, spec_meeting_points(first@, other@, tol)),
    {
        let first_edges: Vec<LineSegment> = first.calculate_edges();
        let other_edges: Vec<LineSegment> = other.calculate_edges();
        let mut int_pts: Vec<Point> = Vec::new();
        let mut f: usize = 0;
        while f < first_edges.len()
            invariant
                f <= first_edges@.len(),
                tol >= 1,
                int_pts@ == spec_all_points(first_edges@, other_edges@, f as int, tol),
            decreases first_edges.len() - f,
        {
            let f_edge: LineSegment = first_edges[f];
            let mut o: usize = 0;
            while o < other_edges.len()
                invariant
                    o <= other_edges@.len(),
                    f < first_edges@.len(),
                    tol >= 1,
                    f_edge == first_edges@[f as int],
                    int_pts@ == spec_row_noted(
                        spec_all_points(first_edges@, other_edges@, f as int, tol),
                        f_edge,
                        other_edges@,
                        o as int,
                        tol,
                    ),
                decreases other_edges.len() - o,
            {
                match Intersection::line_segment_line_segment(&f_edge, &other_edges[o], tol) {
                    LineSegmentLineSegmentIntersectionResult::NoIntersection => {},
                    LineSegmentLineSegmentIntersectionResult::Point(int_pt) => {
                        note_point(&mut int_pts, int_pt, tol);
                    },
                    LineSegmentLineSegmentIntersectionResult::Overlap(int_line) => {
                        note_point(&mut int_pts, int_line.from, tol);
                        note_point(&mut int_pts, int_line.to, tol);
                    },
                }
                o += 1;
            }
            f += 1;
        }
        if int_pts.len() == 0 {
            PolygonPolygonIntersectionResult::NoIntersection
        } else {
            if int_pts.len() == 1 {
                PolygonPolygonIntersectionResult::Point(int_pts[0])
            } else {
                PolygonPolygonIntersectionResult::Multiple(int_pts)
            }
        }
    }
}

/// A whole multiple of a positive number, divided by that number.
proof fn lemma_whole_quotient(m: int, d: int)
    requires
        m > 0,
    ensures
        quotient_toward_zero(m * d, m) == d,
{
    if d >= 0 {
        assert(m * d >= 0) by (nonlinear_arith)
            requires
                m > 0,
                d >= 0,
        ;
        vstd::arithmetic::div_mod::lemma_div_multiples_vanish(d, m);
    } else {
        assert(m * d < 0 && -(m * d) == m * (-d)) by (nonlinear_arith)
            requires
                m > 0,
                d < 0,
        ;
        vstd::arithmetic::div_mod::lemma_div_multiples_vanish(-d, m);
    }
}

/// Two segments that are not parallel, the second of which starts where
/// the first ends, meet in just that point.
pub proof fn lemma_touching_segments_meet(first: LineSegment, other: LineSegment, tol: i64)
    requires
        tol >= 1,
        first.to == other.from,
        magnitude(first.spec_denominator(other)) >= tol,
    ensures
        spec_line_segment_line_segment(first, other, tol)
            == LineSegmentLineSegmentIntersectionResult::Point(first.to),
{
    let d = first.spec_denominator(other);
    let t = spec_first_numerator(first, other);
    let u = spec_other_numerator(first, other);
    let ax = first.from.x - first.to.x;
    let ay = first.from.y - first.to.y;
    assert(t == d);
    assert(ax * ay - ay * ax == 0) by (nonlinear_arith);
    assert(u == 0);
    let m = magnitude(d);
    lemma_whole_quotient(m, first.to.x - first.from.x);
    lemma_whole_quotient(m, first.to.y - first.from.y);
    assert(first.spec_point_at(m, m) == first.to);
}

/// Whether two segments miss, meet in a point or overlap does not depend
/// on which of them is given first.
pub proof fn lemma_meeting_is_mutual(first: LineSegment, other: LineSegment, tol: i64)
    ensures
        spec_line_segment_line_segment(first, other, tol)
            is NoIntersection <==> spec_line_segment_line_segment(other, first, tol)
            is NoIntersection,
        spec_line_segment_line_segment(first, other, tol) is Point
            <==> spec_line_segment_line_segment(other, first, tol) is Point,
        spec_line_segment_line_segment(first, other, tol) is Overlap
            <==> spec_line_segment_line_segment(other, first, tol) is Overlap,
{
    let ax = first.from.x - first.to.x;
    let ay = first.from.y - first.to.y;
    let bx = other.from.x - other.to.x;
    let by = other.from.y - other.to.y;
    let gx = first.from.x - other.from.x;
    let gy = first.from.y - other.from.y;
    assert(other.spec_denominator(first) == -first.spec_denominator(other)) by {
        assert(bx * ay - by * ax == -(ax * by - ay * bx)) by (nonlinear_arith);
    }
    assert(spec_first_numerator(other, first) == -spec_other_numerator(first, other)) by {
        assert((-gx) * ay - (-gy) * ax == ax * gy - ay * gx) by (nonlinear_arith);
    }
    assert(spec_other_numerator(other, first) == -spec_first_numerator(first, other)) by {
        assert(-(bx * (-gy) - by * (-gx)) == -(gx * by - gy * bx)) by (nonlinear_arith);
    }
}

} // verus!
