//! Infinite lines, sloped or vertical.
use crate::arith::{div_toward_zero, lemma_mul_within, magnitude, quotient_toward_zero};
use crate::geometry::constants::ZERO_TOLERANCE;
use crate::geometry::point::{spec_turn, turn, Point};
use vstd::prelude::*;

verus! {

/// On which side of a directed line a point lies.
#[derive(Debug, Clone, Copy, PartialEq, Eq, Structural)]
pub enum LinePointRelation {
    Left,
    Right,
    On,
}

/// An infinite line. A sloped line holds its slope as the fraction
/// `rise / run` and its intercept as `offset / run`, so that it is the set of
/// points with `run * y == rise * x + offset`; a vertical line holds its `x`.
#[derive(Debug, Clone, Copy, PartialEq, Eq, Structural)]
pub enum Line {
    Sloped { rise: i64, run: i64, offset: i128 },
    Vertical { x: i32 },
}

/// What two lines have in common.
#[derive(Debug, Clone, Copy, PartialEq, Eq, Structural)]
pub enum LineIntersection {
    /// The lines cross outside the plane.
    NoIntersection,
    /// The lines cross in this point.
    Point(Point),
    /// The lines are parallel; this is the first of them.
    Line(Line),
}

impl Line {
    /// The fraction of a sloped line has a positive denominator, and its
    /// parts are as small as those of a line through two points.
    pub open spec fn wf(self) -> bool {
        match self {
            Line::Sloped { rise, run, offset } => {
                &&& 1 <= run <= 0x1_0000_0000
                &&& -0x1_0000_0000 <= rise <= 0x1_0000_0000
                &&& -0x2_0000_0000_0000_0000 <= offset <= 0x2_0000_0000_0000_0000
            },
            Line::Vertical { x } => true,
        }
    }

    /// The line through two points: vertical where their `x` agree within
    /// `ZERO_TOLERANCE`, else level where their `y` agree, else sloped.
    pub open spec fn spec_from_points(pt0: Point, pt1: Point) -> Line {
        let dx = pt1.x - pt0.x;
        let dy = pt1.y - pt0.y;
        if magnitude(dx) < ZERO_TOLERANCE {
            Line::Vertical { x: pt0.x }
        } else if magnitude(dy) < ZERO_TOLERANCE {
            Line::Sloped { rise: 0, run: 1, offset: pt0.y as i128 }
        } else if dx > 0 {
            Line::Sloped { rise: dy as i64, run: dx as i64, offset: (pt0.y * dx - dy * pt0.x) as i128 }
        } else {
            Line::Sloped {
                rise: (-dy) as i64,
                run: (-dx) as i64,
                offset: (dy * pt0.x - pt0.y * dx) as i128,
            }
        }
    }

    /// `run * y` at the given `x` (0 for a vertical line).
    pub open spec fn spec_scaled_y(self, x: int) -> int {
        match self {
            Line::Sloped { rise, run, offset } => rise * x + offset,
            Line::Vertical { x: _ } => 0,
        }
    }

    /// The point of a sloped line at `x`, its `y` rounded toward zero, where
    /// that is a point of the plane.
    pub open spec fn spec_point_at(self, x: i32) -> Option<Point> {
        match self {
            Line::Sloped { rise, run, offset } => {
                let y = quotient_toward_zero(rise * x + offset, run as int);
                if i32::MIN <= y <= i32::MAX {
                    Some(Point { x: x, y: y as i32 })
                } else {
                    None
                }
            },
            Line::Vertical { x: _ } => None,
        }
    }

    /// The cross product of the directions of two sloped lines (0 otherwise).
    pub open spec fn spec_direction_cross(self, other: Line) -> int {
        match (self, other) {
            (
                Line::Sloped { rise: r1, run: n1, offset: _ },
                Line::Sloped { rise: r2, run: n2, offset: _ },
            ) => n1 * r2 - r1 * n2,
            _ => 0,
        }
    }

    /// Two vertical lines are parallel; a vertical and a sloped line never
    /// are; two sloped lines are where the cross product of their directions
    /// is below `tol` in magnitude.
    pub open spec fn spec_is_parallel_to(self, other: Line, tol: i64) -> bool {
        match (self, other) {
            (Line::Sloped { .. }, Line::Sloped { .. }) => magnitude(
                self.spec_direction_cross(other),
            ) < tol,
            (Line::Vertical { .. }, Line::Vertical { .. }) => true,
            _ => false,
        }
    }

    /// How far the point is off the line: `rise * x + offset - run * y` for a
    /// sloped line, the difference in `x` for a vertical one.
    pub open spec fn spec_deviation(self, pt: Point) -> int {
        match self {
            Line::Sloped { rise, run, offset } => rise * pt.x + offset - run * pt.y,
            Line::Vertical { x } => pt.x - x,
        }
    }

    /// The point is on the line, within `tol`.
    pub open spec fn spec_is_point_on(self, pt: Point, tol: i64) -> bool {
        magnitude(self.spec_deviation(pt)) < tol
    }

    /// Left where the cross product of `from -> to` and `from -> test` is
    /// positive, right where it is negative, on where its magnitude is
    /// below `tol`.
    pub open spec fn spec_relation(pt_from: Point, pt_to: Point, pt_test: Point, tol: i64)
        -> LinePointRelation {
        let fac = spec_turn(pt_from, pt_to, pt_test);
        if magnitude(fac) < tol {
            LinePointRelation::On
        } else if fac < 0 {
            LinePointRelation::Right
        } else {
            LinePointRelation::Left
        }
    }

    /// The `x` at which two sloped lines that are not parallel cross, rounded
    /// toward zero.
    pub open spec fn spec_crossing_x(self, other: Line) -> int {
        match (self, other) {
            (
                Line::Sloped { rise: r1, run: n1, offset: o1 },
                Line::Sloped { rise: r2, run: n2, offset: o2 },
            ) => {
                let num = o2 * n1 - o1 * n2;
                let den = r1 * n2 - r2 * n1;
                if den > 0 {
                    quotient_toward_zero(num, den)
                } else {
                    quotient_toward_zero(-num, -den)
                }
            },
            _ => 0,
        }
    }

    /// The point in which two lines that are not parallel cross, where it is a
    /// point of the plane.
    pub open spec fn spec_crossing(self, other: Line) -> Option<Point> {
        match (self, other) {
            (Line::Sloped { .. }, Line::Sloped { .. }) => {
                let x = self.spec_crossing_x(other);
                if i32::MIN <= x <= i32::MAX {
                    self.spec_point_at(x as i32)
                } else {
                    None
                }
            },
            (Line::Vertical { x }, Line::Sloped { .. }) => other.spec_point_at(x),
            (Line::Sloped { .. }, Line::Vertical { x }) => self.spec_point_at(x),
            _ => None,
        }
    }

    /// What `intersect_line` gives: the line itself where the two are
    /// parallel within `ZERO_TOLERANCE`, else the point in which they
    /// cross, or nothing where that point is outside the plane.
    pub open spec fn spec_intersect_line(self, other: Line) -> LineIntersection {
        if self.spec_is_parallel_to(other, ZERO_TOLERANCE) {
            LineIntersection::Line(self)
        } else {
            match self.spec_crossing(other) {
                Some(p) => LineIntersection::Point(p),
                None => LineIntersection::NoIntersection,
            }
        }
    }

    /// The x-axis.
    pub fn new() -> (l: Line)
        ensures
            l == (Line::Sloped { rise: 0, run: 1, offset: 0 }),
            l.wf(),
    {
        Line::Sloped { rise: 0, run: 1, offset: 0 }
    }

    /// The line `y = m * x + b`.
    pub fn new_from_values(m: i32, b: i32) -> (l: Line)
        ensures
            l == (Line::Sloped { rise: m as i64, run: 1, offset: b as i128 }),
            l.wf(),
    {
        Line::Sloped { rise: m as i64, run: 1, offset: b as i128 }
    }

    /// The line through two points.
    pub fn new_from_points(pt0: &Point, pt1: &Point) -> (l: Line)
        ensures
            l == Line::spec_from_points(*pt0, *pt1),
            l.wf(),
    {
        let dx: i64 = pt1.x as i64 - pt0.x as i64;
        let dy: i64 = pt1.y as i64 - pt0.y as i64;
        let ax: i64 = if dx < 0 { -dx } else { dx };
        let ay: i64 = if dy < 0 { -dy } else { dy };
        if ax < ZERO_TOLERANCE {
            return Line::Vertical { x: pt0.x };
        }
        if ay < ZERO_TOLERANCE {
            return Line::Sloped { rise: 0, run: 1, offset: pt0.y as i128 };
        }
        let m: i64 = Line::calculate_slope(dx, dy);
        let run: i64 = ax;
        let b: i128 = Line::calculate_y_offset(m, run, pt0);
        proof {
            if dx > 0 {
                assert(pt0.y * run - m * pt0.x == pt0.y * dx - dy * pt0.x);
            } else {
                assert(run == -dx && m == -dy);
                assert(pt0.y * (-dx) == -(pt0.y * dx)) by (nonlinear_arith);
                assert((-dy) * pt0.x == -(dy * pt0.x)) by (nonlinear_arith);
            }
        }
        Line::Sloped { rise: m, run, offset: b }
    }

    /// The numerator of the slope over the positive denominator `|dx|`.
    fn calculate_slope(dx: i64, dy: i64) -> (rise: i64)
        requires
            -0x1_0000_0000 <= dx <= 0x1_0000_0000,
            -0x1_0000_0000 <= dy <= 0x1_0000_0000,
        ensures
            rise == if dx > 0 { dy as int } else { -dy },
    {
        if dx > 0 {
            dy
        } else {
            -dy
        }
    }

    /// The numerator of the intercept of the line of slope `rise / run` through `pt`.
    fn calculate_y_offset(rise: i64, run: i64, pt: &Point) -> (offset: i128)
        requires
            -0x1_0000_0000 <= rise <= 0x1_0000_0000,
            -0x1_0000_0000 <= run <= 0x1_0000_0000,
        ensures
            offset == pt.y * run - rise * pt.x,
            -0x1_0000_0000_0000_0000 <= offset <= 0x1_0000_0000_0000_0000,
    {
        proof {
            lemma_mul_within(pt.y as int, run as int, 0x8000_0000, 0x1_0000_0000);
            lemma_mul_within(rise as int, pt.x as int, 0x1_0000_0000, 0x8000_0000);
        }
        (pt.y as i128) * (run as i128) - (rise as i128) * (pt.x as i128)
    }

    /// The point of the line at `x`, where the line is sloped and the point
    /// is inside the plane; its `y` is rounded toward zero.
    pub fn point_at(&self, x: i32) -> (p: Option<Point>)
        requires
            self.wf(),
        ensures
            p == self.spec_point_at(x),
    {
        match self {
            Line::Sloped { rise, run, offset } => {
                let scaled: i128 = self._evaluate_x(x);
                let y: i128 = div_toward_zero(scaled, *run as i128);
                if -0x8000_0000 <= y && y <= 0x7FFF_FFFF {
                    Some(Point { x, y: y as i32 })
                } else {
                    None
                }
            },
            Line::Vertical { x: _ } => None,
        }
    }

    /// The point in which two lines that are not parallel cross, where it is
    /// a point of the plane; both coordinates are rounded toward zero.
    pub fn crossing(&self, other: &Line) -> (p: Option<Point>)
        requires
            self.wf(),
            other.wf(),
            !self.spec_is_parallel_to(*other, 1),
        ensures
            p == self.spec_crossing(*other),
    {
        match (self, other) {
            (
                Line::Sloped { rise: r1, run: n1, offset: o1 },
                Line::Sloped { rise: r2, run: n2, offset: o2 },
            ) => {
                proof {
                    lemma_mul_within(*o2 as int, *n1 as int, 0x2_0000_0000_0000_0000, 0x1_0000_0000);
                    lemma_mul_within(*o1 as int, *n2 as int, 0x2_0000_0000_0000_0000, 0x1_0000_0000);
                    lemma_mul_within(*r1 as int, *n2 as int, 0x1_0000_0000, 0x1_0000_0000);
                    lemma_mul_within(*r2 as int, *n1 as int, 0x1_0000_0000, 0x1_0000_0000);
                    assert(*n1 * *r2 == *r2 * *n1) by (nonlinear_arith);
                }
                let num: i128 = *o2 * (*n1 as i128) - *o1 * (*n2 as i128);
                let den: i128 = (*r1 as i128) * (*n2 as i128) - (*r2 as i128) * (*n1 as i128);
                let x: i128 = if den > 0 {
                    div_toward_zero(num, den)
                } else {
                    div_toward_zero(-num, -den)
                };
                if -0x8000_0000 <= x && x <= 0x7FFF_FFFF {
                    self.point_at(x as i32)
                } else {
                    None
                }
            },
            (Line::Vertical { x }, Line::Sloped { .. }) => other.point_at(*x),
            (Line::Sloped { .. }, Line::Vertical { x }) => self.point_at(*x),
            _ => None,
        }
    }

    /// Where this line meets `other`: the line itself where the two are
    /// parallel, else the point in which they cross.
    pub fn intersect_line(&self, other: &Line) -> (r: LineIntersection)
        requires
            self.wf(),
            other.wf(),
        ensures
            r == self.spec_intersect_line(*other),
    {
        if self.is_parallel_to(other, ZERO_TOLERANCE) {
            return LineIntersection::Line(*self);
        } else {
            match self.crossing(other) {
                Some(p) => LineIntersection::Point(p),
                None => LineIntersection::NoIntersection,
            }
        }
    }

    /// Whether the two lines are parallel, within `tol`.
    pub fn is_parallel_to(&self, other: &Line, tol: i64) -> (r: bool)
        requires
            self.wf(),
            other.wf(),
        ensures
            r == self.spec_is_parallel_to(*other, tol),
    {
        match (self, other) {
            (
                Line::Sloped { rise: r1, run: n1, offset: _ },
                Line::Sloped { rise: r2, run: n2, offset: _ },
            ) => {
                proof {
                    lemma_mul_within(*n1 as int, *r2 as int, 0x1_0000_0000, 0x1_0000_0000);
                    lemma_mul_within(*r1 as int, *n2 as int, 0x1_0000_0000, 0x1_0000_0000);
                }
                let cross: i128 = (*n1 as i128) * (*r2 as i128) - (*r1 as i128) * (*n2 as i128);
                let size: i128 = if cross < 0 { -cross } else { cross };
                size < tol as i128
            },
            (Line::Vertical { .. }, Line::Vertical { .. }) => true,
            _ => false,
        }
    }

    /// Whether the point is on the line, within `tol`.
    pub fn is_point_on(&self, pt: &Point, tol: i64) -> (r: bool)
        requires
            self.wf(),
        ensures
            r == self.spec_is_point_on(*pt, tol),
    {
        match self {
            Line::Sloped { rise, run, offset } => {
                let scaled: i128 = self._evaluate_x(pt.x);
                proof {
                    lemma_mul_within(*run as int, pt.y as int, 0x1_0000_0000, 0x8000_0000);
                }
                let off: i128 = scaled - (*run as i128) * (pt.y as i128);
                let size: i128 = if off < 0 { -off } else { off };
                size < tol as i128
            },
            Line::Vertical { x } => {
                let off: i64 = pt.x as i64 - *x as i64;
                let size: i64 = if off < 0 { -off } else { off };
                size < tol
            },
        }
    }

    /// The side of the directed line `pt_from -> pt_to` on which `pt_test`
    /// lies, decided from one cross product without building the line.
    pub fn line_point_relation_fast(pt_from: &Point, pt_to: &Point, pt_test: &Point, tol: i64) -> (r:
        LinePointRelation)
        ensures
            r == Line::spec_relation(*pt_from, *pt_to, *pt_test, tol),
    {
        let fac: i128 = turn(pt_from, pt_to, pt_test);
        let size: i128 = if fac < 0 { -fac } else { fac };
        if size < tol as i128 {
            LinePointRelation::On
        } else {
            if fac < 0 {
                LinePointRelation::Right
            } else {
                LinePointRelation::Left
            }
        }
    }

    /// `run * y` of a sloped line at `x`.
    fn _evaluate_x(&self, x: i32) -> (r: i128)
        requires
            self.wf(),
        ensures
            r == self.spec_scaled_y(x as int),
            -0x3_0000_0000_0000_0000 <= r <= 0x3_0000_0000_0000_0000,
    {
        match self {
            Line::Sloped { rise, run, offset } => {
                proof {
                    lemma_mul_within(*rise as int, x as int, 0x1_0000_0000, 0x8000_0000);
                }
                (*rise as i128) * (x as i128) + *offset
            },
            Line::Vertical { x: _ } => 0,
        }
    }
}

} // verus!
