//! Bounded pieces of a line, from one point to another.
use crate::arith::{div_toward_zero, lemma_mul_within, quotient_toward_zero};
use crate::geometry::line::Line;
use crate::geometry::point::Point;
use crate::geometry::vector::{Angle, Vector};
use vstd::prelude::*;

verus! {

/// The segment from `from` to `to`, with its line and its direction.
#[derive(Debug, Clone, Copy, PartialEq, Eq, Structural)]
pub struct LineSegment {
    pub line: Line,
    pub from: Point,
    pub to: Point,
    pub direction: Vector,
}

/// `v` lies between `a` and `b`, whichever of the two is smaller.
pub open spec fn spec_between(a: int, v: int, b: int) -> bool {
    (a <= v && v <= b) || (a >= v && v >= b)
}

/// A fraction of a length is no longer than the length, and points the same way.
pub proof fn lemma_fraction_within(num: int, den: int, d: int)
    requires
        0 <= num <= den,
        0 < den,
    ensures
        d >= 0 ==> 0 <= quotient_toward_zero(num * d, den) <= d,
        d <= 0 ==> d <= quotient_toward_zero(num * d, den) <= 0,
{
    if d >= 0 {
        assert(0 <= num * d <= den * d) by (nonlinear_arith)
            requires
                0 <= num <= den,
                d >= 0,
        ;
        vstd::arithmetic::div_mod::lemma_div_is_ordered(num * d, den * d, den);
        vstd::arithmetic::div_mod::lemma_div_multiples_vanish(d, den);
        vstd::arithmetic::div_mod::lemma_div_pos_is_pos(num * d, den);
    } else {
        let e = -d;
        assert(num * d == -(num * e)) by (nonlinear_arith)
            requires
                e == -d,
        ;
        assert(0 <= num * e <= den * e) by (nonlinear_arith)
            requires
                0 <= num <= den,
                e >= 0,
        ;
        vstd::arithmetic::div_mod::lemma_div_is_ordered(num * e, den * e, den);
        vstd::arithmetic::div_mod::lemma_div_multiples_vanish(e, den);
        vstd::arithmetic::div_mod::lemma_div_pos_is_pos(num * e, den);
    }
}

impl LineSegment {
    /// The segment between two points.
    pub open spec fn spec_new(pt0: Point, pt1: Point) -> LineSegment {
        LineSegment {
            line: Line::spec_from_points(pt0, pt1),
            from: pt0,
            to: pt1,
            direction: Vector::spec_from_points(pt0, pt1),
        }
    }

    /// The line and the direction are those of the two end points.
    pub open spec fn wf(self) -> bool {
        self == LineSegment::spec_new(self.from, self.to)
    }

    /// The point is on the segment: collinear with its ends within `tol`,
    /// and inside its range in `x`, or in `y` where the segment is vertical.
    pub open spec fn spec_is_point_on(self, pt: Point, tol: i64) -> bool {
        Point::spec_are_colinear(self.from, self.to, pt, tol) && if self.from.x == self.to.x {
            spec_between(self.from.y as int, pt.y as int, self.to.y as int)
        } else {
            spec_between(self.from.x as int, pt.x as int, self.to.x as int)
        }
    }

    /// `(x1 - x2)(y3 - y4) - (y1 - y2)(x3 - x4)`: zero where the two
    /// segments are parallel.
    pub open spec fn spec_denominator(self, other: LineSegment) -> int {
        (self.from.x - self.to.x) * (other.from.y - other.to.y) - (self.from.y - self.to.y) * (
        other.from.x - other.to.x)
    }

    /// The point at the fraction `num / den` of the way from `from` to `to`,
    /// each coordinate's step rounded toward zero.
    pub open spec fn spec_point_at(self, num: int, den: int) -> Point {
        Point {
            x: (self.from.x + quotient_toward_zero(num * (self.to.x - self.from.x), den)) as i32,
            y: (self.from.y + quotient_toward_zero(num * (self.to.y - self.from.y), den)) as i32,
        }
    }

    /// Each end of `self` coincides with an end of `other`, within `tol`.
    pub open spec fn spec_is_from_to_coincident(self, other: LineSegment, tol: i64) -> bool {
        (self.from.spec_epsilon_equals(other.from, tol) || self.from.spec_epsilon_equals(
            other.to,
            tol,
        )) && (self.to.spec_epsilon_equals(other.from, tol) || self.to.spec_epsilon_equals(
            other.to,
            tol,
        ))
    }

    /// The segment can be shifted so that it starts at `pt` without its end
    /// leaving the plane.
    pub open spec fn can_move_to(self, pt: Point) -> bool {
        i32::MIN <= self.to.x + (pt.x - self.from.x) <= i32::MAX && i32::MIN <= self.to.y + (pt.y
            - self.from.y) <= i32::MAX
    }

    /// The segment shifted so that it starts at `pt`.
    pub open spec fn spec_moved_to(self, pt: Point) -> LineSegment {
        LineSegment::spec_new(
            pt,
            Point {
                x: (self.to.x + (pt.x - self.from.x)) as i32,
                y: (self.to.y + (pt.y - self.from.y)) as i32,
            },
        )
    }

    /// The segment from `pt0` to `pt1`.
    pub fn new_from_points(pt0: &Point, pt1: &Point) -> (s: LineSegment)
        ensures
            s == LineSegment::spec_new(*pt0, *pt1),
            s.wf(),
            s.line.wf(),
            s.direction.is_bounded(),
    {
        LineSegment {
            line: Line::new_from_points(pt0, pt1),
            from: *pt0,
            to: *pt1,
            direction: Vector::new_from_points(pt0, pt1),
        }
    }

    /// The displacement from the start of the segment to its end.
    pub fn calculate_direction(&self) -> (v: Vector)
        ensures
            v == Vector::spec_from_points(self.from, self.to),
            v.is_bounded(),
    {
        Vector::new_from_points(&self.from, &self.to)
    }

    /// The length of the segment, rounded down to a whole number.
    pub fn calculate_length(&self) -> (len: u64)
        ensures
            len == self.from.spec_distance(self.to),
    {
        self.from.distance_to(&self.to)
    }

    /// The signed angle from the direction of `self` to that of `other`.
    pub fn angle_to(&self, other: &LineSegment) -> (a: Angle)
        requires
            self.direction.is_bounded(),
            other.direction.is_bounded(),
        ensures
            a == self.direction.spec_angle_to(other.direction),
    {
        self.direction.angle_to(&other.direction)
    }

    /// Whether the point is on the segment, within `tol`.
    pub fn is_point_on(&self, pt: &Point, tol: i64) -> (r: bool)
        ensures
            r == self.spec_is_point_on(*pt, tol),
    {
        if Point::are_colinear(&self.from, &self.to, pt, tol) {
            if self.from.x == self.to.x {
                (self.from.y <= pt.y && pt.y <= self.to.y) || (self.from.y >= pt.y && pt.y
                    >= self.to.y)
            } else {
                (self.from.x <= pt.x && pt.x <= self.to.x) || (self.from.x >= pt.x && pt.x
                    >= self.to.x)
            }
        } else {
            false
        }
    }

    /// The denominator of the intersection formula of two segments.
    pub fn denominator_with_other(&self, other: &LineSegment) -> (d: i128)
        ensures
            d == self.spec_denominator(*other),
            -0x2_0000_0000_0000_0000 <= d <= 0x2_0000_0000_0000_0000,
    {
        let ax: i128 = self.from.x as i128 - self.to.x as i128;
        let ay: i128 = self.from.y as i128 - self.to.y as i128;
        let bx: i128 = other.from.x as i128 - other.to.x as i128;
        let by: i128 = other.from.y as i128 - other.to.y as i128;
        proof {
            lemma_mul_within(ax as int, by as int, 0x1_0000_0000, 0x1_0000_0000);
            lemma_mul_within(ay as int, bx as int, 0x1_0000_0000, 0x1_0000_0000);
        }
        ax * by - ay * bx
    }

    /// The point at the fraction `num / den` of the way along the segment.
    /// The fraction lies between 0 and 1.
    pub fn point_at_normalized_parameter(&self, num: i128, den: i128) -> (p: Point)
        requires
            0 <= num <= den,
            0 < den <= 0x4000_0000_0000_0000_0000_0000,
        ensures
            p == self.spec_point_at(num as int, den as int),
            p.x == self.from.x + quotient_toward_zero(num * (self.to.x - self.from.x), den as int),
            p.y == self.from.y + quotient_toward_zero(num * (self.to.y - self.from.y), den as int),
            spec_between(self.from.x as int, p.x as int, self.to.x as int),
            spec_between(self.from.y as int, p.y as int, self.to.y as int),
    {
        let dx: i128 = self.to.x as i128 - self.from.x as i128;
        let dy: i128 = self.to.y as i128 - self.from.y as i128;
        proof {
            lemma_mul_within(num as int, dx as int, 0x4000_0000_0000_0000_0000_0000, 0x1_0000_0000);
            lemma_mul_within(num as int, dy as int, 0x4000_0000_0000_0000_0000_0000, 0x1_0000_0000);
            lemma_fraction_within(num as int, den as int, dx as int);
            lemma_fraction_within(num as int, den as int, dy as int);
        }
        let sx: i128 = div_toward_zero(num * dx, den);
        let sy: i128 = div_toward_zero(num * dy, den);
        Point { x: (self.from.x as i128 + sx) as i32, y: (self.from.y as i128 + sy) as i32 }
    }

    /// Whether the two segments join the same two points, in either order.
    pub fn is_from_to_coincident(&self, other: &LineSegment, tol: i64) -> (r: bool)
        ensures
            r == self.spec_is_from_to_coincident(*other, tol),
    {
        (self.from.epsilon_equals(&other.from, tol) || self.from.epsilon_equals(&other.to, tol))
            && (self.to.epsilon_equals(&other.from, tol) || self.to.epsilon_equals(
            &other.to,
            tol,
        ))
    }

    /// Shifts the segment so that it starts at `pt`.
    pub fn move_to_point(&mut self, pt: &Point)
        requires
            old(self).can_move_to(*pt),
        ensures
            *final(self) == old(self).spec_moved_to(*pt),
            final(self).wf(),
    {
        let v_move: Vector = Vector::new_from_points(&self.from, pt);
        let from: Point = self.from.copy_along_vector(&v_move);
        let to: Point = self.to.copy_along_vector(&v_move);
        *self = LineSegment::new_from_points(&from, &to);
    }

    /// A copy of the segment that starts at `pt`.
    pub fn copy_to_point(self, pt: &Point) -> (s: LineSegment)
        requires
            self.can_move_to(*pt),
        ensures
            s == self.spec_moved_to(*pt),
            s.from == *pt,
            s.wf(),
    {
        let v_move: Vector = Vector::new_from_points(&self.from, pt);
        LineSegment::new_from_points(
            &self.from.copy_along_vector(&v_move),
            &self.to.copy_along_vector(&v_move),
        )
    }
}

} // verus!
