//! Points of the plane.
use crate::arith::{floor_sqrt, integer_sqrt, lemma_mul_within, magnitude};
use crate::geometry::vector::Vector;
use vstd::prelude::*;

verus! {

/// A point of the plane, by its two coordinates.
#[derive(Debug, Clone, Copy, PartialEq, Eq, Structural)]
pub struct Point {
    pub x: i32,
    pub y: i32,
}

/// The cross product of the displacements `a -> b` and `a -> c`: positive
/// where `c` lies left of the directed line through `a` and `b`.
pub open spec fn spec_turn(a: Point, b: Point, c: Point) -> int {
    (b.x - a.x) * (c.y - a.y) - (c.x - a.x) * (b.y - a.y)
}

/// Computes `spec_turn`.
pub fn turn(a: &Point, b: &Point, c: &Point) -> (r: i128)
    ensures
        r == spec_turn(*a, *b, *c),
        -0x2_0000_0000_0000_0000 <= r <= 0x2_0000_0000_0000_0000,
{
    let bx: i128 = b.x as i128 - a.x as i128;
    let by: i128 = b.y as i128 - a.y as i128;
    let cx: i128 = c.x as i128 - a.x as i128;
    let cy: i128 = c.y as i128 - a.y as i128;
    proof {
        lemma_mul_within(bx as int, cy as int, 0x1_0000_0000, 0x1_0000_0000);
        lemma_mul_within(cx as int, by as int, 0x1_0000_0000, 0x1_0000_0000);
    }
    bx * cy - cx * by
}

impl Point {
    /// The squared distance between two points.
    pub open spec fn spec_distance_squared(self, other: Point) -> int {
        (other.x - self.x) * (other.x - self.x) + (other.y - self.y) * (other.y - self.y)
    }

    /// The distance between two points, rounded down to a whole number.
    pub open spec fn spec_distance(self, other: Point) -> int {
        floor_sqrt(self.spec_distance_squared(other))
    }

    /// Both coordinates differ by less than `tol`.
    pub open spec fn spec_epsilon_equals(self, other: Point, tol: i64) -> bool {
        magnitude(self.x - other.x) < tol && magnitude(self.y - other.y) < tol
    }

    /// The three points lie on one line, within `tol`.
    pub open spec fn spec_are_colinear(pt0: Point, pt1: Point, pt2: Point, tol: i64) -> bool {
        magnitude(spec_turn(pt0, pt1, pt2)) < tol
    }

    /// The vector `v` carries this point to a point of the plane.
    pub open spec fn can_move_along(self, v: Vector) -> bool {
        i32::MIN <= self.x + v.x <= i32::MAX && i32::MIN <= self.y + v.y <= i32::MAX
    }

    /// The origin.
    pub fn new() -> (p: Point)
        ensures
            p.x == 0,
            p.y == 0,
    {
        Point { x: 0, y: 0 }
    }

    /// The point with the given coordinates.
    pub fn set_values(self, x: i32, y: i32) -> (p: Point)
        ensures
            p.x == x,
            p.y == y,
    {
        Point { x, y }
    }

    /// The distance to `other`, rounded down to a whole number.
    pub fn distance_to(&self, other: &Point) -> (d: u64)
        ensures
            d == self.spec_distance(*other),
    {
        let squared: i128 = self.distance_to_squared(other);
        integer_sqrt(squared as u128)
    }

    /// The squared distance to `other`.
    pub fn distance_to_squared(&self, other: &Point) -> (d: i128)
        ensures
            d == self.spec_distance_squared(*other),
            0 <= d <= 0x2_0000_0000_0000_0000,
    {
        let dx: i128 = other.x as i128 - self.x as i128;
        let dy: i128 = other.y as i128 - self.y as i128;
        proof {
            lemma_mul_within(dx as int, dx as int, 0x1_0000_0000, 0x1_0000_0000);
            lemma_mul_within(dy as int, dy as int, 0x1_0000_0000, 0x1_0000_0000);
            assert(dx * dx >= 0) by (nonlinear_arith);
            assert(dy * dy >= 0) by (nonlinear_arith);
        }
        dx * dx + dy * dy
    }

    /// Whether both coordinates of the two points differ by less than `tol`.
    pub fn epsilon_equals(&self, other: &Point, tol: i64) -> (r: bool)
        ensures
            r == self.spec_epsilon_equals(*other, tol),
    {
        let dx: i64 = self.x as i64 - other.x as i64;
        let dy: i64 = self.y as i64 - other.y as i64;
        let ax: i64 = if dx < 0 { -dx } else { dx };
        let ay: i64 = if dy < 0 { -dy } else { dy };
        ax < tol && ay < tol
    }

    /// Whether the three points lie on one line: the cross product of
    /// `pt0 -> pt1` and `pt0 -> pt2` is smaller than `tol` in magnitude.
    pub fn are_colinear(pt0: &Point, pt1: &Point, pt2: &Point, tol: i64) -> (r: bool)
        ensures
            r == Point::spec_are_colinear(*pt0, *pt1, *pt2, tol),
    {
        let cross: i128 = turn(pt0, pt1, pt2);
        let size: i128 = if cross < 0 { -cross } else { cross };
        size < tol as i128
    }

    /// The point that `v` carries this one to.
    pub fn copy_along_vector(&self, v: &Vector) -> (p: Point)
        requires
            self.can_move_along(*v),
        ensures
            p.x == self.x + v.x,
            p.y == self.y + v.y,
    {
        Point { x: (self.x as i64 + v.x) as i32, y: (self.y as i64 + v.y) as i32 }
    }
}

/// The distance of a point to itself is zero.
pub proof fn lemma_distance_to_self(p: Point)
    ensures
        p.spec_distance_squared(p) == 0,
        p.spec_distance(p) == 0,
{
    crate::arith::lemma_floor_sqrt_is(0, 0);
}

/// The distance does not depend on the order of the two points.
pub proof fn lemma_distance_symmetric(a: Point, b: Point)
    ensures
        a.spec_distance_squared(b) == b.spec_distance_squared(a),
        a.spec_distance(b) == b.spec_distance(a),
{
    let dx = b.x - a.x;
    let dy = b.y - a.y;
    assert(dx * dx == (-dx) * (-dx)) by (nonlinear_arith);
    assert(dy * dy == (-dy) * (-dy)) by (nonlinear_arith);
    assert(a.x - b.x == -dx);
    assert(a.y - b.y == -dy);
}

} // verus!
