//! Displacements of the plane, and the angle from one to another.
use crate::arith::{floor_sqrt, integer_sqrt, lemma_mul_within, magnitude};
use crate::geometry::constants::VECTOR_LIMIT;
use crate::geometry::point::Point;
use vstd::prelude::*;

verus! {

/// A displacement, by its two components.
#[derive(Debug, Clone, Copy, PartialEq, Eq, Structural)]
pub struct Vector {
    pub x: i64,
    pub y: i64,
}

/// The signed angle from one vector to another, held exactly as the dot and
/// the cross product of the two: the angle is that of the direction
/// `(dot, cross)`, counted counter-clockwise from 0 up to a full turn.
/// Where one of the vectors is zero, both products are zero and the angle
/// counts as a quarter turn.
#[derive(Debug, Clone, Copy, PartialEq, Eq, Structural)]
pub struct Angle {
    pub dot: i128,
    pub cross: i128,
}

impl Angle {
    /// The angle is zero.
    pub open spec fn spec_is_zero(self) -> bool {
        self.cross == 0 && self.dot > 0
    }

    /// The angle is a quarter turn.
    pub open spec fn spec_is_quarter_turn(self) -> bool {
        self.dot == 0 && self.cross >= 0
    }

    /// The angle is a half turn.
    pub open spec fn spec_is_half_turn(self) -> bool {
        self.cross == 0 && self.dot < 0
    }

    /// The angle is larger than a half turn.
    pub open spec fn spec_is_reflex(self) -> bool {
        self.cross < 0
    }

    /// Whether the angle is zero.
    pub fn is_zero(&self) -> (r: bool)
        ensures
            r == self.spec_is_zero(),
    {
        self.cross == 0 && self.dot > 0
    }

    /// Whether the angle is a quarter turn.
    pub fn is_quarter_turn(&self) -> (r: bool)
        ensures
            r == self.spec_is_quarter_turn(),
    {
        self.dot == 0 && self.cross >= 0
    }

    /// Whether the angle is a half turn.
    pub fn is_half_turn(&self) -> (r: bool)
        ensures
            r == self.spec_is_half_turn(),
    {
        self.cross == 0 && self.dot < 0
    }

    /// Whether the angle is larger than a half turn.
    pub fn is_reflex(&self) -> (r: bool)
        ensures
            r == self.spec_is_reflex(),
    {
        self.cross < 0
    }
}

impl Vector {
    /// Both components are within `VECTOR_LIMIT`, so that products of two
    /// such vectors can be computed.
    pub open spec fn is_bounded(self) -> bool {
        -VECTOR_LIMIT <= self.x <= VECTOR_LIMIT && -VECTOR_LIMIT <= self.y <= VECTOR_LIMIT
    }

    /// The cross product `v0 x v1`.
    pub open spec fn spec_cross_product(v0: Vector, v1: Vector) -> int {
        v0.x * v1.y - v0.y * v1.x
    }

    /// The dot product.
    pub open spec fn spec_dot_product(self, other: Vector) -> int {
        self.x * other.x + self.y * other.y
    }

    /// The displacement from `from` to `to`.
    pub open spec fn spec_from_points(from: Point, to: Point) -> Vector {
        Vector { x: (to.x - from.x) as i64, y: (to.y - from.y) as i64 }
    }

    /// Both components differ by less than `tol`.
    pub open spec fn spec_epsilon_equals(self, other: Vector, tol: i64) -> bool {
        magnitude(self.x - other.x) < tol && magnitude(self.y - other.y) < tol
    }

    /// The signed angle from `self` to `other`.
    pub open spec fn spec_angle_to(self, other: Vector) -> Angle {
        Angle {
            dot: self.spec_dot_product(other) as i128,
            cross: Vector::spec_cross_product(self, other) as i128,
        }
    }

    /// The length, rounded down to a whole number.
    pub open spec fn spec_length(self) -> int {
        floor_sqrt(self.x * self.x + self.y * self.y)
    }

    /// The zero vector.
    pub fn new() -> (v: Vector)
        ensures
            v.x == 0,
            v.y == 0,
    {
        Vector { x: 0, y: 0 }
    }

    /// The vector with the given components.
    pub fn set_values(self, x: i64, y: i64) -> (v: Vector)
        ensures
            v.x == x,
            v.y == y,
    {
        Vector { x, y }
    }

    /// The displacement that carries `from` to `to`.
    pub fn new_from_points(from: &Point, to: &Point) -> (v: Vector)
        ensures
            v == Vector::spec_from_points(*from, *to),
            v.x == to.x - from.x,
            v.y == to.y - from.y,
            v.is_bounded(),
    {
        Vector { x: to.x as i64 - from.x as i64, y: to.y as i64 - from.y as i64 }
    }

    /// Whether both components of the two vectors differ by less than `tol`.
    pub fn epsilon_equals(&self, other: &Vector, tol: i64) -> (r: bool)
        ensures
            r == self.spec_epsilon_equals(*other, tol),
    {
        let dx: i128 = self.x as i128 - other.x as i128;
        let dy: i128 = self.y as i128 - other.y as i128;
        let ax: i128 = if dx < 0 { -dx } else { dx };
        let ay: i128 = if dy < 0 { -dy } else { dy };
        ax < tol as i128 && ay < tol as i128
    }

    /// The length of the vector, rounded down to a whole number.
    pub fn calculate_length(&self) -> (len: u64)
        requires
            self.is_bounded(),
        ensures
            len == self.spec_length(),
    {
        let x: i128 = self.x as i128;
        let y: i128 = self.y as i128;
        proof {
            lemma_mul_within(x as int, x as int, VECTOR_LIMIT as int, VECTOR_LIMIT as int);
            lemma_mul_within(y as int, y as int, VECTOR_LIMIT as int, VECTOR_LIMIT as int);
            assert(x * x >= 0) by (nonlinear_arith);
            assert(y * y >= 0) by (nonlinear_arith);
        }
        integer_sqrt((x * x + y * y) as u128)
    }

    /// The signed angle from `self` to `other`, counter-clockwise.
    pub fn angle_to(&self, other: &Vector) -> (a: Angle)
        requires
            self.is_bounded(),
            other.is_bounded(),
        ensures
            a == self.spec_angle_to(*other),
            a.dot == self.spec_dot_product(*other),
            a.cross == Vector::spec_cross_product(*self, *other),
    {
        Angle { dot: self.dot_product(other), cross: Vector::cross_product(self, other) }
    }

    /// The cross product `v0 x v1`: positive where `v1` points to the left of `v0`.
    pub fn cross_product(v0: &Vector, v1: &Vector) -> (r: i128)
        requires
            v0.is_bounded(),
            v1.is_bounded(),
        ensures
            r == Vector::spec_cross_product(*v0, *v1),
    {
        proof {
            lemma_mul_within(v0.x as int, v1.y as int, VECTOR_LIMIT as int, VECTOR_LIMIT as int);
            lemma_mul_within(v0.y as int, v1.x as int, VECTOR_LIMIT as int, VECTOR_LIMIT as int);
        }
        (v0.x as i128) * (v1.y as i128) - (v0.y as i128) * (v1.x as i128)
    }

    /// The dot product of the two vectors.
    pub fn dot_product(&self, other: &Vector) -> (r: i128)
        requires
            self.is_bounded(),
            other.is_bounded(),
        ensures
            r == self.spec_dot_product(*other),
    {
        proof {
            lemma_mul_within(self.x as int, other.x as int, VECTOR_LIMIT as int, VECTOR_LIMIT as int);
            lemma_mul_within(self.y as int, other.y as int, VECTOR_LIMIT as int, VECTOR_LIMIT as int);
        }
        (self.x as i128) * (other.x as i128) + (self.y as i128) * (other.y as i128)
    }
}

/// The angle from a vector to itself has no cross part and no negative dot
/// part: it is zero for every vector but the zero vector.
pub proof fn lemma_angle_to_self(v: Vector)
    requires
        v.is_bounded(),
    ensures
        Vector::spec_cross_product(v, v) == 0,
        v.spec_dot_product(v) >= 0,
        (v.x != 0 || v.y != 0) ==> v.spec_angle_to(v).spec_is_zero(),
{
    lemma_mul_within(v.x as int, v.y as int, VECTOR_LIMIT as int, VECTOR_LIMIT as int);
    lemma_mul_within(v.x as int, v.x as int, VECTOR_LIMIT as int, VECTOR_LIMIT as int);
    lemma_mul_within(v.y as int, v.y as int, VECTOR_LIMIT as int, VECTOR_LIMIT as int);
    assert(v.x * v.y - v.y * v.x == 0) by (nonlinear_arith);
    assert(v.x * v.x >= 0 && (v.x != 0 ==> v.x * v.x > 0)) by (nonlinear_arith);
    assert(v.y * v.y >= 0 && (v.y != 0 ==> v.y * v.y > 0)) by (nonlinear_arith);
}

/// The angle from a vector to its opposite is a half turn, for every vector
/// but the zero vector.
pub proof fn lemma_angle_to_opposite(v: Vector, w: Vector)
    requires
        v.is_bounded(),
        w.x == -v.x,
        w.y == -v.y,
        v.x != 0 || v.y != 0,
    ensures
        v.spec_angle_to(w).spec_is_half_turn(),
{
    lemma_mul_within(v.x as int, v.y as int, VECTOR_LIMIT as int, VECTOR_LIMIT as int);
    lemma_mul_within(v.x as int, v.x as int, VECTOR_LIMIT as int, VECTOR_LIMIT as int);
    lemma_mul_within(v.y as int, v.y as int, VECTOR_LIMIT as int, VECTOR_LIMIT as int);
    assert(v.x * (-v.y) - v.y * (-v.x) == 0) by (nonlinear_arith);
    assert(v.x * (-v.x) == -(v.x * v.x) && v.x * v.x >= 0 && (v.x != 0 ==> v.x * v.x > 0))
        by (nonlinear_arith);
    assert(v.y * (-v.y) == -(v.y * v.y) && v.y * v.y >= 0 && (v.y != 0 ==> v.y * v.y > 0))
        by (nonlinear_arith);
}

/// Swapping the two vectors mirrors the angle: the dot part stays and the
/// cross part changes its sign, so the order of the two matters.
pub proof fn lemma_angle_order_matters(a: Vector, b: Vector)
    requires
        a.is_bounded(),
        b.is_bounded(),
    ensures
        b.spec_angle_to(a).dot == a.spec_angle_to(b).dot,
        b.spec_angle_to(a).cross == -a.spec_angle_to(b).cross,
{
    lemma_mul_within(a.x as int, b.y as int, VECTOR_LIMIT as int, VECTOR_LIMIT as int);
    lemma_mul_within(a.y as int, b.x as int, VECTOR_LIMIT as int, VECTOR_LIMIT as int);
    lemma_mul_within(a.x as int, b.x as int, VECTOR_LIMIT as int, VECTOR_LIMIT as int);
    lemma_mul_within(a.y as int, b.y as int, VECTOR_LIMIT as int, VECTOR_LIMIT as int);
    assert(b.x * a.y - b.y * a.x == -(a.x * b.y - a.y * b.x)) by (nonlinear_arith);
    assert(b.x * a.x + b.y * a.y == a.x * b.x + a.y * b.y) by (nonlinear_arith);
}

} // verus!
