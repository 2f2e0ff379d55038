//! A planar geometry kernel on the integer lattice: tolerance-based
//! predicates on points, lines and segments, the intersection of segments
//! and of polygons, the decomposition of a polygon into triangles, the
//! merge of two convex polygons along a shared edge, and the no-fit polygon
//! of two convex polygons.
//!
//! Coordinates are whole numbers of a unit that the caller chooses, such as
//! a thousandth of a millimetre. Every predicate (parallel, collinear, left
//! of, within a tolerance) is decided on whole numbers: a tolerance bounds
//! the magnitude of a difference of coordinates or of a cross product, and
//! slopes are compared by cross-multiplying. Products of coordinates are
//! carried in `i128`, which holds every cross product, dot product and
//! shoelace sum that the coordinate range can give. Where a result is not a
//! lattice point (a crossing, a point at a fraction of a segment, half an
//! area, a length), it is rounded toward zero, and the contract says so.
//! An angle is held as a dot and a cross product, from which every
//! comparison of angles is decided without rounding.
//!
//! Each function states what it returns over the `spec_` functions beside
//! it; the `lemma_` functions state what holds of several of them together.
pub mod arith;
pub mod convexity;
pub mod geometry;
pub mod nfp;

pub use nfp::calculate_convex_nfp;
