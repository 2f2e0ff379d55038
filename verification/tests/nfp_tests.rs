use rust_nfp::calculate_convex_nfp;
use rust_nfp::geometry::{LineSegment, Point, Polygon, Vector};
use rust_nfp::nfp::{angle_below, sort_by_angle, walk_edges};

/// Lattice units per unit of length.
const SCALE: f64 = 1000.0;

fn pt(x: f64, y: f64) -> Point {
    Point::new().set_values((x * SCALE) as i32, (y * SCALE) as i32)
}

#[test]
fn test_nfp_of_square_and_triangle() {
    let square = Polygon::square(2000);
    let tri = Polygon::from_points(&vec![Point::new(), pt(2.0, 2.0), pt(-2.0, 2.0)]);

    let nfp = calculate_convex_nfp(&square, tri).unwrap();

    assert_eq!(nfp.points.len(), 7);
    assert!(nfp.is_convex());
    assert_eq!(
        nfp.points,
        vec![
            pt(-2.0, 2.0),
            pt(2.0, 2.0),
            pt(4.0, 2.0),
            pt(4.0, 4.0),
            pt(2.0, 6.0),
            pt(0.0, 6.0),
            pt(-2.0, 4.0)
        ]
    );
}

#[test]
fn test_nfp_leaving_the_plane() {
    let big = i32::MAX;
    let first = Polygon::from_points(&vec![
        Point::new().set_values(0, 0),
        Point::new().set_values(big, 0),
        Point::new().set_values(big, big),
    ]);
    let other = Polygon::from_points(&vec![
        Point::new().set_values(0, 0),
        Point::new().set_values(big, 0),
        Point::new().set_values(big, big),
    ]);
    assert!(calculate_convex_nfp(&first, other).is_none());
}

#[test]
fn test_angle_below() {
    let right = Vector::new().set_values(1, 0);
    let up = Vector::new().set_values(0, 3);
    let left = Vector::new().set_values(-2, 0);
    let down = Vector::new().set_values(0, -1);
    assert!(angle_below(&right, &up));
    assert!(angle_below(&up, &left));
    assert!(angle_below(&left, &down));
    assert!(angle_below(&right, &down));
    assert!(!angle_below(&down, &right));
    assert!(!angle_below(&up, &up));
    assert!(!angle_below(&left, &up));
    // the zero vector counts as straight up
    assert!(angle_below(&right, &Vector::new()));
    assert!(!angle_below(&up, &Vector::new()));
    assert!(angle_below(&Vector::new(), &left));
}

#[test]
fn test_sort_by_angle_is_stable() {
    let o = Point::new();
    let right_a = LineSegment::new_from_points(&o, &Point::new().set_values(1, 0));
    let right_b = LineSegment::new_from_points(&o, &Point::new().set_values(5, 0));
    let up = LineSegment::new_from_points(&o, &Point::new().set_values(0, 2));
    let down = LineSegment::new_from_points(&o, &Point::new().set_values(0, -2));
    let sorted = sort_by_angle(&vec![right_a, up, down, right_b]);
    assert_eq!(sorted, vec![down, up, right_a, right_b]);
}

#[test]
fn test_walk_edges() {
    let a = LineSegment::new_from_points(&Point::new().set_values(1, 1), &Point::new().set_values(3, 1));
    let b = LineSegment::new_from_points(&Point::new().set_values(10, 10), &Point::new().set_values(10, 12));
    let c = LineSegment::new_from_points(&Point::new().set_values(-5, 0), &Point::new().set_values(-7, -2));
    let chain = walk_edges(&vec![a, b, c]).unwrap();
    assert_eq!(chain[0], a);
    assert_eq!(
        chain[1],
        LineSegment::new_from_points(&Point::new().set_values(3, 1), &Point::new().set_values(3, 3))
    );
    assert_eq!(
        chain[2],
        LineSegment::new_from_points(&Point::new().set_values(3, 3), &Point::new().set_values(1, 1))
    );
    let far = LineSegment::new_from_points(&Point::new(), &Point::new().set_values(i32::MAX, 0));
    assert!(walk_edges(&vec![far, far]).is_none());
}

#[test]
fn test_nfp_is_convex_and_closed() {
    let first = Polygon::from_points(&vec![pt(0.0, 0.0), pt(3.0, 0.0), pt(4.0, 2.0), pt(1.0, 3.0)]);
    let other = Polygon::from_points(&vec![pt(0.0, 0.0), pt(1.0, 0.0), pt(1.0, 1.0), pt(0.5, 2.0), pt(0.0, 1.0)]);
    let edges = first.points.len() + other.points.len();
    let nfp = calculate_convex_nfp(&first, other).unwrap();
    assert_eq!(nfp.points.len(), edges);
    assert!(nfp.is_convex());
    assert_eq!(
        nfp.points,
        vec![
            pt(0.0, 0.0),
            pt(3.0, 0.0),
            pt(3.5, 1.0),
            pt(4.5, 3.0),
            pt(4.5, 4.0),
            pt(1.5, 5.0),
            pt(0.5, 5.0),
            pt(-0.5, 2.0),
            pt(-0.5, 1.0)
        ]
    );
    assert_eq!(nfp.signed_doubled_area(), 39_000_000);
}

#[test]
fn test_nfp_of_a_concave_ring_is_convex() {
    let first = Polygon::from_points(&vec![
        Point::new(),
        pt(2.0, 0.0),
        pt(1.0, 2.0),
        pt(2.0, 4.0),
        pt(0.0, 4.0),
    ]);
    assert!(first.is_concave());
    let other = Polygon::square(2000);
    let nfp = calculate_convex_nfp(&first, other).unwrap();
    assert_eq!(nfp.points.len(), 9);
    assert!(nfp.is_convex());
}

#[test]
fn test_sort_by_angle_descends() {
    let poly = Polygon::from_points(&vec![pt(0.0, 0.0), pt(3.0, 0.0), pt(4.0, 2.0), pt(1.0, 3.0)]);
    let edges = poly.calculate_edges();
    let sorted = sort_by_angle(&edges);
    assert_eq!(sorted.len(), edges.len());
    for i in 1..sorted.len() {
        assert!(!angle_below(&sorted[i - 1].direction, &sorted[i].direction));
    }
    for edge in edges.iter() {
        assert!(sorted.contains(edge));
    }
    assert_eq!(sorted, vec![edges[3], edges[2], edges[1], edges[0]]);
}
