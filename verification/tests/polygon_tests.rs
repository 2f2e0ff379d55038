use rust_nfp::geometry::constants::ZERO_TOLERANCE;
use rust_nfp::geometry::{Angle, LineSegment, Point, Polygon, PolygonEdgeRelation, PolygonMergeResult};
use std::f64::consts::PI;

/// Lattice units per unit of length.
const SCALE: f64 = 1000.0;

fn pt(x: f64, y: f64) -> Point {
    Point::new().set_values((x * SCALE) as i32, (y * SCALE) as i32)
}

fn square(len: f64) -> Polygon {
    Polygon::square((len * SCALE) as i32)
}

fn area(poly: &Polygon) -> f64 {
    poly.calculate_area() as f64 / (SCALE * SCALE)
}

fn radians(angle: &Angle) -> f64 {
    let len = ((angle.dot as f64) * (angle.dot as f64) + (angle.cross as f64) * (angle.cross as f64)).sqrt();
    let unsigned = if len == 0.0 { PI / 2.0 } else { (angle.dot as f64 / len).acos() };
    if angle.cross < 0 {
        2.0 * PI - unsigned
    } else {
        unsigned
    }
}

#[test]
fn test_area_square() {
    let poly = square(4.0);
    assert_eq!(area(&poly), 16.0);
}

#[test]
fn test_area_any() {
    let poly = Polygon::from_points(&vec![pt(2.0, 2.0), pt(11.0, 2.0), pt(14.0, 9.0), pt(4.0, 10.0)]);
    assert_eq!(area(&poly), 72.5);
}

#[test]
fn test_area_ignores_orientation() {
    let mut poly = Polygon::from_points(&vec![pt(2.0, 2.0), pt(11.0, 2.0), pt(14.0, 9.0), pt(4.0, 10.0)]);
    assert_eq!(poly.signed_doubled_area(), 145_000_000);
    poly.reverse_orientation();
    assert_eq!(poly.signed_doubled_area(), -145_000_000);
    assert_eq!(area(&poly), 72.5);
}

#[test]
fn test_area_rounds_down() {
    let poly = Polygon::from_points(&vec![
        Point::new(),
        Point::new().set_values(1, 0),
        Point::new().set_values(0, 1),
    ]);
    assert_eq!(poly.signed_doubled_area(), 1);
    assert_eq!(poly.calculate_area(), 0);
}

#[test]
fn test_point_on() {
    let poly = square(2.0);
    let pt_test = pt(1.0, 1.0);
    assert!(poly.is_point_on(&pt_test, ZERO_TOLERANCE));
    assert!(!poly.is_point_on(&pt(0.0, 0.0), ZERO_TOLERANCE));
    assert!(poly.is_point_on(&pt(1.0, 0.5), ZERO_TOLERANCE));
}

#[test]
fn test_edges_consistent() {
    let pt0 = Point::new();
    let pt1 = pt(1.0, 1.0);
    let pt2 = pt(-1.0, 1.0);
    let e1 = LineSegment::new_from_points(&pt0, &pt1);
    let e2 = LineSegment::new_from_points(&pt1, &pt2);
    let e3 = LineSegment::new_from_points(&pt2, &pt0);
    let poly = Polygon::from_points(&vec![pt0, pt1, pt2]);

    let edges = poly.calculate_edges();

    assert_eq!(edges, vec![e1, e2, e3]);
    assert_eq!(poly.calculate_single_edge(2), e3);
}

#[test]
fn test_from_edges_rebuilds_polygon() {
    let poly = square(2.0);
    let edges = poly.calculate_edges();
    let rebuilt = Polygon::from_edges(&edges);
    assert_eq!(rebuilt.points, poly.points);
    assert!(rebuilt.epsilon_equals(&poly, ZERO_TOLERANCE));
}

#[test]
fn test_epsilon_equals_close_squares() {
    let poly = square(2.0);
    let other = square(2.004);
    assert!(poly.epsilon_equals(&other, 5));
    assert!(!poly.epsilon_equals(&other, 2));
    assert!(!poly.epsilon_equals(&square(3.0), 5));
}

#[test]
fn test_angles_consistent() {
    let poly = square(2.0);
    let angles = poly.calculate_angles();
    assert_eq!(angles.len(), 4);
    for angle in angles.iter() {
        assert_eq!(radians(angle), PI / 2.0);
        assert!(angle.is_quarter_turn());
    }
}

#[test]
fn test_convex() {
    let poly = square(2.0);
    assert!(poly.is_convex());
    assert!(!poly.is_concave());
}

#[test]
fn test_concave() {
    let poly = Polygon::from_points(&vec![
        Point::new(),
        pt(2.0, 0.0),
        pt(1.0, 2.0),
        pt(2.0, 4.0),
        pt(0.0, 4.0),
    ]);
    assert!(poly.is_concave());
    assert!(!poly.is_convex());
}

#[test]
fn test_triangle_is_convex() {
    let poly = Polygon::from_points(&vec![Point::new(), pt(2.0, 0.0), pt(0.0, 2.0)]);
    assert!(poly.is_convex());
}

#[test]
fn test_triangulation() {
    let poly = Polygon::from_points(&vec![
        Point::new(),
        pt(2.0, 0.0),
        pt(1.5, 1.0),
        pt(2.0, 2.0),
        pt(0.0, 2.0),
    ]);

    let triangulated = poly.triangulate(ZERO_TOLERANCE).unwrap();

    println!("Triangulated: {:?}", triangulated);
    assert_eq!(triangulated.len(), 3);
    let mut sum = 0;
    for tri in triangulated.iter() {
        assert_eq!(tri.points.len(), 3);
        sum += tri.calculate_area();
    }
    assert_eq!(sum, poly.calculate_area());
}

#[test]
fn test_triangulation_order() {
    let poly = Polygon::from_points(&vec![
        Point::new(),
        pt(2.0, 0.0),
        pt(1.5, 1.0),
        pt(2.0, 2.0),
        pt(0.0, 2.0),
    ]);
    // corner 2 turns right and cannot be cut off; corners 1 and 3 have the
    // shortest diagonals that nothing crosses, and corner 1 comes first
    assert!(poly.is_partition_candidate(0, ZERO_TOLERANCE));
    assert!(poly.is_partition_candidate(1, ZERO_TOLERANCE));
    assert!(!poly.is_partition_candidate(2, ZERO_TOLERANCE));
    assert_eq!(poly.find_partition(ZERO_TOLERANCE), Some(1));
    let triangulated = poly.triangulate(ZERO_TOLERANCE).unwrap();
    assert_eq!(triangulated[0].points, vec![Point::new(), pt(2.0, 0.0), pt(1.5, 1.0)]);
}

#[test]
fn test_triangulation_of_triangle() {
    let poly = Polygon::from_points(&vec![Point::new(), pt(2.0, 0.0), pt(0.0, 2.0)]);
    let triangulated = poly.triangulate(ZERO_TOLERANCE).unwrap();
    assert_eq!(triangulated.len(), 1);
    assert_eq!(triangulated[0].points, poly.points);
}

#[test]
fn test_triangulation_without_candidate() {
    // a ring that winds clockwise turns right at every corner
    let mut poly = square(2.0);
    poly.reverse_orientation();
    assert_eq!(poly.find_partition(ZERO_TOLERANCE), None);
    assert!(poly.triangulate(ZERO_TOLERANCE).is_none());
}

#[test]
fn test_merge() {
    let poly = square(2.0);
    let tris = poly.triangulate(ZERO_TOLERANCE).unwrap();

    match Polygon::merge_convex_polygon(&tris[0], &tris[1], ZERO_TOLERANCE) {
        PolygonMergeResult::NoMerge => panic!("Not merged!"),
        PolygonMergeResult::Merged(m) => assert_eq!(m.points.len(), 4),
    }
}

#[test]
fn test_merge_gives_the_square_back() {
    let poly = square(2.0);
    let tris = poly.triangulate(ZERO_TOLERANCE).unwrap();
    assert_eq!(tris.len(), 2);
    match Polygon::merge_convex_polygon(&tris[0], &tris[1], ZERO_TOLERANCE) {
        PolygonMergeResult::NoMerge => panic!("Not merged!"),
        PolygonMergeResult::Merged(m) => {
            assert!(m.is_convex());
            assert_eq!(m.calculate_area(), poly.calculate_area());
            // the same ring, starting one corner earlier
            assert_eq!(m.points, vec![pt(-1.0, 1.0), pt(-1.0, -1.0), pt(1.0, -1.0), pt(1.0, 1.0)]);
        },
    }
}

#[test]
fn test_merge_in_the_middle() {
    let first = Polygon::from_points(&vec![pt(0.0, 0.0), pt(2.0, 0.0), pt(0.0, 2.0)]);
    let other = Polygon::from_points(&vec![pt(2.0, 0.0), pt(2.0, 2.0), pt(0.0, 2.0)]);
    match Polygon::merge_convex_polygon(&first, &other, ZERO_TOLERANCE) {
        PolygonMergeResult::NoMerge => panic!("Not merged!"),
        PolygonMergeResult::Merged(m) => {
            assert_eq!(m.points, vec![pt(0.0, 0.0), pt(2.0, 0.0), pt(2.0, 2.0), pt(0.0, 2.0)]);
        },
    }
}

#[test]
fn test_no_merge_without_shared_edge() {
    let first = Polygon::from_points(&vec![pt(0.0, 0.0), pt(2.0, 0.0), pt(0.0, 2.0)]);
    let other = Polygon::from_points(&vec![pt(5.0, 0.0), pt(7.0, 0.0), pt(5.0, 2.0)]);
    assert!(matches!(
        Polygon::merge_convex_polygon(&first, &other, ZERO_TOLERANCE),
        PolygonMergeResult::NoMerge
    ));
}

#[test]
fn test_no_merge_when_join_is_straight() {
    // the union is the triangle (0,0), (4,0), (0,4): its corner at (2,2) is flat
    let first = Polygon::from_points(&vec![pt(0.0, 0.0), pt(2.0, 2.0), pt(0.0, 4.0)]);
    let other = Polygon::from_points(&vec![pt(0.0, 0.0), pt(4.0, 0.0), pt(2.0, 2.0)]);
    assert!(matches!(
        Polygon::merge_convex_polygon(&first, &other, ZERO_TOLERANCE),
        PolygonMergeResult::NoMerge
    ));
}

#[test]
fn test_shares_an_edge() {
    let sq = square(2.0);
    let tri = Polygon::from_points(&vec![pt(1.0, -1.0), pt(2.0, 0.0), pt(1.0, 1.0)]);
    match sq.shares_an_edge(&tri, ZERO_TOLERANCE) {
        PolygonEdgeRelation::NoSharedEdge => panic!("No edge relation found!"),
        PolygonEdgeRelation::Shared(s, o) => {
            assert_eq!(s, 1);
            assert_eq!(o, 2);
        },
    };
    assert_eq!(sq.shares_an_edge(&square(4.0), ZERO_TOLERANCE), PolygonEdgeRelation::NoSharedEdge);
}

#[test]
fn test_corner_indices() {
    let sq = square(2.0);
    assert_eq!(sq.corner_index(&pt(1.0, 1.0), ZERO_TOLERANCE), Ok(2));
    assert_eq!(sq.corner_index(&pt(0.0, 0.0), ZERO_TOLERANCE), Err(()));
    assert_eq!(sq.prev_corner_before_edge(0), 3);
    assert_eq!(sq.prev_corner_before_edge(2), 1);
    assert_eq!(sq.next_corner_after_edge(0), 2);
    assert_eq!(sq.next_corner_after_edge(3), 1);
    assert_eq!(sq.edge_from_to(3), (3, 0));
    assert_eq!(sq.edge_from_to(1), (1, 2));
}

#[test]
fn test_corners_without_edge() {
    let sq = square(2.0);
    assert_eq!(sq.corners_without_edge(0), vec![pt(1.0, 1.0), pt(-1.0, 1.0)]);
    assert_eq!(sq.corners_without_edge(3), vec![pt(1.0, -1.0), pt(1.0, 1.0)]);
    let tri = Polygon::from_points(&vec![pt(1.0, -1.0), pt(2.0, 0.0), pt(1.0, 1.0)]);
    assert_eq!(tri.corners_without_edge(2), vec![pt(2.0, 0.0)]);
}

#[test]
fn test_square_corners() {
    assert_eq!(
        Polygon::square(4).points,
        vec![
            Point::new().set_values(-2, -2),
            Point::new().set_values(2, -2),
            Point::new().set_values(2, 2),
            Point::new().set_values(-2, 2)
        ]
    );
    // half an odd side is rounded toward zero
    assert_eq!(Polygon::square(5).calculate_area(), 16);
    assert_eq!(Polygon::square(-5).points[0], Point::new().set_values(2, 2));
}

#[test]
fn test_new_and_add_point() {
    let mut poly = Polygon::new();
    assert_eq!(poly.points.len(), 0);
    poly.add_point(pt(1.0, 2.0));
    assert_eq!(poly.points, vec![pt(1.0, 2.0)]);
}

#[test]
fn test_reverse_orientation() {
    let mut poly = Polygon::from_points(&vec![pt(0.0, 0.0), pt(2.0, 0.0), pt(0.0, 2.0)]);
    poly.reverse_orientation();
    assert_eq!(poly.points, vec![pt(0.0, 2.0), pt(2.0, 0.0), pt(0.0, 0.0)]);
}

#[test]
fn test_triangulation_of_crossing_ring() {
    // the ring crosses itself: its two triangles wind opposite ways, so
    // their signed areas cancel while their sizes do not
    let poly = Polygon::from_points(&vec![pt(0.0, 0.0), pt(2.0, 0.0), pt(0.0, 2.0), pt(2.0, 2.0)]);
    let parts = poly.triangulate(ZERO_TOLERANCE).unwrap();
    assert_eq!(parts.len(), 2);
    assert_eq!(poly.signed_doubled_area(), 0);
    assert_eq!(parts[0].signed_doubled_area(), 4_000_000);
    assert_eq!(parts[1].signed_doubled_area(), -4_000_000);
    assert_eq!(parts[0].calculate_area() + parts[1].calculate_area(), 4_000_000);
}

#[test]
fn test_triangulation_areas_of_hexagon() {
    let poly = Polygon::from_points(&vec![
        pt(0.0, 0.0),
        pt(4.0, 0.0),
        pt(5.0, 2.0),
        pt(2.5, 1.0),
        pt(3.0, 5.0),
        pt(0.0, 3.0),
    ]);
    let parts = poly.triangulate(ZERO_TOLERANCE).unwrap();
    assert_eq!(parts.len(), 4);
    let mut signed = 0;
    let mut sizes = 0;
    for part in parts.iter() {
        assert_eq!(part.points.len(), 3);
        assert!(part.signed_doubled_area() >= 0);
        signed += part.signed_doubled_area();
        sizes += part.signed_doubled_area().abs();
    }
    assert_eq!(signed, poly.signed_doubled_area());
    assert_eq!(sizes, poly.signed_doubled_area().abs());
}

#[test]
fn test_interior_angle() {
    let poly = Polygon::from_points(&vec![
        Point::new(),
        pt(2.0, 0.0),
        pt(1.0, 2.0),
        pt(2.0, 4.0),
        pt(0.0, 4.0),
    ]);
    assert!(poly.interior_angle(2).is_reflex());
    assert!(!poly.interior_angle(1).is_reflex());
    assert!(poly.interior_angle(4).is_quarter_turn());
    assert_eq!(poly.interior_angle(0), poly.calculate_angles()[0]);
}
