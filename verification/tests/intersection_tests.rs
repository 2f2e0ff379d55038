use rust_nfp::geometry::constants::ZERO_TOLERANCE;
use rust_nfp::geometry::intersection::{
    LineLineIntersectionResult, LineSegmentLineSegmentIntersectionResult, PolygonPolygonIntersectionResult,
};
use rust_nfp::geometry::{Intersection, Line, LineSegment, Point, Polygon};

/// Lattice units per unit of length.
const SCALE: f64 = 1000.0;

fn pt(x: f64, y: f64) -> Point {
    Point::new().set_values((x * SCALE) as i32, (y * SCALE) as i32)
}

fn square(len: f64) -> Polygon {
    Polygon::square((len * SCALE) as i32)
}

#[test]
fn test_line_line_intersection_point() {
    let pt0 = pt(-1.0, -1.0);
    let pt1 = pt(1.0, 1.0);
    let pt2 = pt(-1.0, 1.0);
    let pt3 = pt(1.0, -1.0);
    let line0 = Line::new_from_points(&pt0, &pt1);
    let line1 = Line::new_from_points(&pt2, &pt3);

    let result = Intersection::line_line(&line0, &line1, ZERO_TOLERANCE);

    match result {
        LineLineIntersectionResult::NoIntersection => panic!("None"),
        LineLineIntersectionResult::Point(pt) => assert_eq!(pt, Point::new()),
        LineLineIntersectionResult::Equal => panic!("Equal"),
    }
}

#[test]
fn test_line_line_intersection_equal() {
    let pt0 = pt(-1.0, -1.0);
    let pt1 = pt(1.0, 1.0);
    let line0 = Line::new_from_points(&pt0, &pt1);
    let line1 = Line::new_from_points(&pt1, &pt0);

    let result = Intersection::line_line(&line0, &line1, ZERO_TOLERANCE);

    match result {
        LineLineIntersectionResult::NoIntersection => panic!("None"),
        LineLineIntersectionResult::Point(_) => panic!("Point"),
        LineLineIntersectionResult::Equal => assert!(true),
    }
}

#[test]
fn test_line_line_intersection_none() {
    let pt0 = pt(-1.0, -1.0);
    let pt1 = pt(1.0, 1.0);
    let pt2 = pt(0.0, -1.0);
    let pt3 = pt(2.0, 1.0);
    let line0 = Line::new_from_points(&pt0, &pt1);
    let line1 = Line::new_from_points(&pt2, &pt3);

    let result = Intersection::line_line(&line0, &line1, ZERO_TOLERANCE);

    match result {
        LineLineIntersectionResult::NoIntersection => assert!(true),
        LineLineIntersectionResult::Point(_) => panic!("Point found"),
        LineLineIntersectionResult::Equal => panic!("Equal"),
    }
}

#[test]
fn test_line_line_with_vertical() {
    let vertical = Line::new_from_points(&pt(2.0, 0.0), &pt(2.0, 1.0));
    let sloped = Line::new_from_points(&pt(0.0, 1.0), &pt(1.0, 2.0));
    assert_eq!(
        Intersection::line_line(&vertical, &sloped, ZERO_TOLERANCE),
        LineLineIntersectionResult::Point(pt(2.0, 3.0))
    );
    assert_eq!(
        Intersection::line_line(&sloped, &vertical, ZERO_TOLERANCE),
        LineLineIntersectionResult::Point(pt(2.0, 3.0))
    );
    assert_eq!(
        Intersection::line_line(&vertical, &Line::Vertical { x: 2000 }, ZERO_TOLERANCE),
        LineLineIntersectionResult::Equal
    );
    assert_eq!(
        Intersection::line_line(&vertical, &Line::Vertical { x: 2001 }, ZERO_TOLERANCE),
        LineLineIntersectionResult::NoIntersection
    );
}

#[test]
fn test_line_line_crossing_outside_the_plane() {
    let flat = Line::new_from_points(&Point::new(), &Point::new().set_values(i32::MAX, 1));
    let level = Line::new_from_values(0, 2);
    assert_eq!(
        Intersection::line_line(&flat, &level, ZERO_TOLERANCE),
        LineLineIntersectionResult::NoIntersection
    );
}

#[test]
fn test_line_segment_line_segment_intersection_point() {
    let pt0 = pt(-1.0, -1.0);
    let pt1 = pt(1.0, 1.0);
    let pt2 = pt(2.0, 0.0);
    let line0 = LineSegment::new_from_points(&pt0, &pt1);
    let line1 = LineSegment::new_from_points(&pt1, &pt2);

    let result = Intersection::line_segment_line_segment(&line0, &line1, ZERO_TOLERANCE);

    match result {
        LineSegmentLineSegmentIntersectionResult::NoIntersection => panic!("None"),
        LineSegmentLineSegmentIntersectionResult::Point(pt) => assert_eq!(pt, pt1),
        LineSegmentLineSegmentIntersectionResult::Overlap(_) => panic!("Overlap"),
    }
}

#[test]
fn test_line_segment_line_segment_vertical_horizontal_point() {
    let pt0 = pt(-1.0, -1.0);
    let pt1 = pt(-1.0, 1.0);
    let pt2 = pt(-2.0, 1.0);
    let pt3 = pt(2.0, 1.0);
    let line0 = LineSegment::new_from_points(&pt0, &pt1);
    let line1 = LineSegment::new_from_points(&pt2, &pt3);

    let result = Intersection::line_segment_line_segment(&line0, &line1, ZERO_TOLERANCE);

    match result {
        LineSegmentLineSegmentIntersectionResult::NoIntersection => panic!("None"),
        LineSegmentLineSegmentIntersectionResult::Point(pt) => assert_eq!(pt, pt1),
        LineSegmentLineSegmentIntersectionResult::Overlap(_) => panic!("Overlap"),
    }
}

#[test]
fn test_line_segment_line_segment_vertical_horizontal_none() {
    let pt0 = pt(-1.0, -1.0);
    let pt1 = pt(-1.0, 1.0);
    let pt2 = pt(2.0, 1.0);
    let pt3 = pt(4.0, 1.0);
    let line0 = LineSegment::new_from_points(&pt0, &pt1);
    let line1 = LineSegment::new_from_points(&pt2, &pt3);

    let result = Intersection::line_segment_line_segment(&line0, &line1, ZERO_TOLERANCE);

    match result {
        LineSegmentLineSegmentIntersectionResult::NoIntersection => assert!(true),
        LineSegmentLineSegmentIntersectionResult::Point(pt) => panic!("Found a point, {:?}", pt),
        LineSegmentLineSegmentIntersectionResult::Overlap(_) => panic!("Overlap"),
    }
}

#[test]
fn test_line_segment_line_segment_intersection_overlap() {
    let pt0 = pt(-1.0, -1.0);
    let pt1 = pt(1.0, 1.0);
    let pt2 = pt(-0.5, -0.5);
    let pt3 = pt(2.0, 2.0);
    let line0 = LineSegment::new_from_points(&pt0, &pt1);
    let line1 = LineSegment::new_from_points(&pt2, &pt3);

    let result = Intersection::line_segment_line_segment(&line0, &line1, ZERO_TOLERANCE);

    match result {
        LineSegmentLineSegmentIntersectionResult::NoIntersection => panic!("None"),
        LineSegmentLineSegmentIntersectionResult::Point(_) => panic!("Point found"),
        LineSegmentLineSegmentIntersectionResult::Overlap(line) => {
            assert_eq!(line, LineSegment::new_from_points(&pt0, &pt3))
        },
    }
}

#[test]
fn test_line_segment_line_segment_vertical_overlap() {
    let line0 = LineSegment::new_from_points(&pt(1.0, 3.0), &pt(1.0, 0.0));
    let line1 = LineSegment::new_from_points(&pt(1.0, 1.0), &pt(1.0, 5.0));
    assert_eq!(
        Intersection::line_segment_line_segment(&line0, &line1, ZERO_TOLERANCE),
        LineSegmentLineSegmentIntersectionResult::Overlap(LineSegment::new_from_points(&pt(1.0, 0.0), &pt(1.0, 5.0)))
    );
}

#[test]
fn test_line_segment_line_segment_parallel_apart() {
    let line0 = LineSegment::new_from_points(&pt(0.0, 0.0), &pt(2.0, 2.0));
    let line1 = LineSegment::new_from_points(&pt(0.0, 1.0), &pt(2.0, 3.0));
    assert_eq!(
        Intersection::line_segment_line_segment(&line0, &line1, ZERO_TOLERANCE),
        LineSegmentLineSegmentIntersectionResult::NoIntersection
    );
}

#[test]
fn test_line_segment_line_segment_crossing() {
    let line0 = LineSegment::new_from_points(&pt(0.0, 0.0), &pt(4.0, 4.0));
    let line1 = LineSegment::new_from_points(&pt(0.0, 4.0), &pt(4.0, 0.0));
    assert_eq!(
        Intersection::line_segment_line_segment(&line0, &line1, ZERO_TOLERANCE),
        LineSegmentLineSegmentIntersectionResult::Point(pt(2.0, 2.0))
    );
    assert_eq!(
        Intersection::line_segment_line_segment(&line1, &line0, ZERO_TOLERANCE),
        LineSegmentLineSegmentIntersectionResult::Point(pt(2.0, 2.0))
    );
    // the lines cross behind the end of the first segment
    let short = LineSegment::new_from_points(&pt(0.0, 0.0), &pt(1.0, 1.0));
    assert_eq!(
        Intersection::line_segment_line_segment(&short, &line1, ZERO_TOLERANCE),
        LineSegmentLineSegmentIntersectionResult::NoIntersection
    );
}

#[test]
fn test_polygon_edges_intersection_yields_corners() {
    let poly = square(2.0);
    let square_corners = &poly.points;
    let edges = poly.calculate_edges();

    for n in 0..edges.len() {
        let next_index = (n + 1) % edges.len();
        let prev_index = (n + edges.len() - 1) % edges.len();
        let l1 = LineSegment::new_from_points(&square_corners[prev_index], &square_corners[n]);
        let l2 = LineSegment::new_from_points(&square_corners[n], &square_corners[next_index]);

        match Intersection::line_segment_line_segment(&l1, &l2, ZERO_TOLERANCE) {
            LineSegmentLineSegmentIntersectionResult::NoIntersection => panic!("None"),
            LineSegmentLineSegmentIntersectionResult::Overlap(_) => panic!("Overlap"),
            LineSegmentLineSegmentIntersectionResult::Point(pt) => {
                if !pt.epsilon_equals(&square_corners[n], ZERO_TOLERANCE) {
                    panic!(
                        "Points were not equal under epsilon on index {}!, {:?}, {:?}",
                        n, pt, square_corners[n]
                    )
                }
            },
        }
    }

    assert!(true)
}

#[test]
fn test_polygon_polygon_intersection_none() {
    let poly1 = square(3.0);
    let poly2 = square(1.0);

    let result = Intersection::polygon_polygon(&poly1, &poly2, ZERO_TOLERANCE);

    match result {
        PolygonPolygonIntersectionResult::NoIntersection => assert!(true),
        PolygonPolygonIntersectionResult::Point(pt_int) => {
            println!("Found single intersection point: {:?}", pt_int);
            panic!("Point");
        },
        PolygonPolygonIntersectionResult::Multiple(pts) => {
            println!("Multiple int points are: {:?}", pts);
            panic!("Multiple");
        },
    }
}

#[test]
fn test_polygon_polygon_intersection_point() {
    let pt0 = pt(1.0, 1.0);
    let pt1 = pt(3.0, 3.0);
    let pt2 = pt(-3.0, 3.0);

    let tri = Polygon::from_points(&vec![pt0, pt1, pt2]);
    let square = square(2.0);

    let result = Intersection::polygon_polygon(&tri, &square, ZERO_TOLERANCE);

    match result {
        PolygonPolygonIntersectionResult::NoIntersection => panic!("No intersection"),
        PolygonPolygonIntersectionResult::Point(pt_int) => assert_eq!(pt_int, pt0),
        PolygonPolygonIntersectionResult::Multiple(pts) => {
            println!("Multiple int points are: {:?}", pts);
            panic!("Multiple");
        },
    }
}

#[test]
fn test_polygon_polygon_intersection_multiple() {
    let first = square(2.0);
    let other = Polygon::from_points(&vec![pt(0.0, 0.0), pt(2.0, 0.0), pt(2.0, 2.0), pt(0.0, 2.0)]);
    match Intersection::polygon_polygon(&first, &other, ZERO_TOLERANCE) {
        PolygonPolygonIntersectionResult::Multiple(pts) => assert_eq!(pts, vec![pt(1.0, 0.0), pt(0.0, 1.0)]),
        _ => panic!("not multiple"),
    }
}
