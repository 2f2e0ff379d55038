use rust_nfp::geometry::constants::ZERO_TOLERANCE;
use rust_nfp::geometry::{Line, LineIntersection, LinePointRelation, Point};

/// Lattice units per unit of length.
const SCALE: f64 = 1000.0;

fn pt(x: f64, y: f64) -> Point {
    Point::new().set_values((x * SCALE) as i32, (y * SCALE) as i32)
}

fn slope(line: &Line) -> f64 {
    match line {
        Line::Sloped { rise, run, offset: _ } => *rise as f64 / *run as f64,
        Line::Vertical { x: _ } => f64::INFINITY,
    }
}

fn intercept(line: &Line) -> f64 {
    match line {
        Line::Sloped { rise: _, run, offset } => *offset as f64 / *run as f64 / SCALE,
        Line::Vertical { x: _ } => 0.0,
    }
}

#[test]
fn test_two_point_constructor() {
    let pt0 = pt(1.0, 0.0);
    let pt1 = pt(2.0, 1.0);
    let line = Line::new_from_points(&pt0, &pt1);

    assert_eq!(slope(&line), 1.0);
    assert_eq!(intercept(&line), -1.0);
    assert_eq!(line, Line::Sloped { rise: 1000, run: 1000, offset: -1000000 });
}

#[test]
fn test_two_point_constructor_keeps_run_positive() {
    let line = Line::new_from_points(&pt(2.0, 1.0), &pt(1.0, 0.0));
    assert_eq!(line, Line::Sloped { rise: 1000, run: 1000, offset: -1000000 });
}

#[test]
fn test_two_point_constructor_on_axes() {
    assert_eq!(Line::new_from_points(&pt(3.0, 1.0), &pt(3.0, 5.0)), Line::Vertical { x: 3000 });
    assert_eq!(
        Line::new_from_points(&pt(1.0, 5.0), &pt(3.0, 5.0)),
        Line::Sloped { rise: 0, run: 1, offset: 5000 }
    );
    assert_eq!(Line::new(), Line::Sloped { rise: 0, run: 1, offset: 0 });
    assert_eq!(Line::new_from_values(2, -3), Line::Sloped { rise: 2, run: 1, offset: -3 });
}

#[test]
fn test_point_at() {
    let pt0 = pt(1.0, 0.0);
    let pt1 = pt(2.0, 1.0);
    let line = Line::new_from_points(&pt0, &pt1);

    let pt_at = line.point_at(3000);

    assert_eq!(pt_at, Some(pt(3.0, 2.0)));
}

#[test]
fn test_point_at_rounds_toward_zero() {
    let line = Line::new_from_points(&Point::new(), &Point::new().set_values(2, 1));
    assert_eq!(line.point_at(3), Some(Point::new().set_values(3, 1)));
    assert_eq!(line.point_at(-3), Some(Point::new().set_values(-3, -1)));
    assert_eq!(Line::Vertical { x: 3 }.point_at(3), None);
    assert_eq!(Line::new_from_values(2, 0).point_at(i32::MAX), None);
}

#[test]
fn test_point_on_line() {
    let pt0 = Point::new();
    let pt1 = pt(1.0, 1.0);
    let pt2 = pt(3.0, 3.0);
    let line = Line::new_from_points(&pt0, &pt1);

    assert!(line.is_point_on(&pt2, ZERO_TOLERANCE));
}

#[test]
fn test_point_not_on_line() {
    let pt0 = Point::new();
    let pt1 = pt(1.0, 1.0);
    let pt2 = pt(2.0, 3.0);
    let line = Line::new_from_points(&pt0, &pt1);

    assert!(!line.is_point_on(&pt2, ZERO_TOLERANCE));
}

#[test]
fn test_point_on_line_parallel_to_x_axis() {
    let pt0 = pt(0.0, 5.0);
    let pt1 = pt(1.0, 5.0);
    let pt_test = pt(8.0, 5.0);
    let line = Line::new_from_points(&pt0, &pt1);

    assert!(line.is_point_on(&pt_test, ZERO_TOLERANCE))
}

#[test]
fn test_point_on_vertical_line() {
    let line = Line::new_from_points(&pt(2.0, 5.0), &pt(2.0, 7.0));
    assert!(line.is_point_on(&pt(2.0, -4.0), ZERO_TOLERANCE));
    assert!(!line.is_point_on(&pt(2.5, -4.0), ZERO_TOLERANCE));
    assert!(line.is_point_on(&pt(2.002, -4.0), 3));
}

#[test]
fn test_parallel_lines() {
    let sloped = Line::new_from_points(&pt(0.0, 0.0), &pt(1.0, 2.0));
    let shifted = Line::new_from_points(&pt(0.0, 1.0), &pt(2.0, 5.0));
    let other = Line::new_from_points(&pt(0.0, 0.0), &pt(1.0, 3.0));
    let vertical = Line::Vertical { x: 0 };
    assert!(sloped.is_parallel_to(&shifted, ZERO_TOLERANCE));
    assert!(!sloped.is_parallel_to(&other, ZERO_TOLERANCE));
    assert!(vertical.is_parallel_to(&Line::Vertical { x: 7 }, ZERO_TOLERANCE));
    assert!(!vertical.is_parallel_to(&sloped, ZERO_TOLERANCE));
    assert!(!sloped.is_parallel_to(&vertical, ZERO_TOLERANCE));
}

#[test]
fn test_line_point_relation() {
    let tol = 10;
    let pt_from = Point::new();
    let pt_to = pt(0.0, 5.0);

    let pt_test_left = pt(-1.0, -5.0);
    let pt_test_right = pt(10.0, 15.0);
    let pt_test_on = pt(0.0, 14.238);

    assert_eq!(Line::line_point_relation_fast(&pt_from, &pt_to, &pt_test_left, tol), LinePointRelation::Left);
    assert_eq!(Line::line_point_relation_fast(&pt_from, &pt_to, &pt_test_right, tol), LinePointRelation::Right);
    assert_eq!(Line::line_point_relation_fast(&pt_from, &pt_to, &pt_test_on, tol), LinePointRelation::On);
}

#[test]
fn test_intersect_line() {
    let rising = Line::new_from_points(&pt(-1.0, -1.0), &pt(1.0, 1.0));
    let falling = Line::new_from_points(&pt(-1.0, 1.0), &pt(1.0, -1.0));
    let shifted = Line::new_from_points(&pt(0.0, 1.0), &pt(1.0, 2.0));
    assert_eq!(rising.intersect_line(&falling), LineIntersection::Point(Point::new()));
    assert_eq!(rising.intersect_line(&shifted), LineIntersection::Line(rising));
    assert_eq!(rising.crossing(&falling), Some(Point::new()));
    let flat = Line::new_from_points(&Point::new(), &Point::new().set_values(i32::MAX, 1));
    assert_eq!(flat.intersect_line(&Line::new_from_values(0, 2)), LineIntersection::NoIntersection);
}
