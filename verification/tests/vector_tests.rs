use rust_nfp::geometry::constants::ZERO_TOLERANCE;
use rust_nfp::geometry::{Angle, Point, Vector};
use std::f64::consts::PI;

/// Lattice units per unit of length.
const SCALE: f64 = 1000.0;

fn vector(x: f64, y: f64) -> Vector {
    Vector::new().set_values((x * SCALE) as i64, (y * SCALE) as i64)
}

fn radians(angle: &Angle) -> f64 {
    let len = ((angle.dot as f64) * (angle.dot as f64) + (angle.cross as f64) * (angle.cross as f64)).sqrt();
    let unsigned = if len == 0.0 { PI / 2.0 } else { (angle.dot as f64 / len).acos() };
    if angle.cross < 0 {
        2.0 * PI - unsigned
    } else {
        unsigned
    }
}

#[test]
fn test_vector_angle_anti_parallel() {
    let v1 = vector(1.0, 0.0);
    let v2 = vector(-1.0, 0.0);

    let angle = v1.angle_to(&v2);

    assert_eq!(radians(&angle), PI);
    assert!(angle.is_half_turn());
}

#[test]
fn test_vector_angle_same() {
    let v1 = vector(1.0, 1.0);

    let angle = v1.angle_to(&v1);

    assert!(radians(&angle).abs() < ZERO_TOLERANCE as f64 / SCALE);
    assert!(angle.is_zero());
}

#[test]
fn test_vector_angle_order_matters() {
    let v1 = vector(1.0, 0.0);
    let v2 = vector(1.0, 0.5);

    let angle_between_v1_and_v2 = v1.angle_to(&v2);
    let angle_between_v2_and_v1 = v2.angle_to(&v1);

    assert_ne!(radians(&angle_between_v1_and_v2), radians(&angle_between_v2_and_v1));
    assert_ne!(angle_between_v1_and_v2, angle_between_v2_and_v1);
    assert_eq!(angle_between_v1_and_v2.cross, -angle_between_v2_and_v1.cross);
    assert!(!angle_between_v1_and_v2.is_reflex());
    assert!(angle_between_v2_and_v1.is_reflex());
}

#[test]
fn test_vector_angle_225_degrees_edge_case() {
    let x_axis = vector(1.0, 0.0);
    let v_bottom_left = vector(-2.0, -2.0);
    let v_bottom_right = vector(2.0, -2.0);

    let angle_bottom_left = x_axis.angle_to(&v_bottom_left);
    let angle_bottom_right = x_axis.angle_to(&v_bottom_right);

    assert_eq!(radians(&angle_bottom_left), 1.25 * PI);
    assert_eq!(radians(&angle_bottom_right), 1.75 * PI);
}

#[test]
fn test_vector_angle_of_zero_vector() {
    let angle = Vector::new().angle_to(&vector(1.0, 0.0));
    assert!(angle.is_quarter_turn());
    assert!(!angle.is_zero());
    assert!(!angle.is_half_turn());
    assert!(!angle.is_reflex());
}

#[test]
fn test_vector_products() {
    let a = Vector::new().set_values(3, 4);
    let b = Vector::new().set_values(-2, 5);
    assert_eq!(Vector::cross_product(&a, &b), 23);
    assert_eq!(Vector::cross_product(&b, &a), -23);
    assert_eq!(a.dot_product(&b), 14);
    assert_eq!(a.calculate_length(), 5);
    assert_eq!(b.calculate_length(), 5);
    assert_eq!(Vector::new().calculate_length(), 0);
}

#[test]
fn test_vector_from_points() {
    let from = Point::new().set_values(i32::MIN, 3);
    let to = Point::new().set_values(i32::MAX, -4);
    let v = Vector::new_from_points(&from, &to);
    assert_eq!(v, Vector::new().set_values(4294967295, -7));
    assert!(v.epsilon_equals(&Vector::new().set_values(4294967294, -6), 2));
    assert!(!v.epsilon_equals(&Vector::new().set_values(4294967294, -6), 1));
}
