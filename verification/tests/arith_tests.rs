use rust_nfp::arith::{div_toward_zero, integer_sqrt};
use rust_nfp::geometry::point::turn;
use rust_nfp::geometry::Point;

#[test]
fn test_integer_sqrt() {
    assert_eq!(integer_sqrt(0), 0);
    assert_eq!(integer_sqrt(1), 1);
    assert_eq!(integer_sqrt(15), 3);
    assert_eq!(integer_sqrt(16), 4);
    assert_eq!(integer_sqrt(17), 4);
    assert_eq!(integer_sqrt(1_000_000_000_000), 1_000_000);
    assert_eq!(integer_sqrt(u128::MAX), u64::MAX);
}

#[test]
fn test_div_toward_zero() {
    assert_eq!(div_toward_zero(7, 2), 3);
    assert_eq!(div_toward_zero(-7, 2), -3);
    assert_eq!(div_toward_zero(6, 3), 2);
    assert_eq!(div_toward_zero(-6, 3), -2);
    assert_eq!(div_toward_zero(0, 5), 0);
    assert_eq!(div_toward_zero(-1, 5), 0);
}

#[test]
fn test_turn() {
    let a = Point::new();
    let b = Point::new().set_values(4, 0);
    assert_eq!(turn(&a, &b, &Point::new().set_values(1, 3)), 12);
    assert_eq!(turn(&a, &b, &Point::new().set_values(1, -3)), -12);
    assert_eq!(turn(&a, &b, &Point::new().set_values(9, 0)), 0);
    // the turn is the same from whichever of the three points it is counted
    let c = Point::new().set_values(1, 3);
    assert_eq!(turn(&b, &c, &a), 12);
    assert_eq!(turn(&c, &a, &b), 12);
}
