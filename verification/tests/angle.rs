use geometry::base::angle::{Angle, FULL_TURN};
use geometry::base::vector::Vector;

#[test]
fn test_new_wraps() {
    assert_eq!(Angle::new(45000).mdeg, 45000);
    assert_eq!(Angle::new(-90000).mdeg, 270000);
    assert_eq!(Angle::new(725000).mdeg, 5000);
    let a = Angle::new(123456);
    assert!(0 <= a.mdeg && a.mdeg < FULL_TURN);
}

#[test]
fn test_full_turn_wraps_to_zero() {
    assert_eq!(Angle::pi2(), Angle::zero());
    // wrap-around closure: an angle plus its complement is the zero angle
    let a = Angle::new(123456);
    let b = Angle::new(FULL_TURN - 123456);
    assert_eq!(a.add(b), Angle::zero());
    let a = Angle::new(-777);
    let b = Angle::new(FULL_TURN + 777);
    assert_eq!(a.add(b), Angle::zero());
}

#[test]
fn test_add_sub() {
    let a = Angle::new(350000);
    let b = Angle::new(20000);
    assert_eq!(a.add(b).mdeg, 10000);
    assert_eq!(b.sub(a).mdeg, 30000);
}

#[test]
fn test_mul_div() {
    // degree values multiply and divide, in thousandths
    let a = Angle::new(10000);
    let b = Angle::new(20000);
    assert_eq!(a.mul(b).mdeg, 200000);
    assert_eq!(a.div(b).mdeg, 500);
}

#[test]
fn test_sin_cos_cardinal() {
    assert_eq!(Angle::zero().sin(), 0);
    assert_eq!(Angle::zero().cos(), 1000);
    assert_eq!(Angle::new(90000).sin(), 1000);
    assert_eq!(Angle::new(90000).cos(), 0);
    assert_eq!(Angle::pi().sin(), 0);
    assert_eq!(Angle::pi().cos(), -1000);
    assert_eq!(Angle::new(270000).sin(), -1000);
    assert_eq!(Angle::new(270000).cos(), 0);
}

#[test]
fn test_sin_cos_table() {
    assert_eq!(Angle::new(30000).sin(), 500);
    assert_eq!(Angle::new(60000).sin(), 864);
    assert_eq!(Angle::new(45000).sin(), 705);
    assert_eq!(Angle::new(45000).cos(), 705);
    assert_eq!(Angle::new(60000).cos(), 500);
    assert_eq!(Angle::new(210000).sin(), -500);
}

#[test]
fn test_from_vectors() {
    // perpendicular vectors are a quarter turn apart
    let a = Vector::new(1000, 0);
    let b = Vector::new(0, 1000);
    let between = Angle::from_vectors(a, b);
    assert!((between.mdeg - 90000).abs() <= 100);
    // parallel vectors are at angle zero
    let c = Vector::new(2000, 0);
    assert_eq!(Angle::from_vectors(a, c).mdeg, 0);
}
