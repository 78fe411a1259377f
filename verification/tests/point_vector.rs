use geometry::base::angle::Angle;
use geometry::base::point::Point;
use geometry::base::scale::Scale;
use geometry::base::size::Size;
use geometry::base::vector::Vector;

#[test]
fn test_distance_to() {
    let point_a = Point::new(5000, 5000);
    let point_b = Point::new(-5000, 5000);
    let distance = point_a.distance_to(point_b);
    assert_eq!(distance, 10000);
}

#[test]
fn test_rotate_about() {
    let mut point_a = Point::new(5000, -3000);
    let point_b = Point::new(2000, 1000);
    point_a.rotate_about(point_b, Angle::new(90000));
    let expected = Point::new(6000, 4000);
    assert_eq!(point_a, expected);
}

#[test]
fn test_translate_round_trip() {
    // translating by a displacement and then its opposite restores a point
    let p = Point::new(1234, -5678);
    let v = Vector::new(777, -999);
    let there = p.add_vector(v);
    let back = there.add_vector(v.neg());
    assert_eq!(back, p);
}

#[test]
fn test_normalize() {
    let mut vector_a = Vector::new(5000, -5000);
    vector_a.normalize();
    assert_eq!(vector_a, Vector::new(707, -708));
}

#[test]
fn test_rotate() {
    let mut vector_a = Vector::new(1000, 1000);
    vector_a.rotate(Angle::new(90000));
    let vector_b = Vector::new(-1000, 1000);
    assert_eq!(vector_a, vector_b);
}

#[test]
fn test_dot() {
    let vector_a = Vector::new(5000, 3000);
    let vector_b = Vector::new(-1000, 5000);
    let result = vector_a.dot(vector_b);
    assert_eq!(result, 10000000);
}

#[test]
fn test_cross() {
    let vector_a = Vector::new(5000, 3000);
    let vector_b = Vector::new(-1000, 5000);
    let result = vector_a.cross(vector_b);
    assert_eq!(result, 28000000);
}

#[test]
fn test_magnitude() {
    let vector_a = Vector::new(1000, -1000);
    let result = vector_a.magnitude();
    assert_eq!(result, 1414);
}

#[test]
fn test_get_orientation() {
    let vector_a = Vector::new(1000, -1000);
    let result = vector_a.orientation();
    // an eighth of a turn below the axis, within the arc cosine's step
    assert_eq!(result.mdeg, 315091);
    let east = Vector::new(4000, 0);
    assert_eq!(east.orientation().mdeg, 0);
}

#[test]
fn test_vector_conversions() {
    let v = Vector::new(3000, -4000);
    assert_eq!(v.to_point(), Point::new(3000, -4000));
    assert_eq!(v.to_size(), Size::new(3000, -4000));
    assert_eq!(v.to_scale(), Scale::new(3000, -4000));
    assert_eq!(v.get_normal_vector(), Vector::new(4000, 3000));
    let u = v.get_unit_vector();
    assert_eq!(u, Vector::new(600, -800));
}

#[test]
fn test_size_scale() {
    let s = Size::new(4000, 2000);
    assert_eq!(s.max(), 4000);
    assert_eq!(s.min(), 2000);
    assert_eq!(s.half(), Size::new(2000, 1000));
    let doubled = s.mul_scale(Scale::new(2000, 2000));
    assert_eq!(doubled, Size::new(8000, 4000));
    let back = doubled.div_scale(Scale::new(2000, 2000));
    assert_eq!(back, s);
    let sc = Scale::new(2000, 500).mul(Scale::new(3000, 2000));
    assert_eq!(sc, Scale::new(6000, 1000));
}
