use geometry::base::angle::Angle;
use geometry::base::point::Point;
use geometry::base::scale::Scale;
use geometry::base::size::Size;
use geometry::base::vector::Vector;
use geometry::shape::circle::Circle;
use geometry::shape::hexagon::Hexagon;
use geometry::shape::rectangle::Rectangle;
use geometry::shape::shape::{Shape, ShapeType};

#[test]
fn circle_test_translate() {
    let mut circle = Circle::new(Point::new(10000, -5000), 10000);
    circle.translate(Vector::new(-2000, 1000));
    let expected = Circle::new(Point::new(8000, -4000), 10000);
    assert_eq!(circle, expected);
}

#[test]
fn circle_test_move_to() {
    let mut circle = Circle::new(Point::new(10000, -5000), 10000);
    circle.move_to(Point::new(-2000, 1000));
    let expected = Circle::new(Point::new(-2000, 1000), 10000);
    assert_eq!(circle, expected);
}

#[test]
fn test_to_polygon() {
    let circle = Circle::new(Point::new(10000, -5000), 10000);
    let poly = circle.polygon();
    let length = poly.vertices.len();
    assert_eq!(length, 16);
    assert!(length % 4 == 0);
    let vert_rightmost = Point::new(20000, -5000);
    let vert_bottommost = Point::new(10000, 5000);
    let vert_leftmost = Point::new(0, -5000);
    let vert_topmost = Point::new(10000, -15000);
    assert_eq!(poly.vertices[0], vert_rightmost);
    assert_eq!(poly.vertices[length / 4], vert_bottommost);
    assert_eq!(poly.vertices[2 * length / 4], vert_leftmost);
    assert_eq!(poly.vertices[3 * length / 4], vert_topmost);
}

#[test]
fn circle_test_closest_point() {
    let circle = Circle::new(Point::new(0, 0), 10000);
    let point = Point::new(15000, -15000);
    let result = circle.closest_point(point);
    assert_eq!(result, Point::new(7070, -7080));
}

#[test]
fn circle_test_rotate_is_identity() {
    let mut circle = Circle::new(Point::new(10000, -5000), 10000);
    circle.rotate(Angle::new(45000));
    circle.rotate_to(Angle::new(90000));
    assert_eq!(circle, Circle::new(Point::new(10000, -5000), 10000));
    assert_eq!(circle.get_type(), ShapeType::Circle);
    assert_eq!(circle.enclosing_radius(), 10000);
    assert!(circle.is_inslide(Point::new(11000, -4000)));
    assert!(!circle.is_inslide(Point::new(30000, -5000)));
}

#[test]
fn hexagon_test_translate() {
    let mut hexagon = Hexagon::new(Point::new(10000, -5000), 10000, Angle::zero());
    hexagon.translate(Vector::new(-2000, 1000));
    let expected = Hexagon::new(Point::new(8000, -4000), 10000, Angle::zero());
    assert_eq!(hexagon, expected);
}

#[test]
fn hexagon_test_move_to() {
    let mut hexagon = Hexagon::new(Point::new(10000, -5000), 10000, Angle::zero());
    hexagon.move_to(Point::new(-2000, 1000));
    let expected = Hexagon::new(Point::new(-2000, 1000), 10000, Angle::zero());
    assert_eq!(hexagon, expected);
}

#[test]
fn hexagon_test_rotate() {
    let mut hexagon = Hexagon::new(Point::new(10000, -5000), 10000, Angle::zero());
    hexagon.rotate(Angle::new(45000));
    let expected = Hexagon::new(Point::new(10000, -5000), 10000, Angle::new(45000));
    assert_eq!(hexagon, expected);
}

#[test]
fn hexagon_test_to_polygon_flat_topped() {
    let hexagon = Hexagon::new(Point::new(10000, -5000), 2000, Angle::zero());
    let poly = hexagon.polygon();
    assert_eq!(poly.vertices[0], Point::new(12000, -5000));
    assert_eq!(poly.vertices[1], Point::new(11000, -3272));
    assert_eq!(poly.vertices[2], Point::new(9000, -3272));
    assert_eq!(poly.vertices[3], Point::new(8000, -5000));
    assert_eq!(poly.vertices[4], Point::new(9000, -6728));
    assert_eq!(poly.vertices[5], Point::new(11000, -6728));
}

#[test]
fn hexagon_test_to_polygon_pointy_topped() {
    let hexagon = Hexagon::new(Point::new(10000, -5000), 2000, Angle::new(90000));
    let poly = hexagon.polygon();
    assert_eq!(poly.vertices[0], Point::new(10000, -3000));
    assert_eq!(poly.vertices[1], Point::new(8272, -4000));
    assert_eq!(poly.vertices[2], Point::new(8272, -6000));
    assert_eq!(poly.vertices[3], Point::new(10000, -7000));
    assert_eq!(poly.vertices[4], Point::new(11728, -6000));
    assert_eq!(poly.vertices[5], Point::new(11728, -4000));
}

#[test]
fn hexagon_test_closest_point() {
    let hexagon = Hexagon::new(Point::new(0, 0), 10000, Angle::zero());
    let point = Point::new(0, -15000);
    let result = hexagon.closest_point(point);
    assert_eq!(result, Point::new(0, -8640));
}

#[test]
fn shape_test_translate_round_trip() {
    // translating a shape there and back restores its center
    let v = Vector::new(1234, -987);
    let mut hexagon = Hexagon::new(Point::new(10000, -5000), 2000, Angle::zero());
    hexagon.translate(v);
    hexagon.translate(v.neg());
    assert_eq!(hexagon.center(), Point::new(10000, -5000));
    let mut circle = Circle::new(Point::new(10000, -5000), 2000);
    circle.translate(v);
    circle.translate(v.neg());
    assert_eq!(circle.center(), Point::new(10000, -5000));
    let mut rect = Rectangle::new(Point::new(10000, -5000), Size::new(2000, 1000), Angle::zero());
    rect.translate(v);
    rect.translate(v.neg());
    assert_eq!(rect.center(), Point::new(10000, -5000));
}

#[test]
fn rectangle_test_translate() {
    let mut rect = Rectangle::new(
        Point::new(10000, -5000),
        Size::new(2000, 1000),
        Angle::new(45000),
    );
    rect.translate(Vector::new(-2000, 1000));
    let expected = Rectangle::new(
        Point::new(8000, -4000),
        Size::new(2000, 1000),
        Angle::new(45000),
    );
    assert_eq!(rect, expected);
}

#[test]
fn rectangle_test_move_to() {
    let mut rect = Rectangle::new(
        Point::new(10000, -5000),
        Size::new(2000, 1000),
        Angle::new(45000),
    );
    rect.move_to(Point::new(-2000, 1000));
    let expected = Rectangle::new(
        Point::new(-2000, 1000),
        Size::new(2000, 1000),
        Angle::new(45000),
    );
    assert_eq!(rect, expected);
}

#[test]
fn rectangle_test_rotate() {
    let mut rect = Rectangle::new(Point::new(10000, -5000), Size::new(2000, 1000), Angle::zero());
    rect.rotate(Angle::new(45000));
    let expected = Rectangle::new(
        Point::new(10000, -5000),
        Size::new(2000, 1000),
        Angle::new(45000),
    );
    assert_eq!(rect, expected);
}

#[test]
fn rectangle_test_to_polygon_axis_aligned() {
    let rect = Rectangle::new(Point::new(10000, -5000), Size::new(4000, 2000), Angle::zero());
    let poly = rect.polygon();
    assert_eq!(poly.vertices[0], Point::new(8000, -6000));
    assert_eq!(poly.vertices[1], Point::new(12000, -6000));
    assert_eq!(poly.vertices[2], Point::new(12000, -4000));
    assert_eq!(poly.vertices[3], Point::new(8000, -4000));
}

#[test]
fn rectangle_test_to_polygon_axis_aligned_90() {
    let rect = Rectangle::new(
        Point::new(10000, -5000),
        Size::new(4000, 2000),
        Angle::new(90000),
    );
    let poly = rect.polygon();
    assert_eq!(poly.vertices[0], Point::new(11000, -7000));
    assert_eq!(poly.vertices[1], Point::new(11000, -3000));
    assert_eq!(poly.vertices[2], Point::new(9000, -3000));
    assert_eq!(poly.vertices[3], Point::new(9000, -7000));
}

#[test]
fn rectangle_test_to_polygon_oriented() {
    // a near-unit square turned an eighth of a turn stands on a corner
    let rect = Rectangle::new(
        Point::new(10000, -5000),
        Size::new(1414, 1414),
        Angle::new(45000),
    );
    let poly = rect.polygon();
    assert_eq!(poly.vertices[0], Point::new(10000, -5996));
    assert_eq!(poly.vertices[1], Point::new(10996, -5000));
    assert_eq!(poly.vertices[2], Point::new(10000, -4004));
    assert_eq!(poly.vertices[3], Point::new(9004, -5000));
}

#[test]
fn rectangle_test_centroid_is_center() {
    // the polygon's centroid equals the center for any orientation
    for mdeg in [0i64, 30000, 45000, 77777, 200000] {
        let rect = Rectangle::new(
            Point::new(10000, -5000),
            Size::new(4000, 2000),
            Angle::new(mdeg),
        );
        let poly = rect.polygon();
        let sx: i64 = poly.vertices.iter().map(|p| p.x).sum();
        let sy: i64 = poly.vertices.iter().map(|p| p.y).sum();
        assert_eq!(poly.vertices.len(), 4);
        assert_eq!(sx, 4 * 10000);
        assert_eq!(sy, 4 * -5000);
    }
}

#[test]
fn rectangle_test_resize() {
    let mut rect = Rectangle::new(Point::new(0, 0), Size::new(4000, 2000), Angle::zero());
    rect.resize(Scale::new(2000, 500));
    assert_eq!(rect.size(), Size::new(8000, 1000));
    rect.resize_to(Size::new(3000, 3000));
    assert_eq!(rect.size(), Size::new(3000, 3000));
    assert_eq!(rect.orientation(), Angle::zero());
    assert_eq!(rect.enclosing_radius(), 2122);
}

#[test]
fn shape_test_contact_point_and_normal() {
    // a ray pointing at a square meets its near face
    let rect = Rectangle::new(Point::new(0, 0), Size::new(4000, 4000), Angle::zero());
    let contact = rect.contact_point(Point::new(-5000, 0), Vector::new(1000, 0));
    assert_eq!(contact, Some(Point::new(-2000, 0)));
    let normal = rect.get_normal_vector_at(Point::new(-2000, 0));
    assert_eq!(normal, Some(Vector::new(-1000, 0)));
    // a ray pointing away misses
    let miss = rect.contact_point(Point::new(-5000, 0), Vector::new(-1000, 0));
    assert!(miss.is_none());
    // a point off the boundary has no normal
    assert!(rect.get_normal_vector_at(Point::new(0, 0)).is_none());
}

#[test]
fn circle_test_contact_point() {
    let circle = Circle::new(Point::new(0, 0), 1000);
    let contact = circle.contact_point(Point::new(-3000, 0), Vector::new(1000, 0));
    assert_eq!(contact, Some(Point::new(-1000, 0)));
    let normal = circle.get_normal_vector_at(Point::new(-1000, 0));
    assert_eq!(normal, Some(Vector::new(-1000, 0)));
}
