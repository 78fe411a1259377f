use geometry::base::line_segment::LineSegment;
use geometry::shape::circle::Circle;
use geometry::base::point::Point;
use geometry::base::vector::Vector;
use geometry::shape::polygon::Polygon;

#[test]
fn test_from_vector() {
    let point_a = Point::new(1000, 1000);
    let point_b = Point::new(-1000, -1000);
    let vector = Vector::from_points(point_a, point_b);
    let line = LineSegment::from_vector(point_a, vector);
    assert_eq!(line.origin, point_a);
    assert_eq!(line.end, point_b);
}

#[test]
fn test_closest_point() {
    let point_a = Point::new(2000, 0);
    let point_b = Point::new(0, 2000);
    let line = LineSegment::new(point_a, point_b);
    // middle of the segment
    let point = Point::new(2000, 2000);
    assert_eq!(line.closest_point(point), Point::new(1000, 1000));
    // beyond the origin
    let point = Point::new(3000, 0);
    assert_eq!(line.closest_point(point), Point::new(2000, 0));
    // beyond the end
    let point = Point::new(0, 3000);
    assert_eq!(line.closest_point(point), Point::new(0, 2000));
}

#[test]
fn test_is_on_segment() {
    let point_a = Point::new(1000, 1000);
    let point_b = Point::new(-1000, -1000);
    let line = LineSegment::new(point_a, point_b);
    // point on the segment
    assert!(line.is_on_segment(Point::zero()));
    // point off the segment's line
    assert!(!line.is_on_segment(Point::new(1000, -1000)));
    // point on the line but outside the segment
    assert!(!line.is_on_segment(Point::new(2000, 2000)));
}

#[test]
fn test_intersection() {
    // crossing segments
    let line_a = LineSegment::new(Point::new(1000, 1000), Point::new(-1000, -1000));
    let line_b = LineSegment::new(Point::new(1000, -1000), Point::new(-1000, 1000));
    let intersection = line_a.intersection(&line_b);
    assert!(intersection.is_some());
    assert_eq!(intersection.unwrap(), Point::zero());

    // parallel segments
    let line_a = LineSegment::new(Point::new(1000, 1000), Point::new(1000, -1000));
    let line_b = LineSegment::new(Point::new(-1000, 1000), Point::new(-1000, -1000));
    assert!(line_a.intersection(&line_b).is_none());

    // crossing lines whose segments stop short
    let line_a = LineSegment::new(Point::new(1000, 1000), Point::new(2000, -1000));
    let line_b = LineSegment::new(Point::new(-1000, 1000), Point::new(-2000, -1000));
    assert!(line_a.intersection(&line_b).is_none());
}

#[test]
fn test_intersection_polygon() {
    // a horizontal probe through a triangle crosses two edges
    let vertices = vec![
        Point::new(1000, 0),
        Point::new(1000, 3000),
        Point::new(-2000, 3000),
    ];
    let poly = Polygon::new(&vertices);
    let probe = LineSegment::new(Point::new(-5000, 2000), Point::new(5000, 2000));
    let (a, b) = probe.intersection_polygon(&poly);
    assert!(a.is_some());
    assert!(b.is_some());
    assert_eq!(a.unwrap(), Point::new(1000, 2000));
    assert_eq!(b.unwrap(), Point::new(-1000, 2000));
    // a probe that misses the triangle crosses nothing
    let probe = LineSegment::new(Point::new(-5000, 5000), Point::new(5000, 5000));
    let (a, b) = probe.intersection_polygon(&poly);
    assert!(a.is_none() && b.is_none());
}

#[test]
fn test_intersection_circle() {
    let circle = Circle::new(Point::zero(), 1000);
    // a horizontal line through the center crosses twice
    let seg = LineSegment::new(Point::new(-3000, 0), Point::new(3000, 0));
    let (a, b) = seg.intersection_circle(&circle);
    assert_eq!(a.unwrap(), Point::new(1000, 0));
    assert_eq!(b.unwrap(), Point::new(-1000, 0));
    // a line far above the circle misses
    let seg = LineSegment::new(Point::new(-3000, 2000), Point::new(3000, 2000));
    let (a, b) = seg.intersection_circle(&circle);
    assert!(a.is_none() && b.is_none());
}
