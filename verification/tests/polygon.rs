use geometry::base::line_segment::LineSegment;
use geometry::base::point::Point;
use geometry::base::vector::Vector;
use geometry::shape::polygon::Polygon;

fn triangle() -> Polygon {
    let points = vec![
        Point::new(1000, 0),
        Point::new(1000, 3000),
        Point::new(-2000, 3000),
    ];
    Polygon::new(&points)
}

#[test]
fn test_to_lines() {
    let poly = triangle();
    let lines = poly.to_lines();
    let point_a = Point::new(1000, 0);
    let point_b = Point::new(1000, 3000);
    let point_c = Point::new(-2000, 3000);
    assert_eq!(lines[0], LineSegment::new(point_a, point_b));
    assert_eq!(lines[1], LineSegment::new(point_b, point_c));
    assert_eq!(lines[2], LineSegment::new(point_c, point_a));
}

#[test]
fn polygon_test_closest_point() {
    let poly = triangle();
    // against the middle of an edge
    let result = poly.closest_point(Point::new(2000, 2000));
    assert_eq!(result, Point::new(1000, 2000));
    // beyond a vertex at the far end of an edge
    let result = poly.closest_point(Point::new(2000, 4000));
    assert_eq!(result, Point::new(1000, 3000));
    // beyond the first vertex
    let result = poly.closest_point(Point::new(0, -1000));
    assert_eq!(result, Point::new(1000, 0));
}

#[test]
fn test_is_inside() {
    let poly = triangle();
    // interior point
    assert!(poly.is_inside(Point::new(0, 2000)), "Point is inside");
    // a point exactly on an edge is not inside
    assert!(!poly.is_inside(Point::new(1000, 2000)), "Point is on border");
    // exterior point
    assert!(!poly.is_inside(Point::new(2000, 2000)), "Point is outside");
}

#[test]
fn test_closest_point_beats_every_vertex() {
    // the scanned boundary point is never farther than any vertex
    let poly = triangle();
    for p in [
        Point::new(2000, 2000),
        Point::new(-4000, 1000),
        Point::new(0, 1500),
        Point::new(777, -3333),
    ] {
        let cp = poly.closest_point(p);
        let best = p.squared_distance_to(cp);
        for v in poly.vertices.iter() {
            assert!(best <= p.squared_distance_to(*v));
        }
    }
}

#[test]
fn test_boundary_policy() {
    // a point exactly on an edge is on_segment but not inside
    let poly = triangle();
    let on_edge = Point::new(1000, 2000);
    let lines = poly.to_lines();
    assert!(lines[0].is_on_segment(on_edge));
    assert!(!poly.is_inside(on_edge));
}

#[test]
fn polygon_test_from_vectors() {
    let start = Point::new(1000, 0);
    let steps = vec![Vector::new(0, 3000), Vector::new(-3000, 0)];
    let poly = Polygon::from_vectors(start, &steps);
    assert_eq!(poly.vertices.len(), 3);
    assert_eq!(poly.vertices[0], Point::new(1000, 0));
    assert_eq!(poly.vertices[1], Point::new(1000, 3000));
    assert_eq!(poly.vertices[2], Point::new(-2000, 3000));
}

#[test]
fn test_to_bounding_box() {
    let poly = triangle();
    let bb = poly.to_bounding_box();
    assert_eq!(bb.half.w, 1500);
    assert_eq!(bb.half.h, 1500);
    assert_eq!(bb.center, Point::new(-500, 1500));
}

#[test]
fn test_vertices_inside() {
    let poly = triangle();
    let inner = Polygon::new(&vec![
        Point::new(0, 2000),
        Point::new(500, 2500),
        Point::new(5000, 5000),
    ]);
    let idx = inner.vertices_inside(&poly);
    assert_eq!(idx.unwrap(), vec![0usize, 1usize]);
    let outer = Polygon::new(&vec![Point::new(5000, 5000)]);
    assert!(outer.vertices_inside(&poly).is_none());
}
