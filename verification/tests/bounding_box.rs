use geometry::base::point::Point;
use geometry::base::size::Size;
use geometry::base::vector::Vector;
use geometry::collision::bounding_box::BoundingBox;

#[test]
fn test_from_edges() {
    let bb = BoundingBox::from_edges(1000, 1000, 5000, 3000);
    assert_eq!(bb.center, Point::new(3000, 2000));
    assert_eq!(bb.half, Size::new(2000, 1000));
    assert_eq!(bb.x1(), 1000);
    assert_eq!(bb.x2(), 5000);
    assert_eq!(bb.y1(), 1000);
    assert_eq!(bb.y2(), 3000);
}

#[test]
fn test_distance() {
    let bb_ref = BoundingBox::from_edges(1000, 1000, 5000, 3000);

    assert_eq!(bb_ref.distance(bb_ref), 0, "Testing with self");
    assert_eq!(
        bb_ref.distance(BoundingBox::from_edges(2000, -2000, 3000, 2000)),
        0,
        "Testing with intersecting box"
    );
    assert_eq!(
        bb_ref.distance(BoundingBox::from_edges(-2000, 0, 0, 2000)),
        1000,
        "Testing with box left"
    );
    assert_eq!(
        bb_ref.distance(BoundingBox::from_edges(7000, 0, 9000, 2000)),
        2000,
        "Testing with right box right"
    );
    assert_eq!(
        bb_ref.distance(BoundingBox::from_edges(2000, 4000, 4000, 5000)),
        1000,
        "Testing with box above"
    );
    assert_eq!(
        bb_ref.distance(BoundingBox::from_edges(-1000, -3000, 3000, -1000)),
        2000,
        "Testing with box below"
    );
    assert_eq!(
        bb_ref.distance(BoundingBox::from_edges(6000, 4000, 8000, 10000)),
        1414,
        "Testing with box above right"
    );
    assert_eq!(
        bb_ref.distance(BoundingBox::from_edges(-4000, 4000, 0, 10000)),
        1414,
        "Testing with box above left"
    );
    assert_eq!(
        bb_ref.distance(BoundingBox::from_edges(6000, -2000, 8000, 0)),
        1414,
        "Testing with box below right"
    );
    assert_eq!(
        bb_ref.distance(BoundingBox::from_edges(-4000, -3000, 0, 0)),
        1414,
        "Testing with box below left"
    );
}

#[test]
fn test_self_distance_degenerate() {
    // a zero-area box is still at distance zero from itself
    let bb = BoundingBox::new(Point::new(7000, -3000), Size::new(0, 0));
    assert_eq!(bb.distance(bb), 0);
}

#[test]
fn test_overlaps_x() {
    let bb_ref = BoundingBox::from_edges(1000, 1000, 5000, 3000);

    let y1 = -2000;
    let y2 = 0;

    assert!(bb_ref.overlaps_x(bb_ref));
    assert!(bb_ref.overlaps_x(BoundingBox::from_edges(-1000, y1, 3000, y2)));
    assert!(bb_ref.overlaps_x(BoundingBox::from_edges(3000, y1, 7000, y2)));
    assert!(!bb_ref.overlaps_x(BoundingBox::from_edges(-5000, y1, 0, y2)));
    assert!(!bb_ref.overlaps_x(BoundingBox::from_edges(6000, y1, 11000, y2)));
    assert!(bb_ref.overlaps_x(BoundingBox::from_edges(2000, y1, 4000, y2)));
    assert!(bb_ref.overlaps_x(BoundingBox::from_edges(0, y1, 6000, y2)));
}

#[test]
fn test_overlaps_y() {
    let bb_ref = BoundingBox::from_edges(1000, 1000, 3000, 5000);

    let x1 = -2000;
    let x2 = 0;

    assert!(bb_ref.overlaps_y(bb_ref));
    assert!(bb_ref.overlaps_y(BoundingBox::from_edges(x1, -1000, x2, 3000)));
    assert!(bb_ref.overlaps_y(BoundingBox::from_edges(x1, 3000, x2, 7000)));
    assert!(!bb_ref.overlaps_y(BoundingBox::from_edges(x1, -5000, x2, 0)));
    assert!(!bb_ref.overlaps_y(BoundingBox::from_edges(x1, 6000, x2, 11000)));
    assert!(bb_ref.overlaps_y(BoundingBox::from_edges(x1, 2000, x2, 4000)));
    assert!(bb_ref.overlaps_y(BoundingBox::from_edges(x1, 0, x2, 6000)));
}

#[test]
fn test_ordering_predicates() {
    let a = BoundingBox::from_edges(0, 0, 2000, 2000);
    let b = BoundingBox::from_edges(3000, 3000, 5000, 5000);
    assert!(b.is_above(a));
    assert!(a.is_below(b));
    assert!(a.is_left(b));
    assert!(b.is_right(a));
    assert!(!a.is_above(b));
    assert_eq!(a.min_x1(b), 0);
    assert_eq!(a.max_x2(b), 5000);
    assert_eq!(a.min_y1(b), 0);
    assert_eq!(a.max_y2(b), 5000);
    assert_eq!(a.max_x1(b), 3000);
    assert_eq!(a.min_x2(b), 2000);
    assert_eq!(a.max_y1(b), 3000);
    assert_eq!(a.min_y2(b), 2000);
}

#[test]
fn test_box_is_inside() {
    let bb = BoundingBox::from_edges(0, 0, 2000, 2000);
    assert!(bb.is_inside(Point::new(1000, 1000)));
    assert!(!bb.is_inside(Point::new(2000, 1000)));
    assert!(!bb.is_inside(Point::new(3000, 1000)));
}

#[test]
fn test_hit_point_on_face() {
    // the box's own hit_point projects the contact onto the nearer face
    let bb = BoundingBox::new(Point::new(0, 0), Size::new(2000, 2000));
    let hit = bb.hit_point(Point::new(1500, 100)).unwrap();
    assert_eq!(hit.contact, Point::new(2000, 100));
    assert_eq!(hit.normal, Vector::new(1000, 0));
    assert_eq!(hit.delta, Vector::new(500, 0));
    assert_eq!(hit.time, 0);
    assert!(bb.hit_point(Point::new(2500, 100)).is_none());
}

#[test]
fn test_polygon_corners() {
    let bb = BoundingBox::new(Point::new(1000, 2000), Size::new(500, 300));
    let poly = bb.polygon();
    assert_eq!(poly.vertices[0], Point::new(500, 1700));
    assert_eq!(poly.vertices[1], Point::new(1500, 1700));
    assert_eq!(poly.vertices[2], Point::new(1500, 2300));
    assert_eq!(poly.vertices[3], Point::new(500, 2300));
}
