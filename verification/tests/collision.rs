use geometry::base::angle::Angle;
use geometry::base::point::Point;
use geometry::base::size::Size;
use geometry::base::vector::Vector;
use geometry::collision::bounding_box::BoundingBox;
use geometry::collision::collidable::Collidable;
use geometry::collision::detection::{are_close, ball_bounce, distance, distance_closest_points};
use geometry::collision::ray::Ray;
use geometry::shape::circle::Circle;
use geometry::shape::rectangle::Rectangle;

#[test]
fn test_ray_hit_point() {
    let ray = Ray::new(Point::zero(), Angle::zero(), 10000);
    assert_eq!(ray.vector(), Vector::new(10000, 0));
    // a point near the ray's line is reported with its projection time
    let hit = ray.hit_point(Point::new(5000, 300)).unwrap();
    assert_eq!(hit.contact, Point::new(5000, 300));
    assert_eq!(hit.time, 500);
    assert_eq!(hit.delta, Vector::new(-5000, 300));
    // a point far off the line is missed
    assert!(ray.hit_point(Point::new(5000, 3000)).is_none());
}

#[test]
fn test_ray_hit_bounding_box() {
    let ray = Ray::new(Point::zero(), Angle::zero(), 200000);
    let near_box = BoundingBox::new(Point::new(100000, 0), Size::new(50000, 25000));
    let hit = ray.hit_bounding_box(near_box).unwrap();
    assert_eq!(hit.time, 250);
    assert_eq!(hit.contact, Point::new(50000, 0));
    assert_eq!(hit.normal, Vector::new(-1000, 0));
    assert_eq!(hit.delta, Vector::new(-150000, 0));
}

#[test]
fn test_ray_hit_bounding_box_beyond_reach() {
    // the impact would fall beyond the ray's span, so there is no hit
    let ray = Ray::new(Point::zero(), Angle::zero(), 200000);
    let far_box = BoundingBox::new(Point::new(300000, 0), Size::new(50000, 25000));
    assert!(ray.hit_bounding_box(far_box).is_none());
}

#[test]
fn test_ray_hit_circle() {
    let ray = Ray::new(Point::zero(), Angle::zero(), 10000);
    let circle = Circle::new(Point::new(5000, 0), 1000);
    let hit = ray.hit_circle(&circle).unwrap();
    assert_eq!(hit.time, 400);
    assert_eq!(hit.contact, Point::new(4000, 0));
    assert_eq!(hit.normal, Vector::new(-1000, 0));
    assert_eq!(hit.delta, Vector::new(-6000, 0));
    // a circle off the line is missed
    let off = Circle::new(Point::new(5000, 5000), 1000);
    assert!(ray.hit_circle(&off).is_none());
}

#[test]
fn test_box_hit_point() {
    // the narrow-phase box query, which reports the point as the contact
    let bb = BoundingBox::new(Point::new(0, 0), Size::new(2000, 2000));
    let hit = Collidable::hit_point(&bb, Point::new(1500, 100)).unwrap();
    assert_eq!(hit.contact, Point::new(1500, 100));
    assert_eq!(hit.normal, Vector::new(-1000, 0));
    assert_eq!(hit.delta, Vector::new(-500, 0));
    assert!(Collidable::hit_point(&bb, Point::new(2500, 100)).is_none());
}

#[test]
fn test_box_hit_box() {
    let a = BoundingBox::new(Point::new(0, 0), Size::new(2000, 2000));
    let b = BoundingBox::new(Point::new(3000, 0), Size::new(2000, 2000));
    let hit = a.hit_bounding_box(b).unwrap();
    assert_eq!(hit.contact, Point::new(1000, 0));
    assert_eq!(hit.normal, Vector::new(-1000, 0));
    assert_eq!(hit.delta, Vector::new(-1000, 0));
    let c = BoundingBox::new(Point::new(5000, 0), Size::new(1000, 1000));
    assert!(a.hit_bounding_box(c).is_none());
}

#[test]
fn test_box_hit_circle() {
    let bb = BoundingBox::new(Point::new(0, 0), Size::new(2000, 2000));
    let circle = Circle::new(Point::new(4000, 0), 2500);
    let hit = bb.hit_circle(&circle).unwrap();
    assert_eq!(hit.contact, Point::new(1500, 0));
    assert_eq!(hit.normal, Vector::new(-1000, 0));
    assert_eq!(hit.delta, Vector::new(-500, 0));
    let far = Circle::new(Point::new(4000, 0), 1500);
    assert!(bb.hit_circle(&far).is_none());
}

#[test]
fn test_circle_hit_point() {
    let circle = Circle::new(Point::new(0, 0), 10000);
    let hit = circle.hit_point(Point::new(5000, 0)).unwrap();
    assert_eq!(hit.contact, Point::new(5000, 0));
    assert_eq!(hit.normal, Vector::new(-1000, 0));
    assert_eq!(hit.delta, Vector::new(-5000, 0));
    assert!(circle.hit_point(Point::new(15000, 0)).is_none());
}

#[test]
fn test_circle_hit_bounding_box() {
    let circle = Circle::new(Point::new(4000, 0), 2500);
    let bb = BoundingBox::new(Point::new(0, 0), Size::new(2000, 2000));
    let hit = circle.hit_bounding_box(bb).unwrap();
    assert_eq!(hit.contact, Point::new(2000, 0));
    assert_eq!(hit.normal, Vector::new(1000, 0));
    assert_eq!(hit.delta, Vector::new(500, 0));
}

#[test]
fn test_circle_hit_bounding_box_corner() {
    let circle = Circle::new(Point::new(3000, 3000), 2000);
    let bb = BoundingBox::new(Point::new(0, 0), Size::new(2000, 2000));
    let hit = circle.hit_bounding_box(bb).unwrap();
    assert_eq!(hit.contact, Point::new(2000, 2000));
    assert_eq!(hit.delta, Vector::new(414, 414));
    assert_eq!(hit.normal, Vector::new(707, 707));
}

#[test]
fn test_circle_hit_circle_touching() {
    // radii sum equals the center distance: a touching hit with no overlap
    let a = Circle::new(Point::new(0, 0), 10000);
    let b = Circle::new(Point::new(15000, 0), 5000);
    let hit = a.hit_circle(&b).unwrap();
    assert_eq!(hit.delta, Vector::new(0, 0));
    assert_eq!(hit.normal, Vector::new(-1000, 0));
    assert_eq!(hit.contact, Point::new(10000, 0));
    // a gap of one count is a miss
    let c = Circle::new(Point::new(15001, 0), 5000);
    assert!(a.hit_circle(&c).is_none());
}

#[test]
fn test_rectangle_hit_point() {
    let rect = Rectangle::new(Point::new(0, 0), Size::new(4000, 4000), Angle::zero());
    let hit = rect.hit_point(Point::new(1500, 0)).unwrap();
    assert_eq!(hit.contact, Point::new(2000, 0));
    assert_eq!(hit.normal, Vector::new(1000, 0));
    assert_eq!(hit.delta, Vector::new(500, 0));
    assert!(rect.hit_point(Point::new(2500, 0)).is_none());
    // a point exactly on the boundary is not inside, so it is a miss
    assert!(rect.hit_point(Point::new(2000, 0)).is_none());
}

#[test]
fn test_rectangle_hit_bounding_box() {
    let rect = Rectangle::new(Point::new(0, 0), Size::new(4000, 4000), Angle::zero());
    let bb = BoundingBox::new(Point::new(2500, 0), Size::new(1000, 1000));
    let hit = rect.hit_bounding_box(bb).unwrap();
    assert_eq!(hit.contact, Point::new(2000, -1000));
    assert_eq!(hit.delta, Vector::new(-500, 0));
    assert_eq!(hit.normal, Vector::new(-1000, 0));
    let far = BoundingBox::new(Point::new(5000, 0), Size::new(1000, 1000));
    assert!(rect.hit_bounding_box(far).is_none());
}

#[test]
fn test_rectangle_hit_circle_is_a_gap() {
    // the rectangle-against-circle routine is a known gap: always a miss
    let rect = Rectangle::new(Point::new(0, 0), Size::new(4000, 4000), Angle::zero());
    let circle = Circle::new(Point::new(0, 0), 1000);
    assert!(rect.hit_circle(&circle).is_none());
}

#[test]
fn test_are_close() {
    let a = Circle::new(Point::new(0, 0), 10000);
    let b = Circle::new(Point::new(15000, 0), 5000);
    assert!(!are_close(&a, &b, 0));
    assert!(are_close(&a, &b, -1000));
    assert!(are_close(&a, &b, -1));
}

#[test]
fn test_distance_closest_points() {
    let a = Circle::new(Point::new(0, 0), 1000);
    let b = Circle::new(Point::new(5000, 0), 1000);
    let (d, pa, pb) = distance_closest_points(&a, &b);
    assert_eq!(d, 3000);
    assert_eq!(pa, Point::new(1000, 0));
    assert_eq!(pb, Point::new(4000, 0));
    assert_eq!(distance(&a, &b), 3000);
}

#[test]
fn test_ball_bounce() {
    let ball = Circle::new(Point::new(-5000, 0), 1000);
    let wall = Rectangle::new(Point::new(0, 0), Size::new(4000, 4000), Angle::zero());
    let normal = ball_bounce(&ball, Vector::new(1000, 0), &wall);
    assert_eq!(normal, Some(Vector::new(-1000, 0)));
    // a ball moving away never bounces
    let miss = ball_bounce(&ball, Vector::new(-1000, 0), &wall);
    assert!(miss.is_none());
}
