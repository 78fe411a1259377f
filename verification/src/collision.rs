//! Collision detection: bounding boxes, rays, contact results, and the
//! narrow-phase pairwise routines.

pub mod bounding_box;
pub mod collidable;
pub mod detection;
pub mod hit;
pub mod ray;

pub use bounding_box::BoundingBox;
pub use collidable::Collidable;
pub use detection::{are_close, ball_bounce, distance, distance_closest_points};
pub use hit::Hit;
pub use ray::Ray;
