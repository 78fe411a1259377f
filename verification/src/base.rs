//! Scalar value types: angles, points, vectors, sizes, and scales.

pub mod angle;
pub mod line_segment;
pub mod point;
pub mod scale;
pub mod size;
pub mod vector;

pub use angle::Angle;
pub use line_segment::LineSegment;
pub use point::Point;
pub use scale::Scale;
pub use size::Size;
pub use vector::Vector;
