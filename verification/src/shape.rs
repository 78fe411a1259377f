//! Shapes: polygons and the concrete circle, rectangle, and hexagon types
//! behind the common shape capability.

pub mod circle;
pub mod hexagon;
pub mod polygon;
pub mod rectangle;
pub mod shape;

pub use circle::Circle;
pub use hexagon::Hexagon;
pub use polygon::Polygon;
pub use rectangle::Rectangle;
pub use shape::{Shape, ShapeType};
