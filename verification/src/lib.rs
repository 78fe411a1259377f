//! A 2D geometry and collision-detection kernel over exact fixed-point
//! arithmetic.
//!
//! Shapes (circles, oriented rectangles, regular hexagons, general polygons)
//! and narrow-phase collision routines are computed on integer coordinates:
//! one geometric unit is `num::UNIT` (1000) counts, so a coordinate of
//! `1500` means one and a half units. All divisions round toward negative
//! infinity and all square roots round down, so every public operation has
//! an exact, machine-checked contract instead of a floating-point
//! approximation.

pub mod base;
pub mod collision;
pub mod num;
pub mod shape;
