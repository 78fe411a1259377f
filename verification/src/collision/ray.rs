//! Bounded rays: an origin, a direction, and a finite length.

use crate::base::angle::{cos_spec, sin_spec, Angle};
use crate::base::point::Point;
use crate::base::vector::Vector;
use crate::num::COORD_LIMIT;
use vstd::prelude::*;

verus! {

/// A ray of finite length from `origin` along `direction`.
#[derive(Clone, Copy, Debug, PartialEq, Eq, Structural)]
pub struct Ray {
    pub origin: Point,
    pub direction: Angle,
    pub length: i64,
}

impl Ray {
    /// The origin is representable, the direction canonical, and the length
    /// a representable nonnegative count.
    pub open spec fn wf(&self) -> bool {
        self.origin.wf() && self.direction.wf() && 0 <= self.length <= COORD_LIMIT
    }

    /// The ray with the given origin, direction and length.
    pub fn new(origin: Point, direction: Angle, length: i64) -> (r: Ray)
        ensures
            r == (Ray { origin, direction, length }),
    {
        Ray { origin, direction, length }
    }

    /// The displacement from the ray's origin to its far end.
    pub fn vector(&self) -> (r: Vector)
        requires
            self.wf(),
        ensures
            r.dx == self.length * cos_spec(self.direction.mdeg as int) / 1000,
            r.dy == self.length * sin_spec(self.direction.mdeg as int) / 1000,
            r.wf(),
    {
        Vector::from_magnitude(self.length, self.direction)
    }
}

} // verus!
