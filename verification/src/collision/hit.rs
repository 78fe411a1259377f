//! The result of a narrow-phase collision query.

use crate::base::point::Point;
use crate::base::vector::Vector;
use vstd::prelude::*;

verus! {

/// A contact produced by a collision query: the contact point, the unit
/// separation normal (scaled by 1000), the minimum translation needed to
/// separate the pair, and, for ray casts, the time of impact in thousandths
/// of the ray's span (zero for everything else).
#[derive(Clone, Copy, Debug, PartialEq, Eq, Structural)]
pub struct Hit {
    pub contact: Point,
    pub normal: Vector,
    pub delta: Vector,
    pub time: i64,
}

impl Hit {
    /// A contact with no time of impact.
    pub fn new(contact: Point, normal: Vector, delta: Vector) -> (r: Hit)
        ensures
            r == (Hit { contact, normal, delta, time: 0 }),
    {
        Hit { contact, normal, delta, time: 0 }
    }

    /// A contact at a given time of impact.
    pub fn new_time(contact: Point, normal: Vector, delta: Vector, time: i64) -> (r: Hit)
        ensures
            r == (Hit { contact, normal, delta, time }),
    {
        Hit { contact, normal, delta, time }
    }

    /// The all-zero contact.
    pub fn zero() -> (r: Hit)
        ensures
            r == (Hit {
                contact: Point { x: 0, y: 0 },
                normal: Vector { dx: 0, dy: 0 },
                delta: Vector { dx: 0, dy: 0 },
                time: 0,
            }),
    {
        Hit {
            contact: Point { x: 0, y: 0 },
            normal: Vector { dx: 0, dy: 0 },
            delta: Vector { dx: 0, dy: 0 },
            time: 0,
        }
    }
}

} // verus!
