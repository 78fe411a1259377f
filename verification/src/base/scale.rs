//! Per-axis scale factors in thousandths: a factor of 1000 leaves an extent
//! unchanged.

use crate::num::{floor_div, iabs, lemma_div_magnitude, lemma_mul_bounds, mul64, COORD_LIMIT};
use vstd::prelude::*;

verus! {

/// Per-axis scale factors, in thousandths.
#[derive(Clone, Copy, Debug, PartialEq, Eq, Structural)]
pub struct Scale {
    pub sx: i64,
    pub sy: i64,
}

impl Scale {
    /// Both factors are representable.
    pub open spec fn wf(&self) -> bool {
        iabs(self.sx as int) <= 2 * COORD_LIMIT && iabs(self.sy as int) <= 2 * COORD_LIMIT
    }

    /// The scale with the given factors.
    pub fn new(sx: i64, sy: i64) -> (r: Scale)
        ensures
            r == (Scale { sx, sy }),
    {
        Scale { sx, sy }
    }

    /// Composition of two scales: factors multiply, in thousandths.
    pub fn mul(self, other: Scale) -> (r: Scale)
        requires
            self.wf(),
            other.wf(),
        ensures
            r.sx == self.sx * other.sx / 1000,
            r.sy == self.sy * other.sy / 1000,
    {
        proof {
            lemma_mul_bounds(self.sx as int, 536870912, other.sx as int, 536870912);
            lemma_mul_bounds(self.sy as int, 536870912, other.sy as int, 536870912);
            lemma_div_magnitude(self.sx * other.sx, 1000);
            lemma_div_magnitude(self.sy * other.sy, 1000);
        }
        let sx = floor_div(mul64(self.sx, other.sx) as i128, 1000);
        let sy = floor_div(mul64(self.sy, other.sy) as i128, 1000);
        Scale { sx: sx as i64, sy: sy as i64 }
    }
}

} // verus!
