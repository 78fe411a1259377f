//! Widths and heights, in fixed-point counts.

use crate::base::scale::Scale;
use crate::base::vector::Vector;
use crate::num::{floor_div, iabs, lemma_div_magnitude, lemma_mul_bounds, mul64, COORD_LIMIT};
use vstd::prelude::*;

verus! {

/// A nonnegative width and height; one unit is 1000 counts.
#[derive(Clone, Copy, Debug, PartialEq, Eq, Structural)]
pub struct Size {
    pub w: i64,
    pub h: i64,
}

impl Size {
    /// Both extents are nonnegative and representable.
    pub open spec fn wf(&self) -> bool {
        0 <= self.w <= COORD_LIMIT && 0 <= self.h <= COORD_LIMIT
    }

    /// The size with the given extents.
    pub fn new(w: i64, h: i64) -> (r: Size)
        ensures
            r == (Size { w, h }),
    {
        Size { w, h }
    }

    /// The empty size.
    pub fn zero() -> (r: Size)
        ensures
            r == (Size { w: 0, h: 0 }),
    {
        Size { w: 0, h: 0 }
    }

    /// The extents read as a displacement.
    pub fn to_vector(&self) -> (r: Vector)
        ensures
            r == (Vector { dx: self.w, dy: self.h }),
    {
        Vector { dx: self.w, dy: self.h }
    }

    /// The larger extent.
    pub fn max(&self) -> (r: i64)
        ensures
            r == if self.w >= self.h {
                self.w
            } else {
                self.h
            },
    {
        if self.w >= self.h {
            self.w
        } else {
            self.h
        }
    }

    /// The smaller extent.
    pub fn min(&self) -> (r: i64)
        ensures
            r == if self.w <= self.h {
                self.w
            } else {
                self.h
            },
    {
        if self.w <= self.h {
            self.w
        } else {
            self.h
        }
    }

    /// Half the extents, rounded down.
    pub fn half(&self) -> (r: Size)
        requires
            self.wf(),
        ensures
            r.w == self.w / 2,
            r.h == self.h / 2,
            r.wf(),
    {
        Size { w: self.w / 2, h: self.h / 2 }
    }

    /// The size stretched componentwise by per-axis factors in thousandths,
    /// rounded down.
    pub fn mul_scale(self, other: Scale) -> (r: Size)
        requires
            self.wf(),
            other.wf(),
            0 <= other.sx,
            0 <= other.sy,
        ensures
            r.w == self.w * other.sx / 1000,
            r.h == self.h * other.sy / 1000,
    {
        proof {
            lemma_mul_bounds(self.w as int, 268435456, other.sx as int, 536870912);
            lemma_mul_bounds(self.h as int, 268435456, other.sy as int, 536870912);
            lemma_div_magnitude(self.w * other.sx, 1000);
            lemma_div_magnitude(self.h * other.sy, 1000);
        }
        let w = floor_div(mul64(self.w, other.sx) as i128, 1000);
        let h = floor_div(mul64(self.h, other.sy) as i128, 1000);
        Size { w: w as i64, h: h as i64 }
    }

    /// The size shrunk componentwise by per-axis factors in thousandths,
    /// rounded down.
    pub fn div_scale(self, other: Scale) -> (r: Size)
        requires
            self.wf(),
            other.wf(),
            0 < other.sx,
            0 < other.sy,
        ensures
            r.w == self.w * 1000 / (other.sx as int),
            r.h == self.h * 1000 / (other.sy as int),
    {
        proof {
            lemma_mul_bounds(self.w as int, 268435456, 1000, 1000);
            lemma_mul_bounds(self.h as int, 268435456, 1000, 1000);
            lemma_div_magnitude(self.w * 1000, other.sx as int);
            lemma_div_magnitude(self.h * 1000, other.sy as int);
        }
        let w = floor_div(mul64(self.w, 1000) as i128, other.sx as i128);
        let h = floor_div(mul64(self.h, 1000) as i128, other.sy as i128);
        Size { w: w as i64, h: h as i64 }
    }
}

} // verus!
