//! The narrow phase: pairwise collision routines producing a `Hit`.
//!
//! Every routine is a pure function of its operands' current geometry. The
//! normal always has direction length (1000) and points the way that moves
//! the penetrating side out of the other; `delta` is the translation that
//! separates the pair; `time` is meaningful only for ray casts, in
//! thousandths of the ray's span.

use crate::base::angle::{cos_spec, sin_spec};
use crate::base::line_segment::{seg_closest, LineSegment};
use crate::base::point::{dist2, Point};
use crate::base::vector::{norm2, unit_spec, Vector};
use crate::collision::bounding_box::{box_corners, BoundingBox};
use crate::collision::hit::Hit;
use crate::collision::ray::Ray;
use crate::num::{
    fdiv, floor_div, floor_div_signed, iabs, isqrt, lemma_div_bounded, lemma_div_magnitude,
    lemma_mul_bounds, lemma_mul_div_clamped, lemma_sq_nonneg, lemma_sq_pos, lemma_sqrt_below,
    max_i, min_i, mul64, sqrt_floor, wide_mul,
};
use crate::shape::circle::Circle;
use crate::shape::polygon::{best_boundary_upto, edges_nondegenerate, inside_indices_upto};
use crate::shape::rectangle::{rect_vertices, Rectangle};
use crate::shape::shape::Shape;
use vstd::prelude::*;

verus! {

/// A shape that the narrow phase can test against points, boxes, and
/// circles. Each implementation pins every routine to its own specification
/// function.
pub trait Collidable: Sized {
    /// What the point query returns.
    spec fn hit_point_spec(&self, point: Point) -> Option<Hit>;

    /// When the point query is defined.
    spec fn hit_point_pre(&self, point: Point) -> bool;

    /// What the box query returns.
    spec fn hit_bounding_box_spec(&self, bounding_box: BoundingBox) -> Option<Hit>;

    /// When the box query is defined.
    spec fn hit_bounding_box_pre(&self, bounding_box: BoundingBox) -> bool;

    /// What the circle query returns.
    spec fn hit_circle_spec(&self, circle: Circle) -> Option<Hit>;

    /// When the circle query is defined.
    spec fn hit_circle_pre(&self, circle: Circle) -> bool;

    /// The contact with a point, if they touch.
    fn hit_point(&self, point: Point) -> (r: Option<Hit>)
        requires
            self.hit_point_pre(point),
        ensures
            r == self.hit_point_spec(point),
    ;

    /// The contact with an axis-aligned box, if they touch.
    fn hit_bounding_box(&self, bounding_box: BoundingBox) -> (r: Option<Hit>)
        requires
            self.hit_bounding_box_pre(bounding_box),
        ensures
            r == self.hit_bounding_box_spec(bounding_box),
    ;

    /// The contact with a circle, if they touch.
    fn hit_circle(&self, circle: &Circle) -> (r: Option<Hit>)
        requires
            self.hit_circle_pre(*circle),
        ensures
            r == self.hit_circle_spec(*circle),
    ;
}

/// The displacement a ray spans, from its length and direction.
pub open spec fn ray_dir(ray: Ray) -> Vector {
    Vector {
        dx: (ray.length * cos_spec(ray.direction.mdeg as int) / 1000) as i64,
        dy: (ray.length * sin_spec(ray.direction.mdeg as int) / 1000) as i64,
    }
}

/// A ray hits a point when the point lies within half a unit of the ray's
/// line; the reported time is how far along the span the projection falls,
/// counted back from the far end.
pub open spec fn ray_point_spec(ray: Ray, p: Point) -> Option<Hit> {
    let dir = ray_dir(ray);
    let end = Point { x: (ray.origin.x + dir.dx) as i64, y: (ray.origin.y + dir.dy) as i64 };
    let seg = LineSegment { origin: ray.origin, end };
    let closest = seg_closest(seg, p);
    let delta = Vector { dx: (p.x - end.x) as i64, dy: (p.y - end.y) as i64 };
    if sqrt_floor(dist2(closest, p) as nat) < 500 {
        let dm = sqrt_floor(norm2(delta) as nat) as int;
        let rm = sqrt_floor(norm2(dir) as nat) as int;
        Option::Some(
            Hit {
                contact: p,
                normal: unit_spec(delta),
                delta,
                time: (1000 - dm * 1000 / rm) as i64,
            },
        )
    } else {
        Option::None
    }
}

/// The near slab time of an axis: where the ray's line enters the band
/// `[lo, hi]` along this axis, in thousandths of the span; a huge sentinel
/// stands for an axis the ray can never, or always, satisfy.
pub open spec fn slab_near(o: int, d: int, lo: int, hi: int) -> int {
    if d == 0 {
        if o < lo {
            4000000000000
        } else {
            -4000000000000
        }
    } else if d > 0 {
        fdiv((lo - o) * 1000, d)
    } else {
        fdiv((hi - o) * 1000, d)
    }
}

/// The far slab time of an axis: where the ray's line leaves the band.
pub open spec fn slab_far(o: int, d: int, lo: int, hi: int) -> int {
    if d == 0 {
        if o <= hi {
            4000000000000
        } else {
            -4000000000000
        }
    } else if d > 0 {
        fdiv((hi - o) * 1000, d)
    } else {
        fdiv((lo - o) * 1000, d)
    }
}

/// The slab method: per-axis entry and exit times, a miss when the axes
/// disagree or the intersection lies outside the ray's span, otherwise a
/// hit at the later entry time with an axis normal against the ray.
pub open spec fn ray_box_spec(ray: Ray, b: BoundingBox) -> Option<Hit> {
    let dir = ray_dir(ray);
    let nx = slab_near(ray.origin.x as int, dir.dx as int, b.x1s(), b.x2s());
    let fx = slab_far(ray.origin.x as int, dir.dx as int, b.x1s(), b.x2s());
    let ny = slab_near(ray.origin.y as int, dir.dy as int, b.y1s(), b.y2s());
    let fy = slab_far(ray.origin.y as int, dir.dy as int, b.y1s(), b.y2s());
    if nx > fy || ny > fx {
        Option::None
    } else {
        let near = max_i(nx, ny);
        let far = min_i(fx, fy);
        if near >= 1000 || far <= 0 {
            Option::None
        } else if near >= 0 {
            let contact = Point {
                x: (ray.origin.x + dir.dx * near / 1000) as i64,
                y: (ray.origin.y + dir.dy * near / 1000) as i64,
            };
            let delta = Vector {
                dx: ((-dir.dx) * (1000 - near) / 1000) as i64,
                dy: ((-dir.dy) * (1000 - near) / 1000) as i64,
            };
            if nx > ny {
                Option::Some(
                    Hit {
                        contact,
                        normal: Vector {
                            dx: if dir.dx > 0 {
                                -1000i64
                            } else {
                                1000i64
                            },
                            dy: 0,
                        },
                        delta,
                        time: near as i64,
                    },
                )
            } else {
                Option::Some(
                    Hit {
                        contact,
                        normal: Vector {
                            dx: 0,
                            dy: if dir.dy > 0 {
                                -1000i64
                            } else {
                                1000i64
                            },
                        },
                        delta,
                        time: near as i64,
                    },
                )
            }
        } else {
            Option::None
        }
    }
}

/// A ray hits a circle at the smaller root of the substituted quadratic,
/// when that root falls within the span. A hit whose rounded contact leaves
/// the derived coordinate range, or lands exactly on the center, is not
/// reported; with representable inputs neither occurs away from degenerate
/// radii.
pub open spec fn ray_circle_spec(ray: Ray, c: Circle) -> Option<Hit> {
    let dir = ray_dir(ray);
    let fx = ray.origin.x - c.center.x;
    let fy = ray.origin.y - c.center.y;
    let a = dir.dx * dir.dx + dir.dy * dir.dy;
    let b = 2 * (dir.dx * fx + dir.dy * fy);
    let cc = fx * fx + fy * fy - c.radius * c.radius;
    let det = b * b - 4 * (a * cc);
    if det >= 0 {
        let s = sqrt_floor(det as nat) as int;
        let tn = -b - s;
        let time = fdiv(tn * 1000, 2 * a);
        if 0 <= time <= 1000 {
            let xi = ray.origin.x + dir.dx * tn / (2 * a);
            let yi = ray.origin.y + dir.dy * tn / (2 * a);
            if crate::num::wide_range(xi) && crate::num::wide_range(yi) {
                let contact = Point { x: xi as i64, y: yi as i64 };
                if contact == c.center {
                    Option::None
                } else {
                    let normal = unit_spec(
                        Vector {
                            dx: (contact.x - c.center.x) as i64,
                            dy: (contact.y - c.center.y) as i64,
                        },
                    );
                    let delta = Vector {
                        dx: ((-dir.dx) * (1000 - time) / 1000) as i64,
                        dy: ((-dir.dy) * (1000 - time) / 1000) as i64,
                    };
                    Option::Some(Hit { contact, normal, delta, time: time as i64 })
                }
            } else {
                Option::None
            }
        } else {
            Option::None
        }
    } else {
        Option::None
    }
}

impl Collidable for Ray {
    open spec fn hit_point_spec(&self, point: Point) -> Option<Hit> {
        ray_point_spec(*self, point)
    }

    open spec fn hit_point_pre(&self, point: Point) -> bool {
        &&& self.wf()
        &&& point.wf()
        &&& ray_dir(*self) != (Vector { dx: 0, dy: 0 })
        &&& !(point == Point {
            x: (self.origin.x + ray_dir(*self).dx) as i64,
            y: (self.origin.y + ray_dir(*self).dy) as i64,
        })
    }

    open spec fn hit_bounding_box_spec(&self, bounding_box: BoundingBox) -> Option<Hit> {
        ray_box_spec(*self, bounding_box)
    }

    open spec fn hit_bounding_box_pre(&self, bounding_box: BoundingBox) -> bool {
        self.wf() && bounding_box.wf()
    }

    open spec fn hit_circle_spec(&self, circle: Circle) -> Option<Hit> {
        ray_circle_spec(*self, circle)
    }

    open spec fn hit_circle_pre(&self, circle: Circle) -> bool {
        &&& self.wf()
        &&& circle.wf()
        &&& ray_dir(*self) != (Vector { dx: 0, dy: 0 })
    }

    fn hit_point(&self, point: Point) -> (r: Option<Hit>) {
        let dir = self.vector();
        let end = self.origin.add_vector(dir);
        let seg = LineSegment::new(self.origin, end);
        let closest = seg.closest_point(point);
        let dvec = Vector::new(point.x - end.x, point.y - end.y);
        let cd = closest.distance_to(point);
        if cd < 500 {
            proof {
                if dir.dx != 0 {
                    lemma_sq_pos(dir.dx as int);
                } else {
                    lemma_sq_pos(dir.dy as int);
                }
                lemma_sq_nonneg(dir.dx as int);
                lemma_sq_nonneg(dir.dy as int);
            }
            let u = dvec.get_unit_vector();
            let dm = dvec.magnitude();
            let rm = dir.magnitude();
            proof {
                assert(rm as int >= 1) by (nonlinear_arith)
                    requires
                        norm2(dir) >= 1,
                        rm as int >= 0,
                        norm2(dir) < (rm as int + 1) * (rm as int + 1),
                ;
                lemma_div_magnitude(dm * 1000, rm as int);
            }
            let tm = floor_div(mul64(dm, 1000) as i128, rm as i128);
            Some(Hit::new_time(point, u, dvec, 1000 - tm as i64))
        } else {
            None
        }
    }

    fn hit_bounding_box(&self, bounding_box: BoundingBox) -> (r: Option<Hit>) {
        let dir = self.vector();
        let ox = self.origin.x;
        let oy = self.origin.y;
        let x1 = bounding_box.x1();
        let x2 = bounding_box.x2();
        let y1 = bounding_box.y1();
        let y2 = bounding_box.y2();
        let (nx, fx) = if dir.dx == 0 {
            (
                if ox < x1 {
                    4000000000000i64
                } else {
                    -4000000000000i64
                },
                if ox <= x2 {
                    4000000000000i64
                } else {
                    -4000000000000i64
                },
            )
        } else if dir.dx > 0 {
            (
                floor_div_signed(mul64(x1 - ox, 1000) as i128, dir.dx as i128) as i64,
                floor_div_signed(mul64(x2 - ox, 1000) as i128, dir.dx as i128) as i64,
            )
        } else {
            (
                floor_div_signed(mul64(x2 - ox, 1000) as i128, dir.dx as i128) as i64,
                floor_div_signed(mul64(x1 - ox, 1000) as i128, dir.dx as i128) as i64,
            )
        };
        let (ny, fy) = if dir.dy == 0 {
            (
                if oy < y1 {
                    4000000000000i64
                } else {
                    -4000000000000i64
                },
                if oy <= y2 {
                    4000000000000i64
                } else {
                    -4000000000000i64
                },
            )
        } else if dir.dy > 0 {
            (
                floor_div_signed(mul64(y1 - oy, 1000) as i128, dir.dy as i128) as i64,
                floor_div_signed(mul64(y2 - oy, 1000) as i128, dir.dy as i128) as i64,
            )
        } else {
            (
                floor_div_signed(mul64(y2 - oy, 1000) as i128, dir.dy as i128) as i64,
                floor_div_signed(mul64(y1 - oy, 1000) as i128, dir.dy as i128) as i64,
            )
        };
        if nx > fy || ny > fx {
            return None;
        }
        let near = if nx >= ny {
            nx
        } else {
            ny
        };
        let far = if fx <= fy {
            fx
        } else {
            fy
        };
        if near >= 1000 || far <= 0 {
            return None;
        }
        if near >= 0 {
            proof {
                lemma_mul_div_clamped(dir.dx as int, near as int, 1000);
                lemma_mul_div_clamped(dir.dy as int, near as int, 1000);
                lemma_mul_div_clamped(-(dir.dx as int), 1000 - near as int, 1000);
                lemma_mul_div_clamped(-(dir.dy as int), 1000 - near as int, 1000);
            }
            let cx = self.origin.x + floor_div(mul64(dir.dx, near) as i128, 1000) as i64;
            let cy = self.origin.y + floor_div(mul64(dir.dy, near) as i128, 1000) as i64;
            let ddx = floor_div(mul64(-dir.dx, 1000 - near) as i128, 1000) as i64;
            let ddy = floor_div(mul64(-dir.dy, 1000 - near) as i128, 1000) as i64;
            let normal = if nx > ny {
                Vector {
                    dx: if dir.dx > 0 {
                        -1000i64
                    } else {
                        1000i64
                    },
                    dy: 0,
                }
            } else {
                Vector {
                    dx: 0,
                    dy: if dir.dy > 0 {
                        -1000i64
                    } else {
                        1000i64
                    },
                }
            };
            Some(
                Hit {
                    contact: Point { x: cx, y: cy },
                    normal,
                    delta: Vector { dx: ddx, dy: ddy },
                    time: near,
                },
            )
        } else {
            None
        }
    }

    fn hit_circle(&self, circle: &Circle) -> (r: Option<Hit>) {
        let dir = self.vector();
        let fx = (self.origin.x - circle.center.x) as i128;
        let fy = (self.origin.y - circle.center.y) as i128;
        let dxl = dir.dx as i128;
        let dyl = dir.dy as i128;
        proof {
            if dir.dx != 0 {
                lemma_sq_pos(dir.dx as int);
            } else {
                lemma_sq_pos(dir.dy as int);
            }
            lemma_sq_nonneg(dir.dx as int);
            lemma_sq_nonneg(dir.dy as int);
        }
        let a = wide_mul(dxl, dxl, Ghost(33554432), Ghost(33554432)) + wide_mul(
            dyl,
            dyl,
            Ghost(33554432),
            Ghost(33554432),
        );
        let b = 2 * (wide_mul(dxl, fx, Ghost(33554432), Ghost(33554432)) + wide_mul(
            dyl,
            fy,
            Ghost(33554432),
            Ghost(33554432),
        ));
        let cc = wide_mul(fx, fx, Ghost(33554432), Ghost(33554432)) + wide_mul(
            fy,
            fy,
            Ghost(33554432),
            Ghost(33554432),
        ) - wide_mul(
            circle.radius as i128,
            circle.radius as i128,
            Ghost(16777216),
            Ghost(16777216),
        );
        let det = wide_mul(b, b, Ghost(4503599627370496), Ghost(4503599627370496)) - 4 * wide_mul(
            a,
            cc,
            Ghost(2251799813685248),
            Ghost(2533274790395904),
        );
        if det < 0 {
            return None;
        }
        let s = isqrt(det);
        proof {
            lemma_sqrt_below(det as int, s as int, 9007199254740992);
        }
        let tn = -b - s;
        let td = 2 * a;
        proof {
            lemma_div_magnitude(tn as int * 1000, td as int);
        }
        let time128 = floor_div(tn * 1000, td);
        if !(0 <= time128 && time128 <= 1000) {
            return None;
        }
        let time = time128 as i64;
        proof {
            lemma_div_magnitude(dxl as int * tn as int, td as int);
            lemma_div_magnitude(dyl as int * tn as int, td as int);
        }
        let qx = floor_div(wide_mul(dxl, tn, Ghost(33554432), Ghost(18014398509481984)), td);
        let qy = floor_div(wide_mul(dyl, tn, Ghost(33554432), Ghost(18014398509481984)), td);
        let xi = self.origin.x as i128 + qx;
        let yi = self.origin.y as i128 + qy;
        if !(-134217728 <= xi && xi <= 134217728 && -134217728 <= yi && yi <= 134217728) {
            return None;
        }
        let contact = Point { x: xi as i64, y: yi as i64 };
        if contact.x == circle.center.x && contact.y == circle.center.y {
            return None;
        }
        let nvec = Vector::new(contact.x - circle.center.x, contact.y - circle.center.y);
        let normal = nvec.get_unit_vector();
        proof {
            lemma_mul_div_clamped(-(dir.dx as int), 1000 - time as int, 1000);
            lemma_mul_div_clamped(-(dir.dy as int), 1000 - time as int, 1000);
        }
        let ddx = floor_div(mul64(-dir.dx, 1000 - time) as i128, 1000) as i64;
        let ddy = floor_div(mul64(-dir.dy, 1000 - time) as i128, 1000) as i64;
        Some(Hit { contact, normal, delta: Vector { dx: ddx, dy: ddy }, time })
    }
}

/// The box-against-point narrow phase: like the box's own `hit_point` but
/// reporting the point itself as the contact.
pub open spec fn bb_collide_point_spec(b: BoundingBox, p: Point) -> Option<Hit> {
    let dx = b.center.x - p.x;
    let px = b.half.w - iabs(dx);
    let dy = b.center.y - p.y;
    let py = b.half.h - iabs(dy);
    if px <= 0 || py <= 0 {
        Option::None
    } else if px < py {
        if dx < 0 {
            Option::Some(
                Hit {
                    contact: p,
                    normal: Vector { dx: -1000i64, dy: 0 },
                    delta: Vector { dx: (-px) as i64, dy: 0 },
                    time: 0,
                },
            )
        } else {
            Option::Some(
                Hit {
                    contact: p,
                    normal: Vector { dx: 1000, dy: 0 },
                    delta: Vector { dx: px as i64, dy: 0 },
                    time: 0,
                },
            )
        }
    } else {
        if dy < 0 {
            Option::Some(
                Hit {
                    contact: p,
                    normal: Vector { dx: 0, dy: -1000i64 },
                    delta: Vector { dx: 0, dy: (-py) as i64 },
                    time: 0,
                },
            )
        } else {
            Option::Some(
                Hit {
                    contact: p,
                    normal: Vector { dx: 0, dy: 1000 },
                    delta: Vector { dx: 0, dy: py as i64 },
                    time: 0,
                },
            )
        }
    }
}

/// The box-against-box narrow phase: summed half-extents give per-axis
/// penetrations; the pair resolves along the axis of smaller penetration.
pub open spec fn bb_collide_box_spec(a: BoundingBox, b: BoundingBox) -> Option<Hit> {
    let dx = a.center.x - b.center.x;
    let px = (a.half.w + b.half.w) - iabs(dx);
    let dy = a.center.y - b.center.y;
    let py = (a.half.h + b.half.h) - iabs(dy);
    if px <= 0 || py <= 0 {
        Option::None
    } else if px < py {
        if dx < 0 {
            Option::Some(
                Hit {
                    contact: Point { x: (b.center.x - b.half.w) as i64, y: a.center.y },
                    normal: Vector { dx: -1000i64, dy: 0 },
                    delta: Vector { dx: (-px) as i64, dy: 0 },
                    time: 0,
                },
            )
        } else {
            Option::Some(
                Hit {
                    contact: Point { x: (b.center.x + b.half.w) as i64, y: a.center.y },
                    normal: Vector { dx: 1000, dy: 0 },
                    delta: Vector { dx: px as i64, dy: 0 },
                    time: 0,
                },
            )
        }
    } else {
        if dy < 0 {
            Option::Some(
                Hit {
                    contact: Point { x: a.center.x, y: (b.center.y - b.half.h) as i64 },
                    normal: Vector { dx: 0, dy: -1000i64 },
                    delta: Vector { dx: 0, dy: (-py) as i64 },
                    time: 0,
                },
            )
        } else {
            Option::Some(
                Hit {
                    contact: Point { x: a.center.x, y: (b.center.y + b.half.h) as i64 },
                    normal: Vector { dx: 0, dy: 1000 },
                    delta: Vector { dx: 0, dy: py as i64 },
                    time: 0,
                },
            )
        }
    }
}

/// The circle's center offset from the box puts the pair in the corner case
/// of the box-against-circle narrow phase: close enough to touch, but
/// neither beside nor above or below the box.
pub open spec fn bb_circle_corner_case(b: BoundingBox, c: Circle) -> bool {
    let dx = b.center.x - c.center.x;
    let dy = b.center.y - c.center.y;
    &&& iabs(dx) <= b.half.w + c.radius
    &&& iabs(dy) <= b.half.h + c.radius
    &&& !(iabs(dy) < iabs(dx) && iabs(dy) < b.half.h)
    &&& !(iabs(dx) < b.half.w)
}

/// The box-against-circle narrow phase: the box is pushed off the circle
/// along an axis when it lies beside or above it, and otherwise off the
/// nearest boundary point of the box.
pub open spec fn bb_circle_spec(b: BoundingBox, c: Circle) -> Option<Hit> {
    let dx = b.center.x - c.center.x;
    let dy = b.center.y - c.center.y;
    if iabs(dx) <= b.half.w + c.radius && iabs(dy) <= b.half.h + c.radius {
        if iabs(dy) < iabs(dx) && iabs(dy) < b.half.h {
            if dx < 0 {
                Option::Some(
                    Hit {
                        contact: Point { x: (c.center.x - c.radius) as i64, y: c.center.y },
                        normal: Vector { dx: -1000i64, dy: 0 },
                        delta: Vector { dx: (-c.radius - b.half.w - dx) as i64, dy: 0 },
                        time: 0,
                    },
                )
            } else {
                Option::Some(
                    Hit {
                        contact: Point { x: (c.center.x + c.radius) as i64, y: c.center.y },
                        normal: Vector { dx: 1000, dy: 0 },
                        delta: Vector { dx: (c.radius + b.half.w - dx) as i64, dy: 0 },
                        time: 0,
                    },
                )
            }
        } else if iabs(dx) < b.half.w {
            if dy < 0 {
                Option::Some(
                    Hit {
                        contact: Point { x: c.center.x, y: (c.center.y - c.radius) as i64 },
                        normal: Vector { dx: 0, dy: -1000i64 },
                        delta: Vector { dx: 0, dy: (-c.radius - b.half.h - dy) as i64 },
                        time: 0,
                    },
                )
            } else {
                Option::Some(
                    Hit {
                        contact: Point { x: c.center.x, y: (c.center.y + c.radius) as i64 },
                        normal: Vector { dx: 0, dy: 1000 },
                        delta: Vector { dx: 0, dy: (c.radius + b.half.h - dy) as i64 },
                        time: 0,
                    },
                )
            }
        } else {
            let deepest = best_boundary_upto(box_corners(b), c.center, 4);
            let vd = Vector {
                dx: (deepest.x - c.center.x) as i64,
                dy: (deepest.y - c.center.y) as i64,
            };
            if sqrt_floor(norm2(vd) as nat) < c.radius {
                let u = unit_spec(vd);
                let delta = Vector {
                    dx: (u.dx * c.radius / 1000 - vd.dx) as i64,
                    dy: (u.dy * c.radius / 1000 - vd.dy) as i64,
                };
                if delta == (Vector { dx: 0, dy: 0 }) {
                    Option::None
                } else {
                    Option::Some(
                        Hit {
                            contact: Point {
                                x: (c.center.x + u.dx * c.radius / 1000) as i64,
                                y: (c.center.y + u.dy * c.radius / 1000) as i64,
                            },
                            normal: unit_spec(delta),
                            delta,
                            time: 0,
                        },
                    )
                }
            } else {
                Option::None
            }
        }
    } else {
        Option::None
    }
}

impl Collidable for BoundingBox {
    open spec fn hit_point_spec(&self, point: Point) -> Option<Hit> {
        bb_collide_point_spec(*self, point)
    }

    open spec fn hit_point_pre(&self, point: Point) -> bool {
        self.wf() && point.wf()
    }

    open spec fn hit_bounding_box_spec(&self, bounding_box: BoundingBox) -> Option<Hit> {
        bb_collide_box_spec(*self, bounding_box)
    }

    open spec fn hit_bounding_box_pre(&self, bounding_box: BoundingBox) -> bool {
        self.wf() && bounding_box.wf()
    }

    open spec fn hit_circle_spec(&self, circle: Circle) -> Option<Hit> {
        bb_circle_spec(*self, circle)
    }

    open spec fn hit_circle_pre(&self, circle: Circle) -> bool {
        &&& self.wf()
        &&& circle.wf()
        &&& (bb_circle_corner_case(*self, circle) ==> self.half.w >= 1 && self.half.h >= 1
            && best_boundary_upto(box_corners(*self), circle.center, 4) != circle.center)
    }

    fn hit_point(&self, point: Point) -> (r: Option<Hit>) {
        let dx = self.center.x - point.x;
        let px = self.half.w - crate::num::abs64(dx);
        if px <= 0 {
            return None;
        }
        let dy = self.center.y - point.y;
        let py = self.half.h - crate::num::abs64(dy);
        if py <= 0 {
            return None;
        }
        if px < py {
            let (unit, push) = if dx < 0 {
                (-1000i64, -px)
            } else {
                (1000i64, px)
            };
            Some(Hit::new(point, Vector { dx: unit, dy: 0 }, Vector { dx: push, dy: 0 }))
        } else {
            let (unit, push) = if dy < 0 {
                (-1000i64, -py)
            } else {
                (1000i64, py)
            };
            Some(Hit::new(point, Vector { dx: 0, dy: unit }, Vector { dx: 0, dy: push }))
        }
    }

    fn hit_bounding_box(&self, bounding_box: BoundingBox) -> (r: Option<Hit>) {
        let dx = self.center.x - bounding_box.center.x;
        let px = (self.half.w + bounding_box.half.w) - crate::num::abs64(dx);
        if px <= 0 {
            return None;
        }
        let dy = self.center.y - bounding_box.center.y;
        let py = (self.half.h + bounding_box.half.h) - crate::num::abs64(dy);
        if py <= 0 {
            return None;
        }
        if px < py {
            let (face, unit, push) = if dx < 0 {
                (bounding_box.center.x - bounding_box.half.w, -1000i64, -px)
            } else {
                (bounding_box.center.x + bounding_box.half.w, 1000i64, px)
            };
            Some(
                Hit::new(
                    Point { x: face, y: self.center.y },
                    Vector { dx: unit, dy: 0 },
                    Vector { dx: push, dy: 0 },
                ),
            )
        } else {
            let (face, unit, push) = if dy < 0 {
                (bounding_box.center.y - bounding_box.half.h, -1000i64, -py)
            } else {
                (bounding_box.center.y + bounding_box.half.h, 1000i64, py)
            };
            Some(
                Hit::new(
                    Point { x: self.center.x, y: face },
                    Vector { dx: 0, dy: unit },
                    Vector { dx: 0, dy: push },
                ),
            )
        }
    }

    fn hit_circle(&self, circle: &Circle) -> (r: Option<Hit>) {
        let dx = self.center.x - circle.center.x;
        let dy = self.center.y - circle.center.y;
        let adx = crate::num::abs64(dx);
        let ady = crate::num::abs64(dy);
        if !(adx <= self.half.w + circle.radius && ady <= self.half.h + circle.radius) {
            return None;
        }
        if ady < adx && ady < self.half.h {
            if dx < 0 {
                Some(
                    Hit::new(
                        Point { x: circle.center.x - circle.radius, y: circle.center.y },
                        Vector { dx: -1000i64, dy: 0 },
                        Vector { dx: -circle.radius - self.half.w - dx, dy: 0 },
                    ),
                )
            } else {
                Some(
                    Hit::new(
                        Point { x: circle.center.x + circle.radius, y: circle.center.y },
                        Vector { dx: 1000, dy: 0 },
                        Vector { dx: circle.radius + self.half.w - dx, dy: 0 },
                    ),
                )
            }
        } else if adx < self.half.w {
            if dy < 0 {
                Some(
                    Hit::new(
                        Point { x: circle.center.x, y: circle.center.y - circle.radius },
                        Vector { dx: 0, dy: -1000i64 },
                        Vector { dx: 0, dy: -circle.radius - self.half.h - dy },
                    ),
                )
            } else {
                Some(
                    Hit::new(
                        Point { x: circle.center.x, y: circle.center.y + circle.radius },
                        Vector { dx: 0, dy: 1000 },
                        Vector { dx: 0, dy: circle.radius + self.half.h - dy },
                    ),
                )
            }
        } else {
            proof {
                crate::collision::bounding_box::lemma_box_corners_nondegenerate(*self);
            }
            let poly = self.polygon();
            let deepest = poly.closest_point(circle.center);
            let vd = Vector::new(deepest.x - circle.center.x, deepest.y - circle.center.y);
            let vm = vd.magnitude();
            if vm < circle.radius {
                let u = vd.get_unit_vector();
                proof {
                    lemma_mul_bounds(u.dx as int, 1000, circle.radius as int, circle.radius as int);
                    lemma_mul_bounds(u.dy as int, 1000, circle.radius as int, circle.radius as int);
                    lemma_div_bounded(u.dx * circle.radius, circle.radius as int, 1000);
                    lemma_div_bounded(u.dy * circle.radius, circle.radius as int, 1000);
                }
                let ax = floor_div(mul64(u.dx, circle.radius) as i128, 1000) as i64;
                let ay = floor_div(mul64(u.dy, circle.radius) as i128, 1000) as i64;
                let delta = Vector { dx: ax - vd.dx, dy: ay - vd.dy };
                if delta.dx == 0 && delta.dy == 0 {
                    return None;
                }
                let normal = delta.get_unit_vector();
                Some(
                    Hit::new(
                        Point { x: circle.center.x + ax, y: circle.center.y + ay },
                        normal,
                        delta,
                    ),
                )
            } else {
                None
            }
        }
    }
}

/// The circle-against-point narrow phase: a hit when the point is within
/// the radius; the normal points from the point toward the circle center.
pub open spec fn circle_point_spec(c: Circle, p: Point) -> Option<Hit> {
    let dist = Vector { dx: (c.center.x - p.x) as i64, dy: (c.center.y - p.y) as i64 };
    let dm = sqrt_floor(norm2(dist) as nat) as int;
    if dm <= c.radius {
        let normal = unit_spec(dist);
        Option::Some(
            Hit {
                contact: p,
                normal,
                delta: Vector {
                    dx: (normal.dx * (c.radius - dm) / 1000) as i64,
                    dy: (normal.dy * (c.radius - dm) / 1000) as i64,
                },
                time: 0,
            },
        )
    } else {
        Option::None
    }
}

/// The circle's center offset from the box puts the pair in the corner case
/// of the circle-against-box narrow phase.
pub open spec fn circle_box_corner_case(c: Circle, b: BoundingBox) -> bool {
    let dx = c.center.x - b.center.x;
    let dy = c.center.y - b.center.y;
    &&& iabs(dx) <= b.half.w + c.radius
    &&& iabs(dy) <= b.half.h + c.radius
    &&& !(iabs(dy) <= b.half.h && iabs(dx) < b.half.w)
    &&& !(iabs(dy) <= b.half.h)
    &&& !(iabs(dx) < b.half.w)
}

/// The circle-against-box narrow phase: a circle centered inside the box
/// leaves through the nearer face; one beside or above the box is pushed
/// along that axis; one near a corner is pushed off the box's nearest
/// boundary point.
pub open spec fn circle_box_spec(c: Circle, b: BoundingBox) -> Option<Hit> {
    let dx = c.center.x - b.center.x;
    let dy = c.center.y - b.center.y;
    if iabs(dx) <= b.half.w + c.radius && iabs(dy) <= b.half.h + c.radius {
        if iabs(dy) <= b.half.h && iabs(dx) < b.half.w {
            let pushx = if dx < 0 {
                -(b.half.w + c.radius) - dx
            } else {
                b.half.w + c.radius - dx
            };
            let pushy = if dy < 0 {
                -(b.half.h + c.radius) - dy
            } else {
                b.half.h + c.radius - dy
            };
            if iabs(pushx) < iabs(pushy) {
                Option::Some(
                    Hit {
                        contact: Point {
                            x: (b.center.x + if dx < 0 {
                                -b.half.w as int
                            } else {
                                b.half.w as int
                            }) as i64,
                            y: c.center.y,
                        },
                        normal: Vector {
                            dx: if dx < 0 {
                                -1000i64
                            } else {
                                1000i64
                            },
                            dy: 0,
                        },
                        delta: Vector { dx: pushx as i64, dy: 0 },
                        time: 0,
                    },
                )
            } else {
                Option::Some(
                    Hit {
                        contact: Point {
                            x: c.center.x,
                            y: (b.center.y + if dy < 0 {
                                -b.half.h as int
                            } else {
                                b.half.h as int
                            }) as i64,
                        },
                        normal: Vector {
                            dx: 0,
                            dy: if dy < 0 {
                                -1000i64
                            } else {
                                1000i64
                            },
                        },
                        delta: Vector { dx: 0, dy: pushy as i64 },
                        time: 0,
                    },
                )
            }
        } else if iabs(dy) <= b.half.h {
            if dx < 0 {
                Option::Some(
                    Hit {
                        contact: Point { x: (b.center.x - b.half.w) as i64, y: c.center.y },
                        normal: Vector { dx: -1000i64, dy: 0 },
                        delta: Vector { dx: (-(b.half.w + c.radius) - dx) as i64, dy: 0 },
                        time: 0,
                    },
                )
            } else {
                Option::Some(
                    Hit {
                        contact: Point { x: (b.center.x + b.half.w) as i64, y: c.center.y },
                        normal: Vector { dx: 1000, dy: 0 },
                        delta: Vector { dx: (b.half.w + c.radius - dx) as i64, dy: 0 },
                        time: 0,
                    },
                )
            }
        } else if iabs(dx) < b.half.w {
            if dy < 0 {
                Option::Some(
                    Hit {
                        contact: Point { x: c.center.x, y: (b.center.y - b.half.h) as i64 },
                        normal: Vector { dx: 0, dy: -1000i64 },
                        delta: Vector { dx: 0, dy: (-(b.half.h + c.radius) - dy) as i64 },
                        time: 0,
                    },
                )
            } else {
                Option::Some(
                    Hit {
                        contact: Point { x: c.center.x, y: (b.center.y + b.half.h) as i64 },
                        normal: Vector { dx: 0, dy: 1000 },
                        delta: Vector { dx: 0, dy: (b.half.h + c.radius - dy) as i64 },
                        time: 0,
                    },
                )
            }
        } else {
            let deepest = best_boundary_upto(box_corners(b), c.center, 4);
            let vd = Vector {
                dx: (c.center.x - deepest.x) as i64,
                dy: (c.center.y - deepest.y) as i64,
            };
            if sqrt_floor(norm2(vd) as nat) < c.radius {
                let u = unit_spec(vd);
                let delta = Vector {
                    dx: (u.dx * c.radius / 1000 - vd.dx) as i64,
                    dy: (u.dy * c.radius / 1000 - vd.dy) as i64,
                };
                if delta == (Vector { dx: 0, dy: 0 }) {
                    Option::None
                } else {
                    Option::Some(
                        Hit { contact: deepest, normal: unit_spec(delta), delta, time: 0 },
                    )
                }
            } else {
                Option::None
            }
        }
    } else {
        Option::None
    }
}

/// The circle-against-circle narrow phase: a hit when the centers are
/// within the summed radii; the normal points from the other circle toward
/// this one.
pub open spec fn circle_circle_spec(a: Circle, b: Circle) -> Option<Hit> {
    let dist = Vector { dx: (a.center.x - b.center.x) as i64, dy: (a.center.y - b.center.y) as i64 };
    let dm = sqrt_floor(norm2(dist) as nat) as int;
    if dm <= a.radius + b.radius {
        let normal = unit_spec(dist);
        Option::Some(
            Hit {
                contact: Point {
                    x: (b.center.x + normal.dx * b.radius / 1000) as i64,
                    y: (b.center.y + normal.dy * b.radius / 1000) as i64,
                },
                normal,
                delta: Vector {
                    dx: (normal.dx * (a.radius + b.radius - dm) / 1000) as i64,
                    dy: (normal.dy * (a.radius + b.radius - dm) / 1000) as i64,
                },
                time: 0,
            },
        )
    } else {
        Option::None
    }
}

impl Collidable for Circle {
    open spec fn hit_point_spec(&self, point: Point) -> Option<Hit> {
        circle_point_spec(*self, point)
    }

    open spec fn hit_point_pre(&self, point: Point) -> bool {
        Circle::wf(self) && point.wf() && point != self.center
    }

    open spec fn hit_bounding_box_spec(&self, bounding_box: BoundingBox) -> Option<Hit> {
        circle_box_spec(*self, bounding_box)
    }

    open spec fn hit_bounding_box_pre(&self, bounding_box: BoundingBox) -> bool {
        &&& Circle::wf(self)
        &&& bounding_box.wf()
        &&& (circle_box_corner_case(*self, bounding_box) ==> bounding_box.half.w >= 1
            && bounding_box.half.h >= 1 && best_boundary_upto(
            box_corners(bounding_box),
            self.center,
            4,
        ) != self.center)
    }

    open spec fn hit_circle_spec(&self, circle: Circle) -> Option<Hit> {
        circle_circle_spec(*self, circle)
    }

    open spec fn hit_circle_pre(&self, circle: Circle) -> bool {
        Circle::wf(self) && circle.wf() && self.center != circle.center
    }

    fn hit_point(&self, point: Point) -> (r: Option<Hit>) {
        let dist = Vector::new(self.center.x - point.x, self.center.y - point.y);
        let dm = dist.magnitude();
        if dm <= self.radius {
            let normal = dist.get_unit_vector();
            proof {
                lemma_mul_bounds(normal.dx as int, 1000, self.radius - dm, self.radius as int);
                lemma_mul_bounds(normal.dy as int, 1000, self.radius - dm, self.radius as int);
                lemma_div_bounded(normal.dx * (self.radius - dm), self.radius as int, 1000);
                lemma_div_bounded(normal.dy * (self.radius - dm), self.radius as int, 1000);
            }
            let ddx = floor_div(mul64(normal.dx, self.radius - dm) as i128, 1000) as i64;
            let ddy = floor_div(mul64(normal.dy, self.radius - dm) as i128, 1000) as i64;
            Some(Hit::new(point, normal, Vector { dx: ddx, dy: ddy }))
        } else {
            None
        }
    }

    fn hit_bounding_box(&self, bounding_box: BoundingBox) -> (r: Option<Hit>) {
        let dx = self.center.x - bounding_box.center.x;
        let dy = self.center.y - bounding_box.center.y;
        let adx = crate::num::abs64(dx);
        let ady = crate::num::abs64(dy);
        if !(adx <= bounding_box.half.w + self.radius && ady <= bounding_box.half.h
            + self.radius) {
            return None;
        }
        if ady <= bounding_box.half.h && adx < bounding_box.half.w {
            let pushx = if dx < 0 {
                -(bounding_box.half.w + self.radius) - dx
            } else {
                bounding_box.half.w + self.radius - dx
            };
            let pushy = if dy < 0 {
                -(bounding_box.half.h + self.radius) - dy
            } else {
                bounding_box.half.h + self.radius - dy
            };
            if crate::num::abs64(pushx) < crate::num::abs64(pushy) {
                let (face, unit) = if dx < 0 {
                    (bounding_box.center.x - bounding_box.half.w, -1000i64)
                } else {
                    (bounding_box.center.x + bounding_box.half.w, 1000i64)
                };
                Some(
                    Hit::new(
                        Point { x: face, y: self.center.y },
                        Vector { dx: unit, dy: 0 },
                        Vector { dx: pushx, dy: 0 },
                    ),
                )
            } else {
                let (face, unit) = if dy < 0 {
                    (bounding_box.center.y - bounding_box.half.h, -1000i64)
                } else {
                    (bounding_box.center.y + bounding_box.half.h, 1000i64)
                };
                Some(
                    Hit::new(
                        Point { x: self.center.x, y: face },
                        Vector { dx: 0, dy: unit },
                        Vector { dx: 0, dy: pushy },
                    ),
                )
            }
        } else if ady <= bounding_box.half.h {
            let (face, unit, push) = if dx < 0 {
                (
                    bounding_box.center.x - bounding_box.half.w,
                    -1000i64,
                    -(bounding_box.half.w + self.radius) - dx,
                )
            } else {
                (
                    bounding_box.center.x + bounding_box.half.w,
                    1000i64,
                    bounding_box.half.w + self.radius - dx,
                )
            };
            Some(
                Hit::new(
                    Point { x: face, y: self.center.y },
                    Vector { dx: unit, dy: 0 },
                    Vector { dx: push, dy: 0 },
                ),
            )
        } else if adx < bounding_box.half.w {
            let (face, unit, push) = if dy < 0 {
                (
                    bounding_box.center.y - bounding_box.half.h,
                    -1000i64,
                    -(bounding_box.half.h + self.radius) - dy,
                )
            } else {
                (
                    bounding_box.center.y + bounding_box.half.h,
                    1000i64,
                    bounding_box.half.h + self.radius - dy,
                )
            };
            Some(
                Hit::new(
                    Point { x: self.center.x, y: face },
                    Vector { dx: 0, dy: unit },
                    Vector { dx: 0, dy: push },
                ),
            )
        } else {
            proof {
                crate::collision::bounding_box::lemma_box_corners_nondegenerate(bounding_box);
            }
            let poly = bounding_box.polygon();
            let deepest = poly.closest_point(self.center);
            let vd = Vector::new(self.center.x - deepest.x, self.center.y - deepest.y);
            let vm = vd.magnitude();
            if vm < self.radius {
                let u = vd.get_unit_vector();
                proof {
                    lemma_mul_bounds(u.dx as int, 1000, self.radius as int, self.radius as int);
                    lemma_mul_bounds(u.dy as int, 1000, self.radius as int, self.radius as int);
                    lemma_div_bounded(u.dx * self.radius, self.radius as int, 1000);
                    lemma_div_bounded(u.dy * self.radius, self.radius as int, 1000);
                }
                let ax = floor_div(mul64(u.dx, self.radius) as i128, 1000) as i64;
                let ay = floor_div(mul64(u.dy, self.radius) as i128, 1000) as i64;
                let delta = Vector { dx: ax - vd.dx, dy: ay - vd.dy };
                if delta.dx == 0 && delta.dy == 0 {
                    return None;
                }
                let normal = delta.get_unit_vector();
                Some(Hit::new(deepest, normal, delta))
            } else {
                None
            }
        }
    }

    fn hit_circle(&self, circle: &Circle) -> (r: Option<Hit>) {
        let dist = Vector::new(
            self.center.x - circle.center.x,
            self.center.y - circle.center.y,
        );
        let dm = dist.magnitude();
        if dm <= self.radius + circle.radius {
            let normal = dist.get_unit_vector();
            let reach = self.radius + circle.radius - dm;
            proof {
                lemma_mul_bounds(normal.dx as int, 1000, reach as int, 33554432);
                lemma_mul_bounds(normal.dy as int, 1000, reach as int, 33554432);
                lemma_div_bounded(normal.dx * reach, 33554432, 1000);
                lemma_div_bounded(normal.dy * reach, 33554432, 1000);
                lemma_mul_bounds(normal.dx as int, 1000, circle.radius as int, circle.radius as int);
                lemma_mul_bounds(normal.dy as int, 1000, circle.radius as int, circle.radius as int);
                lemma_div_bounded(normal.dx * circle.radius, circle.radius as int, 1000);
                lemma_div_bounded(normal.dy * circle.radius, circle.radius as int, 1000);
            }
            let cx = floor_div(mul64(normal.dx, circle.radius) as i128, 1000) as i64;
            let cy = floor_div(mul64(normal.dy, circle.radius) as i128, 1000) as i64;
            let ddx = floor_div(mul64(normal.dx, reach) as i128, 1000) as i64;
            let ddy = floor_div(mul64(normal.dy, reach) as i128, 1000) as i64;
            Some(
                Hit::new(
                    Point { x: circle.center.x + cx, y: circle.center.y + cy },
                    normal,
                    Vector { dx: ddx, dy: ddy },
                ),
            )
        } else {
            None
        }
    }
}

/// The rectangle-against-point narrow phase: a point strictly inside is
/// pushed to the nearest boundary point. A push that rounds to nothing is
/// not reported.
pub open spec fn rect_point_spec(rect: Rectangle, p: Point) -> Option<Hit> {
    let rpoly = rect_vertices(rect.center, rect.size, rect.phi);
    if crate::shape::polygon::inside_spec(rpoly, p) {
        let closest = best_boundary_upto(rpoly, p, 4);
        let delta = Vector { dx: (closest.x - p.x) as i64, dy: (closest.y - p.y) as i64 };
        if delta == (Vector { dx: 0, dy: 0 }) {
            Option::None
        } else {
            Option::Some(Hit { contact: closest, normal: unit_spec(delta), delta, time: 0 })
        }
    } else {
        Option::None
    }
}

/// Of the box corners at the given indices, the one pushed deepest into the
/// rectangle, with its nearest rectangle boundary point; scans the first
/// `n` indices, earlier corners winning ties.
pub open spec fn deepest_corner(
    rpoly: Seq<Point>,
    bpoly: Seq<Point>,
    idxs: Seq<int>,
    n: int,
) -> (Point, Point)
    decreases n,
{
    if n <= 1 {
        let v = bpoly[idxs[0]];
        (v, best_boundary_upto(rpoly, v, rpoly.len() as int))
    } else {
        let prev = deepest_corner(rpoly, bpoly, idxs, n - 1);
        let v = bpoly[idxs[n - 1]];
        let c = best_boundary_upto(rpoly, v, rpoly.len() as int);
        if dist2(v, c) > dist2(prev.0, prev.1) {
            (v, c)
        } else {
            prev
        }
    }
}

/// The rectangle-against-box narrow phase, a partial routine: the box
/// corners strictly inside the rectangle are found, and the deepest one is
/// pushed out through its nearest rectangle boundary point. Box edges
/// crossing the rectangle without a corner inside are not detected.
pub open spec fn rect_box_spec(rect: Rectangle, b: BoundingBox) -> Option<Hit> {
    let rpoly = rect_vertices(rect.center, rect.size, rect.phi);
    let bpoly = box_corners(b);
    let idxs = inside_indices_upto(bpoly, rpoly, 4);
    if idxs.len() == 0 {
        Option::None
    } else {
        let best = deepest_corner(rpoly, bpoly, idxs, idxs.len() as int);
        let delta = Vector {
            dx: (best.0.x - best.1.x) as i64,
            dy: (best.0.y - best.1.y) as i64,
        };
        if delta == (Vector { dx: 0, dy: 0 }) {
            Option::None
        } else {
            Option::Some(Hit { contact: best.1, normal: unit_spec(delta), delta, time: 0 })
        }
    }
}

impl Collidable for Rectangle {
    open spec fn hit_point_spec(&self, point: Point) -> Option<Hit> {
        rect_point_spec(*self, point)
    }

    open spec fn hit_point_pre(&self, point: Point) -> bool {
        &&& Rectangle::wf(self)
        &&& point.wf()
        &&& edges_nondegenerate(rect_vertices(self.center, self.size, self.phi))
    }

    open spec fn hit_bounding_box_spec(&self, bounding_box: BoundingBox) -> Option<Hit> {
        rect_box_spec(*self, bounding_box)
    }

    open spec fn hit_bounding_box_pre(&self, bounding_box: BoundingBox) -> bool {
        &&& Rectangle::wf(self)
        &&& bounding_box.wf()
        &&& edges_nondegenerate(rect_vertices(self.center, self.size, self.phi))
    }

    /// The rectangle-against-circle pairing has no narrow-phase routine
    /// yet: it reports no collision for every pair.
    open spec fn hit_circle_spec(&self, circle: Circle) -> Option<Hit> {
        Option::None
    }

    open spec fn hit_circle_pre(&self, circle: Circle) -> bool {
        true
    }

    fn hit_point(&self, point: Point) -> (r: Option<Hit>) {
        let poly = self.polygon();
        if poly.is_inside(point) {
            let closest = poly.closest_point(point);
            let delta = Vector { dx: closest.x - point.x, dy: closest.y - point.y };
            if delta.dx == 0 && delta.dy == 0 {
                return None;
            }
            let normal = delta.get_unit_vector();
            Some(Hit::new(closest, normal, delta))
        } else {
            None
        }
    }

    fn hit_bounding_box(&self, bounding_box: BoundingBox) -> (r: Option<Hit>) {
        let ghost rpoly = rect_vertices(self.center, self.size, self.phi);
        let ghost bpoly = box_corners(bounding_box);
        let rect_poly = self.polygon();
        let box_poly = bounding_box.polygon();
        let inside = box_poly.vertices_inside(&rect_poly);
        match inside {
            None => None,
            Some(idxs) => {
                let ghost sidx = inside_indices_upto(bpoly, rpoly, 4);
                let first = box_poly.vertices[idxs[0]];
                let mut best_vertex = first;
                let mut best_point = rect_poly.closest_point(first);
                let mut best_d2 = first.squared_distance_to(best_point);
                let mut k: usize = 1;
                while k < idxs.len()
                    invariant
                        1 <= k <= idxs.len(),
                        idxs@.len() == sidx.len(),
                        sidx.len() >= 1,
                        forall|j: int| 0 <= j < sidx.len() ==> (#[trigger] idxs@[j]) as int
                            == sidx[j],
                        forall|j: int| 0 <= j < idxs@.len() ==> (#[trigger] idxs@[j]) < 4,
                        rpoly == rect_vertices(self.center, self.size, self.phi),
                        bpoly == box_corners(bounding_box),
                        rect_poly.vertices@ == rpoly,
                        box_poly.vertices@ == bpoly,
                        rect_poly.wf(),
                        box_poly.wf(),
                        point_wf_pair(best_vertex, best_point),
                        Rectangle::wf(self),
                        bounding_box.wf(),
                        edges_nondegenerate(rpoly),
                        (best_vertex, best_point) == deepest_corner(rpoly, bpoly, sidx, k as int),
                        best_d2 == dist2(best_vertex, best_point),
                    decreases idxs.len() - k,
                {
                    let v = box_poly.vertices[idxs[k]];
                    let c = rect_poly.closest_point(v);
                    let d2 = v.squared_distance_to(c);
                    if d2 > best_d2 {
                        best_vertex = v;
                        best_point = c;
                        best_d2 = d2;
                    }
                    k += 1;
                }
                let delta = Vector {
                    dx: best_vertex.x - best_point.x,
                    dy: best_vertex.y - best_point.y,
                };
                if delta.dx == 0 && delta.dy == 0 {
                    return None;
                }
                let normal = delta.get_unit_vector();
                Some(Hit::new(best_point, normal, delta))
            },
        }
    }

    fn hit_circle(&self, circle: &Circle) -> (r: Option<Hit>) {
        None
    }
}

/// Both points of a scan pair are representable.
pub open spec fn point_wf_pair(a: Point, b: Point) -> bool {
    a.wf() && b.wf()
}

} // verus!
