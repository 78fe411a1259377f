//! Ordered vertex rings: the boundary representation every shape reduces
//! to.

use crate::base::line_segment::{lemma_seg_intersection_wide, on_segment_spec, seg_closest, seg_intersection_spec, LineSegment};
use crate::base::point::{dist2, Point};
use crate::base::size::Size;
use crate::base::vector::Vector;
use crate::collision::bounding_box::BoundingBox;
use crate::num::{max_i, min_i};
use vstd::prelude::*;

verus! {

/// A polygon as an ordered ring of vertices; insertion order fixes the
/// winding.
#[derive(Clone, Debug, PartialEq, Eq)]
pub struct Polygon {
    pub vertices: Vec<Point>,
}

/// Every vertex is representable.
pub open spec fn poly_wf(poly: Seq<Point>) -> bool {
    forall|i: int| 0 <= i < poly.len() ==> (#[trigger] poly[i]).wf()
}

/// The `i`-th boundary edge: from vertex `i` to the next vertex around the
/// ring.
pub open spec fn edge(poly: Seq<Point>, i: int) -> LineSegment {
    LineSegment { origin: poly[i], end: poly[(i + 1) % (poly.len() as int)] }
}

/// No boundary edge joins two equal vertices.
pub open spec fn edges_nondegenerate(poly: Seq<Point>) -> bool {
    forall|i: int| 0 <= i < poly.len() ==> (#[trigger] edge(poly, i)).origin != edge(poly, i).end
}

/// The point `start` advanced by the first `n` displacements.
pub open spec fn chain_point(start: Point, vs: Seq<Vector>, n: int) -> Point
    decreases n,
{
    if n <= 0 {
        start
    } else {
        let p = chain_point(start, vs, n - 1);
        Point { x: (p.x + vs[n - 1].dx) as i64, y: (p.y + vs[n - 1].dy) as i64 }
    }
}

/// Smallest x coordinate among the first `n` vertices.
pub open spec fn min_x_upto(poly: Seq<Point>, n: int) -> int
    decreases n,
{
    if n <= 1 {
        poly[0].x as int
    } else {
        min_i(min_x_upto(poly, n - 1), poly[n - 1].x as int)
    }
}

/// Largest x coordinate among the first `n` vertices.
pub open spec fn max_x_upto(poly: Seq<Point>, n: int) -> int
    decreases n,
{
    if n <= 1 {
        poly[0].x as int
    } else {
        max_i(max_x_upto(poly, n - 1), poly[n - 1].x as int)
    }
}

/// Smallest y coordinate among the first `n` vertices.
pub open spec fn min_y_upto(poly: Seq<Point>, n: int) -> int
    decreases n,
{
    if n <= 1 {
        poly[0].y as int
    } else {
        min_i(min_y_upto(poly, n - 1), poly[n - 1].y as int)
    }
}

/// Largest y coordinate among the first `n` vertices.
pub open spec fn max_y_upto(poly: Seq<Point>, n: int) -> int
    decreases n,
{
    if n <= 1 {
        poly[0].y as int
    } else {
        max_i(max_y_upto(poly, n - 1), poly[n - 1].y as int)
    }
}

/// The axis-aligned box spanning a vertex ring's coordinate extremes, in
/// center and half-extent form, extents rounded down.
pub open spec fn poly_bbox(poly: Seq<Point>) -> BoundingBox {
    let n = poly.len() as int;
    let hw = (max_x_upto(poly, n) - min_x_upto(poly, n)) / 2;
    let hh = (max_y_upto(poly, n) - min_y_upto(poly, n)) / 2;
    BoundingBox {
        center: Point {
            x: (min_x_upto(poly, n) + hw) as i64,
            y: (min_y_upto(poly, n) + hh) as i64,
        },
        half: Size { w: hw as i64, h: hh as i64 },
    }
}

impl Polygon {
    /// Every vertex is representable.
    pub open spec fn wf(&self) -> bool {
        poly_wf(self.vertices@)
    }

    /// A polygon over a copy of the given vertices.
    pub fn new(vertices: &Vec<Point>) -> (r: Polygon)
        ensures
            r.vertices@ == vertices@,
    {
        let mut v: Vec<Point> = Vec::new();
        let mut i: usize = 0;
        while i < vertices.len()
            invariant
                i <= vertices.len(),
                v@ == vertices@.subrange(0, i as int),
            decreases vertices.len() - i,
        {
            v.push(vertices[i]);
            proof {
                assert(v@ =~= vertices@.subrange(0, i + 1));
            }
            i += 1;
        }
        proof {
            assert(v@ =~= vertices@);
        }
        Polygon { vertices: v }
    }

    /// The polygon whose vertices chain from `start` along the given
    /// displacements.
    pub fn from_vectors(start: Point, vectors: &Vec<Vector>) -> (r: Polygon)
        requires
            start.wf(),
            forall|i: int| 0 <= i < vectors@.len() ==> (#[trigger] vectors@[i]).wf(),
            forall|i: int|
                0 <= i <= vectors@.len() ==> (#[trigger] chain_point(start, vectors@, i)).wf(),
        ensures
            r.vertices@.len() == vectors@.len() + 1,
            forall|i: int|
                0 <= i <= vectors@.len() ==> r.vertices@[i] == chain_point(start, vectors@, i),
            r.wf(),
    {
        let mut vertices: Vec<Point> = Vec::new();
        vertices.push(start);
        let mut i: usize = 0;
        while i < vectors.len()
            invariant
                i <= vectors.len(),
                vertices@.len() == i + 1,
                start.wf(),
                forall|j: int| 0 <= j < vectors@.len() ==> (#[trigger] vectors@[j]).wf(),
                forall|j: int|
                    0 <= j <= vectors@.len() ==> (#[trigger] chain_point(start, vectors@, j)).wf(),
                forall|j: int|
                    0 <= j <= i ==> vertices@[j] == chain_point(start, vectors@, j),
            decreases vectors.len() - i,
        {
            let last = vertices[vertices.len() - 1];
            vertices.push(last.add_vector(vectors[i]));
            i += 1;
        }
        Polygon { vertices }
    }

    /// The boundary edges, one from each vertex to the next around the
    /// ring.
    pub fn to_lines(&self) -> (r: Vec<LineSegment>)
        ensures
            r@.len() == self.vertices@.len(),
            forall|i: int| 0 <= i < r@.len() ==> r@[i] == edge(self.vertices@, i),
    {
        let n = self.vertices.len();
        let mut lines: Vec<LineSegment> = Vec::new();
        let mut i: usize = 0;
        while i < n
            invariant
                i <= n,
                n == self.vertices@.len(),
                lines@.len() == i,
                forall|j: int| 0 <= j < i ==> lines@[j] == edge(self.vertices@, j),
            decreases n - i,
        {
            lines.push(
                LineSegment { origin: self.vertices[i], end: self.vertices[(i + 1) % n] },
            );
            i += 1;
        }
        lines
    }

    /// The axis-aligned box spanning the vertices' coordinate extremes;
    /// extents of odd length lose half a count to rounding.
    pub fn to_bounding_box(&self) -> (r: BoundingBox)
        requires
            self.wf(),
            self.vertices@.len() >= 1,
        ensures
            r.half.w == (max_x_upto(self.vertices@, self.vertices@.len() as int) - min_x_upto(
                self.vertices@,
                self.vertices@.len() as int,
            )) / 2,
            r.half.h == (max_y_upto(self.vertices@, self.vertices@.len() as int) - min_y_upto(
                self.vertices@,
                self.vertices@.len() as int,
            )) / 2,
            r.center.x == min_x_upto(self.vertices@, self.vertices@.len() as int) + r.half.w,
            r.center.y == min_y_upto(self.vertices@, self.vertices@.len() as int) + r.half.h,
            r == poly_bbox(self.vertices@),
            r.wf(),
    {
        let n = self.vertices.len();
        let first = self.vertices[0];
        let mut minx = first.x;
        let mut maxx = first.x;
        let mut miny = first.y;
        let mut maxy = first.y;
        let mut i: usize = 1;
        while i < n
            invariant
                1 <= i <= n,
                n == self.vertices@.len(),
                self.wf(),
                minx == min_x_upto(self.vertices@, i as int),
                maxx == max_x_upto(self.vertices@, i as int),
                miny == min_y_upto(self.vertices@, i as int),
                maxy == max_y_upto(self.vertices@, i as int),
                crate::num::in_range(minx as int),
                crate::num::in_range(maxx as int),
                crate::num::in_range(miny as int),
                crate::num::in_range(maxy as int),
                minx <= maxx,
                miny <= maxy,
            decreases n - i,
        {
            let p = self.vertices[i];
            if p.x < minx {
                minx = p.x;
            }
            if p.x > maxx {
                maxx = p.x;
            }
            if p.y < miny {
                miny = p.y;
            }
            if p.y > maxy {
                maxy = p.y;
            }
            i += 1;
        }
        let hw = (maxx - minx) / 2;
        let hh = (maxy - miny) / 2;
        proof {
            crate::num::lemma_div_magnitude(maxx - minx, 2);
            crate::num::lemma_div_magnitude(maxy - miny, 2);
            vstd::arithmetic::div_mod::lemma_fundamental_div_mod(maxx - minx, 2);
            vstd::arithmetic::div_mod::lemma_fundamental_div_mod(maxy - miny, 2);
            vstd::arithmetic::div_mod::lemma_mod_bound(maxx - minx, 2);
            vstd::arithmetic::div_mod::lemma_mod_bound(maxy - miny, 2);
        }
        BoundingBox {
            center: Point { x: minx + hw, y: miny + hh },
            half: Size { w: hw, h: hh },
        }
    }

    /// The boundary point nearest to `point`: the best of every edge's
    /// rounded projection and every vertex, earlier edges winning ties.
    pub fn closest_point(&self, point: Point) -> (r: Point)
        requires
            self.wf(),
            point.wf(),
            self.vertices@.len() >= 1,
            edges_nondegenerate(self.vertices@),
        ensures
            r == best_boundary_upto(self.vertices@, point, self.vertices@.len() as int),
            forall|i: int|
                0 <= i < self.vertices@.len() ==> dist2(point, r) <= dist2(
                    point,
                    #[trigger] self.vertices@[i],
                ),
            exists|i: int|
                0 <= i < self.vertices@.len() && (r == seg_closest(edge(self.vertices@, i), point)
                    || r == self.vertices@[i]),
            r.wf(),
    {
        let ghost poly = self.vertices@;
        let n = self.vertices.len();
        let e0 = LineSegment { origin: self.vertices[0], end: self.vertices[1 % n] };
        proof {
            assert(e0 == edge(poly, 0));
        }
        let c0 = e0.closest_point(point);
        let mut best = c0;
        let mut bd = point.squared_distance_to(best);
        let v0 = self.vertices[0];
        let vd = point.squared_distance_to(v0);
        if vd < bd {
            best = v0;
            bd = vd;
        }
        let mut i: usize = 1;
        while i < n
            invariant
                1 <= i <= n,
                n == poly.len(),
                poly == self.vertices@,
                self.wf(),
                point.wf(),
                edges_nondegenerate(poly),
                best == best_boundary_upto(poly, point, i as int),
                bd == dist2(point, best),
                best.wf(),
            decreases n - i,
        {
            let e = LineSegment {
                origin: self.vertices[i],
                end: self.vertices[(i + 1) % n],
            };
            proof {
                assert(e == edge(poly, i as int));
            }
            let c = e.closest_point(point);
            let cd = point.squared_distance_to(c);
            if cd < bd {
                best = c;
                bd = cd;
            }
            let v = self.vertices[i];
            let vd2 = point.squared_distance_to(v);
            if vd2 < bd {
                best = v;
                bd = vd2;
            }
            i += 1;
        }
        proof {
            lemma_best_boundary_upto(poly, point, n as int);
        }
        best
    }

    /// Whether `point` is strictly interior; points exactly on the boundary
    /// are not inside.
    pub fn is_inside(&self, point: Point) -> (r: bool)
        requires
            self.wf(),
            point.wf(),
        ensures
            r == inside_spec(self.vertices@, point),
    {
        let ghost poly = self.vertices@;
        let n = self.vertices.len();
        let mut i: usize = 0;
        while i < n
            invariant
                i <= n,
                n == poly.len(),
                poly == self.vertices@,
                self.wf(),
                point.wf(),
                forall|j: int| 0 <= j < i ==> !on_segment_spec(#[trigger] edge(poly, j), point),
            decreases n - i,
        {
            let e = LineSegment {
                origin: self.vertices[i],
                end: self.vertices[(i + 1) % n],
            };
            proof {
                assert(e == edge(poly, i as int));
            }
            if e.is_on_segment(point) {
                return false;
            }
            i += 1;
        }
        let mut count: usize = 0;
        let mut j: usize = 0;
        while j < n
            invariant
                j <= n,
                n == poly.len(),
                poly == self.vertices@,
                self.wf(),
                point.wf(),
                count <= j,
                count == crossings_upto(poly, point, j as int),
            decreases n - j,
        {
            let a = self.vertices[j];
            let b = self.vertices[(j + 1) % n];
            proof {
                crate::num::lemma_mul_bounds(point.x - a.x, 536870912, b.y - a.y, 536870912);
                crate::num::lemma_mul_bounds(b.x - a.x, 536870912, point.y - a.y, 536870912);
            }
            let straddles = (a.y > point.y) != (b.y > point.y);
            if straddles {
                let lhs = crate::num::mul64(point.x - a.x, b.y - a.y);
                let rhs = crate::num::mul64(b.x - a.x, point.y - a.y);
                let crosses = if b.y > a.y {
                    lhs < rhs
                } else {
                    lhs > rhs
                };
                if crosses {
                    count += 1;
                }
            }
            j += 1;
        }
        count % 2 == 1
    }

    /// The indices of this polygon's vertices that lie strictly inside the
    /// other polygon, or nothing when no vertex does.
    pub fn vertices_inside(&self, other: &Polygon) -> (r: Option<Vec<usize>>)
        requires
            self.wf(),
            other.wf(),
        ensures
            r is Some <==> inside_indices_upto(
                self.vertices@,
                other.vertices@,
                self.vertices@.len() as int,
            ).len() > 0,
            r matches Some(v) ==> {
                let idx = inside_indices_upto(
                    self.vertices@,
                    other.vertices@,
                    self.vertices@.len() as int,
                );
                &&& v@.len() == idx.len()
                &&& forall|k: int| 0 <= k < idx.len() ==> (#[trigger] v@[k]) as int == idx[k]
                &&& forall|k: int| 0 <= k < v@.len() ==> (#[trigger] v@[k]) < self.vertices@.len()
            },
    {
        let ghost a = self.vertices@;
        let ghost b = other.vertices@;
        let n = self.vertices.len();
        let mut found: Vec<usize> = Vec::new();
        let mut i: usize = 0;
        while i < n
            invariant
                i <= n,
                n == a.len(),
                a == self.vertices@,
                b == other.vertices@,
                self.wf(),
                other.wf(),
                found@.len() == inside_indices_upto(a, b, i as int).len(),
                forall|k: int|
                    0 <= k < found@.len() ==> (#[trigger] found@[k]) as int == inside_indices_upto(
                        a,
                        b,
                        i as int,
                    )[k],
                forall|k: int| 0 <= k < found@.len() ==> (#[trigger] found@[k]) < n,
            decreases n - i,
        {
            if other.is_inside(self.vertices[i]) {
                found.push(i);
            }
            proof {
                let prev = inside_indices_upto(a, b, i as int);
                let cur = inside_indices_upto(a, b, i + 1);
                if inside_spec(b, a[i as int]) {
                    assert(cur == prev.push(i as int));
                }
            }
            i += 1;
        }
        if found.len() > 0 {
            Some(found)
        } else {
            None
        }
    }
}

/// Of a current best and a challenger, the point nearer to `p`; the current
/// best wins ties.
pub open spec fn nearer(p: Point, cur: Point, cand: Point) -> Point {
    if dist2(p, cand) < dist2(p, cur) {
        cand
    } else {
        cur
    }
}

/// The nearest boundary point among the first `n` edges, scanning each
/// edge's rounded projection and then its origin vertex, earlier candidates
/// winning ties.
pub open spec fn best_boundary_upto(poly: Seq<Point>, p: Point, n: int) -> Point
    decreases n,
{
    if n <= 1 {
        nearer(p, seg_closest(edge(poly, 0), p), poly[0])
    } else {
        nearer(
            p,
            nearer(p, best_boundary_upto(poly, p, n - 1), seg_closest(edge(poly, n - 1), p)),
            poly[n - 1],
        )
    }
}

/// The scan result is no farther from `p` than any scanned candidate, and
/// is one of them.
pub proof fn lemma_best_boundary_upto(poly: Seq<Point>, p: Point, n: int)
    requires
        1 <= n,
    ensures
        forall|i: int|
            0 <= i < n ==> dist2(p, best_boundary_upto(poly, p, n)) <= dist2(
                p,
                seg_closest(#[trigger] edge(poly, i), p),
            ),
        forall|i: int|
            0 <= i < n ==> dist2(p, best_boundary_upto(poly, p, n)) <= dist2(p, #[trigger] poly[i]),
        exists|i: int|
            0 <= i < n && (best_boundary_upto(poly, p, n) == seg_closest(edge(poly, i), p)
                || best_boundary_upto(poly, p, n) == poly[i]),
    decreases n,
{
    if n <= 1 {
        let b = best_boundary_upto(poly, p, n);
        assert(0 <= 0 < n && (b == seg_closest(edge(poly, 0), p) || b == poly[0]));
    } else {
        lemma_best_boundary_upto(poly, p, n - 1);
        let prev = best_boundary_upto(poly, p, n - 1);
        let b = best_boundary_upto(poly, p, n);
        if b == prev {
            let i = choose|i: int|
                0 <= i < n - 1 && (prev == seg_closest(edge(poly, i), p) || prev == poly[i]);
            assert(0 <= i < n && (b == seg_closest(edge(poly, i), p) || b == poly[i]));
        } else {
            assert(0 <= n - 1 < n && (b == seg_closest(edge(poly, n - 1), p) || b == poly[n - 1]));
        }
    }
}

/// The `i`-th edge straddles the horizontal line through `p` and crosses it
/// strictly to the right of `p`; exact on integers by cross-multiplying the
/// intersection abscissa.
pub open spec fn edge_crosses(poly: Seq<Point>, p: Point, i: int) -> bool {
    let a = poly[i];
    let b = poly[(i + 1) % (poly.len() as int)];
    &&& ((a.y > p.y) != (b.y > p.y))
    &&& (if b.y > a.y {
        (p.x - a.x) * (b.y - a.y) < (b.x - a.x) * (p.y - a.y)
    } else {
        (p.x - a.x) * (b.y - a.y) > (b.x - a.x) * (p.y - a.y)
    })
}

/// How many of the first `n` edges cross the rightward ray from `p`.
pub open spec fn crossings_upto(poly: Seq<Point>, p: Point, n: int) -> int
    decreases n,
{
    if n <= 0 {
        0
    } else {
        crossings_upto(poly, p, n - 1) + if edge_crosses(poly, p, n - 1) {
            1int
        } else {
            0int
        }
    }
}

/// `p` lies on some boundary edge of the polygon.
pub open spec fn on_boundary(poly: Seq<Point>, p: Point) -> bool {
    exists|i: int| 0 <= i < poly.len() && on_segment_spec(#[trigger] edge(poly, i), p)
}

/// `p` is strictly interior: not on the boundary, and a rightward ray from
/// it crosses the boundary an odd number of times. Points exactly on the
/// boundary are not inside.
pub open spec fn inside_spec(poly: Seq<Point>, p: Point) -> bool {
    &&& !on_boundary(poly, p)
    &&& crossings_upto(poly, p, poly.len() as int) % 2 == 1
}

/// The indices, in increasing order, of the first `n` vertices of `a` that
/// lie strictly inside `b`.
pub open spec fn inside_indices_upto(a: Seq<Point>, b: Seq<Point>, n: int) -> Seq<int>
    decreases n,
{
    if n <= 0 {
        Seq::empty()
    } else {
        let prev = inside_indices_upto(a, b, n - 1);
        if inside_spec(b, a[n - 1]) {
            prev.push(n - 1)
        } else {
            prev
        }
    }
}

/// The distinct points where a segment crosses the first `n` boundary
/// edges, in edge order.
pub open spec fn crossings_list(seg: LineSegment, poly: Seq<Point>, n: int) -> Seq<Point>
    decreases n,
{
    if n <= 0 {
        Seq::empty()
    } else {
        let prev = crossings_list(seg, poly, n - 1);
        match seg_intersection_spec(seg, edge(poly, n - 1)) {
            Option::None => prev,
            Option::Some(pt) => if prev.contains(pt) {
                prev
            } else {
                prev.push(pt)
            },
        }
    }
}

/// Scanning more edges never drops a crossing.
pub proof fn lemma_crossings_list_grows(seg: LineSegment, poly: Seq<Point>, m: int, n: int)
    requires
        0 <= m <= n,
    ensures
        crossings_list(seg, poly, m).len() <= crossings_list(seg, poly, n).len(),
        forall|k: int|
            0 <= k < crossings_list(seg, poly, m).len() ==> crossings_list(seg, poly, n)[k]
                == crossings_list(seg, poly, m)[k],
    decreases n - m,
{
    if m < n {
        lemma_crossings_list_grows(seg, poly, m, n - 1);
    }
}

/// A point exactly on a boundary edge is never inside: the interior test
/// excludes the boundary, while the edge's own on-segment test accepts the
/// point.
pub proof fn lemma_boundary_point_not_inside(poly: Seq<Point>, i: int, p: Point)
    requires
        0 <= i < poly.len(),
        on_segment_spec(edge(poly, i), p),
    ensures
        !inside_spec(poly, p),
{
    assert(on_boundary(poly, p));
}

/// Every crossing in the list lies within the wider coordinate range.
pub proof fn lemma_crossings_wide(seg: LineSegment, poly: Seq<Point>, n: int)
    requires
        seg.wf(),
    ensures
        forall|k: int|
            0 <= k < crossings_list(seg, poly, n).len() ==> (#[trigger] crossings_list(
                seg,
                poly,
                n,
            )[k]).wide(),
    decreases n,
{
    if n > 0 {
        lemma_crossings_wide(seg, poly, n - 1);
        lemma_seg_intersection_wide(seg, edge(poly, n - 1));
        let prev = crossings_list(seg, poly, n - 1);
        let cur = crossings_list(seg, poly, n);
        match seg_intersection_spec(seg, edge(poly, n - 1)) {
            Option::None => {},
            Option::Some(pt) => {
                if !prev.contains(pt) {
                    assert forall|k: int| 0 <= k < cur.len() implies (#[trigger] cur[k]).wide() by {
                        if k < prev.len() {
                            assert(cur[k] == prev[k]);
                        } else {
                            assert(cur[k] == pt);
                        }
                    }
                }
            },
        }
    }
}

} // verus!
