//! Exact planar geometry over integer coordinates.
//!
//! A query geometry is a set of rings with vertices in integer
//! micro-degrees.  Membership of a point follows the even-odd rule: a point
//! is inside when a horizontal ray to its right crosses the ring edges an
//! odd number of times.  The same machinery runs in scaled coordinate
//! spaces, so that geohash cell rectangles, whose boundaries are binary
//! fractions of a degree, can be intersected with the geometry exactly.

use vstd::prelude::*;

verus! {

/// Bound on scaled coordinates under which every cross product stays
/// comfortably within `i128`.
pub const COORD_LIMIT: i128 = 1_000_000_000_000_000_000;

/// A WGS84 position in integer micro-degrees.
#[derive(Clone, Copy, PartialEq, Eq, Structural, Debug)]
pub struct GeoPoint {
    pub lon_micro: i64,
    pub lat_micro: i64,
}

/// A point of the scaled planar space in which the geometric predicates
/// are stated.
pub ghost struct PlanarPoint {
    pub x: int,
    pub y: int,
}

/// A query geometry: rings of micro-degree vertices, interpreted under the
/// even-odd rule.  A polygon contributes its exterior ring and its holes;
/// a multi-polygon contributes one ring per part.
pub struct PlanarGeometry {
    pub rings: Vec<Vec<GeoPoint>>,
}

impl View for PlanarGeometry {
    type V = Seq<Seq<GeoPoint>>;

    open spec fn view(&self) -> Seq<Seq<GeoPoint>> {
        Seq::new(self.rings.len() as nat, |i: int| self.rings[i]@)
    }
}

/// A vertex within the admissible WGS84 ranges.
pub open spec fn wf_point(g: GeoPoint) -> bool {
    &&& -180_000_000 <= g.lon_micro <= 180_000_000
    &&& -90_000_000 <= g.lat_micro <= 90_000_000
}

impl PlanarGeometry {
    /// Every vertex of every ring lies in the admissible ranges.
    pub open spec fn wf(&self) -> bool {
        forall|i: int, j: int|
            0 <= i < self.rings@.len() && 0 <= j < self.rings@[i]@.len() ==> wf_point(
                #[trigger] self.rings@[i]@[j],
            )
    }

}

/// Spec-level point constructor.
pub open spec fn pt(x: int, y: int) -> PlanarPoint {
    PlanarPoint { x: x, y: y }
}

/// Cross product of `b - a` and `c - a`: positive when `a, b, c` turn
/// counter-clockwise, zero when they are collinear.
pub open spec fn cross(a: PlanarPoint, b: PlanarPoint, c: PlanarPoint) -> int {
    (b.x - a.x) * (c.y - a.y) - (c.x - a.x) * (b.y - a.y)
}

/// The horizontal ray from `p` to the right crosses the edge `a -> b`.
/// The strict comparison on `y` makes each vertex count for exactly one of
/// its two edges, the usual convention of the even-odd test.
pub open spec fn ray_crosses(a: PlanarPoint, b: PlanarPoint, p: PlanarPoint) -> bool {
    &&& (a.y > p.y) != (b.y > p.y)
    &&& if b.y > a.y {
        cross(a, b, p) > 0
    } else {
        cross(a, b, p) < 0
    }
}

/// The endpoint of the ring edge that starts at vertex `i`.
pub open spec fn edge_end(ring: Seq<PlanarPoint>, i: int) -> PlanarPoint {
    if i + 1 < ring.len() {
        ring[i + 1]
    } else {
        ring[0]
    }
}

/// Parity of the ray crossings over the edges of `ring` from vertex `i` on.
pub open spec fn ring_crossings_from(ring: Seq<PlanarPoint>, p: PlanarPoint, i: int) -> bool
    decreases ring.len() - i,
{
    if i < 0 || i >= ring.len() {
        false
    } else {
        ray_crosses(ring[i], edge_end(ring, i), p) != ring_crossings_from(ring, p, i + 1)
    }
}

/// Parity of the ray crossings over all edges of one ring.
pub open spec fn ring_parity(ring: Seq<PlanarPoint>, p: PlanarPoint) -> bool {
    ring_crossings_from(ring, p, 0)
}

/// Combined parity over the rings from index `i` on.
pub open spec fn rings_parity_from(rings: Seq<Seq<PlanarPoint>>, p: PlanarPoint, i: int) -> bool
    decreases rings.len() - i,
{
    if i < 0 || i >= rings.len() {
        false
    } else {
        ring_parity(rings[i], p) != rings_parity_from(rings, p, i + 1)
    }
}

/// The even-odd membership test: `p` lies inside the region described by
/// `rings` when the total crossing parity is odd.
pub open spec fn point_in_rings(rings: Seq<Seq<PlanarPoint>>, p: PlanarPoint) -> bool {
    rings_parity_from(rings, p, 0)
}

/// A micro-degree vertex carried into the scaled planar space.
pub open spec fn scale_point(g: GeoPoint, sx: int, sy: int) -> PlanarPoint {
    pt(g.lon_micro * sx, g.lat_micro * sy)
}

/// A ring carried into the scaled planar space.
pub open spec fn scale_ring(r: Seq<GeoPoint>, sx: int, sy: int) -> Seq<PlanarPoint> {
    Seq::new(r.len(), |i: int| scale_point(r[i], sx, sy))
}

/// All rings carried into the scaled planar space.
pub open spec fn scale_rings(rs: Seq<Seq<GeoPoint>>, sx: int, sy: int) -> Seq<Seq<PlanarPoint>> {
    Seq::new(rs.len(), |i: int| scale_ring(rs[i], sx, sy))
}

/// Bounds on the factors bound their product.
pub proof fn lemma_mul_bounds(x: int, y: int, bx: int, by: int)
    requires
        -bx <= x <= bx,
        -by <= y <= by,
        0 <= bx,
        0 <= by,
    ensures
        -bx * by <= x * y <= bx * by,
{
    assert(-bx * by <= x * y <= bx * by) by (nonlinear_arith)
        requires
            -bx <= x <= bx,
            -by <= y <= by,
            0 <= bx,
            0 <= by,
    ;
}

/// Exact cross product in `i128`, with operand bounds that rule out
/// overflow.
fn cross_exec(ax: i128, ay: i128, bx: i128, by: i128, cx: i128, cy: i128) -> (r: i128)
    requires
        -COORD_LIMIT <= ax <= COORD_LIMIT,
        -COORD_LIMIT <= ay <= COORD_LIMIT,
        -COORD_LIMIT <= bx <= COORD_LIMIT,
        -COORD_LIMIT <= by <= COORD_LIMIT,
        -COORD_LIMIT <= cx <= COORD_LIMIT,
        -COORD_LIMIT <= cy <= COORD_LIMIT,
    ensures
        r == cross(pt(ax as int, ay as int), pt(bx as int, by as int), pt(cx as int, cy as int)),
{
    let dx1: i128 = bx - ax;
    let dy1: i128 = cy - ay;
    let dx2: i128 = cx - ax;
    let dy2: i128 = by - ay;
    proof {
        lemma_mul_bounds(
            dx1 as int,
            dy1 as int,
            2_000_000_000_000_000_000,
            2_000_000_000_000_000_000,
        );
        lemma_mul_bounds(
            dx2 as int,
            dy2 as int,
            2_000_000_000_000_000_000,
            2_000_000_000_000_000_000,
        );
    }
    dx1 * dy1 - dx2 * dy2
}

/// Exact ray-crossing test for one edge.
fn ray_crosses_exec(ax: i128, ay: i128, bx: i128, by: i128, px: i128, py: i128) -> (r: bool)
    requires
        -COORD_LIMIT <= ax <= COORD_LIMIT,
        -COORD_LIMIT <= ay <= COORD_LIMIT,
        -COORD_LIMIT <= bx <= COORD_LIMIT,
        -COORD_LIMIT <= by <= COORD_LIMIT,
        -COORD_LIMIT <= px <= COORD_LIMIT,
        -COORD_LIMIT <= py <= COORD_LIMIT,
    ensures
        r == ray_crosses(pt(ax as int, ay as int), pt(bx as int, by as int), pt(px as int, py as int)),
{
    if (ay > py) == (by > py) {
        return false;
    }
    let c = cross_exec(ax, ay, bx, by, px, py);
    if by > ay {
        c > 0
    } else {
        c < 0
    }
}

/// All vertices of `ring`, scaled, stay within the planar bound.
pub open spec fn ring_in_planar_range(ring: Seq<GeoPoint>, sx: int, sy: int) -> bool {
    &&& 1 <= sx <= 2_000_000_000
    &&& 1 <= sy <= 2_000_000_000
    &&& forall|j: int| 0 <= j < ring.len() ==> wf_point(#[trigger] ring[j])
}

/// Scaling a well-formed vertex stays within the planar bound.
proof fn lemma_scale_in_range(g: GeoPoint, sx: int, sy: int)
    requires
        wf_point(g),
        1 <= sx <= 2_000_000_000,
        1 <= sy <= 2_000_000_000,
    ensures
        -COORD_LIMIT <= scale_point(g, sx, sy).x <= COORD_LIMIT,
        -COORD_LIMIT <= scale_point(g, sx, sy).y <= COORD_LIMIT,
{
    lemma_mul_bounds(g.lon_micro as int, sx, 180_000_000, 2_000_000_000);
    lemma_mul_bounds(g.lat_micro as int, sy, 90_000_000, 2_000_000_000);
}

/// Crossing parity of one ring, scaled by `(sx, sy)`, against a point of
/// the scaled space.
fn ring_parity_exec(ring: &Vec<GeoPoint>, sx: i64, sy: i64, px: i128, py: i128) -> (b: bool)
    requires
        ring_in_planar_range(ring@, sx as int, sy as int),
        -COORD_LIMIT <= px <= COORD_LIMIT,
        -COORD_LIMIT <= py <= COORD_LIMIT,
    ensures
        b == ring_parity(scale_ring(ring@, sx as int, sy as int), pt(px as int, py as int)),
{
    let ghost sring = scale_ring(ring@, sx as int, sy as int);
    let ghost p = pt(px as int, py as int);
    let n = ring.len();
    let mut acc = false;
    let mut i: usize = 0;
    while i < n
        invariant
            n == ring.len(),
            0 <= i <= n,
            ring_in_planar_range(ring@, sx as int, sy as int),
            -COORD_LIMIT <= px <= COORD_LIMIT,
            -COORD_LIMIT <= py <= COORD_LIMIT,
            sring == scale_ring(ring@, sx as int, sy as int),
            p == pt(px as int, py as int),
            ring_crossings_from(sring, p, 0) == (acc != ring_crossings_from(sring, p, i as int)),
        decreases n - i,
    {
        let a = ring[i];
        let e = if i + 1 < n {
            ring[i + 1]
        } else {
            ring[0]
        };
        proof {
            lemma_scale_in_range(a, sx as int, sy as int);
            lemma_scale_in_range(e, sx as int, sy as int);
            assert(sring[i as int] == scale_point(a, sx as int, sy as int));
            assert(edge_end(sring, i as int) == scale_point(e, sx as int, sy as int));
        }
        let ax = (a.lon_micro as i128) * (sx as i128);
        let ay = (a.lat_micro as i128) * (sy as i128);
        let ex = (e.lon_micro as i128) * (sx as i128);
        let ey = (e.lat_micro as i128) * (sy as i128);
        let crossed = ray_crosses_exec(ax, ay, ex, ey, px, py);
        proof {
            assert(crossed == ray_crosses(sring[i as int], edge_end(sring, i as int), p));
        }
        acc = if crossed {
            !acc
        } else {
            acc
        };
        i = i + 1;
    }
    acc
}

/// Even-odd membership of a point of the scaled space in the scaled
/// geometry.
pub fn point_in_rings_exec(rings: &Vec<Vec<GeoPoint>>, sx: i64, sy: i64, px: i128, py: i128) -> (b:
    bool)
    requires
        1 <= sx <= 2_000_000_000,
        1 <= sy <= 2_000_000_000,
        forall|i: int| 0 <= i < rings@.len() ==> ring_in_planar_range(#[trigger] rings@[i]@, sx as int, sy as int),
        -COORD_LIMIT <= px <= COORD_LIMIT,
        -COORD_LIMIT <= py <= COORD_LIMIT,
    ensures
        b == point_in_rings(scale_rings(rings_views(rings@), sx as int, sy as int), pt(px as int, py as int)),
{
    let ghost srings = scale_rings(rings_views(rings@), sx as int, sy as int);
    let ghost p = pt(px as int, py as int);
    let n = rings.len();
    let mut acc = false;
    let mut i: usize = 0;
    while i < n
        invariant
            n == rings.len(),
            0 <= i <= n,
            1 <= sx <= 2_000_000_000,
            1 <= sy <= 2_000_000_000,
            forall|k: int| 0 <= k < rings@.len() ==> ring_in_planar_range(#[trigger] rings@[k]@, sx as int, sy as int),
            -COORD_LIMIT <= px <= COORD_LIMIT,
            -COORD_LIMIT <= py <= COORD_LIMIT,
            srings == scale_rings(rings_views(rings@), sx as int, sy as int),
            p == pt(px as int, py as int),
            rings_parity_from(srings, p, 0) == (acc != rings_parity_from(srings, p, i as int)),
        decreases n - i,
    {
        let crossed = ring_parity_exec(&rings[i], sx, sy, px, py);
        proof {
            assert(srings[i as int] == scale_ring(rings@[i as int]@, sx as int, sy as int));
        }
        acc = if crossed {
            !acc
        } else {
            acc
        };
        i = i + 1;
    }
    acc
}

/// The sequence of ring views of a vector of rings.
pub open spec fn rings_views(rs: Seq<Vec<GeoPoint>>) -> Seq<Seq<GeoPoint>> {
    Seq::new(rs.len(), |i: int| rs[i]@)
}

/// `b` lies between `a` and `c` in either order.
pub open spec fn within(a: int, b: int, c: int) -> bool {
    (a <= b && b <= c) || (c <= b && b <= a)
}

/// Given that `q` is collinear with the segment `p - r`, it lies on the
/// segment itself.
pub open spec fn on_segment(p: PlanarPoint, q: PlanarPoint, r: PlanarPoint) -> bool {
    within(p.x, q.x, r.x) && within(p.y, q.y, r.y)
}

/// Closed-segment intersection: proper crossings by opposite orientations,
/// touching and collinear overlaps by the four on-segment cases.
pub open spec fn segments_intersect(
    p1: PlanarPoint,
    p2: PlanarPoint,
    q1: PlanarPoint,
    q2: PlanarPoint,
) -> bool {
    let d1 = cross(q1, q2, p1);
    let d2 = cross(q1, q2, p2);
    let d3 = cross(p1, p2, q1);
    let d4 = cross(p1, p2, q2);
    ||| (((d1 > 0 && d2 < 0) || (d1 < 0 && d2 > 0)) && ((d3 > 0 && d4 < 0) || (d3 < 0 && d4 > 0)))
    ||| (d1 == 0 && on_segment(q1, p1, q2))
    ||| (d2 == 0 && on_segment(q1, p2, q2))
    ||| (d3 == 0 && on_segment(p1, q1, p2))
    ||| (d4 == 0 && on_segment(p1, q2, p2))
}

/// Whether `(qx, qy)` lies on the segment between the two other points,
/// assuming collinearity was already established.
fn on_segment_exec(px: i128, py: i128, qx: i128, qy: i128, rx: i128, ry: i128) -> (r: bool)
    ensures
        r == on_segment(pt(px as int, py as int), pt(qx as int, qy as int), pt(rx as int, ry as int)),
{
    let x_ok = (px <= qx && qx <= rx) || (rx <= qx && qx <= px);
    let y_ok = (py <= qy && qy <= ry) || (ry <= qy && qy <= py);
    x_ok && y_ok
}

/// Exact closed-segment intersection in `i128`.
fn segments_intersect_exec(
    p1x: i128,
    p1y: i128,
    p2x: i128,
    p2y: i128,
    q1x: i128,
    q1y: i128,
    q2x: i128,
    q2y: i128,
) -> (r: bool)
    requires
        -COORD_LIMIT <= p1x <= COORD_LIMIT,
        -COORD_LIMIT <= p1y <= COORD_LIMIT,
        -COORD_LIMIT <= p2x <= COORD_LIMIT,
        -COORD_LIMIT <= p2y <= COORD_LIMIT,
        -COORD_LIMIT <= q1x <= COORD_LIMIT,
        -COORD_LIMIT <= q1y <= COORD_LIMIT,
        -COORD_LIMIT <= q2x <= COORD_LIMIT,
        -COORD_LIMIT <= q2y <= COORD_LIMIT,
    ensures
        r == segments_intersect(
            pt(p1x as int, p1y as int),
            pt(p2x as int, p2y as int),
            pt(q1x as int, q1y as int),
            pt(q2x as int, q2y as int),
        ),
{
    let d1 = cross_exec(q1x, q1y, q2x, q2y, p1x, p1y);
    let d2 = cross_exec(q1x, q1y, q2x, q2y, p2x, p2y);
    let d3 = cross_exec(p1x, p1y, p2x, p2y, q1x, q1y);
    let d4 = cross_exec(p1x, p1y, p2x, p2y, q2x, q2y);
    if ((d1 > 0 && d2 < 0) || (d1 < 0 && d2 > 0)) && ((d3 > 0 && d4 < 0) || (d3 < 0 && d4 > 0)) {
        return true;
    }
    if d1 == 0 && on_segment_exec(q1x, q1y, p1x, p1y, q2x, q2y) {
        return true;
    }
    if d2 == 0 && on_segment_exec(q1x, q1y, p2x, p2y, q2x, q2y) {
        return true;
    }
    if d3 == 0 && on_segment_exec(p1x, p1y, q1x, q1y, p2x, p2y) {
        return true;
    }
    if d4 == 0 && on_segment_exec(p1x, p1y, q2x, q2y, p2x, p2y) {
        return true;
    }
    false
}

/// A point of the scaled space lies in the closed axis-aligned rectangle.
pub open spec fn point_in_rect(p: PlanarPoint, lox: int, loy: int, hix: int, hiy: int) -> bool {
    lox <= p.x <= hix && loy <= p.y <= hiy
}

/// Some vertex of some ring lies in the rectangle.
pub open spec fn any_vertex_in_rect(
    rings: Seq<Seq<PlanarPoint>>,
    lox: int,
    loy: int,
    hix: int,
    hiy: int,
) -> bool {
    exists|i: int, j: int|
        0 <= i < rings.len() && 0 <= j < rings[i].len() && point_in_rect(
            #[trigger] rings[i][j],
            lox,
            loy,
            hix,
            hiy,
        )
}

/// Some corner of the rectangle lies in the region.
pub open spec fn any_corner_in_rings(
    rings: Seq<Seq<PlanarPoint>>,
    lox: int,
    loy: int,
    hix: int,
    hiy: int,
) -> bool {
    ||| point_in_rings(rings, pt(lox, loy))
    ||| point_in_rings(rings, pt(hix, loy))
    ||| point_in_rings(rings, pt(hix, hiy))
    ||| point_in_rings(rings, pt(lox, hiy))
}

/// The ring edge starting at vertex `j` meets the rectangle boundary.
pub open spec fn edge_hits_rect_boundary(
    ring: Seq<PlanarPoint>,
    j: int,
    lox: int,
    loy: int,
    hix: int,
    hiy: int,
) -> bool {
    let a = ring[j];
    let b = edge_end(ring, j);
    ||| segments_intersect(a, b, pt(lox, loy), pt(hix, loy))
    ||| segments_intersect(a, b, pt(hix, loy), pt(hix, hiy))
    ||| segments_intersect(a, b, pt(hix, hiy), pt(lox, hiy))
    ||| segments_intersect(a, b, pt(lox, hiy), pt(lox, loy))
}

/// Some edge of some ring meets the rectangle boundary.
pub open spec fn any_edge_hits_rect(
    rings: Seq<Seq<PlanarPoint>>,
    lox: int,
    loy: int,
    hix: int,
    hiy: int,
) -> bool {
    exists|i: int, j: int|
        0 <= i < rings.len() && 0 <= j < rings[i].len() && #[trigger] edge_hits_rect_boundary(
            rings[i],
            j,
            lox,
            loy,
            hix,
            hiy,
        )
}

/// The rectangle intersects the region described by the rings: a vertex
/// lies in the rectangle, a corner lies in the region, or an edge meets
/// the rectangle boundary.
pub open spec fn rect_intersects_rings(
    rings: Seq<Seq<PlanarPoint>>,
    lox: int,
    loy: int,
    hix: int,
    hiy: int,
) -> bool {
    ||| any_vertex_in_rect(rings, lox, loy, hix, hiy)
    ||| any_corner_in_rings(rings, lox, loy, hix, hiy)
    ||| any_edge_hits_rect(rings, lox, loy, hix, hiy)
}

/// Exact rectangle-versus-geometry intersection, with the geometry carried
/// into the scaled space of the rectangle.
pub fn rect_intersects_exec(
    rings: &Vec<Vec<GeoPoint>>,
    sx: i64,
    sy: i64,
    lox: i128,
    loy: i128,
    hix: i128,
    hiy: i128,
) -> (r: bool)
    requires
        1 <= sx <= 2_000_000_000,
        1 <= sy <= 2_000_000_000,
        forall|i: int|
            0 <= i < rings@.len() ==> ring_in_planar_range(#[trigger] rings@[i]@, sx as int, sy as int),
        -COORD_LIMIT <= lox <= COORD_LIMIT,
        -COORD_LIMIT <= loy <= COORD_LIMIT,
        -COORD_LIMIT <= hix <= COORD_LIMIT,
        -COORD_LIMIT <= hiy <= COORD_LIMIT,
    ensures
        r == rect_intersects_rings(
            scale_rings(rings_views(rings@), sx as int, sy as int),
            lox as int,
            loy as int,
            hix as int,
            hiy as int,
        ),
{
    let ghost srings = scale_rings(rings_views(rings@), sx as int, sy as int);
    let n = rings.len();
    let mut i: usize = 0;
    while i < n
        invariant
            n == rings.len(),
            0 <= i <= n,
            1 <= sx <= 2_000_000_000,
            1 <= sy <= 2_000_000_000,
            forall|k: int|
                0 <= k < rings@.len() ==> ring_in_planar_range(
                    #[trigger] rings@[k]@,
                    sx as int,
                    sy as int,
                ),
            -COORD_LIMIT <= lox <= COORD_LIMIT,
            -COORD_LIMIT <= loy <= COORD_LIMIT,
            -COORD_LIMIT <= hix <= COORD_LIMIT,
            -COORD_LIMIT <= hiy <= COORD_LIMIT,
            srings == scale_rings(rings_views(rings@), sx as int, sy as int),
            forall|k: int, j: int|
                0 <= k < i && 0 <= j < srings[k].len() ==> !point_in_rect(
                    #[trigger] srings[k][j],
                    lox as int,
                    loy as int,
                    hix as int,
                    hiy as int,
                ) && !edge_hits_rect_boundary(
                    srings[k],
                    j,
                    lox as int,
                    loy as int,
                    hix as int,
                    hiy as int,
                ),
        decreases n - i,
    {
        let ring = &rings[i];
        let m = ring.len();
        let mut j: usize = 0;
        while j < m
            invariant
                n == rings.len(),
                0 <= i < n,
                m == ring.len(),
                ring == &rings[i as int],
                0 <= j <= m,
                1 <= sx <= 2_000_000_000,
                1 <= sy <= 2_000_000_000,
                forall|k: int|
                    0 <= k < rings@.len() ==> ring_in_planar_range(
                        #[trigger] rings@[k]@,
                        sx as int,
                        sy as int,
                    ),
                -COORD_LIMIT <= lox <= COORD_LIMIT,
                -COORD_LIMIT <= loy <= COORD_LIMIT,
                -COORD_LIMIT <= hix <= COORD_LIMIT,
                -COORD_LIMIT <= hiy <= COORD_LIMIT,
                srings == scale_rings(rings_views(rings@), sx as int, sy as int),
                forall|k: int, j2: int|
                    0 <= k < i && 0 <= j2 < srings[k].len() ==> !point_in_rect(
                        #[trigger] srings[k][j2],
                        lox as int,
                        loy as int,
                        hix as int,
                        hiy as int,
                    ) && !edge_hits_rect_boundary(
                        srings[k],
                        j2,
                        lox as int,
                        loy as int,
                        hix as int,
                        hiy as int,
                    ),
                forall|j2: int|
                    0 <= j2 < j ==> !point_in_rect(
                        #[trigger] srings[i as int][j2],
                        lox as int,
                        loy as int,
                        hix as int,
                        hiy as int,
                    ) && !edge_hits_rect_boundary(
                        srings[i as int],
                        j2,
                        lox as int,
                        loy as int,
                        hix as int,
                        hiy as int,
                    ),
            decreases m - j,
        {
            let a = ring[j];
            let e = if j + 1 < m {
                ring[j + 1]
            } else {
                ring[0]
            };
            proof {
                lemma_scale_in_range(a, sx as int, sy as int);
                lemma_scale_in_range(e, sx as int, sy as int);
                assert(srings[i as int] == scale_ring(rings@[i as int]@, sx as int, sy as int));
                assert(srings[i as int][j as int] == scale_point(a, sx as int, sy as int));
                assert(edge_end(srings[i as int], j as int) == scale_point(e, sx as int, sy as int));
            }
            let ax = (a.lon_micro as i128) * (sx as i128);
            let ay = (a.lat_micro as i128) * (sy as i128);
            let ex = (e.lon_micro as i128) * (sx as i128);
            let ey = (e.lat_micro as i128) * (sy as i128);
            if lox <= ax && ax <= hix && loy <= ay && ay <= hiy {
                proof {
                    assert(point_in_rect(
                        srings[i as int][j as int],
                        lox as int,
                        loy as int,
                        hix as int,
                        hiy as int,
                    ));
                }
                return true;
            }
            let hit = segments_intersect_exec(ax, ay, ex, ey, lox, loy, hix, loy)
                || segments_intersect_exec(ax, ay, ex, ey, hix, loy, hix, hiy)
                || segments_intersect_exec(ax, ay, ex, ey, hix, hiy, lox, hiy)
                || segments_intersect_exec(ax, ay, ex, ey, lox, hiy, lox, loy);
            if hit {
                proof {
                    assert(edge_hits_rect_boundary(
                        srings[i as int],
                        j as int,
                        lox as int,
                        loy as int,
                        hix as int,
                        hiy as int,
                    ));
                }
                return true;
            }
            j = j + 1;
        }
        i = i + 1;
    }
    if point_in_rings_exec(rings, sx, sy, lox, loy) {
        return true;
    }
    if point_in_rings_exec(rings, sx, sy, hix, loy) {
        return true;
    }
    if point_in_rings_exec(rings, sx, sy, hix, hiy) {
        return true;
    }
    if point_in_rings_exec(rings, sx, sy, lox, hiy) {
        return true;
    }
    proof {
        assert(!any_vertex_in_rect(srings, lox as int, loy as int, hix as int, hiy as int));
        assert(!any_edge_hits_rect(srings, lox as int, loy as int, hix as int, hiy as int));
    }
    false
}

/// Even-odd membership of a micro-degree point in the geometry, in the
/// unscaled space.
pub fn geometry_contains_point(geom: &PlanarGeometry, lon_micro: i64, lat_micro: i64) -> (b: bool)
    requires
        geom.wf(),
        -180_000_000 <= lon_micro <= 180_000_000,
        -90_000_000 <= lat_micro <= 90_000_000,
    ensures
        b == point_in_rings(scale_rings(geom@, 1, 1), pt(lon_micro as int, lat_micro as int)),
{
    proof {
        assert forall|i: int| 0 <= i < geom.rings@.len() implies ring_in_planar_range(
            #[trigger] geom.rings@[i]@,
            1,
            1,
        ) by {
            assert(forall|j: int|
                0 <= j < geom.rings@[i]@.len() ==> wf_point(#[trigger] geom.rings@[i]@[j]));
        }
        assert(rings_views(geom.rings@) =~= geom@);
    }
    point_in_rings_exec(&geom.rings, 1, 1, lon_micro as i128, lat_micro as i128)
}

} // verus!
