//! Geohash cells covering a query geometry.
//!
//! A geohash of `p` characters carries `5 * p` bits, alternating longitude
//! and latitude bits from the most significant end, so the cells of
//! precision `p` form a grid of `2^lon_bits` columns and `2^lat_bits` rows
//! over the WGS84 ranges.  The covering enumerates the grid cells of the
//! geometry's bounding rectangle and keeps exactly the cells whose
//! rectangle intersects the geometry.  Cell boundaries are binary
//! fractions of a degree, so the intersection runs in a planar space
//! scaled by the cell counts, where boundaries and micro-degree vertices
//! are both exact integers.

use vstd::arithmetic::power2::pow2;
use vstd::prelude::*;

use crate::geo::GeoPoint;
use crate::geo::PlanarGeometry;
use crate::geo::rect_intersects_exec;
use crate::geo::rect_intersects_rings;
use crate::geo::rings_views;
use crate::geo::scale_rings;
use crate::strings::contains_string;
use crate::strings::push_char;

verus! {

/// Number of latitude bits of a geohash of `p` characters.
pub open spec fn lat_bits(p: int) -> nat {
    (5 * p / 2) as nat
}

/// Number of longitude bits of a geohash of `p` characters.
pub open spec fn lon_bits(p: int) -> nat {
    ((5 * p + 1) / 2) as nat
}

/// `2^e` as a machine word.
fn pow2_u64(e: usize) -> (r: u64)
    requires
        e <= 31,
    ensures
        r == pow2(e as nat),
{
    let mut r: u64 = 1;
    let mut i: usize = 0;
    proof {
        vstd::arithmetic::power2::lemma2_to64();
    }
    while i < e
        invariant
            0 <= i <= e <= 31,
            r == pow2(i as nat),
        decreases e - i,
    {
        proof {
            vstd::arithmetic::power2::lemma2_to64();
            vstd::arithmetic::power2::lemma_pow2_strictly_increases(i as nat, 31nat);
            vstd::arithmetic::power2::lemma_pow2_unfold((i + 1) as nat);
        }
        r = r * 2;
        i = i + 1;
    }
    r
}

/// Index of the latitude cell that contains `lat`, among `cells` equal
/// slices of the latitude span; the top boundary falls into the last cell.
pub open spec fn lat_cell_of(lat: int, cells: int) -> int {
    let c = (lat + 90_000_000) * cells / 180_000_000;
    if c >= cells {
        cells - 1
    } else {
        c
    }
}

/// Index of the longitude cell that contains `lon`.
pub open spec fn lon_cell_of(lon: int, cells: int) -> int {
    let c = (lon + 180_000_000) * cells / 360_000_000;
    if c >= cells {
        cells - 1
    } else {
        c
    }
}

/// Latitude cell index, computed exactly in `i128`.
fn lat_cell_exec(lat_micro: i64, cells: u64) -> (c: u64)
    requires
        -90_000_000 <= lat_micro <= 90_000_000,
        1 <= cells <= 0x4000_0000,
    ensures
        c == lat_cell_of(lat_micro as int, cells as int),
        c < cells,
{
    let shifted: i128 = (lat_micro as i128) + 90_000_000;
    proof {
        crate::geo::lemma_mul_bounds(shifted as int, cells as int, 180_000_000, 0x4000_0000);
    }
    let num: i128 = shifted * (cells as i128);
    proof {
        assert(0 <= num) by (nonlinear_arith)
            requires
                0 <= shifted as int,
                0 < cells as int,
                num == shifted as int * cells as int,
        ;
    }
    let q: i128 = num / 180_000_000;
    proof {
        vstd::arithmetic::div_mod::lemma_div_pos_is_pos(num as int, 180_000_000);
        assert(num <= 180_000_000 * (cells as int)) by (nonlinear_arith)
            requires
                (lat_micro + 90_000_000) as int <= 180_000_000,
                0 < cells as int,
                num == (lat_micro + 90_000_000) as int * cells as int,
        ;
        vstd::arithmetic::div_mod::lemma_div_is_ordered(
            num as int,
            180_000_000 * (cells as int),
            180_000_000,
        );
        vstd::arithmetic::div_mod::lemma_div_multiples_vanish(cells as int, 180_000_000);
        assert(q <= cells);
    }
    let q2: u64 = q as u64;
    if q2 >= cells {
        cells - 1
    } else {
        q2
    }
}

/// Longitude cell index, computed exactly in `i128`.
fn lon_cell_exec(lon_micro: i64, cells: u64) -> (c: u64)
    requires
        -180_000_000 <= lon_micro <= 180_000_000,
        1 <= cells <= 0x4000_0000,
    ensures
        c == lon_cell_of(lon_micro as int, cells as int),
        c < cells,
{
    let shifted: i128 = (lon_micro as i128) + 180_000_000;
    proof {
        crate::geo::lemma_mul_bounds(shifted as int, cells as int, 360_000_000, 0x4000_0000);
    }
    let num: i128 = shifted * (cells as i128);
    proof {
        assert(0 <= num) by (nonlinear_arith)
            requires
                0 <= shifted as int,
                0 < cells as int,
                num == shifted as int * cells as int,
        ;
    }
    let q: i128 = num / 360_000_000;
    proof {
        vstd::arithmetic::div_mod::lemma_div_pos_is_pos(num as int, 360_000_000);
        assert(num <= 360_000_000 * (cells as int)) by (nonlinear_arith)
            requires
                (lon_micro + 180_000_000) as int <= 360_000_000,
                0 < cells as int,
                num == (lon_micro + 180_000_000) as int * cells as int,
        ;
        vstd::arithmetic::div_mod::lemma_div_is_ordered(
            num as int,
            360_000_000 * (cells as int),
            360_000_000,
        );
        vstd::arithmetic::div_mod::lemma_div_multiples_vanish(cells as int, 360_000_000);
        assert(q <= cells);
    }
    let q2: u64 = q as u64;
    if q2 >= cells {
        cells - 1
    } else {
        q2
    }
}

/// Bit `pos` (counting from the least significant end) of `v`.
pub open spec fn bit_of(v: int, pos: nat) -> int {
    v / (pow2(pos) as int) % 2
}

/// Bit `pos` of a machine word.
fn bit_at(v: u64, pos: usize) -> (b: u64)
    requires
        pos <= 31,
    ensures
        b == bit_of(v as int, pos as nat),
        0 <= b <= 1,
{
    let d = pow2_u64(pos);
    proof {
        vstd::arithmetic::power2::lemma_pow2_pos(pos as nat);
    }
    (v / d) % 2
}

/// Bit `j` of the interleaved bit stream of a geohash: even positions take
/// longitude bits, odd positions latitude bits, both from the most
/// significant end.
pub open spec fn stream_bit(cn: int, cl: int, lonb: nat, latb: nat, j: int) -> int {
    if j % 2 == 0 {
        bit_of(cn, (lonb - 1 - j / 2) as nat)
    } else {
        bit_of(cl, (latb - 1 - j / 2) as nat)
    }
}

/// Value of character `i` of the geohash: five consecutive stream bits.
pub open spec fn gh_digit(cn: int, cl: int, lonb: nat, latb: nat, i: int) -> int {
    16 * stream_bit(cn, cl, lonb, latb, 5 * i) + 8 * stream_bit(cn, cl, lonb, latb, 5 * i + 1) + 4
        * stream_bit(cn, cl, lonb, latb, 5 * i + 2) + 2 * stream_bit(cn, cl, lonb, latb, 5 * i + 3)
        + stream_bit(cn, cl, lonb, latb, 5 * i + 4)
}

/// The base-32 alphabet of geohashes.
pub open spec fn base32_chars() -> Seq<char> {
    "0123456789bcdefghjkmnpqrstuvwxyz"@
}

/// The geohash string of the cell in column `cn` and row `cl` at
/// precision `p`.
pub open spec fn encode_cell_spec(cn: int, cl: int, p: int) -> Seq<char> {
    Seq::new(p as nat, |i: int| base32_chars()[gh_digit(cn, cl, lon_bits(p), lat_bits(p), i)])
}

/// One stream bit, dispatched to the right word.
fn stream_bit_exec(cn: u64, cl: u64, lonb: usize, latb: usize, j: usize) -> (b: u64)
    requires
        lonb <= 31,
        latb <= 31,
        j % 2 == 0 ==> j / 2 < lonb,
        j % 2 != 0 ==> j / 2 < latb,
    ensures
        b == stream_bit(cn as int, cl as int, lonb as nat, latb as nat, j as int),
        0 <= b <= 1,
{
    if j % 2 == 0 {
        bit_at(cn, lonb - 1 - j / 2)
    } else {
        bit_at(cl, latb - 1 - j / 2)
    }
}

/// The geohash string of the cell in column `cn` and row `cl`.
pub fn encode_cell(cn: u64, cl: u64, precision: usize) -> (s: String)
    requires
        1 <= precision <= 12,
    ensures
        s@ == encode_cell_spec(cn as int, cl as int, precision as int),
{
    let lonb: usize = (5 * precision + 1) / 2;
    let latb: usize = (5 * precision) / 2;
    let table = "0123456789bcdefghjkmnpqrstuvwxyz";
    proof {
        reveal_strlit("0123456789bcdefghjkmnpqrstuvwxyz");
        assert(lonb == lon_bits(precision as int));
        assert(latb == lat_bits(precision as int));
    }
    let ghost target = encode_cell_spec(cn as int, cl as int, precision as int);
    let mut s = String::new();
    let mut i: usize = 0;
    while i < precision
        invariant
            1 <= precision <= 12,
            lonb == lon_bits(precision as int),
            latb == lat_bits(precision as int),
            lonb <= 31,
            latb <= 31,
            0 <= i <= precision,
            table@ == base32_chars(),
            table@.len() == 32,
            target == encode_cell_spec(cn as int, cl as int, precision as int),
            s@ == target.take(i as int),
        decreases precision - i,
    {
        let b0 = stream_bit_exec(cn, cl, lonb, latb, 5 * i);
        let b1 = stream_bit_exec(cn, cl, lonb, latb, 5 * i + 1);
        let b2 = stream_bit_exec(cn, cl, lonb, latb, 5 * i + 2);
        let b3 = stream_bit_exec(cn, cl, lonb, latb, 5 * i + 3);
        let b4 = stream_bit_exec(cn, cl, lonb, latb, 5 * i + 4);
        let d: u64 = 16 * b0 + 8 * b1 + 4 * b2 + 2 * b3 + b4;
        proof {
            assert(d == gh_digit(cn as int, cl as int, lonb as nat, latb as nat, i as int));
            assert(d < 32);
        }
        let c = table.get_char(d as usize);
        push_char(&mut s, c);
        proof {
            assert(target[i as int] == base32_chars()[gh_digit(
                cn as int,
                cl as int,
                lonb as nat,
                latb as nat,
                i as int,
            )]);
            assert(s@ =~= target.take(i as int + 1));
        }
        i = i + 1;
    }
    proof {
        assert(s@ =~= target);
    }
    s
}

/// Some ring of the geometry has a vertex.
pub open spec fn has_vertex(rings: Seq<Seq<GeoPoint>>) -> bool {
    exists|i: int| 0 <= i < rings.len() && (#[trigger] rings[i]).len() > 0
}

/// The vertex position `(a, b)` comes before position `(i, j)` in the
/// row-major scan of the rings.
pub open spec fn scanned_before(a: int, b: int, i: int, j: int) -> bool {
    a < i || (a == i && b < j)
}

/// No ring before index `i` has a vertex.
pub open spec fn no_vertex_before(rings: Seq<Seq<GeoPoint>>, i: int) -> bool {
    forall|a: int| 0 <= a < i ==> (#[trigger] rings[a]).len() == 0
}

/// Some vertex before position `(i, j)` has longitude `v`.
pub open spec fn attained_lon(rings: Seq<Seq<GeoPoint>>, i: int, j: int, v: int) -> bool {
    exists|a: int, b: int|
        0 <= a < rings.len() && 0 <= b < rings[a].len() && scanned_before(a, b, i, j) && (
        #[trigger] rings[a][b]).lon_micro == v
}

/// Some vertex before position `(i, j)` has latitude `v`.
pub open spec fn attained_lat(rings: Seq<Seq<GeoPoint>>, i: int, j: int, v: int) -> bool {
    exists|a: int, b: int|
        0 <= a < rings.len() && 0 <= b < rings[a].len() && scanned_before(a, b, i, j) && (
        #[trigger] rings[a][b]).lat_micro == v
}

/// The four values bound the vertices before position `(i, j)` and each
/// bound is attained there.
pub open spec fn bbox_of_prefix(
    rings: Seq<Seq<GeoPoint>>,
    i: int,
    j: int,
    lo_lon: int,
    lo_lat: int,
    hi_lon: int,
    hi_lat: int,
) -> bool {
    &&& forall|a: int, b: int|
        0 <= a < rings.len() && 0 <= b < rings[a].len() && scanned_before(a, b, i, j) ==> lo_lon <= (
        #[trigger] rings[a][b]).lon_micro <= hi_lon && lo_lat <= rings[a][b].lat_micro <= hi_lat
    &&& attained_lon(rings, i, j, lo_lon)
    &&& attained_lon(rings, i, j, hi_lon)
    &&& attained_lat(rings, i, j, lo_lat)
    &&& attained_lat(rings, i, j, hi_lat)
}

/// `v` is the least longitude among the vertices.
pub open spec fn is_lon_min(rings: Seq<Seq<GeoPoint>>, v: int) -> bool {
    &&& attained_lon(rings, rings.len() as int, 0, v)
    &&& forall|a: int, b: int|
        0 <= a < rings.len() && 0 <= b < rings[a].len() ==> v <= (
        #[trigger] rings[a][b]).lon_micro
}

/// `v` is the greatest longitude among the vertices.
pub open spec fn is_lon_max(rings: Seq<Seq<GeoPoint>>, v: int) -> bool {
    &&& attained_lon(rings, rings.len() as int, 0, v)
    &&& forall|a: int, b: int|
        0 <= a < rings.len() && 0 <= b < rings[a].len() ==> v >= (
        #[trigger] rings[a][b]).lon_micro
}

/// `v` is the least latitude among the vertices.
pub open spec fn is_lat_min(rings: Seq<Seq<GeoPoint>>, v: int) -> bool {
    &&& attained_lat(rings, rings.len() as int, 0, v)
    &&& forall|a: int, b: int|
        0 <= a < rings.len() && 0 <= b < rings[a].len() ==> v <= (
        #[trigger] rings[a][b]).lat_micro
}

/// `v` is the greatest latitude among the vertices.
pub open spec fn is_lat_max(rings: Seq<Seq<GeoPoint>>, v: int) -> bool {
    &&& attained_lat(rings, rings.len() as int, 0, v)
    &&& forall|a: int, b: int|
        0 <= a < rings.len() && 0 <= b < rings[a].len() ==> v >= (
        #[trigger] rings[a][b]).lat_micro
}

/// The least longitude among the vertices.
pub open spec fn lon_min(rings: Seq<Seq<GeoPoint>>) -> int {
    choose|v: int| is_lon_min(rings, v)
}

/// The greatest longitude among the vertices.
pub open spec fn lon_max(rings: Seq<Seq<GeoPoint>>) -> int {
    choose|v: int| is_lon_max(rings, v)
}

/// The least latitude among the vertices.
pub open spec fn lat_min(rings: Seq<Seq<GeoPoint>>) -> int {
    choose|v: int| is_lat_min(rings, v)
}

/// The greatest latitude among the vertices.
pub open spec fn lat_max(rings: Seq<Seq<GeoPoint>>) -> int {
    choose|v: int| is_lat_max(rings, v)
}

/// Two least longitudes are the same value, and likewise for the other
/// three extremes.
pub proof fn lemma_extremes_unique(rings: Seq<Seq<GeoPoint>>, v1: int, v2: int)
    ensures
        is_lon_min(rings, v1) && is_lon_min(rings, v2) ==> v1 == v2,
        is_lon_max(rings, v1) && is_lon_max(rings, v2) ==> v1 == v2,
        is_lat_min(rings, v1) && is_lat_min(rings, v2) ==> v1 == v2,
        is_lat_max(rings, v1) && is_lat_max(rings, v2) ==> v1 == v2,
{
}

/// The corners of the axis-aligned bounding rectangle of the geometry, or
/// nothing when the geometry has no vertex.
pub fn bounding_box(geom: &PlanarGeometry) -> (r: Option<(GeoPoint, GeoPoint)>)
    ensures
        r is None <==> !has_vertex(geom@),
        r is Some ==> is_lon_min(geom@, (r->0).0.lon_micro as int) && is_lat_min(
            geom@,
            (r->0).0.lat_micro as int,
        ) && is_lon_max(geom@, (r->0).1.lon_micro as int) && is_lat_max(
            geom@,
            (r->0).1.lat_micro as int,
        ),
{
    let n = geom.rings.len();
    let mut found = false;
    let mut lo_lon: i64 = 0;
    let mut lo_lat: i64 = 0;
    let mut hi_lon: i64 = 0;
    let mut hi_lat: i64 = 0;
    let mut i: usize = 0;
    while i < n
        invariant
            n == geom.rings.len(),
            geom@.len() == n,
            0 <= i <= n,
            forall|a: int| 0 <= a < n ==> geom@[a] == geom.rings@[a]@,
            !found ==> no_vertex_before(geom@, i as int),
            found ==> bbox_of_prefix(
                geom@,
                i as int,
                0,
                lo_lon as int,
                lo_lat as int,
                hi_lon as int,
                hi_lat as int,
            ),
        decreases n - i,
    {
        let ring = &geom.rings[i];
        let m = ring.len();
        let mut j: usize = 0;
        while j < m
            invariant
                n == geom.rings.len(),
                geom@.len() == n,
                0 <= i < n,
                m == ring.len(),
                ring == &geom.rings[i as int],
                forall|a: int| 0 <= a < n ==> geom@[a] == geom.rings@[a]@,
                geom@[i as int].len() == m,
                0 <= j <= m,
                !found ==> no_vertex_before(geom@, i as int) && j == 0,
                found ==> bbox_of_prefix(
                    geom@,
                    i as int,
                    j as int,
                    lo_lon as int,
                    lo_lat as int,
                    hi_lon as int,
                    hi_lat as int,
                ),
            decreases m - j,
        {
            let v = ring[j];
            proof {
                assert(geom@[i as int][j as int] == v);
            }
            if !found {
                found = true;
                lo_lon = v.lon_micro;
                hi_lon = v.lon_micro;
                lo_lat = v.lat_micro;
                hi_lat = v.lat_micro;
                proof {
                    assert(attained_lon(geom@, i as int, j as int + 1, lo_lon as int)) by {
                        assert(scanned_before(i as int, j as int, i as int, j as int + 1));
                    }
                    assert(attained_lat(geom@, i as int, j as int + 1, lo_lat as int)) by {
                        assert(scanned_before(i as int, j as int, i as int, j as int + 1));
                    }
                }
            } else {
                if v.lon_micro < lo_lon {
                    lo_lon = v.lon_micro;
                }
                if v.lon_micro > hi_lon {
                    hi_lon = v.lon_micro;
                }
                if v.lat_micro < lo_lat {
                    lo_lat = v.lat_micro;
                }
                if v.lat_micro > hi_lat {
                    hi_lat = v.lat_micro;
                }
                proof {
                    lemma_bbox_extend(
                        geom@,
                        i as int,
                        j as int,
                        lo_lon as int,
                        lo_lat as int,
                        hi_lon as int,
                        hi_lat as int,
                    );
                }
            }
            j = j + 1;
        }
        proof {
            if found {
                lemma_bbox_next_ring(
                    geom@,
                    i as int,
                    j as int,
                    lo_lon as int,
                    lo_lat as int,
                    hi_lon as int,
                    hi_lat as int,
                );
            }
        }
        i = i + 1;
    }
    if !found {
        proof {
            assert(!has_vertex(geom@));
        }
        return None;
    }
    let lo = GeoPoint { lon_micro: lo_lon, lat_micro: lo_lat };
    let hi = GeoPoint { lon_micro: hi_lon, lat_micro: hi_lat };
    proof {
        assert(has_vertex(geom@)) by {
            let (a, b) = choose|a: int, b: int|
                0 <= a < geom@.len() && 0 <= b < geom@[a].len() && scanned_before(
                    a,
                    b,
                    n as int,
                    0,
                ) && (#[trigger] geom@[a][b]).lon_micro == lo_lon as int;
            assert(geom@[a].len() > 0);
        }
    }
    Some((lo, hi))
}

/// A bound that held before position `(i, j)` and admits the vertex at
/// `(i, j)` holds before position `(i, j + 1)`.
proof fn lemma_bbox_extend(
    rings: Seq<Seq<GeoPoint>>,
    i: int,
    j: int,
    lo_lon: int,
    lo_lat: int,
    hi_lon: int,
    hi_lat: int,
)
    requires
        0 <= i < rings.len(),
        0 <= j < rings[i].len(),
        lo_lon <= rings[i][j].lon_micro <= hi_lon,
        lo_lat <= rings[i][j].lat_micro <= hi_lat,
        exists|l1: int, l2: int, h1: int, h2: int|
            bbox_of_prefix(rings, i, j, l1, l2, h1, h2) && l1 >= lo_lon && l2 >= lo_lat && h1
                <= hi_lon && h2 <= hi_lat && (lo_lon == l1 || lo_lon == rings[i][j].lon_micro) && (
            lo_lat == l2 || lo_lat == rings[i][j].lat_micro) && (hi_lon == h1 || hi_lon
                == rings[i][j].lon_micro) && (hi_lat == h2 || hi_lat
                == rings[i][j].lat_micro),
    ensures
        bbox_of_prefix(rings, i, j + 1, lo_lon, lo_lat, hi_lon, hi_lat),
{
    let (l1, l2, h1, h2) = choose|l1: int, l2: int, h1: int, h2: int|
        bbox_of_prefix(rings, i, j, l1, l2, h1, h2) && l1 >= lo_lon && l2 >= lo_lat && h1 <= hi_lon
            && h2 <= hi_lat && (lo_lon == l1 || lo_lon == rings[i][j].lon_micro) && (lo_lat == l2
            || lo_lat == rings[i][j].lat_micro) && (hi_lon == h1 || hi_lon
            == rings[i][j].lon_micro) && (hi_lat == h2 || hi_lat == rings[i][j].lat_micro);
    assert forall|a: int, b: int|
        0 <= a < rings.len() && 0 <= b < rings[a].len() && scanned_before(a, b, i, j + 1) implies
        lo_lon <= (#[trigger] rings[a][b]).lon_micro <= hi_lon && lo_lat <= rings[a][b].lat_micro
        <= hi_lat by {
        if scanned_before(a, b, i, j) {
            assert(l1 <= rings[a][b].lon_micro <= h1);
            assert(l2 <= rings[a][b].lat_micro <= h2);
        } else {
            assert(a == i && b == j);
        }
    }
    assert(attained_lon(rings, i, j + 1, lo_lon)) by {
        if lo_lon == l1 {
            let (a, b) = choose|a: int, b: int|
                0 <= a < rings.len() && 0 <= b < rings[a].len() && scanned_before(a, b, i, j) && (
                #[trigger] rings[a][b]).lon_micro == l1;
            assert(scanned_before(a, b, i, j + 1));
        } else {
            assert(scanned_before(i, j, i, j + 1));
        }
    }
    assert(attained_lon(rings, i, j + 1, hi_lon)) by {
        if hi_lon == h1 {
            let (a, b) = choose|a: int, b: int|
                0 <= a < rings.len() && 0 <= b < rings[a].len() && scanned_before(a, b, i, j) && (
                #[trigger] rings[a][b]).lon_micro == h1;
            assert(scanned_before(a, b, i, j + 1));
        } else {
            assert(scanned_before(i, j, i, j + 1));
        }
    }
    assert(attained_lat(rings, i, j + 1, lo_lat)) by {
        if lo_lat == l2 {
            let (a, b) = choose|a: int, b: int|
                0 <= a < rings.len() && 0 <= b < rings[a].len() && scanned_before(a, b, i, j) && (
                #[trigger] rings[a][b]).lat_micro == l2;
            assert(scanned_before(a, b, i, j + 1));
        } else {
            assert(scanned_before(i, j, i, j + 1));
        }
    }
    assert(attained_lat(rings, i, j + 1, hi_lat)) by {
        if hi_lat == h2 {
            let (a, b) = choose|a: int, b: int|
                0 <= a < rings.len() && 0 <= b < rings[a].len() && scanned_before(a, b, i, j) && (
                #[trigger] rings[a][b]).lat_micro == h2;
            assert(scanned_before(a, b, i, j + 1));
        } else {
            assert(scanned_before(i, j, i, j + 1));
        }
    }
}

/// A bound over a fully scanned ring carries over to the head of the next
/// ring.
proof fn lemma_bbox_next_ring(
    rings: Seq<Seq<GeoPoint>>,
    i: int,
    j: int,
    lo_lon: int,
    lo_lat: int,
    hi_lon: int,
    hi_lat: int,
)
    requires
        0 <= i < rings.len(),
        j == rings[i].len(),
        bbox_of_prefix(rings, i, j, lo_lon, lo_lat, hi_lon, hi_lat),
    ensures
        bbox_of_prefix(rings, i + 1, 0, lo_lon, lo_lat, hi_lon, hi_lat),
{
    assert forall|a: int, b: int|
        0 <= a < rings.len() && 0 <= b < rings[a].len() && scanned_before(a, b, i + 1, 0) implies
        lo_lon <= (#[trigger] rings[a][b]).lon_micro <= hi_lon && lo_lat <= rings[a][b].lat_micro
        <= hi_lat by {
        assert(scanned_before(a, b, i, j));
    }
    assert(attained_lon(rings, i + 1, 0, lo_lon)) by {
        let (a, b) = choose|a: int, b: int|
            0 <= a < rings.len() && 0 <= b < rings[a].len() && scanned_before(a, b, i, j) && (
            #[trigger] rings[a][b]).lon_micro == lo_lon;
        assert(scanned_before(a, b, i + 1, 0));
    }
    assert(attained_lon(rings, i + 1, 0, hi_lon)) by {
        let (a, b) = choose|a: int, b: int|
            0 <= a < rings.len() && 0 <= b < rings[a].len() && scanned_before(a, b, i, j) && (
            #[trigger] rings[a][b]).lon_micro == hi_lon;
        assert(scanned_before(a, b, i + 1, 0));
    }
    assert(attained_lat(rings, i + 1, 0, lo_lat)) by {
        let (a, b) = choose|a: int, b: int|
            0 <= a < rings.len() && 0 <= b < rings[a].len() && scanned_before(a, b, i, j) && (
            #[trigger] rings[a][b]).lat_micro == lo_lat;
        assert(scanned_before(a, b, i + 1, 0));
    }
    assert(attained_lat(rings, i + 1, 0, hi_lat)) by {
        let (a, b) = choose|a: int, b: int|
            0 <= a < rings.len() && 0 <= b < rings[a].len() && scanned_before(a, b, i, j) && (
            #[trigger] rings[a][b]).lat_micro == hi_lat;
        assert(scanned_before(a, b, i + 1, 0));
    }
}

/// Whether the cell in column `cn`, row `cl` lies within the cell index
/// ranges spanned by the geometry's bounding rectangle.
pub open spec fn cell_in_bbox(rings: Seq<Seq<GeoPoint>>, p: int, cl: int, cn: int) -> bool {
    let cells_lat = pow2(lat_bits(p)) as int;
    let cells_lon = pow2(lon_bits(p)) as int;
    &&& lat_cell_of(lat_min(rings), cells_lat) <= cl <= lat_cell_of(lat_max(rings), cells_lat)
    &&& lon_cell_of(lon_min(rings), cells_lon) <= cn <= lon_cell_of(lon_max(rings), cells_lon)
}

/// Whether the rectangle of that cell intersects the geometry, in the
/// planar space scaled by the cell counts.
pub open spec fn cell_intersects(rings: Seq<Seq<GeoPoint>>, p: int, cl: int, cn: int) -> bool {
    let cells_lat = pow2(lat_bits(p)) as int;
    let cells_lon = pow2(lon_bits(p)) as int;
    let lox = cn * 360_000_000 - 180_000_000 * cells_lon;
    let loy = cl * 180_000_000 - 90_000_000 * cells_lat;
    rect_intersects_rings(
        scale_rings(rings, cells_lon, cells_lat),
        lox,
        loy,
        lox + 360_000_000,
        loy + 180_000_000,
    )
}

/// The geohashes of the covering: the bounding-rectangle cells whose own
/// rectangle intersects the geometry.
pub open spec fn covering_set(rings: Seq<Seq<GeoPoint>>, p: int) -> Set<Seq<char>> {
    if !has_vertex(rings) {
        Set::empty()
    } else {
        Set::new(
            |h: Seq<char>|
                exists|cl: int, cn: int|
                    #[trigger] cell_in_bbox(rings, p, cl, cn) && cell_intersects(rings, p, cl, cn)
                        && h == encode_cell_spec(cn, cl, p),
        )
    }
}

/// Soundness of the covering: every geohash of the covering belongs to a
/// cell of the bounding rectangle whose own rectangle intersects the
/// geometry.
pub proof fn lemma_covering_sound(rings: Seq<Seq<GeoPoint>>, p: int, h: Seq<char>)
    requires
        covering_set(rings, p).contains(h),
    ensures
        exists|cl: int, cn: int|
            #[trigger] cell_in_bbox(rings, p, cl, cn) && cell_intersects(rings, p, cl, cn) && h
                == encode_cell_spec(cn, cl, p),
{
}

/// Completeness of the covering: a cell of the bounding rectangle whose
/// rectangle intersects the geometry always contributes its geohash.  A
/// geohash outside the covering therefore belongs to a cell that misses
/// the geometry or lies outside the bounding rectangle.
pub proof fn lemma_covering_complete(rings: Seq<Seq<GeoPoint>>, p: int, cl: int, cn: int)
    requires
        has_vertex(rings),
        cell_in_bbox(rings, p, cl, cn),
        cell_intersects(rings, p, cl, cn),
    ensures
        covering_set(rings, p).contains(encode_cell_spec(cn, cl, p)),
{
}

/// Row-major order on cells.
pub open spec fn cell_before(cl: int, cn: int, cl_cur: int, cn_cur: int) -> bool {
    cl < cl_cur || (cl == cl_cur && cn < cn_cur)
}

/// The covering geohashes of the cells that a row-major walk has passed
/// before reaching cell `(cl_cur, cn_cur)`.
pub open spec fn covering_prefix(rings: Seq<Seq<GeoPoint>>, p: int, cl_cur: int, cn_cur: int) -> Set<
    Seq<char>,
> {
    Set::new(
        |h: Seq<char>|
            exists|cl: int, cn: int|
                #[trigger] cell_in_bbox(rings, p, cl, cn) && cell_before(cl, cn, cl_cur, cn_cur)
                    && cell_intersects(rings, p, cl, cn) && h == encode_cell_spec(cn, cl, p),
    )
}

/// The set of character sequences held by a vector of strings.
pub open spec fn string_set(v: Seq<String>) -> Set<Seq<char>> {
    Set::new(|h: Seq<char>| exists|k: int| 0 <= k < v.len() && (#[trigger] v[k])@ == h)
}

/// Appending a string adds exactly its characters to the set.
proof fn lemma_string_set_push(v: Seq<String>, s: String)
    ensures
        string_set(v.push(s)) == string_set(v).insert(s@),
{
    assert forall|h: Seq<char>| string_set(v.push(s)).contains(h) implies string_set(
        v,
    ).insert(s@).contains(h) by {
        let k = choose|k: int| 0 <= k < v.push(s).len() && (#[trigger] v.push(s)[k])@ == h;
        if k < v.len() {
            assert(v[k]@ == h);
        } else {
            assert(h == s@);
        }
    }
    assert forall|h: Seq<char>| string_set(v).insert(s@).contains(h) implies string_set(
        v.push(s),
    ).contains(h) by {
        if h == s@ {
            assert((v.push(s)[v.len() as int])@ == h);
        } else {
            let k = choose|k: int| 0 <= k < v.len() && (#[trigger] v[k])@ == h;
            assert((v.push(s)[k])@ == h);
        }
    }
    assert(string_set(v.push(s)) =~= string_set(v).insert(s@));
}

/// Stepping over a cell that contributes nothing leaves the collected set
/// unchanged.
proof fn lemma_prefix_skip(rings: Seq<Seq<GeoPoint>>, p: int, cl: int, cn: int)
    requires
        !(cell_in_bbox(rings, p, cl, cn) && cell_intersects(rings, p, cl, cn)),
    ensures
        covering_prefix(rings, p, cl, cn + 1) == covering_prefix(rings, p, cl, cn),
{
    assert forall|h: Seq<char>| covering_prefix(rings, p, cl, cn + 1).contains(h)
        implies covering_prefix(rings, p, cl, cn).contains(h) by {
        let (cl2, cn2) = choose|cl2: int, cn2: int|
            #[trigger] cell_in_bbox(rings, p, cl2, cn2) && cell_before(cl2, cn2, cl, cn + 1)
                && cell_intersects(rings, p, cl2, cn2) && h == encode_cell_spec(cn2, cl2, p);
        assert(cell_before(cl2, cn2, cl, cn));
    }
    assert forall|h: Seq<char>| covering_prefix(rings, p, cl, cn).contains(h)
        implies covering_prefix(rings, p, cl, cn + 1).contains(h) by {
        let (cl2, cn2) = choose|cl2: int, cn2: int|
            #[trigger] cell_in_bbox(rings, p, cl2, cn2) && cell_before(cl2, cn2, cl, cn)
                && cell_intersects(rings, p, cl2, cn2) && h == encode_cell_spec(cn2, cl2, p);
        assert(cell_before(cl2, cn2, cl, cn + 1));
    }
    assert(covering_prefix(rings, p, cl, cn + 1) =~= covering_prefix(rings, p, cl, cn));
}

/// Stepping over a contributing cell adds exactly its geohash.
proof fn lemma_prefix_add(rings: Seq<Seq<GeoPoint>>, p: int, cl: int, cn: int)
    requires
        cell_in_bbox(rings, p, cl, cn),
        cell_intersects(rings, p, cl, cn),
    ensures
        covering_prefix(rings, p, cl, cn + 1) == covering_prefix(rings, p, cl, cn).insert(
            encode_cell_spec(cn, cl, p),
        ),
{
    let h0 = encode_cell_spec(cn, cl, p);
    assert forall|h: Seq<char>| covering_prefix(rings, p, cl, cn + 1).contains(h)
        implies covering_prefix(rings, p, cl, cn).insert(h0).contains(h) by {
        let (cl2, cn2) = choose|cl2: int, cn2: int|
            #[trigger] cell_in_bbox(rings, p, cl2, cn2) && cell_before(cl2, cn2, cl, cn + 1)
                && cell_intersects(rings, p, cl2, cn2) && h == encode_cell_spec(cn2, cl2, p);
        if cl2 == cl && cn2 == cn {
            assert(h == h0);
        } else {
            assert(cell_before(cl2, cn2, cl, cn));
        }
    }
    assert forall|h: Seq<char>| covering_prefix(rings, p, cl, cn).insert(h0).contains(h)
        implies covering_prefix(rings, p, cl, cn + 1).contains(h) by {
        if h == h0 {
            assert(cell_before(cl, cn, cl, cn + 1));
            assert(cell_in_bbox(rings, p, cl, cn) && cell_before(cl, cn, cl, cn + 1)
                && cell_intersects(rings, p, cl, cn) && h == encode_cell_spec(cn, cl, p));
        } else {
            let (cl2, cn2) = choose|cl2: int, cn2: int|
                #[trigger] cell_in_bbox(rings, p, cl2, cn2) && cell_before(cl2, cn2, cl, cn)
                    && cell_intersects(rings, p, cl2, cn2) && h == encode_cell_spec(cn2, cl2, p);
            assert(cell_before(cl2, cn2, cl, cn + 1));
        }
    }
    assert(covering_prefix(rings, p, cl, cn + 1) =~= covering_prefix(rings, p, cl, cn).insert(h0));
}

/// At the head of the walk nothing has been collected yet.
proof fn lemma_prefix_start(rings: Seq<Seq<GeoPoint>>, p: int)
    ensures
        covering_prefix(
            rings,
            p,
            lat_cell_of(lat_min(rings), pow2(lat_bits(p)) as int),
            lon_cell_of(lon_min(rings), pow2(lon_bits(p)) as int),
        ) == Set::<Seq<char>>::empty(),
{
    let cl0 = lat_cell_of(lat_min(rings), pow2(lat_bits(p)) as int);
    let cn0 = lon_cell_of(lon_min(rings), pow2(lon_bits(p)) as int);
    assert forall|h: Seq<char>| !covering_prefix(rings, p, cl0, cn0).contains(h) by {
        if covering_prefix(rings, p, cl0, cn0).contains(h) {
            let (cl2, cn2) = choose|cl2: int, cn2: int|
                #[trigger] cell_in_bbox(rings, p, cl2, cn2) && cell_before(cl2, cn2, cl0, cn0)
                    && cell_intersects(rings, p, cl2, cn2) && h == encode_cell_spec(cn2, cl2, p);
            assert(cl2 >= cl0 && cn2 >= cn0);
            assert(false);
        }
    }
    assert(covering_prefix(rings, p, cl0, cn0) =~= Set::<Seq<char>>::empty());
}

/// Passing the end of a row is the same as standing at the head of the
/// next row.
proof fn lemma_prefix_next_row(rings: Seq<Seq<GeoPoint>>, p: int, cl: int, cn_cur: int)
    requires
        cn_cur > lon_cell_of(lon_max(rings), pow2(lon_bits(p)) as int),
    ensures
        covering_prefix(
            rings,
            p,
            cl + 1,
            lon_cell_of(lon_min(rings), pow2(lon_bits(p)) as int),
        ) == covering_prefix(rings, p, cl, cn_cur),
{
    let cn0 = lon_cell_of(lon_min(rings), pow2(lon_bits(p)) as int);
    assert forall|h: Seq<char>| covering_prefix(rings, p, cl + 1, cn0).contains(h)
        implies covering_prefix(rings, p, cl, cn_cur).contains(h) by {
        let (cl2, cn2) = choose|cl2: int, cn2: int|
            #[trigger] cell_in_bbox(rings, p, cl2, cn2) && cell_before(cl2, cn2, cl + 1, cn0)
                && cell_intersects(rings, p, cl2, cn2) && h == encode_cell_spec(cn2, cl2, p);
        assert(cn2 >= cn0);
        assert(cl2 <= cl);
        assert(cell_before(cl2, cn2, cl, cn_cur));
    }
    assert forall|h: Seq<char>| covering_prefix(rings, p, cl, cn_cur).contains(h)
        implies covering_prefix(rings, p, cl + 1, cn0).contains(h) by {
        let (cl2, cn2) = choose|cl2: int, cn2: int|
            #[trigger] cell_in_bbox(rings, p, cl2, cn2) && cell_before(cl2, cn2, cl, cn_cur)
                && cell_intersects(rings, p, cl2, cn2) && h == encode_cell_spec(cn2, cl2, p);
        assert(cell_before(cl2, cn2, cl + 1, cn0));
    }
    assert(covering_prefix(rings, p, cl + 1, cn0) =~= covering_prefix(rings, p, cl, cn_cur));
}

/// Past the last row the walk has collected the whole covering.
proof fn lemma_prefix_complete(rings: Seq<Seq<GeoPoint>>, p: int, cl_cur: int, cn_cur: int)
    requires
        has_vertex(rings),
        cl_cur > lat_cell_of(lat_max(rings), pow2(lat_bits(p)) as int),
    ensures
        covering_prefix(rings, p, cl_cur, cn_cur) == covering_set(rings, p),
{
    assert forall|h: Seq<char>| covering_prefix(rings, p, cl_cur, cn_cur).contains(h)
        implies covering_set(rings, p).contains(h) by {
        let (cl2, cn2) = choose|cl2: int, cn2: int|
            #[trigger] cell_in_bbox(rings, p, cl2, cn2) && cell_before(cl2, cn2, cl_cur, cn_cur)
                && cell_intersects(rings, p, cl2, cn2) && h == encode_cell_spec(cn2, cl2, p);
        assert(cell_in_bbox(rings, p, cl2, cn2) && cell_intersects(rings, p, cl2, cn2) && h
            == encode_cell_spec(cn2, cl2, p));
    }
    assert forall|h: Seq<char>| covering_set(rings, p).contains(h) implies covering_prefix(
        rings,
        p,
        cl_cur,
        cn_cur,
    ).contains(h) by {
        let (cl2, cn2) = choose|cl2: int, cn2: int|
            #[trigger] cell_in_bbox(rings, p, cl2, cn2) && cell_intersects(rings, p, cl2, cn2) && h
                == encode_cell_spec(cn2, cl2, p);
        assert(cell_before(cl2, cn2, cl_cur, cn_cur));
    }
    assert(covering_prefix(rings, p, cl_cur, cn_cur) =~= covering_set(rings, p));
}

/// The geohash cells of precision `precision` whose rectangle intersects
/// the geometry, among the cells of the geometry's bounding rectangle.
/// The result holds no duplicate.
pub fn geohash_covering(geom: &PlanarGeometry, precision: usize) -> (r: Vec<String>)
    requires
        geom.wf(),
        1 <= precision <= 12,
    ensures
        string_set(r@) == covering_set(geom@, precision as int),
        forall|k1: int, k2: int| 0 <= k1 < k2 < r@.len() ==> r@[k1]@ != r@[k2]@,
{
    let ghost gp = precision as int;
    let mut out: Vec<String> = Vec::new();
    let bb = bounding_box(geom);
    let (lo, hi) = match bb {
        Some(pair) => pair,
        None => {
            proof {
                assert(string_set(out@) =~= Set::<Seq<char>>::empty());
            }
            return out;
        },
    };
    proof {
        lemma_corner_extremes(geom@, lo, hi);
        lemma_corner_points_wf(geom@, lo, hi);
        assert(geom.wf());
    }
    let latb = 5 * precision / 2;
    let lonb = (5 * precision + 1) / 2;
    let cells_lat = pow2_u64(latb);
    let cells_lon = pow2_u64(lonb);
    proof {
        vstd::arithmetic::power2::lemma2_to64();
        if (latb as nat) < 30 {
            vstd::arithmetic::power2::lemma_pow2_strictly_increases(latb as nat, 30nat);
        }
        if (lonb as nat) < 30 {
            vstd::arithmetic::power2::lemma_pow2_strictly_increases(lonb as nat, 30nat);
        }
        assert(1 <= cells_lat <= 0x4000_0000);
        assert(1 <= cells_lon <= 0x4000_0000);
        assert forall|k: int| 0 <= k < geom.rings@.len() implies crate::geo::ring_in_planar_range(
            #[trigger] geom.rings@[k]@,
            cells_lon as int,
            cells_lat as int,
        ) by {
            assert(forall|j: int|
                0 <= j < geom.rings@[k]@.len() ==> crate::geo::wf_point(
                    #[trigger] geom.rings@[k]@[j],
                ));
        }
    }
    let cl_lo = lat_cell_exec(lo.lat_micro, cells_lat);
    let cl_hi = lat_cell_exec(hi.lat_micro, cells_lat);
    let cn_lo = lon_cell_exec(lo.lon_micro, cells_lon);
    let cn_hi = lon_cell_exec(hi.lon_micro, cells_lon);
    let mut cl = cl_lo;
    proof {
        lemma_lat_cell_monotone(lo.lat_micro as int, hi.lat_micro as int, cells_lat as int);
        lemma_lon_cell_monotone(lo.lon_micro as int, hi.lon_micro as int, cells_lon as int);
        lemma_prefix_start(geom@, gp);
        assert(string_set(out@) =~= Set::<Seq<char>>::empty());
    }
    while cl <= cl_hi
        invariant
            geom.wf(),
            1 <= precision <= 12,
            gp == precision as int,
            cells_lat == pow2(lat_bits(gp)),
            cells_lon == pow2(lon_bits(gp)),
            1 <= cells_lat <= 0x4000_0000,
            1 <= cells_lon <= 0x4000_0000,
            forall|k: int|
                0 <= k < geom.rings@.len() ==> crate::geo::ring_in_planar_range(
                    #[trigger] geom.rings@[k]@,
                    cells_lon as int,
                    cells_lat as int,
                ),
            cl_lo == lat_cell_of(lat_min(geom@), cells_lat as int),
            cl_hi == lat_cell_of(lat_max(geom@), cells_lat as int),
            cn_lo == lon_cell_of(lon_min(geom@), cells_lon as int),
            cn_hi == lon_cell_of(lon_max(geom@), cells_lon as int),
            cl_hi < cells_lat,
            cn_hi < cells_lon,
            cl_lo <= cl_hi,
            cn_lo <= cn_hi,
            cl_lo <= cl <= cl_hi + 1,
            has_vertex(geom@),
            string_set(out@) == covering_prefix(geom@, gp, cl as int, cn_lo as int),
            forall|k1: int, k2: int| 0 <= k1 < k2 < out@.len() ==> out@[k1]@ != out@[k2]@,
        decreases cl_hi + 1 - cl,
    {
        let mut cn = cn_lo;
        while cn <= cn_hi
            invariant
                geom.wf(),
                1 <= precision <= 12,
                gp == precision as int,
                cells_lat == pow2(lat_bits(gp)),
                cells_lon == pow2(lon_bits(gp)),
                1 <= cells_lat <= 0x4000_0000,
                1 <= cells_lon <= 0x4000_0000,
                forall|k: int|
                    0 <= k < geom.rings@.len() ==> crate::geo::ring_in_planar_range(
                        #[trigger] geom.rings@[k]@,
                        cells_lon as int,
                        cells_lat as int,
                    ),
                cl_lo == lat_cell_of(lat_min(geom@), cells_lat as int),
                cl_hi == lat_cell_of(lat_max(geom@), cells_lat as int),
                cn_lo == lon_cell_of(lon_min(geom@), cells_lon as int),
                cn_hi == lon_cell_of(lon_max(geom@), cells_lon as int),
                cl_hi < cells_lat,
                cn_hi < cells_lon,
                cl_lo <= cl_hi,
                cn_lo <= cn_hi,
                cl_lo <= cl <= cl_hi,
                cn_lo <= cn <= cn_hi + 1,
                has_vertex(geom@),
                string_set(out@) == covering_prefix(geom@, gp, cl as int, cn as int),
                forall|k1: int, k2: int| 0 <= k1 < k2 < out@.len() ==> out@[k1]@ != out@[k2]@,
            decreases cn_hi + 1 - cn,
        {
            let loy: i128 = (cl as i128) * 180_000_000 - 90_000_000 * (cells_lat as i128);
            let lox: i128 = (cn as i128) * 360_000_000 - 180_000_000 * (cells_lon as i128);
            let hiy: i128 = loy + 180_000_000;
            let hix: i128 = lox + 360_000_000;
            let inter = rect_intersects_exec(
                &geom.rings,
                cells_lon as i64,
                cells_lat as i64,
                lox,
                loy,
                hix,
                hiy,
            );
            proof {
                assert(rings_views(geom.rings@) =~= geom@);
                assert(inter == cell_intersects(geom@, gp, cl as int, cn as int));
                assert(cell_in_bbox(geom@, gp, cl as int, cn as int));
            }
            if inter {
                let h = encode_cell(cn, cl, precision);
                if !contains_string(&out, &h) {
                    let ghost prev = out@;
                    let ghost hs = h@;
                    out.push(h);
                    proof {
                        assert(out@ == prev.push(out@.last()));
                        assert(out@.last()@ == hs);
                        lemma_string_set_push(prev, out@.last());
                        lemma_prefix_add(geom@, gp, cl as int, cn as int);
                        assert(string_set(out@) == covering_prefix(
                            geom@,
                            gp,
                            cl as int,
                            cn as int + 1,
                        ));
                        assert forall|k1: int, k2: int| 0 <= k1 < k2 < out@.len() implies out@[k1]@
                            != out@[k2]@ by {
                            if k2 == out@.len() - 1 {
                                assert(out@[k1] == prev[k1]);
                                assert(prev[k1]@ != hs);
                            } else {
                                assert(out@[k1] == prev[k1] && out@[k2] == prev[k2]);
                            }
                        }
                    }
                } else {
                    proof {
                        lemma_prefix_add(geom@, gp, cl as int, cn as int);
                        assert(string_set(out@).contains(
                            encode_cell_spec(cn as int, cl as int, gp),
                        ));
                        assert(covering_prefix(geom@, gp, cl as int, cn as int).insert(
                            encode_cell_spec(cn as int, cl as int, gp),
                        ) =~= covering_prefix(geom@, gp, cl as int, cn as int));
                    }
                }
            } else {
                proof {
                    lemma_prefix_skip(geom@, gp, cl as int, cn as int);
                }
            }
            cn = cn + 1;
        }
        proof {
            lemma_prefix_next_row(geom@, gp, cl as int, cn as int);
        }
        cl = cl + 1;
    }
    proof {
        lemma_prefix_complete(geom@, gp, cl as int, cn_lo as int);
    }
    out
}

/// The corners of the bounding rectangle carry vertex coordinates, so
/// they lie in the admissible ranges and in the right order.
proof fn lemma_corner_points_wf(rings: Seq<Seq<GeoPoint>>, lo: GeoPoint, hi: GeoPoint)
    requires
        forall|i: int, j: int|
            0 <= i < rings.len() && 0 <= j < rings[i].len() ==> crate::geo::wf_point(
                #[trigger] rings[i][j],
            ),
        is_lon_min(rings, lo.lon_micro as int),
        is_lat_min(rings, lo.lat_micro as int),
        is_lon_max(rings, hi.lon_micro as int),
        is_lat_max(rings, hi.lat_micro as int),
    ensures
        crate::geo::wf_point(lo),
        crate::geo::wf_point(hi),
        lo.lon_micro <= hi.lon_micro,
        lo.lat_micro <= hi.lat_micro,
{
    let n = rings.len() as int;
    let (a1, b1) = choose|a: int, b: int|
        0 <= a < rings.len() && 0 <= b < rings[a].len() && scanned_before(a, b, n, 0) && (
        #[trigger] rings[a][b]).lon_micro == lo.lon_micro as int;
    let (a2, b2) = choose|a: int, b: int|
        0 <= a < rings.len() && 0 <= b < rings[a].len() && scanned_before(a, b, n, 0) && (
        #[trigger] rings[a][b]).lat_micro == lo.lat_micro as int;
    let (a3, b3) = choose|a: int, b: int|
        0 <= a < rings.len() && 0 <= b < rings[a].len() && scanned_before(a, b, n, 0) && (
        #[trigger] rings[a][b]).lon_micro == hi.lon_micro as int;
    let (a4, b4) = choose|a: int, b: int|
        0 <= a < rings.len() && 0 <= b < rings[a].len() && scanned_before(a, b, n, 0) && (
        #[trigger] rings[a][b]).lat_micro == hi.lat_micro as int;
    assert(crate::geo::wf_point(rings[a1][b1]));
    assert(crate::geo::wf_point(rings[a2][b2]));
    assert(crate::geo::wf_point(rings[a3][b3]));
    assert(crate::geo::wf_point(rings[a4][b4]));
}

/// A higher latitude never lands in a lower cell row.
proof fn lemma_lat_cell_monotone(lat1: int, lat2: int, cells: int)
    requires
        lat1 <= lat2,
        1 <= cells,
    ensures
        lat_cell_of(lat1, cells) <= lat_cell_of(lat2, cells),
{
    let n1 = (lat1 + 90_000_000) * cells;
    let n2 = (lat2 + 90_000_000) * cells;
    assert(n1 <= n2) by (nonlinear_arith)
        requires
            lat1 <= lat2,
            1 <= cells,
            n1 == (lat1 + 90_000_000) * cells,
            n2 == (lat2 + 90_000_000) * cells,
    ;
    vstd::arithmetic::div_mod::lemma_div_is_ordered(n1, n2, 180_000_000);
}

/// A higher longitude never lands in a lower cell column.
proof fn lemma_lon_cell_monotone(lon1: int, lon2: int, cells: int)
    requires
        lon1 <= lon2,
        1 <= cells,
    ensures
        lon_cell_of(lon1, cells) <= lon_cell_of(lon2, cells),
{
    let n1 = (lon1 + 180_000_000) * cells;
    let n2 = (lon2 + 180_000_000) * cells;
    assert(n1 <= n2) by (nonlinear_arith)
        requires
            lon1 <= lon2,
            1 <= cells,
            n1 == (lon1 + 180_000_000) * cells,
            n2 == (lon2 + 180_000_000) * cells,
    ;
    vstd::arithmetic::div_mod::lemma_div_is_ordered(n1, n2, 360_000_000);
}

/// The corners that `bounding_box` returns carry the chosen extreme
/// values of the geometry.
proof fn lemma_corner_extremes(rings: Seq<Seq<GeoPoint>>, lo: GeoPoint, hi: GeoPoint)
    requires
        is_lon_min(rings, lo.lon_micro as int),
        is_lat_min(rings, lo.lat_micro as int),
        is_lon_max(rings, hi.lon_micro as int),
        is_lat_max(rings, hi.lat_micro as int),
    ensures
        lon_min(rings) == lo.lon_micro as int,
        lat_min(rings) == lo.lat_micro as int,
        lon_max(rings) == hi.lon_micro as int,
        lat_max(rings) == hi.lat_micro as int,
{
    assert(is_lon_min(rings, lon_min(rings))) by {
        assert(exists|v: int| is_lon_min(rings, v)) by {
            assert(is_lon_min(rings, lo.lon_micro as int));
        }
    }
    lemma_extremes_unique(rings, lon_min(rings), lo.lon_micro as int);
    assert(is_lat_min(rings, lat_min(rings))) by {
        assert(exists|v: int| is_lat_min(rings, v)) by {
            assert(is_lat_min(rings, lo.lat_micro as int));
        }
    }
    lemma_extremes_unique(rings, lat_min(rings), lo.lat_micro as int);
    assert(is_lon_max(rings, lon_max(rings))) by {
        assert(exists|v: int| is_lon_max(rings, v)) by {
            assert(is_lon_max(rings, hi.lon_micro as int));
        }
    }
    lemma_extremes_unique(rings, lon_max(rings), hi.lon_micro as int);
    assert(is_lat_max(rings, lat_max(rings))) by {
        assert(exists|v: int| is_lat_max(rings, v)) by {
            assert(is_lat_max(rings, hi.lat_micro as int));
        }
    }
    lemma_extremes_unique(rings, lat_max(rings), hi.lat_micro as int);
}

} // verus!
