use event_finder::cover::{bounding_box, encode_cell, geohash_covering};
use event_finder::geo::{GeoPoint, PlanarGeometry, geometry_contains_point};

fn p(lon_micro: i64, lat_micro: i64) -> GeoPoint {
    GeoPoint { lon_micro, lat_micro }
}

/// The square of the end-to-end scenarios: [2.3, 48.8] .. [2.4, 48.9].
fn square() -> PlanarGeometry {
    PlanarGeometry {
        rings: vec![vec![
            p(2_300_000, 48_800_000),
            p(2_400_000, 48_800_000),
            p(2_400_000, 48_900_000),
            p(2_300_000, 48_900_000),
        ]],
    }
}

#[test]
fn bounding_box_of_the_square() {
    let (lo, hi) = bounding_box(&square()).unwrap();
    assert_eq!(lo.lon_micro, 2_300_000);
    assert_eq!(lo.lat_micro, 48_800_000);
    assert_eq!(hi.lon_micro, 2_400_000);
    assert_eq!(hi.lat_micro, 48_900_000);
}

#[test]
fn an_empty_geometry_has_no_bounding_box_and_an_empty_cover() {
    let empty = PlanarGeometry { rings: vec![] };
    assert!(bounding_box(&empty).is_none());
    assert!(geohash_covering(&empty, 5).is_empty());
}

#[test]
fn the_cover_contains_the_cell_of_an_interior_point() {
    let cover = geohash_covering(&square(), 5);
    let sample = geohash::encode(geohash::Coord { x: 2.35, y: 48.86 }, 5).unwrap();
    assert!(cover.iter().any(|h| *h == sample), "cover {:?} misses {}", cover, sample);
}

#[test]
fn every_covered_cell_rectangle_intersects_the_square() {
    let cover = geohash_covering(&square(), 5);
    assert!(!cover.is_empty());
    for h in cover.iter() {
        assert_eq!(h.len(), 5);
        let rect = geohash::decode_bbox(h).unwrap();
        let min = rect.min();
        let max = rect.max();
        // The cell rectangle and the square overlap in both axes.
        assert!(min.x <= 2.4 && 2.3 <= max.x, "cell {} lies outside in longitude", h);
        assert!(min.y <= 48.9 && 48.8 <= max.y, "cell {} lies outside in latitude", h);
    }
}

#[test]
fn the_cover_has_no_duplicates() {
    let cover = geohash_covering(&square(), 5);
    for i in 0..cover.len() {
        for j in i + 1..cover.len() {
            assert_ne!(cover[i], cover[j]);
        }
    }
}

#[test]
fn encode_cell_matches_the_geohash_crate() {
    // A few sample points, their cells computed from the point itself.
    let samples: [(f64, f64); 4] =
        [(2.35, 48.86), (-0.1278, 51.5074), (151.2093, -33.8688), (0.0, 0.0)];
    for (lon, lat) in samples {
        let expected = geohash::encode(geohash::Coord { x: lon, y: lat }, 5).unwrap();
        // Cell indices of the point at precision 5: 13 longitude bits,
        // 12 latitude bits.
        let cn = (((lon + 180.0) / 360.0) * 8192.0).floor() as u64;
        let cl = (((lat + 90.0) / 180.0) * 4096.0).floor() as u64;
        let ours = encode_cell(cn.min(8191), cl.min(4095), 5);
        assert_eq!(ours, expected, "cell of ({}, {})", lon, lat);
    }
}

#[test]
fn containment_follows_the_even_odd_rule() {
    let g = square();
    assert!(geometry_contains_point(&g, 2_350_000, 48_860_000));
    assert!(!geometry_contains_point(&g, 2_500_000, 48_860_000));
    assert!(!geometry_contains_point(&g, 2_350_000, 48_700_000));
    // A ring with a hole: the outer square minus an inner square.
    let holed = PlanarGeometry {
        rings: vec![
            vec![
                p(0, 0),
                p(1_000_000, 0),
                p(1_000_000, 1_000_000),
                p(0, 1_000_000),
            ],
            vec![
                p(250_000, 250_000),
                p(750_000, 250_000),
                p(750_000, 750_000),
                p(250_000, 750_000),
            ],
        ],
    };
    assert!(geometry_contains_point(&holed, 100_000, 100_000));
    assert!(!geometry_contains_point(&holed, 500_000, 500_000));
}
