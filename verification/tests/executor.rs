use event_finder::geo::{GeoPoint, PlanarGeometry};
use event_finder::query::{EventBatch, EventRecord, prepare_query, run_query};
use event_finder::types::{GeometryInput, VehicleQueryRequest};

// 2024-01-01T00:00:00Z in milliseconds since the epoch.
const MIDNIGHT: i64 = 1_704_067_200_000;

fn at(h: i64, m: i64) -> i64 {
    MIDNIGHT + (h * 3600 + m * 60) * 1000
}

fn p(lon_micro: i64, lat_micro: i64) -> GeoPoint {
    GeoPoint { lon_micro, lat_micro }
}

fn square_geometry() -> GeometryInput {
    GeometryInput::Shape {
        raw: r#"{"type":"Polygon","coordinates":[[[2.3,48.8],[2.4,48.8],[2.4,48.9],[2.3,48.9],[2.3,48.8]]]}"#.to_string(),
        shape: PlanarGeometry {
            rings: vec![vec![
                p(2_300_000, 48_800_000),
                p(2_400_000, 48_800_000),
                p(2_400_000, 48_900_000),
                p(2_300_000, 48_900_000),
            ]],
        },
    }
}

fn query(types: Vec<&str>, limit: u64) -> VehicleQueryRequest {
    VehicleQueryRequest {
        msg_type: "vehicle-query-request".to_string(),
        id: "q-1".to_string(),
        from_date: "2024-01-01T06:50:00Z".to_string(),
        to_date: "2024-01-01T07:00:00Z".to_string(),
        geometry: square_geometry(),
        vehicle_types: types.into_iter().map(|s| s.to_string()).collect(),
        limit: Some(limit),
        timeout: None,
        ttl: None,
        parallelize: None,
        use_chunking: None,
    }
}

fn row(ts: i64, lon_micro: i64, lat_micro: i64, id: &str, kind: &str) -> EventRecord {
    EventRecord {
        timestamp_ms: ts,
        lat_micro: Some(lat_micro),
        lon_micro: Some(lon_micro),
        alt_micro: Some(35_000_000),
        vehicle_id: id.to_string(),
        vehicle_type: kind.to_string(),
        direction: "N".to_string(),
        speed_micro: 13_500_000,
        geo_hash: "u09tu".to_string(),
    }
}

fn one_batch(rows: Vec<EventRecord>) -> Vec<EventBatch> {
    vec![EventBatch { rows, mem_bytes: 4096 }]
}

#[test]
fn point_in_box_without_type_filter() {
    let plan = prepare_query(&query(vec![], 10), 30_000).unwrap();
    let batches = one_batch(vec![row(at(6, 55), 2_350_000, 48_860_000, "V1", "Mini_van")]);
    let outcome = run_query(&plan, &batches, &vec![10], 12);
    assert_eq!(outcome.results.len(), 1);
    assert_eq!(outcome.results[0].vehicle_id, "V1");
    assert_eq!(outcome.results[0].msg_type, "vehicle-query-result");
    assert_eq!(outcome.results[0].timestamp, "2024-01-01T06:55:00+00:00");
    let r = outcome.response;
    assert!(r.processed_record_count >= 1);
    assert_eq!(r.selected_record_count, 1);
    assert_eq!(r.distinct_vehicle_count, 1);
    assert!(!r.limit_reached);
    assert!(!r.timeout_expired);
    assert_eq!(r.elapsed_time_in_ms, 12);
    assert_eq!(r.processed_files_count, 1);
    assert_eq!(r.processed_bytes, 4096);
}

#[test]
fn type_filter_excludes_other_types() {
    let plan = prepare_query(&query(vec!["Mini_van"], 10), 30_000).unwrap();
    let batches = one_batch(vec![
        row(at(6, 55), 2_350_000, 48_860_000, "V1", "Mini_van"),
        row(at(6, 55), 2_350_000, 48_860_000, "T9", "Truck"),
    ]);
    let outcome = run_query(&plan, &batches, &vec![10], 12);
    assert_eq!(outcome.results.len(), 1);
    assert_eq!(outcome.results[0].vehicle_id, "V1");
    assert_eq!(outcome.response.selected_record_count, 1);
}

#[test]
fn a_row_at_the_upper_bound_is_rejected() {
    let plan = prepare_query(&query(vec![], 10), 30_000).unwrap();
    let batches = one_batch(vec![row(at(7, 0), 2_350_000, 48_860_000, "V1", "Mini_van")]);
    let outcome = run_query(&plan, &batches, &vec![10], 12);
    assert_eq!(outcome.results.len(), 0);
    assert_eq!(outcome.response.selected_record_count, 0);
}

#[test]
fn a_row_at_the_lower_bound_is_accepted() {
    let plan = prepare_query(&query(vec![], 10), 30_000).unwrap();
    let batches = one_batch(vec![row(at(6, 50), 2_350_000, 48_860_000, "V1", "Mini_van")]);
    let outcome = run_query(&plan, &batches, &vec![10], 12);
    assert_eq!(outcome.response.selected_record_count, 1);
}

#[test]
fn the_limit_caps_the_emitted_rows() {
    let plan = prepare_query(&query(vec![], 3), 30_000).unwrap();
    let mut rows = Vec::new();
    for k in 0..50 {
        rows.push(row(at(6, 55), 2_350_000, 48_860_000, &format!("V{}", k), "Mini_van"));
    }
    let batches = one_batch(rows);
    let outcome = run_query(&plan, &batches, &vec![10], 12);
    assert_eq!(outcome.results.len(), 3);
    assert_eq!(outcome.response.selected_record_count, 3);
    assert!(outcome.response.limit_reached);
}

#[test]
fn limit_one_is_reached_exactly_when_a_row_matches() {
    let plan = prepare_query(&query(vec![], 1), 30_000).unwrap();
    let matching = one_batch(vec![row(at(6, 55), 2_350_000, 48_860_000, "V1", "Mini_van")]);
    let outcome = run_query(&plan, &matching, &vec![10], 12);
    assert_eq!(outcome.results.len(), 1);
    assert!(outcome.response.limit_reached);

    let missing = one_batch(vec![row(at(6, 55), 3_350_000, 48_860_000, "V1", "Mini_van")]);
    let outcome2 = run_query(&plan, &missing, &vec![10], 12);
    assert_eq!(outcome2.results.len(), 0);
    assert!(!outcome2.response.limit_reached);
}

#[test]
fn a_missing_coordinate_rejects_the_row() {
    let plan = prepare_query(&query(vec![], 10), 30_000).unwrap();
    let mut nan_row = row(at(6, 55), 2_350_000, 48_860_000, "V1", "Mini_van");
    nan_row.lat_micro = None;
    let batches = one_batch(vec![nan_row]);
    let outcome = run_query(&plan, &batches, &vec![10], 12);
    assert_eq!(outcome.response.selected_record_count, 0);
    assert_eq!(outcome.response.processed_record_count, 1);
}

#[test]
fn distinct_vehicles_are_counted_once() {
    let plan = prepare_query(&query(vec![], 10), 30_000).unwrap();
    let batches = one_batch(vec![
        row(at(6, 55), 2_350_000, 48_860_000, "V1", "Mini_van"),
        row(at(6, 56), 2_350_000, 48_860_000, "V1", "Mini_van"),
        row(at(6, 57), 2_350_000, 48_860_000, "V2", "Mini_van"),
    ]);
    let outcome = run_query(&plan, &batches, &vec![10], 12);
    assert_eq!(outcome.response.selected_record_count, 3);
    assert_eq!(outcome.response.distinct_vehicle_count, 2);
}

#[test]
fn an_empty_cover_yields_zero_counters() {
    let mut q = query(vec![], 10);
    q.geometry = GeometryInput::Shape {
        raw: r#"{"type":"Polygon","coordinates":[[]]}"#.to_string(),
        shape: PlanarGeometry { rings: vec![] },
    };
    let plan = prepare_query(&q, 30_000).unwrap();
    assert!(plan.partitions.is_empty());
    let batches = one_batch(vec![row(at(6, 55), 2_350_000, 48_860_000, "V1", "Mini_van")]);
    let outcome = run_query(&plan, &batches, &vec![10], 3);
    assert_eq!(outcome.results.len(), 0);
    let r = outcome.response;
    assert_eq!(r.processed_record_count, 0);
    assert_eq!(r.selected_record_count, 0);
    assert_eq!(r.distinct_vehicle_count, 0);
    assert_eq!(r.processed_files_count, 0);
    assert_eq!(r.processed_bytes, 0);
    assert!(!r.limit_reached);
    assert!(!r.timeout_expired);
}

#[test]
fn the_timeout_stops_the_scan_at_a_batch_boundary() {
    let mut q = query(vec![], 100);
    q.timeout = Some(1000);
    let plan = prepare_query(&q, 30_000).unwrap();
    let batches = vec![
        EventBatch {
            rows: vec![row(at(6, 55), 2_350_000, 48_860_000, "V1", "Mini_van")],
            mem_bytes: 100,
        },
        EventBatch {
            rows: vec![row(at(6, 56), 2_350_000, 48_860_000, "V2", "Mini_van")],
            mem_bytes: 100,
        },
    ];
    let outcome = run_query(&plan, &batches, &vec![1500, 1600], 1700);
    // The first batch is still delivered; the second is never read.
    assert_eq!(outcome.results.len(), 1);
    assert!(outcome.response.timeout_expired);
    assert_eq!(outcome.response.processed_files_count, 1);
}

#[test]
fn replaying_a_query_gives_the_same_outcome() {
    let plan = prepare_query(&query(vec![], 10), 30_000).unwrap();
    let batches = one_batch(vec![
        row(at(6, 55), 2_350_000, 48_860_000, "V1", "Mini_van"),
        row(at(6, 56), 2_350_000, 48_860_000, "V2", "Mini_van"),
    ]);
    let a = run_query(&plan, &batches, &vec![10], 12);
    let b = run_query(&plan, &batches, &vec![10], 12);
    assert_eq!(a.results.len(), b.results.len());
    for (x, y) in a.results.iter().zip(b.results.iter()) {
        assert_eq!(x.vehicle_id, y.vehicle_id);
        assert_eq!(x.timestamp, y.timestamp);
    }
    assert_eq!(a.response.selected_record_count, b.response.selected_record_count);
    assert_eq!(a.response.processed_record_count, b.response.processed_record_count);
    assert_eq!(a.response.distinct_vehicle_count, b.response.distinct_vehicle_count);
}

#[test]
fn rejected_queries_name_the_reason() {
    // Reversed window: aligned from is not before aligned to.
    let mut q = query(vec![], 10);
    q.from_date = "2024-01-01T07:00:00Z".to_string();
    q.to_date = "2024-01-01T06:55:00Z".to_string();
    assert!(prepare_query(&q, 30_000).is_err());

    // Unparseable date.
    let mut q2 = query(vec![], 10);
    q2.from_date = "yesterday".to_string();
    assert!(prepare_query(&q2, 30_000).is_err());

    // Unparseable geometry.
    let mut q3 = query(vec![], 10);
    q3.geometry = GeometryInput::Malformed {
        raw: "42".to_string(),
        reason: "unsupported geometry".to_string(),
    };
    assert!(prepare_query(&q3, 30_000).is_err());
}

#[test]
fn defaults_apply_to_limit_and_timeout() {
    let mut q = query(vec![], 10);
    q.limit = None;
    q.timeout = None;
    let plan = prepare_query(&q, 30_000).unwrap();
    assert_eq!(plan.limit, 100);
    assert_eq!(plan.timeout_ms, 30_000);
}

#[test]
fn column_resolution_names_the_missing_column() {
    let full: Vec<String> = vec![
        "timestamp", "gps_lat", "gps_lon", "gps_alt", "vehicleId", "vehicleType", "direction",
        "speed", "geoHash", "y", "m", "d",
    ]
    .into_iter()
    .map(|s| s.to_string())
    .collect();
    let cols = event_finder::query::resolve_columns(&full).unwrap();
    assert_eq!(cols.timestamp, 0);
    assert_eq!(cols.geo_hash, 8);

    let mut partial = full.clone();
    partial.remove(4); // drop vehicleId
    let err = event_finder::query::resolve_columns(&partial).unwrap_err();
    assert!(matches!(err.kind, event_finder::types::QueryErrorKind::SchemaMismatch));
}
