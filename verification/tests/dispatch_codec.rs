use event_finder::dispatch::{Emission, OutboundMessage, process_ping_request,
    process_search_request, subscribe_to_generation_requests, subscribe_to_ping_requests,
    subscribe_to_search_requests};
use event_finder::geo::{GeoPoint, PlanarGeometry};
use event_finder::json::{encode_emission, encode_search_response, encode_vehicle_query_result};
use event_finder::query::{EventBatch, EventRecord};
use event_finder::types::{GeometryInput, GpsCoordinates, PingRequest, Request, Response,
    ResponseErrorCode, ServiceIdentity, VehicleQueryRequest, VehicleQueryResult};

const MIDNIGHT: i64 = 1_704_067_200_000;

fn at(h: i64, m: i64) -> i64 {
    MIDNIGHT + (h * 3600 + m * 60) * 1000
}

fn p(lon_micro: i64, lat_micro: i64) -> GeoPoint {
    GeoPoint { lon_micro, lat_micro }
}

fn square_geometry() -> GeometryInput {
    GeometryInput::Shape {
        raw: r#"{"type":"Polygon","coordinates":[[[2.3,48.8],[2.4,48.8],[2.4,48.9],[2.3,48.9],[2.3,48.8]]]}"#.to_string(),
        shape: PlanarGeometry {
            rings: vec![vec![
                p(2_300_000, 48_800_000),
                p(2_400_000, 48_800_000),
                p(2_400_000, 48_900_000),
                p(2_300_000, 48_900_000),
            ]],
        },
    }
}

fn search_request(geometry: GeometryInput) -> Request<VehicleQueryRequest> {
    Request {
        id: "req-7".to_string(),
        msg_type: "request".to_string(),
        reply_to: "_INBOX.abc".to_string(),
        parent_id: None,
        expires_at: None,
        timeout: None,
        body: VehicleQueryRequest {
            msg_type: "vehicle-query-request".to_string(),
            id: "q-7".to_string(),
            from_date: "2024-01-01T06:50:00Z".to_string(),
            to_date: "2024-01-01T07:00:00Z".to_string(),
            geometry,
            vehicle_types: vec![],
            limit: Some(10),
            timeout: None,
            ttl: None,
            parallelize: None,
            use_chunking: None,
        },
    }
}

fn row(ts: i64, id: &str) -> EventRecord {
    EventRecord {
        timestamp_ms: ts,
        lat_micro: Some(48_860_000),
        lon_micro: Some(2_350_000),
        alt_micro: Some(0),
        vehicle_id: id.to_string(),
        vehicle_type: "Mini_van".to_string(),
        direction: "N".to_string(),
        speed_micro: 13_500_000,
        geo_hash: "u09tu".to_string(),
    }
}

#[test]
fn subjects_are_the_three_subscriptions() {
    assert_eq!(subscribe_to_ping_requests(), "messaging.control");
    assert_eq!(subscribe_to_search_requests(), "requests.vehicles.query");
    assert_eq!(subscribe_to_generation_requests(), "events.vehicles.generation.stopped");
}

#[test]
fn a_successful_query_emits_started_rows_response_stopped_in_order() {
    let req = search_request(square_geometry());
    let batches = vec![EventBatch { rows: vec![row(at(6, 55), "V1")], mem_bytes: 64 }];
    let out = process_search_request(&req, 30_000, &batches, &vec![5], 6);
    assert_eq!(out.len(), 4);
    assert_eq!(out[0].subject, "events.vehicles.query.started");
    assert!(matches!(out[0].payload, OutboundMessage::Started(_)));
    assert_eq!(out[1].subject, "_INBOX.abc");
    match &out[1].payload {
        OutboundMessage::ResultRow(r) => {
            assert_eq!(r.vehicle_id, "V1");
            assert_eq!(r.query_id, "q-7");
        },
        other => panic!("expected a result row, got {}", kind_of(other)),
    }
    assert_eq!(out[2].subject, "_INBOX.abc");
    match &out[2].payload {
        OutboundMessage::Terminal(Response::Success { id, request_id, body }) => {
            assert_eq!(id.len(), 36);
            assert_eq!(request_id, "req-7");
            assert_eq!(body.selected_record_count, 1);
            assert!(!body.limit_reached);
        },
        other => panic!("expected a success response, got {}", kind_of(other)),
    }
    assert_eq!(out[3].subject, "events.vehicles.query.stopped");
    match &out[3].payload {
        OutboundMessage::Stopped(ev) => {
            assert!(ev.is_success);
            assert!(ev.error.is_none());
            assert_eq!(ev.response.as_ref().unwrap().selected_record_count, 1);
            assert_eq!(ev.query.id, "req-7");
        },
        other => panic!("expected the stopped event, got {}", kind_of(other)),
    }
}

fn kind_of(m: &OutboundMessage) -> &'static str {
    match m {
        OutboundMessage::Started(_) => "started",
        OutboundMessage::ResultRow(_) => "result-row",
        OutboundMessage::Terminal(_) => "terminal",
        OutboundMessage::Stopped(_) => "stopped",
        OutboundMessage::Pong(_) => "pong",
    }
}

#[test]
fn a_bad_geometry_yields_an_exception_response_and_no_rows() {
    let req = search_request(GeometryInput::Malformed {
        raw: "17".to_string(),
        reason: "not a geometry".to_string(),
    });
    let out = process_search_request(&req, 30_000, &vec![], &vec![], 1);
    assert_eq!(out.len(), 3);
    assert_eq!(out[0].subject, "events.vehicles.query.started");
    assert_eq!(out[1].subject, "_INBOX.abc");
    match &out[1].payload {
        OutboundMessage::Terminal(Response::Error { code, error, request_id, .. }) => {
            assert!(matches!(code, ResponseErrorCode::Exception));
            assert_eq!(error.as_deref(), Some("not a geometry"));
            assert_eq!(request_id, "req-7");
        },
        other => panic!("expected an error response, got {}", kind_of(other)),
    }
    match &out[2].payload {
        OutboundMessage::Stopped(ev) => {
            assert!(!ev.is_success);
            assert!(ev.response.is_none());
            assert_eq!(ev.error.as_deref(), Some("not a geometry"));
        },
        other => panic!("expected the stopped event, got {}", kind_of(other)),
    }
}

#[test]
fn a_ping_gets_a_pong_with_the_identity() {
    let req = Request {
        id: "ping-1".to_string(),
        msg_type: "ping".to_string(),
        reply_to: "_INBOX.ping".to_string(),
        parent_id: None,
        expires_at: None,
        timeout: None,
        body: PingRequest { msg_type: "ping".to_string(), service_name: None },
    };
    let identity =
        ServiceIdentity { name: "finder".to_string(), instance: 3, runtime: "rust".to_string() };
    let out = process_ping_request(&req, &identity);
    assert_eq!(out.subject, "_INBOX.ping");
    match &out.payload {
        OutboundMessage::Pong(Response::Success { request_id, body, .. }) => {
            assert_eq!(request_id, "ping-1");
            assert_eq!(body.msg_type, "pong");
            assert_eq!(body.identity.name, "finder");
            assert_eq!(body.identity.instance, 3);
            assert_eq!(body.identity.runtime, "rust");
        },
        other => panic!("expected a pong, got {}", kind_of(other)),
    }
}

#[test]
fn result_rows_encode_to_the_exact_json() {
    let r = VehicleQueryResult {
        msg_type: "vehicle-query-result".to_string(),
        query_id: "q-7".to_string(),
        timestamp: "2024-01-01T06:55:00+00:00".to_string(),
        vehicle_id: "V1".to_string(),
        vehicle_type: "Mini_van".to_string(),
        gps: GpsCoordinates { lat_micro: 48_860_000, lon_micro: 2_350_000, alt_micro: 0 },
        direction: "N".to_string(),
        speed_micro: 13_500_000,
        geo_hash: "u09tu".to_string(),
    };
    let text = encode_vehicle_query_result(&r);
    assert_eq!(
        text,
        r#"{"type":"vehicle-query-result","queryId":"q-7","timestamp":"2024-01-01T06:55:00+00:00","vehicleId":"V1","vehicleType":"Mini_van","gps":{"lat":48.860000,"lon":2.350000,"alt":0.000000},"direction":"N","speed":13.500000,"geoHash":"u09tu"}"#
    );
    // The text is valid JSON and reads back the same values.
    let v: serde_json::Value = serde_json::from_str(&text).unwrap();
    assert_eq!(v["type"], "vehicle-query-result");
    assert_eq!(v["gps"]["lat"], 48.86);
    assert_eq!(v["speed"], 13.5);
}

#[test]
fn string_escaping_survives_a_json_round_trip() {
    let tricky = "a\"b\\c\nd\te\u{1}f";
    let mut r = VehicleQueryResult {
        msg_type: "vehicle-query-result".to_string(),
        query_id: tricky.to_string(),
        timestamp: "t".to_string(),
        vehicle_id: "v".to_string(),
        vehicle_type: "k".to_string(),
        gps: GpsCoordinates { lat_micro: -1_500_000, lon_micro: 0, alt_micro: 0 },
        direction: "d".to_string(),
        speed_micro: -2_250_000,
        geo_hash: "g".to_string(),
    };
    r.vehicle_id = tricky.to_string();
    let text = encode_vehicle_query_result(&r);
    let v: serde_json::Value = serde_json::from_str(&text).unwrap();
    assert_eq!(v["queryId"], tricky);
    assert_eq!(v["vehicleId"], tricky);
    assert_eq!(v["gps"]["lat"], -1.5);
    assert_eq!(v["speed"], -2.25);
}

#[test]
fn error_responses_encode_with_their_code() {
    let resp: Response<event_finder::types::VehicleQueryResponse> = Response::Error {
        id: "e-1".to_string(),
        request_id: "req-7".to_string(),
        code: ResponseErrorCode::Exception,
        body: None,
        error: Some("boom".to_string()),
    };
    let text = encode_search_response(&resp);
    assert_eq!(
        text,
        r#"{"type":"response-error","id":"e-1","requestId":"req-7","code":"exception","body":null,"error":"boom"}"#
    );
}

#[test]
fn a_whole_conversation_encodes_to_valid_json() {
    let req = search_request(square_geometry());
    let batches = vec![EventBatch { rows: vec![row(at(6, 55), "V1")], mem_bytes: 64 }];
    let out: Vec<Emission> = process_search_request(&req, 30_000, &batches, &vec![5], 6);
    for e in out.iter() {
        let text = encode_emission(e);
        let v: serde_json::Value = serde_json::from_str(&text).unwrap();
        assert!(v.get("type").is_some());
    }
    // The started event embeds the original request, geometry text included.
    let started = encode_emission(&out[0]);
    let v: serde_json::Value = serde_json::from_str(&started).unwrap();
    assert_eq!(v["query"]["id"], "req-7");
    assert_eq!(v["query"]["body"]["geometry"]["type"], "Polygon");
}
