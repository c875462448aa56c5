//! The typed messages of the service: requests, responses, results and
//! lifecycle events, together with the error type of the query pipeline.
//!
//! Coordinates travel as integer micro-degrees.  The geometry of a request
//! keeps its raw wire text next to its planar form, so that lifecycle
//! events can carry the request through unchanged.

use vstd::prelude::*;

use crate::geo::PlanarGeometry;

verus! {

/// A message that carries its discriminator text.
pub trait HasMessageType {
    /// The discriminator text of the message.
    spec fn msg_type_spec(&self) -> Seq<char>;

    /// The discriminator text of the message.
    fn get_msg_type(&self) -> (r: &str)
        ensures
            r@ == self.msg_type_spec(),
    ;
}

/// The query geometry as received on the wire: the raw text is kept for
/// re-emission, the planar form for computation.  A geometry whose text
/// could not be understood keeps the reason.
pub enum GeometryInput {
    Shape { raw: String, shape: PlanarGeometry },
    Malformed { raw: String, reason: String },
}

/// A vehicle query as carried in a request body.
pub struct VehicleQueryRequest {
    pub msg_type: String,
    pub id: String,
    pub from_date: String,
    pub to_date: String,
    pub geometry: GeometryInput,
    pub vehicle_types: Vec<String>,
    pub limit: Option<u64>,
    pub timeout: Option<u128>,
    pub ttl: Option<String>,
    pub parallelize: Option<bool>,
    pub use_chunking: Option<bool>,
}

impl HasMessageType for VehicleQueryRequest {
    open spec fn msg_type_spec(&self) -> Seq<char> {
        self.msg_type@
    }

    fn get_msg_type(&self) -> (r: &str) {
        self.msg_type.as_str()
    }
}

/// The counters of a finished vehicle query.
pub struct VehicleQueryResponse {
    pub msg_type: String,
    pub processed_files_count: usize,
    pub processed_bytes: usize,
    pub processed_record_count: usize,
    pub selected_record_count: usize,
    pub distinct_vehicle_count: usize,
    pub elapsed_time_in_ms: u128,
    pub timeout_expired: bool,
    pub limit_reached: bool,
}

impl HasMessageType for VehicleQueryResponse {
    open spec fn msg_type_spec(&self) -> Seq<char> {
        self.msg_type@
    }

    fn get_msg_type(&self) -> (r: &str) {
        self.msg_type.as_str()
    }
}

/// A message of which only the discriminator is known.
pub struct TypedMessage {
    pub msg_type: String,
}

impl HasMessageType for TypedMessage {
    open spec fn msg_type_spec(&self) -> Seq<char> {
        self.msg_type@
    }

    fn get_msg_type(&self) -> (r: &str) {
        self.msg_type.as_str()
    }
}

/// A request envelope around a typed body.
pub struct Request<TBody> {
    pub id: String,
    pub msg_type: String,
    pub reply_to: String,
    pub parent_id: Option<String>,
    pub expires_at: Option<String>,
    pub timeout: Option<u64>,
    pub body: TBody,
}

impl<TBody: HasMessageType> HasMessageType for Request<TBody> {
    open spec fn msg_type_spec(&self) -> Seq<char> {
        self.msg_type@
    }

    fn get_msg_type(&self) -> (r: &str) {
        self.msg_type.as_str()
    }
}

/// A success response envelope around a typed body.
pub struct ResponseSuccess<TBody> {
    pub id: String,
    pub request_id: String,
    pub msg_type: String,
    pub body: TBody,
}

impl<TBody: HasMessageType> HasMessageType for ResponseSuccess<TBody> {
    open spec fn msg_type_spec(&self) -> Seq<char> {
        self.msg_type@
    }

    fn get_msg_type(&self) -> (r: &str) {
        self.msg_type.as_str()
    }
}

/// An error response envelope.
pub struct ResponseError {
    pub id: String,
    pub request_id: String,
    pub msg_type: String,
    pub code: String,
    pub body: Option<String>,
    pub error: Option<String>,
}

impl HasMessageType for ResponseError {
    open spec fn msg_type_spec(&self) -> Seq<char> {
        self.msg_type@
    }

    fn get_msg_type(&self) -> (r: &str) {
        self.msg_type.as_str()
    }
}

/// The code of an error response.
#[derive(Clone, Copy, PartialEq, Eq, Structural, Debug)]
pub enum ResponseErrorCode {
    Expired,
    Timeout,
    Cancelled,
    Exception,
}

/// The terminal response of a request: success with a typed body, or an
/// error with a code and an optional message.
pub enum Response<TBody> {
    Success { id: String, request_id: String, body: TBody },
    Error {
        id: String,
        request_id: String,
        code: ResponseErrorCode,
        body: Option<String>,
        error: Option<String>,
    },
}

/// A position in micro-degrees, as carried in result rows.
#[derive(Clone, Copy, PartialEq, Eq, Structural, Debug)]
pub struct GpsCoordinates {
    pub lat_micro: i64,
    pub lon_micro: i64,
    pub alt_micro: i64,
}

/// One result row of a vehicle query.
pub struct VehicleQueryResult {
    pub msg_type: String,
    pub query_id: String,
    pub timestamp: String,
    pub vehicle_id: String,
    pub vehicle_type: String,
    pub gps: GpsCoordinates,
    pub direction: String,
    pub speed_micro: i64,
    pub geo_hash: String,
}

impl HasMessageType for VehicleQueryResult {
    open spec fn msg_type_spec(&self) -> Seq<char> {
        self.msg_type@
    }

    fn get_msg_type(&self) -> (r: &str) {
        self.msg_type.as_str()
    }
}

/// The lifecycle event published when a vehicle query starts.
pub struct VehicleQueryStartedEvent {
    pub msg_type: String,
    pub query: Request<VehicleQueryRequest>,
}

impl HasMessageType for VehicleQueryStartedEvent {
    open spec fn msg_type_spec(&self) -> Seq<char> {
        self.msg_type@
    }

    fn get_msg_type(&self) -> (r: &str) {
        self.msg_type.as_str()
    }
}

/// The lifecycle event published when a vehicle query stops.
pub struct VehicleQueryStoppedEvent {
    pub msg_type: String,
    pub query: Request<VehicleQueryRequest>,
    pub is_success: bool,
    pub response: Option<VehicleQueryResponse>,
    pub error: Option<String>,
}

impl HasMessageType for VehicleQueryStoppedEvent {
    open spec fn msg_type_spec(&self) -> Seq<char> {
        self.msg_type@
    }

    fn get_msg_type(&self) -> (r: &str) {
        self.msg_type.as_str()
    }
}

/// The identity of this service instance.
#[derive(Clone)]
pub struct ServiceIdentity {
    pub name: String,
    pub instance: usize,
    pub runtime: String,
}

/// A ping over the control subject.
pub struct PingRequest {
    pub msg_type: String,
    pub service_name: Option<String>,
}

impl HasMessageType for PingRequest {
    open spec fn msg_type_spec(&self) -> Seq<char> {
        self.msg_type@
    }

    fn get_msg_type(&self) -> (r: &str) {
        self.msg_type.as_str()
    }
}

/// The answer to a ping.
pub struct PingResponse {
    pub msg_type: String,
    pub identity: ServiceIdentity,
}

impl HasMessageType for PingResponse {
    open spec fn msg_type_spec(&self) -> Seq<char> {
        self.msg_type@
    }

    fn get_msg_type(&self) -> (r: &str) {
        self.msg_type.as_str()
    }
}

/// The lifecycle event a data generation run publishes when it finishes.
pub struct VehicleGenerationStopped {
    pub msg_type: String,
    pub success: bool,
    pub timestamp: String,
    pub elapsed_time_in_ms: u64,
}

impl HasMessageType for VehicleGenerationStopped {
    open spec fn msg_type_spec(&self) -> Seq<char> {
        self.msg_type@
    }

    fn get_msg_type(&self) -> (r: &str) {
        self.msg_type.as_str()
    }
}

/// The error kinds of the query pipeline.
#[derive(Clone, Copy, PartialEq, Eq, Structural, Debug)]
pub enum QueryErrorKind {
    InvalidConfig,
    InvalidArgument,
    SchemaMismatch,
    StorageError,
    BusError,
    Exception,
}

/// An error of the query pipeline, with a human-readable message.
#[derive(Debug)]
pub struct QueryError {
    pub kind: QueryErrorKind,
    pub message: String,
}

/// The message text of an error.
pub fn to_string_error(err: &QueryError) -> (r: String)
    ensures
        r@ == err.message@,
{
    err.message.clone()
}

/// Two optional strings hold the same text.
pub open spec fn opt_string_matches(a: Option<String>, b: Option<String>) -> bool {
    match (a, b) {
        (Option::Some(x), Option::Some(y)) => x@ == y@,
        (Option::None, Option::None) => true,
        _ => false,
    }
}

/// Two string vectors hold the same texts in the same order.
pub open spec fn strings_match(a: Seq<String>, b: Seq<String>) -> bool {
    a.len() == b.len() && forall|i: int| 0 <= i < a.len() ==> (#[trigger] a[i])@ == b[i]@
}

/// Two wire geometries hold the same text and the same planar form.
pub open spec fn geometry_matches(a: GeometryInput, b: GeometryInput) -> bool {
    match (a, b) {
        (
            GeometryInput::Shape { raw: r1, shape: s1 },
            GeometryInput::Shape { raw: r2, shape: s2 },
        ) => r1@ == r2@ && s1@ == s2@,
        (
            GeometryInput::Malformed { raw: r1, reason: e1 },
            GeometryInput::Malformed { raw: r2, reason: e2 },
        ) => r1@ == r2@ && e1@ == e2@,
        _ => false,
    }
}

/// Two vehicle query bodies carry the same content.
pub open spec fn query_body_matches(a: VehicleQueryRequest, b: VehicleQueryRequest) -> bool {
    &&& a.msg_type@ == b.msg_type@
    &&& a.id@ == b.id@
    &&& a.from_date@ == b.from_date@
    &&& a.to_date@ == b.to_date@
    &&& geometry_matches(a.geometry, b.geometry)
    &&& strings_match(a.vehicle_types@, b.vehicle_types@)
    &&& a.limit == b.limit
    &&& a.timeout == b.timeout
    &&& opt_string_matches(a.ttl, b.ttl)
    &&& a.parallelize == b.parallelize
    &&& a.use_chunking == b.use_chunking
}

/// Two request envelopes carry the same content.
pub open spec fn request_matches(a: Request<VehicleQueryRequest>, b: Request<VehicleQueryRequest>) -> bool {
    &&& a.id@ == b.id@
    &&& a.msg_type@ == b.msg_type@
    &&& a.reply_to@ == b.reply_to@
    &&& opt_string_matches(a.parent_id, b.parent_id)
    &&& opt_string_matches(a.expires_at, b.expires_at)
    &&& a.timeout == b.timeout
    &&& query_body_matches(a.body, b.body)
}

/// Two response bodies carry the same counters.
pub open spec fn response_body_matches(a: VehicleQueryResponse, b: VehicleQueryResponse) -> bool {
    &&& a.msg_type@ == b.msg_type@
    &&& a.processed_files_count == b.processed_files_count
    &&& a.processed_bytes == b.processed_bytes
    &&& a.processed_record_count == b.processed_record_count
    &&& a.selected_record_count == b.selected_record_count
    &&& a.distinct_vehicle_count == b.distinct_vehicle_count
    &&& a.elapsed_time_in_ms == b.elapsed_time_in_ms
    &&& a.timeout_expired == b.timeout_expired
    &&& a.limit_reached == b.limit_reached
}

/// A copy of an optional string, with the same text.
pub fn clone_opt_string(a: &Option<String>) -> (r: Option<String>)
    ensures
        opt_string_matches(*a, r),
{
    match a {
        Option::Some(s) => Option::Some(s.clone()),
        Option::None => Option::None,
    }
}

/// A copy of a string vector, with the same texts.
pub fn clone_strings(a: &Vec<String>) -> (r: Vec<String>)
    ensures
        strings_match(a@, r@),
{
    let mut out: Vec<String> = Vec::new();
    let n = a.len();
    let mut i: usize = 0;
    while i < n
        invariant
            n == a@.len(),
            0 <= i <= n,
            out@.len() == i,
            forall|k: int| 0 <= k < i ==> (#[trigger] a@[k])@ == out@[k]@,
        decreases n - i,
    {
        out.push(a[i].clone());
        i = i + 1;
    }
    out
}

/// A copy of a planar geometry, with the same rings.
pub fn clone_geometry(g: &PlanarGeometry) -> (r: PlanarGeometry)
    ensures
        r@ == g@,
{
    let mut rings: Vec<Vec<crate::geo::GeoPoint>> = Vec::new();
    let n = g.rings.len();
    let mut i: usize = 0;
    while i < n
        invariant
            n == g.rings@.len(),
            0 <= i <= n,
            rings@.len() == i,
            forall|k: int| 0 <= k < i ==> (#[trigger] rings@[k])@ == g.rings@[k]@,
        decreases n - i,
    {
        let ring = &g.rings[i];
        let m = ring.len();
        let mut copy: Vec<crate::geo::GeoPoint> = Vec::new();
        let mut j: usize = 0;
        while j < m
            invariant
                m == ring@.len(),
                0 <= j <= m,
                copy@ == ring@.take(j as int),
            decreases m - j,
        {
            copy.push(ring[j]);
            proof {
                assert(copy@ =~= ring@.take(j as int + 1));
            }
            j = j + 1;
        }
        proof {
            assert(copy@ =~= ring@);
        }
        rings.push(copy);
        i = i + 1;
    }
    let r = PlanarGeometry { rings };
    proof {
        assert(r@ =~= g@);
    }
    r
}

/// A copy of a wire geometry, with the same content.
pub fn clone_geometry_input(a: &GeometryInput) -> (r: GeometryInput)
    ensures
        geometry_matches(*a, r),
{
    match a {
        GeometryInput::Shape { raw, shape } => GeometryInput::Shape {
            raw: raw.clone(),
            shape: clone_geometry(shape),
        },
        GeometryInput::Malformed { raw, reason } => GeometryInput::Malformed {
            raw: raw.clone(),
            reason: reason.clone(),
        },
    }
}

/// A copy of a vehicle query body, with the same content.
pub fn clone_query_body(a: &VehicleQueryRequest) -> (r: VehicleQueryRequest)
    ensures
        query_body_matches(*a, r),
{
    VehicleQueryRequest {
        msg_type: a.msg_type.clone(),
        id: a.id.clone(),
        from_date: a.from_date.clone(),
        to_date: a.to_date.clone(),
        geometry: clone_geometry_input(&a.geometry),
        vehicle_types: clone_strings(&a.vehicle_types),
        limit: a.limit,
        timeout: a.timeout,
        ttl: clone_opt_string(&a.ttl),
        parallelize: a.parallelize,
        use_chunking: a.use_chunking,
    }
}

/// A copy of a vehicle query request envelope, with the same content.
pub fn clone_request(a: &Request<VehicleQueryRequest>) -> (r: Request<VehicleQueryRequest>)
    ensures
        request_matches(*a, r),
{
    Request {
        id: a.id.clone(),
        msg_type: a.msg_type.clone(),
        reply_to: a.reply_to.clone(),
        parent_id: clone_opt_string(&a.parent_id),
        expires_at: clone_opt_string(&a.expires_at),
        timeout: a.timeout,
        body: clone_query_body(&a.body),
    }
}

/// A copy of a response body, with the same counters.
pub fn clone_response_body(a: &VehicleQueryResponse) -> (r: VehicleQueryResponse)
    ensures
        response_body_matches(*a, r),
{
    VehicleQueryResponse {
        msg_type: a.msg_type.clone(),
        processed_files_count: a.processed_files_count,
        processed_bytes: a.processed_bytes,
        processed_record_count: a.processed_record_count,
        selected_record_count: a.selected_record_count,
        distinct_vehicle_count: a.distinct_vehicle_count,
        elapsed_time_in_ms: a.elapsed_time_in_ms,
        timeout_expired: a.timeout_expired,
        limit_reached: a.limit_reached,
    }
}

} // verus!
