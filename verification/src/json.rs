//! The JSON side of the wire codec: exact textual encodings of the
//! outbound envelopes.
//!
//! Every encoder's output equals a specification-level character
//! sequence, so the bytes on the bus are pinned down to the character.
//! Strings are escaped the way common JSON writers escape them; numbers
//! print in decimal, micro-scaled quantities with six fractional digits;
//! the geometry of a request is re-emitted as the raw text it arrived
//! with.

use vstd::prelude::*;

use crate::dispatch::Emission;
use crate::dispatch::OutboundMessage;
use crate::strings::push_char;
use crate::types::GeometryInput;
use crate::types::GpsCoordinates;
use crate::types::PingResponse;
use crate::types::Request;
use crate::types::Response;
use crate::types::ResponseErrorCode;
use crate::types::ServiceIdentity;
use crate::types::VehicleQueryRequest;
use crate::types::VehicleQueryResponse;
use crate::types::VehicleQueryResult;
use crate::types::VehicleQueryStartedEvent;
use crate::types::VehicleQueryStoppedEvent;

verus! {

/// The decimal digit characters.
pub open spec fn dec_digit_char(d: int) -> char {
    "0123456789"@[d]
}

/// The lowercase hexadecimal digit characters.
pub open spec fn hex_digit_char(d: int) -> char {
    "0123456789abcdef"@[d]
}

/// The decimal text of a non-negative number.
pub open spec fn dec_str(n: int) -> Seq<char>
    decreases n,
{
    if n < 10 {
        seq![dec_digit_char(n)]
    } else {
        dec_str(n / 10) + seq![dec_digit_char(n % 10)]
    }
}

/// The low `width` decimal digits of a non-negative number, zero padded.
pub open spec fn padded_dec(n: int, width: nat) -> Seq<char>
    decreases width,
{
    if width == 0 {
        Seq::empty()
    } else {
        padded_dec(n / 10, (width - 1) as nat) + seq![dec_digit_char(n % 10)]
    }
}

/// The decimal text of a micro-scaled quantity: the whole part and six
/// fractional digits.
pub open spec fn micro_str(m: int) -> Seq<char> {
    let mag = if m < 0 {
        -m
    } else {
        m
    };
    (if m < 0 {
        seq!['-']
    } else {
        Seq::<char>::empty()
    }) + dec_str(mag / 1_000_000) + seq!['.'] + padded_dec(mag % 1_000_000, 6)
}

/// The text of a boolean.
pub open spec fn bool_str(b: bool) -> Seq<char> {
    if b {
        "true"@
    } else {
        "false"@
    }
}

/// The escape of one character inside a JSON string.
pub open spec fn esc_char(c: char) -> Seq<char> {
    if c == '"' {
        seq!['\\', '"']
    } else if c == '\\' {
        seq!['\\', '\\']
    } else if c == '\u{8}' {
        seq!['\\', 'b']
    } else if c == '\u{c}' {
        seq!['\\', 'f']
    } else if c == '\n' {
        seq!['\\', 'n']
    } else if c == '\r' {
        seq!['\\', 'r']
    } else if c == '\t' {
        seq!['\\', 't']
    } else if (c as int) < 32 {
        seq!['\\', 'u', '0', '0', hex_digit_char(c as int / 16), hex_digit_char(c as int % 16)]
    } else {
        seq![c]
    }
}

/// The escaped characters of `s` from index `i` on.
pub open spec fn json_escaped_from(s: Seq<char>, i: int) -> Seq<char>
    decreases s.len() - i,
{
    if i < 0 || i >= s.len() {
        Seq::empty()
    } else {
        esc_char(s[i]) + json_escaped_from(s, i + 1)
    }
}

/// A JSON string: the escaped text between double quotes.
pub open spec fn json_string(s: Seq<char>) -> Seq<char> {
    seq!['"'] + json_escaped_from(s, 0) + seq!['"']
}

/// A JSON string or `null`.
pub open spec fn opt_json_string(o: Option<String>) -> Seq<char> {
    match o {
        Option::Some(s) => json_string(s@),
        Option::None => "null"@,
    }
}

/// A JSON number or `null`.
pub open spec fn opt_u64_json(o: Option<u64>) -> Seq<char> {
    match o {
        Option::Some(n) => dec_str(n as int),
        Option::None => "null"@,
    }
}

/// A JSON number or `null`.
pub open spec fn opt_u128_json(o: Option<u128>) -> Seq<char> {
    match o {
        Option::Some(n) => dec_str(n as int),
        Option::None => "null"@,
    }
}

/// A JSON boolean or `null`.
pub open spec fn opt_bool_json(o: Option<bool>) -> Seq<char> {
    match o {
        Option::Some(b) => bool_str(b),
        Option::None => "null"@,
    }
}

/// Append one decimal digit character.
fn push_digit(out: &mut String, d: u128)
    requires
        d < 10,
    ensures
        final(out)@ == old(out)@ + seq![dec_digit_char(d as int)],
{
    let table = "0123456789";
    proof {
        reveal_strlit("0123456789");
    }
    let c = table.get_char(d as usize);
    push_char(out, c);
}

/// Append the decimal text of a number.
fn push_dec(out: &mut String, n: u128)
    ensures
        final(out)@ == old(out)@ + dec_str(n as int),
    decreases n,
{
    if n < 10 {
        push_digit(out, n);
    } else {
        push_dec(out, n / 10);
        push_digit(out, n % 10);
    }
}

/// Append the low `width` decimal digits, zero padded.
fn push_padded(out: &mut String, n: u64, width: usize)
    ensures
        final(out)@ == old(out)@ + padded_dec(n as int, width as nat),
    decreases width,
{
    if width > 0 {
        push_padded(out, n / 10, width - 1);
        push_digit(out, (n % 10) as u128);
    }
}

/// Append the text of a micro-scaled quantity.
fn push_micro(out: &mut String, m: i64)
    ensures
        final(out)@ == old(out)@ + micro_str(m as int),
{
    let mag: u64 = if m < 0 {
        (-(m as i128)) as u64
    } else {
        m as u64
    };
    if m < 0 {
        push_char(out, '-');
    }
    push_dec(out, (mag / 1_000_000) as u128);
    push_char(out, '.');
    push_padded(out, mag % 1_000_000, 6);
    proof {
        assert(final(out)@ =~= old(out)@ + micro_str(m as int));
    }
}

/// Append the escape of one character.
fn push_escaped_char(out: &mut String, c: char)
    ensures
        final(out)@ == old(out)@ + esc_char(c),
{
    let cu = c as u32;
    if c == '"' {
        push_char(out, '\\');
        push_char(out, '"');
    } else if c == '\\' {
        push_char(out, '\\');
        push_char(out, '\\');
    } else if cu == 8 {
        push_char(out, '\\');
        push_char(out, 'b');
    } else if cu == 12 {
        push_char(out, '\\');
        push_char(out, 'f');
    } else if c == '\n' {
        push_char(out, '\\');
        push_char(out, 'n');
    } else if c == '\r' {
        push_char(out, '\\');
        push_char(out, 'r');
    } else if c == '\t' {
        push_char(out, '\\');
        push_char(out, 't');
    } else if cu < 32 {
        push_char(out, '\\');
        push_char(out, 'u');
        push_char(out, '0');
        push_char(out, '0');
        let table = "0123456789abcdef";
        proof {
            reveal_strlit("0123456789abcdef");
        }
        push_char(out, table.get_char((cu / 16) as usize));
        push_char(out, table.get_char((cu % 16) as usize));
    } else {
        push_char(out, c);
    }
    proof {
        assert(final(out)@ =~= old(out)@ + esc_char(c));
    }
}

/// Append a JSON string: the escaped text between quotes.
fn push_json_string(out: &mut String, s: &str)
    ensures
        final(out)@ == old(out)@ + json_string(s@),
{
    push_char(out, '"');
    let ghost base = out@;
    let n = s.unicode_len();
    let mut i: usize = 0;
    while i < n
        invariant
            n == s@.len(),
            0 <= i <= n,
            out@ + json_escaped_from(s@, i as int) == base + json_escaped_from(s@, 0),
        decreases n - i,
    {
        let c = s.get_char(i);
        push_escaped_char(out, c);
        proof {
            assert(out@ + json_escaped_from(s@, i as int + 1) =~= base + json_escaped_from(
                s@,
                0,
            ));
        }
        i = i + 1;
    }
    push_char(out, '"');
    proof {
        assert(final(out)@ =~= old(out)@ + json_string(s@));
    }
}

/// Append a JSON string or `null`.
fn push_opt_json_string(out: &mut String, o: &Option<String>)
    ensures
        final(out)@ == old(out)@ + opt_json_string(*o),
{
    match o {
        Option::Some(s) => push_json_string(out, s.as_str()),
        Option::None => out.append("null"),
    }
}

/// Append a JSON number or `null`.
fn push_opt_u64(out: &mut String, o: &Option<u64>)
    ensures
        final(out)@ == old(out)@ + opt_u64_json(*o),
{
    match o {
        Option::Some(n) => push_dec(out, *n as u128),
        Option::None => out.append("null"),
    }
}

/// Append a JSON number or `null`.
fn push_opt_u128(out: &mut String, o: &Option<u128>)
    ensures
        final(out)@ == old(out)@ + opt_u128_json(*o),
{
    match o {
        Option::Some(n) => push_dec(out, *n),
        Option::None => out.append("null"),
    }
}

/// Append a JSON boolean.
fn push_bool(out: &mut String, b: bool)
    ensures
        final(out)@ == old(out)@ + bool_str(b),
{
    if b {
        out.append("true");
    } else {
        out.append("false");
    }
}

/// Append a JSON boolean or `null`.
fn push_opt_bool(out: &mut String, o: &Option<bool>)
    ensures
        final(out)@ == old(out)@ + opt_bool_json(*o),
{
    match o {
        Option::Some(b) => push_bool(out, *b),
        Option::None => out.append("null"),
    }
}

/// The JSON object of a position.
pub open spec fn json_of_gps(g: GpsCoordinates) -> Seq<char> {
    "{\"lat\":"@ + micro_str(g.lat_micro as int) + ",\"lon\":"@ + micro_str(g.lon_micro as int)
        + ",\"alt\":"@ + micro_str(g.alt_micro as int) + "}"@
}

/// The JSON object of a result row.
pub open spec fn json_of_result(r: VehicleQueryResult) -> Seq<char> {
    "{\"type\":"@ + json_string(r.msg_type@) + ",\"queryId\":"@ + json_string(r.query_id@)
        + ",\"timestamp\":"@ + json_string(r.timestamp@) + ",\"vehicleId\":"@ + json_string(
        r.vehicle_id@,
    ) + ",\"vehicleType\":"@ + json_string(r.vehicle_type@) + ",\"gps\":"@ + json_of_gps(r.gps)
        + ",\"direction\":"@ + json_string(r.direction@) + ",\"speed\":"@ + micro_str(
        r.speed_micro as int,
    ) + ",\"geoHash\":"@ + json_string(r.geo_hash@) + "}"@
}

/// The JSON text of a result row, as published on the reply subject.
#[verifier::rlimit(100)]
pub fn encode_vehicle_query_result(r: &VehicleQueryResult) -> (s: String)
    ensures
        s@ == json_of_result(*r),
{
    let mut out = String::new();
    out.append("{\"type\":");
    push_json_string(&mut out, r.msg_type.as_str());
    out.append(",\"queryId\":");
    push_json_string(&mut out, r.query_id.as_str());
    out.append(",\"timestamp\":");
    push_json_string(&mut out, r.timestamp.as_str());
    out.append(",\"vehicleId\":");
    push_json_string(&mut out, r.vehicle_id.as_str());
    out.append(",\"vehicleType\":");
    push_json_string(&mut out, r.vehicle_type.as_str());
    out.append(",\"gps\":");
    out.append("{\"lat\":");
    push_micro(&mut out, r.gps.lat_micro);
    out.append(",\"lon\":");
    push_micro(&mut out, r.gps.lon_micro);
    out.append(",\"alt\":");
    push_micro(&mut out, r.gps.alt_micro);
    out.append("}");
    out.append(",\"direction\":");
    push_json_string(&mut out, r.direction.as_str());
    out.append(",\"speed\":");
    push_micro(&mut out, r.speed_micro);
    out.append(",\"geoHash\":");
    push_json_string(&mut out, r.geo_hash.as_str());
    out.append("}");
    proof {
        assert(out@ =~= json_of_result(*r));
    }
    out
}

/// The JSON object of the response counters.
pub open spec fn json_of_response_body(b: VehicleQueryResponse) -> Seq<char> {
    "{\"type\":"@ + json_string(b.msg_type@) + ",\"processedFilesCount\":"@ + dec_str(
        b.processed_files_count as int,
    ) + ",\"processedBytes\":"@ + dec_str(b.processed_bytes as int) + ",\"processedRecordCount\":"@
        + dec_str(b.processed_record_count as int) + ",\"selectedRecordCount\":"@ + dec_str(
        b.selected_record_count as int,
    ) + ",\"distinctVehicleCount\":"@ + dec_str(b.distinct_vehicle_count as int)
        + ",\"elapsedTimeInMS\":"@ + dec_str(b.elapsed_time_in_ms as int) + ",\"timeoutExpired\":"@
        + bool_str(b.timeout_expired) + ",\"limitReached\":"@ + bool_str(b.limit_reached) + "}"@
}

/// Append the JSON object of the response counters.
#[verifier::rlimit(100)]
fn push_response_body(out: &mut String, b: &VehicleQueryResponse)
    ensures
        final(out)@ == old(out)@ + json_of_response_body(*b),
{
    out.append("{\"type\":");
    push_json_string(out, b.msg_type.as_str());
    out.append(",\"processedFilesCount\":");
    push_dec(out, b.processed_files_count as u128);
    out.append(",\"processedBytes\":");
    push_dec(out, b.processed_bytes as u128);
    out.append(",\"processedRecordCount\":");
    push_dec(out, b.processed_record_count as u128);
    out.append(",\"selectedRecordCount\":");
    push_dec(out, b.selected_record_count as u128);
    out.append(",\"distinctVehicleCount\":");
    push_dec(out, b.distinct_vehicle_count as u128);
    out.append(",\"elapsedTimeInMS\":");
    push_dec(out, b.elapsed_time_in_ms);
    out.append(",\"timeoutExpired\":");
    push_bool(out, b.timeout_expired);
    out.append(",\"limitReached\":");
    push_bool(out, b.limit_reached);
    out.append("}");
    proof {
        assert(final(out)@ =~= old(out)@ + json_of_response_body(*b));
    }
}

/// The wire text of an error code.
pub open spec fn code_str(c: ResponseErrorCode) -> Seq<char> {
    match c {
        ResponseErrorCode::Expired => "expired"@,
        ResponseErrorCode::Timeout => "timeout"@,
        ResponseErrorCode::Cancelled => "cancelled"@,
        ResponseErrorCode::Exception => "exception"@,
    }
}

/// The JSON object of a terminal response: tagged success with the
/// counters, or tagged error with its code and message.
pub open spec fn json_of_search_response(r: Response<VehicleQueryResponse>) -> Seq<char> {
    match r {
        Response::Success { id, request_id, body } => "{\"type\":\"response-success\",\"id\":"@
            + json_string(id@) + ",\"requestId\":"@ + json_string(request_id@) + ",\"body\":"@
            + json_of_response_body(body) + "}"@,
        Response::Error { id, request_id, code, body, error } => {
            "{\"type\":\"response-error\",\"id\":"@ + json_string(id@) + ",\"requestId\":"@
                + json_string(request_id@) + ",\"code\":"@ + json_string(code_str(code))
                + ",\"body\":"@ + opt_json_string(body) + ",\"error\":"@ + opt_json_string(error)
                + "}"@
        },
    }
}

/// The JSON text of a terminal response.
#[verifier::rlimit(100)]
pub fn encode_search_response(r: &Response<VehicleQueryResponse>) -> (s: String)
    ensures
        s@ == json_of_search_response(*r),
{
    let mut out = String::new();
    match r {
        Response::Success { id, request_id, body } => {
            out.append("{\"type\":\"response-success\",\"id\":");
            push_json_string(&mut out, id.as_str());
            out.append(",\"requestId\":");
            push_json_string(&mut out, request_id.as_str());
            out.append(",\"body\":");
            push_response_body(&mut out, body);
            out.append("}");
        },
        Response::Error { id, request_id, code, body, error } => {
            out.append("{\"type\":\"response-error\",\"id\":");
            push_json_string(&mut out, id.as_str());
            out.append(",\"requestId\":");
            push_json_string(&mut out, request_id.as_str());
            out.append(",\"code\":");
            let code_text: &str = match code {
                ResponseErrorCode::Expired => "expired",
                ResponseErrorCode::Timeout => "timeout",
                ResponseErrorCode::Cancelled => "cancelled",
                ResponseErrorCode::Exception => "exception",
            };
            push_json_string(&mut out, code_text);
            out.append(",\"body\":");
            push_opt_json_string(&mut out, body);
            out.append(",\"error\":");
            push_opt_json_string(&mut out, error);
            out.append("}");
        },
    }
    proof {
        assert(out@ =~= json_of_search_response(*r));
    }
    out
}

/// The raw wire text a geometry arrived with.
pub open spec fn geometry_raw(g: GeometryInput) -> Seq<char> {
    match g {
        GeometryInput::Shape { raw, .. } => raw@,
        GeometryInput::Malformed { raw, .. } => raw@,
    }
}

/// The items of a JSON array of strings from index `i` on, with their
/// separating commas.
pub open spec fn json_array_items(v: Seq<String>, i: int) -> Seq<char>
    decreases v.len() - i,
{
    if i < 0 || i >= v.len() {
        Seq::empty()
    } else {
        (if i > 0 {
            ","@
        } else {
            Seq::<char>::empty()
        }) + json_string(v[i]@) + json_array_items(v, i + 1)
    }
}

/// A JSON array of strings.
pub open spec fn json_string_array(v: Seq<String>) -> Seq<char> {
    "["@ + json_array_items(v, 0) + "]"@
}

/// Append a JSON array of strings.
fn push_string_array(out: &mut String, v: &Vec<String>)
    ensures
        final(out)@ == old(out)@ + json_string_array(v@),
{
    out.append("[");
    let ghost base = out@;
    let n = v.len();
    let mut i: usize = 0;
    while i < n
        invariant
            n == v@.len(),
            0 <= i <= n,
            out@ + json_array_items(v@, i as int) == base + json_array_items(v@, 0),
        decreases n - i,
    {
        if i > 0 {
            out.append(",");
        }
        push_json_string(out, v[i].as_str());
        proof {
            assert(out@ + json_array_items(v@, i as int + 1) =~= base + json_array_items(v@, 0));
        }
        i = i + 1;
    }
    out.append("]");
    proof {
        assert(final(out)@ =~= old(out)@ + json_string_array(v@));
    }
}

/// The JSON object of a vehicle query body, with the geometry re-emitted
/// as its raw text.
pub open spec fn json_of_query_body(q: VehicleQueryRequest) -> Seq<char> {
    "{\"type\":"@ + json_string(q.msg_type@) + ",\"id\":"@ + json_string(q.id@)
        + ",\"fromDate\":"@ + json_string(q.from_date@) + ",\"toDate\":"@ + json_string(q.to_date@)
        + ",\"geometry\":"@ + geometry_raw(q.geometry) + ",\"vehicleTypes\":"@ + json_string_array(
        q.vehicle_types@,
    ) + ",\"limit\":"@ + opt_u64_json(q.limit) + ",\"timeout\":"@ + opt_u128_json(q.timeout)
        + ",\"ttl\":"@ + opt_json_string(q.ttl) + ",\"parallelize\":"@ + opt_bool_json(
        q.parallelize,
    ) + ",\"useChunking\":"@ + opt_bool_json(q.use_chunking) + "}"@
}

/// Append the JSON object of a vehicle query body.
#[verifier::rlimit(100)]
fn push_query_body(out: &mut String, q: &VehicleQueryRequest)
    ensures
        final(out)@ == old(out)@ + json_of_query_body(*q),
{
    out.append("{\"type\":");
    push_json_string(out, q.msg_type.as_str());
    out.append(",\"id\":");
    push_json_string(out, q.id.as_str());
    out.append(",\"fromDate\":");
    push_json_string(out, q.from_date.as_str());
    out.append(",\"toDate\":");
    push_json_string(out, q.to_date.as_str());
    out.append(",\"geometry\":");
    match &q.geometry {
        GeometryInput::Shape { raw, .. } => out.append(raw.as_str()),
        GeometryInput::Malformed { raw, .. } => out.append(raw.as_str()),
    }
    out.append(",\"vehicleTypes\":");
    push_string_array(out, &q.vehicle_types);
    out.append(",\"limit\":");
    push_opt_u64(out, &q.limit);
    out.append(",\"timeout\":");
    push_opt_u128(out, &q.timeout);
    out.append(",\"ttl\":");
    push_opt_json_string(out, &q.ttl);
    out.append(",\"parallelize\":");
    push_opt_bool(out, &q.parallelize);
    out.append(",\"useChunking\":");
    push_opt_bool(out, &q.use_chunking);
    out.append("}");
}

/// The JSON object of a request envelope around a vehicle query.
pub open spec fn json_of_request(r: Request<VehicleQueryRequest>) -> Seq<char> {
    "{\"id\":"@ + json_string(r.id@) + ",\"type\":"@ + json_string(r.msg_type@) + ",\"replyTo\":"@
        + json_string(r.reply_to@) + ",\"parentId\":"@ + opt_json_string(r.parent_id)
        + ",\"expiresAt\":"@ + opt_json_string(r.expires_at) + ",\"timeout\":"@ + opt_u64_json(
        r.timeout,
    ) + ",\"body\":"@ + json_of_query_body(r.body) + "}"@
}

/// Append the JSON object of a request envelope.
#[verifier::rlimit(100)]
fn push_request(out: &mut String, r: &Request<VehicleQueryRequest>)
    ensures
        final(out)@ == old(out)@ + json_of_request(*r),
{
    out.append("{\"id\":");
    push_json_string(out, r.id.as_str());
    out.append(",\"type\":");
    push_json_string(out, r.msg_type.as_str());
    out.append(",\"replyTo\":");
    push_json_string(out, r.reply_to.as_str());
    out.append(",\"parentId\":");
    push_opt_json_string(out, &r.parent_id);
    out.append(",\"expiresAt\":");
    push_opt_json_string(out, &r.expires_at);
    out.append(",\"timeout\":");
    push_opt_u64(out, &r.timeout);
    out.append(",\"body\":");
    push_query_body(out, &r.body);
    out.append("}");
    proof {
        assert(final(out)@ =~= old(out)@ + json_of_request(*r));
    }
}

/// The JSON object of the started lifecycle event.
pub open spec fn json_of_started(ev: VehicleQueryStartedEvent) -> Seq<char> {
    "{\"type\":"@ + json_string(ev.msg_type@) + ",\"query\":"@ + json_of_request(ev.query) + "}"@
}

/// The JSON text of the started lifecycle event.
#[verifier::rlimit(100)]
pub fn encode_started_event(ev: &VehicleQueryStartedEvent) -> (s: String)
    ensures
        s@ == json_of_started(*ev),
{
    let mut out = String::new();
    out.append("{\"type\":");
    push_json_string(&mut out, ev.msg_type.as_str());
    out.append(",\"query\":");
    push_request(&mut out, &ev.query);
    out.append("}");
    proof {
        assert(out@ =~= json_of_started(*ev));
    }
    out
}

/// The response counters of the stopped event, or `null`.
pub open spec fn opt_response_json(o: Option<VehicleQueryResponse>) -> Seq<char> {
    match o {
        Option::Some(b) => json_of_response_body(b),
        Option::None => "null"@,
    }
}

/// The JSON object of the stopped lifecycle event.
pub open spec fn json_of_stopped(ev: VehicleQueryStoppedEvent) -> Seq<char> {
    "{\"type\":"@ + json_string(ev.msg_type@) + ",\"query\":"@ + json_of_request(ev.query)
        + ",\"isSuccess\":"@ + bool_str(ev.is_success) + ",\"response\":"@ + opt_response_json(
        ev.response,
    ) + ",\"error\":"@ + opt_json_string(ev.error) + "}"@
}

/// The JSON text of the stopped lifecycle event.
#[verifier::rlimit(100)]
pub fn encode_stopped_event(ev: &VehicleQueryStoppedEvent) -> (s: String)
    ensures
        s@ == json_of_stopped(*ev),
{
    let mut out = String::new();
    out.append("{\"type\":");
    push_json_string(&mut out, ev.msg_type.as_str());
    out.append(",\"query\":");
    push_request(&mut out, &ev.query);
    out.append(",\"isSuccess\":");
    push_bool(&mut out, ev.is_success);
    out.append(",\"response\":");
    match &ev.response {
        Option::Some(b) => push_response_body(&mut out, b),
        Option::None => out.append("null"),
    }
    out.append(",\"error\":");
    push_opt_json_string(&mut out, &ev.error);
    out.append("}");
    proof {
        assert(out@ =~= json_of_stopped(*ev));
    }
    out
}

/// The JSON object of a service identity.
pub open spec fn json_of_identity(idn: ServiceIdentity) -> Seq<char> {
    "{\"name\":"@ + json_string(idn.name@) + ",\"instance\":"@ + dec_str(idn.instance as int)
        + ",\"runtime\":"@ + json_string(idn.runtime@) + "}"@
}

/// The JSON object of a pong response.
pub open spec fn json_of_pong(r: Response<PingResponse>) -> Seq<char> {
    match r {
        Response::Success { id, request_id, body } => "{\"type\":\"response-success\",\"id\":"@
            + json_string(id@) + ",\"requestId\":"@ + json_string(request_id@) + ",\"body\":"@ + (
        "{\"type\":"@ + json_string(body.msg_type@) + ",\"identity\":"@ + json_of_identity(
            body.identity,
        ) + "}"@) + "}"@,
        Response::Error { id, request_id, code, body, error } => {
            "{\"type\":\"response-error\",\"id\":"@ + json_string(id@) + ",\"requestId\":"@
                + json_string(request_id@) + ",\"code\":"@ + json_string(code_str(code))
                + ",\"body\":"@ + opt_json_string(body) + ",\"error\":"@ + opt_json_string(error)
                + "}"@
        },
    }
}

/// The JSON text of a pong response.
#[verifier::rlimit(100)]
pub fn encode_pong(r: &Response<PingResponse>) -> (s: String)
    ensures
        s@ == json_of_pong(*r),
{
    let mut out = String::new();
    match r {
        Response::Success { id, request_id, body } => {
            out.append("{\"type\":\"response-success\",\"id\":");
            push_json_string(&mut out, id.as_str());
            out.append(",\"requestId\":");
            push_json_string(&mut out, request_id.as_str());
            out.append(",\"body\":");
            out.append("{\"type\":");
            push_json_string(&mut out, body.msg_type.as_str());
            out.append(",\"identity\":");
            out.append("{\"name\":");
            push_json_string(&mut out, body.identity.name.as_str());
            out.append(",\"instance\":");
            push_dec(&mut out, body.identity.instance as u128);
            out.append(",\"runtime\":");
            push_json_string(&mut out, body.identity.runtime.as_str());
            out.append("}");
            out.append("}");
            out.append("}");
        },
        Response::Error { id, request_id, code, body, error } => {
            out.append("{\"type\":\"response-error\",\"id\":");
            push_json_string(&mut out, id.as_str());
            out.append(",\"requestId\":");
            push_json_string(&mut out, request_id.as_str());
            out.append(",\"code\":");
            let code_text: &str = match code {
                ResponseErrorCode::Expired => "expired",
                ResponseErrorCode::Timeout => "timeout",
                ResponseErrorCode::Cancelled => "cancelled",
                ResponseErrorCode::Exception => "exception",
            };
            push_json_string(&mut out, code_text);
            out.append(",\"body\":");
            push_opt_json_string(&mut out, body);
            out.append(",\"error\":");
            push_opt_json_string(&mut out, error);
            out.append("}");
        },
    }
    proof {
        assert(out@ =~= json_of_pong(*r));
    }
    out
}

/// The JSON payload of one emission, whatever its kind.
pub open spec fn json_of_emission(e: Emission) -> Seq<char> {
    match e.payload {
        OutboundMessage::Started(ev) => json_of_started(ev),
        OutboundMessage::ResultRow(row) => json_of_result(row),
        OutboundMessage::Terminal(resp) => json_of_search_response(resp),
        OutboundMessage::Stopped(ev) => json_of_stopped(ev),
        OutboundMessage::Pong(resp) => json_of_pong(resp),
    }
}

/// The JSON payload of one emission.
pub fn encode_emission(e: &Emission) -> (s: String)
    ensures
        s@ == json_of_emission(*e),
{
    match &e.payload {
        OutboundMessage::Started(ev) => encode_started_event(ev),
        OutboundMessage::ResultRow(row) => encode_vehicle_query_result(row),
        OutboundMessage::Terminal(resp) => encode_search_response(resp),
        OutboundMessage::Stopped(ev) => encode_stopped_event(ev),
        OutboundMessage::Pong(resp) => encode_pong(resp),
    }
}

} // verus!
