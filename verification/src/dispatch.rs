//! The request dispatcher's decisions: the subjects the service listens
//! on, and the exact sequence of messages one request gives rise to.
//! The bus loops live outside; they decode inbound payloads, call these
//! functions, and publish what comes back, in order.

use vstd::prelude::*;

use crate::config::Config;
use crate::query::EventBatch;
use crate::query::QueryPlan;
use crate::query::clone_result;
use crate::query::exec_after;
use crate::query::exec_init;
use crate::query::plan_matches_query;
use crate::query::prepare_query;
use crate::query::query_accepted;
use crate::query::response_matches_exec;
use crate::query::result_matches_row;
use crate::query::run_query;
use crate::query::spec_total_bytes;
use crate::query::spec_total_rows;
use crate::store::SessionSpec;
use crate::store::create_session_context;
use crate::store::store_plan_accepted;
use crate::store::chosen_format;
use crate::store::extension_of;
use crate::types::PingRequest;
use crate::types::PingResponse;
use crate::types::QueryError;
use crate::types::QueryErrorKind;
use crate::types::Request;
use crate::types::Response;
use crate::types::ResponseErrorCode;
use crate::types::ServiceIdentity;
use crate::types::VehicleQueryRequest;
use crate::types::VehicleQueryResponse;
use crate::types::VehicleQueryResult;
use crate::types::VehicleQueryStartedEvent;
use crate::types::VehicleQueryStoppedEvent;
use crate::types::clone_request;
use crate::types::clone_response_body;
use crate::types::request_matches;

verus! {

/// A message the dispatcher publishes.
pub enum OutboundMessage {
    Started(VehicleQueryStartedEvent),
    ResultRow(VehicleQueryResult),
    Terminal(Response<VehicleQueryResponse>),
    Stopped(VehicleQueryStoppedEvent),
    Pong(Response<PingResponse>),
}

/// One message to publish: its subject and its typed payload.
pub struct Emission {
    pub subject: String,
    pub payload: OutboundMessage,
}

/// Relies on `uuid::Uuid::new_v4` and its hyphenated `Display` form: a
/// fresh random identifier, 36 characters of text.
#[verifier::external_body]
fn new_message_id() -> (r: String)
    ensures
        r@.len() == 36,
{
    uuid::Uuid::new_v4().to_string()
}

/// The subject of the control channel the ping handler listens on.
pub fn subscribe_to_ping_requests() -> (r: String)
    ensures
        r@ == "messaging.control"@,
{
    "messaging.control".to_owned()
}

/// The subject the vehicle query handler listens on.
pub fn subscribe_to_search_requests() -> (r: String)
    ensures
        r@ == "requests.vehicles.query"@,
{
    "requests.vehicles.query".to_owned()
}

/// The subject the generation lifecycle handler listens on.
pub fn subscribe_to_generation_requests() -> (r: String)
    ensures
        r@ == "events.vehicles.generation.stopped"@,
{
    "events.vehicles.generation.stopped".to_owned()
}

/// On a generation-stopped event the scan session is rebuilt from the
/// configuration, so that later queries observe the fresh corpus.
pub fn process_generation_requests(
    config: &Config,
    env_data_folder: &Option<String>,
    cwd: &str,
    env_connection_string: &Option<String>,
) -> (r: Result<SessionSpec, QueryError>)
    ensures
        r is Ok <==> store_plan_accepted(*config, *env_connection_string) && extension_of(
            chosen_format(config.collector.output.formats@),
        ) is Some,
        r is Err ==> (r->Err_0).kind == QueryErrorKind::InvalidConfig,
{
    create_session_context(config, env_data_folder, cwd, env_connection_string)
}

/// The reply to one ping: a fresh success envelope carrying this
/// service's identity as a pong, addressed to the request's reply
/// subject.
pub fn process_ping_request(req: &Request<PingRequest>, identity: &ServiceIdentity) -> (r: Emission)
    ensures
        r.subject@ == req.reply_to@,
        match r.payload {
            OutboundMessage::Pong(resp) => match resp {
                Response::Success { id, request_id, body } => {
                    &&& id@.len() == 36
                    &&& request_id@ == req.id@
                    &&& body.msg_type@ == "pong"@
                    &&& body.identity.name@ == identity.name@
                    &&& body.identity.instance == identity.instance
                    &&& body.identity.runtime@ == identity.runtime@
                },
                _ => false,
            },
            _ => false,
        },
{
    Emission {
        subject: req.reply_to.clone(),
        payload: OutboundMessage::Pong(
            Response::Success {
                id: new_message_id(),
                request_id: req.id.clone(),
                body: PingResponse {
                    msg_type: "pong".to_owned(),
                    identity: ServiceIdentity {
                        name: identity.name.clone(),
                        instance: identity.instance,
                        runtime: identity.runtime.clone(),
                    },
                },
            },
        ),
    }
}

/// The emission opens the lifecycle: the started event on its subject,
/// carrying the whole request.
pub open spec fn started_ok(e: Emission, req: Request<VehicleQueryRequest>) -> bool {
    &&& e.subject@ == "events.vehicles.query.started"@
    &&& match e.payload {
        OutboundMessage::Started(ev) => ev.msg_type@ == "vehicle-query-started"@ && request_matches(
            req,
            ev.query,
        ),
        _ => false,
    }
}

/// The emission closes the lifecycle: the stopped event on its subject,
/// carrying the whole request.
pub open spec fn stopped_shape(e: Emission, req: Request<VehicleQueryRequest>) -> bool {
    &&& e.subject@ == "events.vehicles.query.stopped"@
    &&& match e.payload {
        OutboundMessage::Stopped(ev) => ev.msg_type@ == "vehicle-query-stopped"@ && request_matches(
            req,
            ev.query,
        ),
        _ => false,
    }
}

/// A successful search conversation: after the started event come the
/// result rows on the reply subject, one per emitted row and in order,
/// then exactly one success response summarising the counters, then the
/// stopped event with the same summary.
pub open spec fn search_success_ok(
    r: Seq<Emission>,
    req: Request<VehicleQueryRequest>,
    plan: QueryPlan,
    batches: Seq<EventBatch>,
    elapsed: Seq<u128>,
    elapsed_total: u128,
) -> bool {
    let m = if plan.partitions@.len() == 0 {
        exec_init()
    } else {
        exec_after(plan, batches, elapsed, batches.len() as int)
    };
    &&& r.len() == 3 + m.emitted.len()
    &&& forall|i: int|
        0 <= i < m.emitted.len() ==> (#[trigger] r[i + 1]).subject@ == req.reply_to@ && match r[i
            + 1].payload {
            OutboundMessage::ResultRow(row) => result_matches_row(row, m.emitted[i], plan),
            _ => false,
        }
    &&& r[r.len() - 2].subject@ == req.reply_to@
    &&& match r[r.len() - 2].payload {
        OutboundMessage::Terminal(resp) => match resp {
            Response::Success { request_id, body, .. } => request_id@ == req.id@
                && response_matches_exec(body, m, elapsed_total),
            _ => false,
        },
        _ => false,
    }
    &&& match r[r.len() - 1].payload {
        OutboundMessage::Stopped(ev) => ev.is_success && ev.error is None && ev.response is Some
            && response_matches_exec(ev.response->0, m, elapsed_total),
        _ => false,
    }
}

/// Serve one vehicle query request end to end: announce it, translate it
/// into a plan, execute the plan over the scanned batches, and close the
/// lifecycle.  The emissions come back in publication order: the started
/// event, then for an accepted query each result row followed by the
/// success response on the reply subject, or for a rejected query the
/// error response with code `exception`, and the stopped event last.
pub fn process_search_request(
    req: &Request<VehicleQueryRequest>,
    default_timeout_ms: u128,
    batches: &Vec<EventBatch>,
    elapsed_after_batch: &Vec<u128>,
    elapsed_total: u128,
) -> (r: Vec<Emission>)
    requires
        batches@.len() == elapsed_after_batch@.len(),
        spec_total_rows(batches@, batches@.len() as int) <= usize::MAX,
        spec_total_bytes(batches@, batches@.len() as int) <= usize::MAX,
    ensures
        r@.len() >= 3,
        started_ok(r@[0], *req),
        stopped_shape(r@[r@.len() - 1], *req),
        !query_accepted(req.body) ==> ({
            &&& r@.len() == 3
            &&& r@[1].subject@ == req.reply_to@
            &&& match r@[1].payload {
                OutboundMessage::Terminal(resp) => match resp {
                    Response::Error { request_id, code, error, .. } => request_id@ == req.id@
                        && code == ResponseErrorCode::Exception && error is Some,
                    _ => false,
                },
                _ => false,
            }
            &&& match r@[2].payload {
                OutboundMessage::Stopped(ev) => !ev.is_success && ev.response is None && ev.error
                    is Some,
                _ => false,
            }
        }),
        query_accepted(req.body) ==> (exists|plan: QueryPlan|
            #[trigger] plan_matches_query(plan, req.body, default_timeout_ms)
                && search_success_ok(
                r@,
                *req,
                plan,
                batches@,
                elapsed_after_batch@,
                elapsed_total,
            )),
{
    let mut out: Vec<Emission> = Vec::new();
    out.push(
        Emission {
            subject: "events.vehicles.query.started".to_owned(),
            payload: OutboundMessage::Started(
                VehicleQueryStartedEvent {
                    msg_type: "vehicle-query-started".to_owned(),
                    query: clone_request(req),
                },
            ),
        },
    );
    match prepare_query(&req.body, default_timeout_ms) {
        Result::Err(e) => {
            let message = crate::types::to_string_error(&e);
            let message_copy = message.clone();
            out.push(
                Emission {
                    subject: req.reply_to.clone(),
                    payload: OutboundMessage::Terminal(
                        Response::Error {
                            id: new_message_id(),
                            request_id: req.id.clone(),
                            code: ResponseErrorCode::Exception,
                            body: Option::None,
                            error: Option::Some(message),
                        },
                    ),
                },
            );
            out.push(
                Emission {
                    subject: "events.vehicles.query.stopped".to_owned(),
                    payload: OutboundMessage::Stopped(
                        VehicleQueryStoppedEvent {
                            msg_type: "vehicle-query-stopped".to_owned(),
                            query: clone_request(req),
                            is_success: false,
                            response: Option::None,
                            error: Option::Some(message_copy),
                        },
                    ),
                },
            );
            out
        },
        Result::Ok(plan) => {
            let outcome = run_query(&plan, batches, elapsed_after_batch, elapsed_total);
            let n = outcome.results.len();
            let mut k: usize = 0;
            while k < n
                invariant
                    n == outcome.results@.len(),
                    0 <= k <= n,
                    out@.len() == 1 + k,
                    started_ok(out@[0], *req),
                    forall|i: int|
                        0 <= i < k ==> (#[trigger] out@[i + 1]).subject@ == req.reply_to@ && match
                            out@[i + 1].payload {
                            OutboundMessage::ResultRow(row) => crate::query::result_views_match(
                                outcome.results@[i],
                                row,
                            ),
                            _ => false,
                        },
                decreases n - k,
            {
                out.push(
                    Emission {
                        subject: req.reply_to.clone(),
                        payload: OutboundMessage::ResultRow(clone_result(&outcome.results[k])),
                    },
                );
                k = k + 1;
            }
            let body_copy = clone_response_body(&outcome.response);
            out.push(
                Emission {
                    subject: req.reply_to.clone(),
                    payload: OutboundMessage::Terminal(
                        Response::Success {
                            id: new_message_id(),
                            request_id: req.id.clone(),
                            body: outcome.response,
                        },
                    ),
                },
            );
            out.push(
                Emission {
                    subject: "events.vehicles.query.stopped".to_owned(),
                    payload: OutboundMessage::Stopped(
                        VehicleQueryStoppedEvent {
                            msg_type: "vehicle-query-stopped".to_owned(),
                            query: clone_request(req),
                            is_success: true,
                            response: Option::Some(body_copy),
                            error: Option::None,
                        },
                    ),
                },
            );
            proof {
                let m = if plan.partitions@.len() == 0 {
                    exec_init()
                } else {
                    exec_after(
                        plan,
                        batches@,
                        elapsed_after_batch@,
                        batches@.len() as int,
                    )
                };
                assert(out@.len() == 3 + m.emitted.len());
                assert forall|i: int|
                    0 <= i < m.emitted.len() implies (#[trigger] out@[i + 1]).subject@
                    == req.reply_to@ && match out@[i + 1].payload {
                    OutboundMessage::ResultRow(row) => result_matches_row(row, m.emitted[i], plan),
                    _ => false,
                } by {
                    assert(result_matches_row(outcome.results@[i], m.emitted[i], plan));
                }
                assert(search_success_ok(
                    out@,
                    *req,
                    plan,
                    batches@,
                    elapsed_after_batch@,
                    elapsed_total,
                ));
                assert(plan_matches_query(plan, req.body, default_timeout_ms));
            }
            out
        },
    }
}

} // verus!
