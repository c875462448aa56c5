//! The vehicle query executor: per-row refinement of the scanned record
//! batches against the exact geometry and time window, accumulation of the
//! result counters, and enforcement of the row limit and the timeout.
//!
//! The columnar reader stays outside; it hands batches of plain rows over
//! and measures elapsed time at batch boundaries.

use vstd::prelude::*;

use crate::cover::covering_set;
use crate::cover::geohash_covering;
use crate::cover::string_set;
use crate::geo::PlanarGeometry;
use crate::geo::point_in_rings;
use crate::geo::pt;
use crate::geo::scale_rings;
use crate::strings::contains_string;
use crate::time::aligned_lower;
use crate::time::aligned_upper;
use crate::time::format_partition_key;
use crate::time::format_rfc3339;
use crate::time::parse_instant_ms;
use crate::time::partition_key_of;
use crate::time::rfc3339_of;
use crate::time::round_datetime_modulo_minutes;
use crate::time::utc_ms_of;
use crate::types::GeometryInput;
use crate::types::GpsCoordinates;
use crate::types::QueryError;
use crate::types::QueryErrorKind;
use crate::types::VehicleQueryRequest;
use crate::types::VehicleQueryResult;
use crate::types::clone_geometry;
use crate::types::clone_strings;
use crate::types::strings_match;

verus! {

/// One event row handed over from the columnar reader, with coordinates
/// already in micro-degrees.  A coordinate is absent when the stored value
/// was not a finite number.
pub struct EventRecord {
    pub timestamp_ms: i64,
    pub lat_micro: Option<i64>,
    pub lon_micro: Option<i64>,
    pub alt_micro: Option<i64>,
    pub vehicle_id: String,
    pub vehicle_type: String,
    pub direction: String,
    pub speed_micro: i64,
    pub geo_hash: String,
}

/// One record batch: its rows, and the bytes of memory its columnar
/// arrays take as the reader reports it.
pub struct EventBatch {
    pub rows: Vec<EventRecord>,
    pub mem_bytes: usize,
}

/// The executable plan of one vehicle query: the refined time window, the
/// partition pushdown keys, the geohash partition set, the type filter,
/// the exact geometry, and the limit and timeout.
pub struct QueryPlan {
    pub query_id: String,
    pub from_ms: i64,
    pub to_ms: i64,
    pub from_key: String,
    pub to_key: String,
    pub partitions: Vec<String>,
    pub vehicle_types: Vec<String>,
    pub geometry: PlanarGeometry,
    pub limit: usize,
    pub timeout_ms: u128,
}

impl QueryPlan {
    /// The geometry of the plan is well-formed.
    pub open spec fn wf(&self) -> bool {
        self.geometry.wf()
    }
}

/// The row's coordinates are present and within the admissible WGS84
/// ranges.  A row whose stored coordinates were not finite has no
/// coordinates here; a finite coordinate outside the ranges cannot lie in
/// any well-formed geometry either.
pub open spec fn coords_valid(row: EventRecord) -> bool {
    &&& row.lat_micro is Some
    &&& row.lon_micro is Some
    &&& row.alt_micro is Some
    &&& -180_000_000 <= row.lon_micro->0 <= 180_000_000
    &&& -90_000_000 <= row.lat_micro->0 <= 90_000_000
}

/// The type predicate: an empty filter admits every type, a non-empty
/// filter admits exactly the listed types.
pub open spec fn type_admitted(types: Seq<String>, t: Seq<char>) -> bool {
    types.len() == 0 || exists|i: int| 0 <= i < types.len() && (#[trigger] types[i])@ == t
}

/// Whether one stored row passes the per-row refinement of the plan: its
/// coordinates are usable, its timestamp falls in the half-open window
/// `[from, to)`, its type passes the type predicate, and its point lies in
/// the exact geometry.
pub open spec fn row_selected(row: EventRecord, plan: QueryPlan) -> bool {
    &&& coords_valid(row)
    &&& plan.from_ms <= row.timestamp_ms < plan.to_ms
    &&& type_admitted(plan.vehicle_types@, row.vehicle_type@)
    &&& point_in_rings(
        scale_rings(plan.geometry@, 1, 1),
        pt(row.lon_micro->0 as int, row.lat_micro->0 as int),
    )
}

/// Whether the type filter admits the text.
pub fn type_admitted_exec(types: &Vec<String>, t: &String) -> (b: bool)
    ensures
        b == type_admitted(types@, t@),
{
    if types.len() == 0 {
        true
    } else {
        contains_string(types, t)
    }
}

/// The per-row refinement test.
pub fn row_selected_exec(row: &EventRecord, plan: &QueryPlan) -> (b: bool)
    requires
        plan.wf(),
    ensures
        b == row_selected(*row, *plan),
{
    let lat = match row.lat_micro {
        Option::Some(v) => v,
        Option::None => {
            return false;
        },
    };
    let lon = match row.lon_micro {
        Option::Some(v) => v,
        Option::None => {
            return false;
        },
    };
    match row.alt_micro {
        Option::Some(_) => (),
        Option::None => {
            return false;
        },
    };
    if lon < -180_000_000 || lon > 180_000_000 || lat < -90_000_000 || lat > 90_000_000 {
        return false;
    }
    if row.timestamp_ms < plan.from_ms || row.timestamp_ms >= plan.to_ms {
        return false;
    }
    if !type_admitted_exec(&plan.vehicle_types, &row.vehicle_type) {
        return false;
    }
    crate::geo::geometry_contains_point(&plan.geometry, lon, lat)
}

/// The selected rows among the first `n` rows, in arrival order.
pub open spec fn selected_prefix(rows: Seq<EventRecord>, plan: QueryPlan, n: int) -> Seq<
    EventRecord,
>
    decreases n,
{
    if n <= 0 {
        Seq::empty()
    } else {
        selected_prefix(rows, plan, n - 1) + if row_selected(rows[n - 1], plan) {
            seq![rows[n - 1]]
        } else {
            Seq::empty()
        }
    }
}

/// The selected rows of a batch, in arrival order.
pub open spec fn selected_rows(rows: Seq<EventRecord>, plan: QueryPlan) -> Seq<EventRecord> {
    selected_prefix(rows, plan, rows.len() as int)
}

/// The first `k` entries of `s`, or all of them when `s` is shorter.
pub open spec fn capped(s: Seq<EventRecord>, k: int) -> Seq<EventRecord> {
    if s.len() <= k {
        s
    } else {
        s.take(k)
    }
}

/// Appending a row caps as expected: below the cap the row is kept, at the
/// cap it is dropped.
proof fn lemma_capped_snoc(s: Seq<EventRecord>, r: EventRecord, k: int)
    requires
        0 <= k,
    ensures
        s.len() < k ==> capped(s + seq![r], k) == capped(s, k) + seq![r],
        s.len() >= k ==> capped(s + seq![r], k) == capped(s, k),
{
    if s.len() < k {
        assert(capped(s + seq![r], k) =~= capped(s, k) + seq![r]);
    } else {
        assert((s + seq![r]).take(k) =~= s.take(k));
        if s.len() == k {
            assert(capped(s, k) =~= s.take(k));
        }
        assert(capped(s + seq![r], k) =~= capped(s, k));
    }
}

/// At most one selected row comes out of each row looked at.
proof fn lemma_selected_prefix_len(rows: Seq<EventRecord>, plan: QueryPlan, n: int)
    requires
        0 <= n,
    ensures
        selected_prefix(rows, plan, n).len() <= n,
    decreases n,
{
    if n > 0 {
        lemma_selected_prefix_len(rows, plan, n - 1);
    }
}

/// Appending a non-selected suffix row leaves the selection unchanged;
/// appending a selected one appends it.
proof fn lemma_selected_prefix_snoc(rows: Seq<EventRecord>, plan: QueryPlan, n: int)
    requires
        0 <= n < rows.len(),
    ensures
        row_selected(rows[n], plan) ==> selected_prefix(rows, plan, n + 1) == selected_prefix(
            rows,
            plan,
            n,
        ) + seq![rows[n]],
        !row_selected(rows[n], plan) ==> selected_prefix(rows, plan, n + 1) == selected_prefix(
            rows,
            plan,
            n,
        ),
{
    if !row_selected(rows[n], plan) {
        assert(selected_prefix(rows, plan, n + 1) =~= selected_prefix(rows, plan, n));
    }
}

/// The texts of a vector of strings.
pub open spec fn ids_view(v: Seq<String>) -> Seq<Seq<char>> {
    Seq::new(v.len(), |i: int| v[i]@)
}

/// An identifier set after adding one identifier: unchanged when already
/// present, appended otherwise.
pub open spec fn add_id(ids: Seq<Seq<char>>, id: Seq<char>) -> Seq<Seq<char>> {
    if ids.contains(id) {
        ids
    } else {
        ids.push(id)
    }
}

/// The identifier set after adding the vehicle identifiers of the first
/// `n` rows.
pub open spec fn ids_after(ids: Seq<Seq<char>>, rows: Seq<EventRecord>, n: int) -> Seq<Seq<char>>
    decreases n,
{
    if n <= 0 {
        ids
    } else {
        add_id(ids_after(ids, rows, n - 1), rows[n - 1].vehicle_id@)
    }
}

/// The identifier accumulation reads only the first `n` rows.
proof fn lemma_ids_after_prefix(ids: Seq<Seq<char>>, rows1: Seq<EventRecord>, rows2: Seq<
    EventRecord,
>, n: int)
    requires
        0 <= n,
        n <= rows1.len(),
        n <= rows2.len(),
        forall|i: int| 0 <= i < n ==> rows1[i] == rows2[i],
    ensures
        ids_after(ids, rows1, n) == ids_after(ids, rows2, n),
    decreases n,
{
    if n > 0 {
        lemma_ids_after_prefix(ids, rows1, rows2, n - 1);
    }
}

/// The identifier accumulation grows by at most one entry per row, and
/// keeps entries distinct.
proof fn lemma_ids_after_len(ids: Seq<Seq<char>>, rows: Seq<EventRecord>, n: int)
    requires
        0 <= n,
    ensures
        ids.len() <= ids_after(ids, rows, n).len() <= ids.len() + n,
        (forall|k1: int, k2: int| 0 <= k1 < k2 < ids.len() ==> ids[k1] != ids[k2]) ==> (forall|
            k1: int,
            k2: int,
        |
            0 <= k1 < k2 < ids_after(ids, rows, n).len() ==> ids_after(ids, rows, n)[k1]
                != ids_after(ids, rows, n)[k2]),
    decreases n,
{
    if n > 0 {
        lemma_ids_after_len(ids, rows, n - 1);
        let prev = ids_after(ids, rows, n - 1);
        let id = rows[n - 1].vehicle_id@;
        if !prev.contains(id) {
            assert forall|k1: int, k2: int|
                (forall|a1: int, a2: int| 0 <= a1 < a2 < prev.len() ==> prev[a1] != prev[a2]) && 0
                    <= k1 < k2 < prev.push(id).len() implies prev.push(id)[k1] != prev.push(
                id,
            )[k2] by {
                if k2 == prev.len() as int {
                    assert(prev.push(id)[k2] == id);
                    assert(prev.push(id)[k1] == prev[k1]);
                    assert(prev.contains(prev[k1])) by {
                        assert(prev[k1] == prev[k1]);
                    }
                }
            }
        }
    }
}

/// A result row as emitted for one selected event: the fields of the row,
/// the query's identifier, the RFC 3339 rendering of the timestamp, and a
/// zeroed altitude.
pub open spec fn result_matches_row(
    r: VehicleQueryResult,
    row: EventRecord,
    plan: QueryPlan,
) -> bool {
    &&& r.msg_type@ == "vehicle-query-result"@
    &&& r.query_id@ == plan.query_id@
    &&& r.timestamp@ == rfc3339_of(row.timestamp_ms)
    &&& r.vehicle_id@ == row.vehicle_id@
    &&& r.vehicle_type@ == row.vehicle_type@
    &&& r.gps.lat_micro == row.lat_micro->0
    &&& r.gps.lon_micro == row.lon_micro->0
    &&& r.gps.alt_micro == 0
    &&& r.direction@ == row.direction@
    &&& r.speed_micro == row.speed_micro
    &&& r.geo_hash@ == row.geo_hash@
}

/// A sequence of emitted results matches a sequence of selected rows, in
/// order.
pub open spec fn results_match(
    rs: Seq<VehicleQueryResult>,
    rows: Seq<EventRecord>,
    plan: QueryPlan,
) -> bool {
    rs.len() == rows.len() && forall|i: int|
        0 <= i < rs.len() ==> result_matches_row(#[trigger] rs[i], rows[i], plan)
}

/// The result row emitted for one selected event.
fn emit_result(row: &EventRecord, plan: &QueryPlan) -> (r: VehicleQueryResult)
    requires
        row.lat_micro is Some,
        row.lon_micro is Some,
    ensures
        result_matches_row(r, *row, *plan),
{
    let lat = match row.lat_micro {
        Option::Some(v) => v,
        Option::None => 0,
    };
    let lon = match row.lon_micro {
        Option::Some(v) => v,
        Option::None => 0,
    };
    VehicleQueryResult {
        msg_type: "vehicle-query-result".to_owned(),
        query_id: plan.query_id.clone(),
        timestamp: format_rfc3339(row.timestamp_ms),
        vehicle_id: row.vehicle_id.clone(),
        vehicle_type: row.vehicle_type.clone(),
        gps: GpsCoordinates { lat_micro: lat, lon_micro: lon, alt_micro: 0 },
        direction: row.direction.clone(),
        speed_micro: row.speed_micro,
        geo_hash: row.geo_hash.clone(),
    }
}

/// The running counters and flags of one query execution.
pub struct ExecState {
    pub processed: usize,
    pub selected: usize,
    pub batch_count: usize,
    pub total_bytes: usize,
    pub vehicle_ids: Vec<String>,
    pub limit_reached: bool,
    pub timeout_expired: bool,
}

impl ExecState {
    /// The counters stand in their defining order: selected rows are
    /// processed rows, distinct vehicles come from selected rows, the
    /// limit caps the selected rows, and the limit flag implies the cap
    /// was reached.
    pub open spec fn wf(&self, limit: int) -> bool {
        &&& self.selected <= self.processed
        &&& self.vehicle_ids@.len() <= self.selected
        &&& self.selected <= limit
        &&& self.limit_reached ==> self.selected == limit
        &&& forall|k1: int, k2: int|
            0 <= k1 < k2 < self.vehicle_ids@.len() ==> ids_view(self.vehicle_ids@)[k1] != ids_view(
                self.vehicle_ids@,
            )[k2]
    }

    /// The state every query starts from.
    pub fn new() -> (r: ExecState)
        ensures
            r.processed == 0,
            r.selected == 0,
            r.batch_count == 0,
            r.total_bytes == 0,
            r.vehicle_ids@.len() == 0,
            !r.limit_reached,
            !r.timeout_expired,
            r.wf(0),
    {
        ExecState {
            processed: 0,
            selected: 0,
            batch_count: 0,
            total_bytes: 0,
            vehicle_ids: Vec::new(),
            limit_reached: false,
            timeout_expired: false,
        }
    }
}

/// Process one record batch: count its rows and bytes, refine each row
/// against the plan, emit a result for each selected row up to the limit,
/// and record the distinct vehicle identifiers.  The limit flag is set
/// exactly when the selected count stands at the limit afterwards.
pub fn process_batch(plan: &QueryPlan, state: &mut ExecState, batch: &EventBatch) -> (out: Vec<
    VehicleQueryResult,
>)
    requires
        plan.wf(),
        old(state).wf(plan.limit as int),
        !old(state).limit_reached,
        !old(state).timeout_expired,
        old(state).processed + batch.rows@.len() <= usize::MAX,
        old(state).total_bytes + batch.mem_bytes <= usize::MAX,
        old(state).batch_count + 1 <= usize::MAX,
    ensures
        final(state).wf(plan.limit as int),
        final(state).processed == old(state).processed + batch.rows@.len(),
        final(state).batch_count == old(state).batch_count + 1,
        final(state).total_bytes == old(state).total_bytes + batch.mem_bytes,
        !final(state).timeout_expired,
        ({
            let taken = capped(
                selected_rows(batch.rows@, *plan),
                plan.limit - old(state).selected,
            );
            &&& final(state).selected == old(state).selected + taken.len()
            &&& results_match(out@, taken, *plan)
            &&& ids_view(final(state).vehicle_ids@) == ids_after(
                ids_view(old(state).vehicle_ids@),
                taken,
                taken.len() as int,
            )
            &&& final(state).limit_reached == (final(state).selected == plan.limit)
        }),
{
    let ghost plan0 = *plan;
    let ghost rows = batch.rows@;
    let ghost avail = plan.limit - old(state).selected;
    let ghost old_sel = old(state).selected as int;
    let ghost ids0 = ids_view(old(state).vehicle_ids@);
    state.processed = state.processed + batch.rows.len();
    state.batch_count = state.batch_count + 1;
    state.total_bytes = state.total_bytes + batch.mem_bytes;
    let mut out: Vec<VehicleQueryResult> = Vec::new();
    let n = batch.rows.len();
    let mut j: usize = 0;
    while j < n
        invariant
            plan.wf(),
            plan0 == *plan,
            rows == batch.rows@,
            n == rows.len(),
            0 <= j <= n,
            avail == plan.limit - old_sel,
            0 <= old_sel,
            old_sel <= old(state).processed,
            ids0 == ids_view(old(state).vehicle_ids@),
            ids0.len() <= old_sel,
            state.processed == old(state).processed + rows.len(),
            state.batch_count == old(state).batch_count + 1,
            state.total_bytes == old(state).total_bytes + batch.mem_bytes,
            state.selected <= state.processed,
            state.limit_reached == old(state).limit_reached,
            state.timeout_expired == old(state).timeout_expired,
            !state.limit_reached,
            !state.timeout_expired,
            ({
                let cap = capped(selected_prefix(rows, plan0, j as int), avail);
                &&& state.selected == old_sel + cap.len()
                &&& state.selected <= plan.limit
                &&& results_match(out@, cap, plan0)
                &&& ids_view(state.vehicle_ids@) == ids_after(ids0, cap, cap.len() as int)
                &&& state.vehicle_ids@.len() <= state.selected
                &&& forall|k1: int, k2: int|
                    0 <= k1 < k2 < state.vehicle_ids@.len() ==> ids_view(state.vehicle_ids@)[k1]
                        != ids_view(state.vehicle_ids@)[k2]
            }),
        decreases n - j,
    {
        let ghost cap_j = capped(selected_prefix(rows, plan0, j as int), avail);
        let row = &batch.rows[j];
        let picked = row_selected_exec(row, plan);
        proof {
            lemma_selected_prefix_snoc(rows, plan0, j as int);
            lemma_capped_snoc(selected_prefix(rows, plan0, j as int), rows[j as int], avail);
            lemma_selected_prefix_len(rows, plan0, j as int);
        }
        if picked && state.selected < plan.limit {
            proof {
                assert(selected_prefix(rows, plan0, j as int).len() < avail);
            }
            let result = emit_result(row, plan);
            out.push(result);
            state.selected = state.selected + 1;
            let ghost prev_ids = ids_view(state.vehicle_ids@);
            if !contains_string(&state.vehicle_ids, &row.vehicle_id) {
                state.vehicle_ids.push(row.vehicle_id.clone());
                proof {
                    assert(ids_view(state.vehicle_ids@) =~= prev_ids.push(row.vehicle_id@));
                    assert(!prev_ids.contains(row.vehicle_id@)) by {
                        if prev_ids.contains(row.vehicle_id@) {
                            let k = choose|k: int|
                                0 <= k < prev_ids.len() && prev_ids[k] == row.vehicle_id@;
                            assert(state.vehicle_ids@[k]@ == row.vehicle_id@);
                        }
                    }
                }
            } else {
                proof {
                    assert(prev_ids.contains(row.vehicle_id@)) by {
                        let k = choose|k: int|
                            0 <= k < state.vehicle_ids@.len() && (#[trigger] state.vehicle_ids@[k])@
                                == row.vehicle_id@;
                        assert(prev_ids[k] == row.vehicle_id@);
                    }
                }
            }
            proof {
                let cap_j1 = capped(selected_prefix(rows, plan0, j as int + 1), avail);
                assert(cap_j1 == cap_j + seq![rows[j as int]]);
                assert(cap_j1.len() == cap_j.len() + 1);
                assert(results_match(out@, cap_j1, plan0)) by {
                    assert(forall|i: int| 0 <= i < cap_j.len() ==> cap_j1[i] == cap_j[i]);
                    assert(out@[cap_j.len() as int] == result);
                    assert(cap_j1[cap_j.len() as int] == rows[j as int]);
                }
                assert(ids_view(state.vehicle_ids@) == ids_after(ids0, cap_j1, cap_j1.len() as int))
                    by {
                    lemma_ids_after_prefix(ids0, cap_j, cap_j1, cap_j.len() as int);
                    assert(cap_j1[cap_j1.len() - 1] == rows[j as int]);
                    assert(ids_after(ids0, cap_j1, cap_j1.len() as int) == add_id(
                        ids_after(ids0, cap_j1, cap_j.len() as int),
                        rows[j as int].vehicle_id@,
                    ));
                    assert(prev_ids == ids_after(ids0, cap_j1, cap_j.len() as int));
                }
                lemma_ids_after_len(ids0, cap_j1, cap_j1.len() as int);
                assert(cap_j1.len() <= selected_prefix(rows, plan0, j as int + 1).len());
                assert(selected_prefix(rows, plan0, j as int + 1).len() <= j as int + 1);
                assert(state.selected <= old_sel + j + 1);
                assert(state.selected <= state.processed);
            }
        } else {
            proof {
                let cap_j1 = capped(selected_prefix(rows, plan0, j as int + 1), avail);
                if picked {
                    assert(state.selected == plan.limit);
                    assert(cap_j.len() == avail);
                    assert(selected_prefix(rows, plan0, j as int).len() >= avail);
                    assert(cap_j1 == cap_j);
                } else {
                    assert(cap_j1 == cap_j);
                }
            }
        }
        j = j + 1;
    }
    if state.selected >= plan.limit {
        state.limit_reached = true;
    }
    proof {
        assert(selected_rows(rows, plan0) == selected_prefix(rows, plan0, n as int));
    }
    out
}

/// The specification-level execution state after a number of batches.
pub ghost struct SpecExec {
    pub processed: int,
    pub selected: int,
    pub batch_count: int,
    pub bytes: int,
    pub ids: Seq<Seq<char>>,
    pub emitted: Seq<EventRecord>,
    pub limit_reached: bool,
    pub timeout_expired: bool,
    pub stopped: bool,
}

/// The state before the first batch.
pub open spec fn exec_init() -> SpecExec {
    SpecExec {
        processed: 0,
        selected: 0,
        batch_count: 0,
        bytes: 0,
        ids: Seq::empty(),
        emitted: Seq::empty(),
        limit_reached: false,
        timeout_expired: false,
        stopped: false,
    }
}

/// One batch boundary: the batch's rows are counted, its selected rows up
/// to the limit are emitted and their vehicles recorded; the execution
/// stops when the limit is reached, or else when the elapsed time has
/// passed the timeout.
pub open spec fn exec_step(s: SpecExec, plan: QueryPlan, batch: EventBatch, elapsed: u128) -> SpecExec {
    let taken = capped(selected_rows(batch.rows@, plan), plan.limit - s.selected);
    let selected2 = s.selected + taken.len();
    let lr = selected2 == plan.limit;
    let te = !lr && elapsed >= plan.timeout_ms;
    SpecExec {
        processed: s.processed + batch.rows@.len(),
        selected: selected2,
        batch_count: s.batch_count + 1,
        bytes: s.bytes + batch.mem_bytes,
        ids: ids_after(s.ids, taken, taken.len() as int),
        emitted: s.emitted + taken,
        limit_reached: lr,
        timeout_expired: te,
        stopped: lr || te,
    }
}

/// The state after the first `n` batches; once stopped, further batches
/// are not read.
pub open spec fn exec_after(
    plan: QueryPlan,
    batches: Seq<EventBatch>,
    elapsed: Seq<u128>,
    n: int,
) -> SpecExec
    decreases n,
{
    if n <= 0 {
        exec_init()
    } else {
        let prev = exec_after(plan, batches, elapsed, n - 1);
        if prev.stopped {
            prev
        } else {
            exec_step(prev, plan, batches[n - 1], elapsed[n - 1])
        }
    }
}

/// Once stopped, later batches change nothing.
proof fn lemma_exec_stable(plan: QueryPlan, batches: Seq<EventBatch>, elapsed: Seq<u128>, n: int, m: int)
    requires
        0 <= n <= m,
        exec_after(plan, batches, elapsed, n).stopped,
    ensures
        exec_after(plan, batches, elapsed, m) == exec_after(plan, batches, elapsed, n),
    decreases m,
{
    if m > n {
        lemma_exec_stable(plan, batches, elapsed, n, m - 1);
    }
}

/// The rows of the first `n` batches.
pub open spec fn spec_total_rows(batches: Seq<EventBatch>, n: int) -> int
    decreases n,
{
    if n <= 0 {
        0
    } else {
        spec_total_rows(batches, n - 1) + batches[n - 1].rows@.len()
    }
}

/// The bytes of the first `n` batches.
pub open spec fn spec_total_bytes(batches: Seq<EventBatch>, n: int) -> int
    decreases n,
{
    if n <= 0 {
        0
    } else {
        spec_total_bytes(batches, n - 1) + batches[n - 1].mem_bytes
    }
}

/// Partial row and byte counts only grow.
proof fn lemma_totals_monotone(batches: Seq<EventBatch>, n: int, m: int)
    requires
        0 <= n <= m,
    ensures
        spec_total_rows(batches, n) <= spec_total_rows(batches, m),
        spec_total_bytes(batches, n) <= spec_total_bytes(batches, m),
    decreases m,
{
    if m > n {
        lemma_totals_monotone(batches, n, m - 1);
    }
}

/// The executable counters agree with the specification state.
pub open spec fn state_matches_exec(s: ExecState, m: SpecExec) -> bool {
    &&& s.processed == m.processed
    &&& s.selected == m.selected
    &&& s.batch_count == m.batch_count
    &&& s.total_bytes == m.bytes
    &&& ids_view(s.vehicle_ids@) == m.ids
    &&& s.limit_reached == m.limit_reached
    &&& s.timeout_expired == m.timeout_expired
    &&& m.stopped == (m.limit_reached || m.timeout_expired)
}

/// The outcome of one query execution: the emitted result rows in order,
/// and the terminal response.
pub struct QueryOutcome {
    pub results: Vec<VehicleQueryResult>,
    pub response: crate::types::VehicleQueryResponse,
}

/// The response summarises the specification state and the elapsed time.
pub open spec fn response_matches_exec(
    resp: crate::types::VehicleQueryResponse,
    m: SpecExec,
    elapsed_total: u128,
) -> bool {
    &&& resp.msg_type@ == "vehicle-query-response"@
    &&& resp.processed_files_count == m.batch_count
    &&& resp.processed_bytes == m.bytes
    &&& resp.processed_record_count == m.processed
    &&& resp.selected_record_count == m.selected
    &&& resp.distinct_vehicle_count == m.ids.len()
    &&& resp.elapsed_time_in_ms == elapsed_total
    &&& resp.timeout_expired == m.timeout_expired
    &&& resp.limit_reached == m.limit_reached
}

/// Two matched result lists concatenate to a matched result list.
proof fn lemma_results_match_concat(
    a: Seq<VehicleQueryResult>,
    b: Seq<VehicleQueryResult>,
    ra: Seq<EventRecord>,
    rb: Seq<EventRecord>,
    plan: QueryPlan,
)
    requires
        results_match(a, ra, plan),
        results_match(b, rb, plan),
    ensures
        results_match(a + b, ra + rb, plan),
{
    assert forall|i: int| 0 <= i < (a + b).len() implies result_matches_row(
        #[trigger] (a + b)[i],
        (ra + rb)[i],
        plan,
    ) by {
        if i < a.len() {
            assert((a + b)[i] == a[i] && (ra + rb)[i] == ra[i]);
        } else {
            assert((a + b)[i] == b[i - a.len()] && (ra + rb)[i] == rb[i - a.len()]);
        }
    }
}

/// Execute a whole query over the batches that the scan produced, with
/// the elapsed time measured after each batch and at the end.  An empty
/// partition set yields an empty result with zero counters without
/// touching the batches.
pub fn run_query(
    plan: &QueryPlan,
    batches: &Vec<EventBatch>,
    elapsed_after_batch: &Vec<u128>,
    elapsed_total: u128,
) -> (r: QueryOutcome)
    requires
        plan.wf(),
        batches@.len() == elapsed_after_batch@.len(),
        spec_total_rows(batches@, batches@.len() as int) <= usize::MAX,
        spec_total_bytes(batches@, batches@.len() as int) <= usize::MAX,
    ensures
        r.response.selected_record_count <= r.response.processed_record_count,
        r.response.distinct_vehicle_count <= r.response.selected_record_count,
        r.response.selected_record_count <= plan.limit,
        r.response.limit_reached ==> r.response.selected_record_count == plan.limit,
        r.results@.len() == r.response.selected_record_count,
        plan.partitions@.len() == 0 ==> r.results@.len() == 0 && response_matches_exec(
            r.response,
            exec_init(),
            elapsed_total,
        ),
        plan.partitions@.len() > 0 ==> ({
            let m = exec_after(*plan, batches@, elapsed_after_batch@, batches@.len() as int);
            &&& results_match(r.results@, m.emitted, *plan)
            &&& response_matches_exec(r.response, m, elapsed_total)
        }),
{
    let mut state = ExecState::new();
    let mut results: Vec<VehicleQueryResult> = Vec::new();
    let ghost gplan = *plan;
    let ghost gbatches = batches@;
    let ghost gelapsed = elapsed_after_batch@;
    if plan.partitions.len() > 0 {
        let nb = batches.len();
        let mut i: usize = 0;
        proof {
            assert(ids_view(state.vehicle_ids@) =~= Seq::<Seq<char>>::empty());
            assert(state_matches_exec(state, exec_init()));
        }
        while i < nb && !state.limit_reached && !state.timeout_expired
            invariant
                plan.wf(),
                gplan == *plan,
                gbatches == batches@,
                gelapsed == elapsed_after_batch@,
                nb == gbatches.len(),
                gelapsed.len() == nb,
                0 <= i <= nb,
                spec_total_rows(gbatches, nb as int) <= usize::MAX,
                spec_total_bytes(gbatches, nb as int) <= usize::MAX,
                state.wf(plan.limit as int),
                state.processed <= spec_total_rows(gbatches, i as int),
                state.total_bytes <= spec_total_bytes(gbatches, i as int),
                state.batch_count == i,
                state_matches_exec(state, exec_after(gplan, gbatches, gelapsed, i as int)),
                results@.len() == state.selected,
                results_match(
                    results@,
                    exec_after(gplan, gbatches, gelapsed, i as int).emitted,
                    gplan,
                ),
            decreases nb - i,
        {
            let ghost m_i = exec_after(gplan, gbatches, gelapsed, i as int);
            let ghost prev_results = results@;
            proof {
                lemma_totals_monotone(gbatches, i as int + 1, nb as int);
            }
            let mut out = process_batch(plan, &mut state, &batches[i]);
            let ghost gout = out@;
            results.append(&mut out);
            if !state.limit_reached {
                if elapsed_after_batch[i] >= plan.timeout_ms {
                    state.timeout_expired = true;
                }
            }
            proof {
                let m_i1 = exec_after(gplan, gbatches, gelapsed, i as int + 1);
                assert(m_i1 == exec_step(m_i, gplan, gbatches[i as int], gelapsed[i as int]));
                let taken = capped(
                    selected_rows(gbatches[i as int].rows@, gplan),
                    gplan.limit - m_i.selected,
                );
                assert(gbatches[i as int] == batches@[i as int]);
                assert(results_match(gout, taken, gplan));
                assert(state_matches_exec(state, m_i1));
                lemma_results_match_concat(prev_results, gout, m_i.emitted, taken, gplan);
                assert(results@ == prev_results + gout);
                assert(results_match(results@, m_i1.emitted, gplan));
            }
            i = i + 1;
        }
        proof {
            let m_i = exec_after(gplan, gbatches, gelapsed, i as int);
            if i < nb {
                assert(m_i.stopped);
                lemma_exec_stable(gplan, gbatches, gelapsed, i as int, nb as int);
            }
            assert(exec_after(gplan, gbatches, gelapsed, nb as int) == m_i);
        }
    }
    let distinct = state.vehicle_ids.len();
    let response = crate::types::VehicleQueryResponse {
        msg_type: "vehicle-query-response".to_owned(),
        processed_files_count: state.batch_count,
        processed_bytes: state.total_bytes,
        processed_record_count: state.processed,
        selected_record_count: state.selected,
        distinct_vehicle_count: distinct,
        elapsed_time_in_ms: elapsed_total,
        timeout_expired: state.timeout_expired,
        limit_reached: state.limit_reached,
    };
    QueryOutcome { results, response }
}

/// The positions of the projected event columns within a schema.
#[derive(Debug)]
pub struct ColumnIndices {
    pub timestamp: usize,
    pub gps_lat: usize,
    pub gps_lon: usize,
    pub gps_alt: usize,
    pub vehicle_id: usize,
    pub vehicle_type: usize,
    pub direction: usize,
    pub speed: usize,
    pub geo_hash: usize,
}

/// The first position of `name` among the names from index `i` on.
pub open spec fn index_of_from(names: Seq<String>, name: Seq<char>, i: int) -> Option<int>
    decreases names.len() - i,
{
    if i < 0 || i >= names.len() {
        Option::None
    } else if names[i]@ == name {
        Option::Some(i)
    } else {
        index_of_from(names, name, i + 1)
    }
}

/// The first position of `name` among the column names.
pub open spec fn column_index(names: Seq<String>, name: Seq<char>) -> Option<int> {
    index_of_from(names, name, 0)
}

/// The first column with the given name.
fn find_column(names: &Vec<String>, name: &str) -> (r: Option<usize>)
    ensures
        r is None <==> column_index(names@, name@) is None,
        r is Some ==> column_index(names@, name@) == Option::Some(r->0 as int),
{
    let n = names.len();
    let mut i: usize = 0;
    while i < n
        invariant
            n == names@.len(),
            0 <= i <= n,
            column_index(names@, name@) == index_of_from(names@, name@, i as int),
        decreases n - i,
    {
        if crate::strings::string_eq_str(&names[i], name) {
            return Option::Some(i);
        }
        i = i + 1;
    }
    Option::None
}

/// Resolve the projected event columns against the schema's column
/// names.  Each index points at the first column with the projected
/// name; a missing column is a schema mismatch.
pub fn resolve_columns(names: &Vec<String>) -> (r: Result<ColumnIndices, QueryError>)
    ensures
        r is Ok <==> {
            &&& column_index(names@, "timestamp"@) is Some
            &&& column_index(names@, "gps_lat"@) is Some
            &&& column_index(names@, "gps_lon"@) is Some
            &&& column_index(names@, "gps_alt"@) is Some
            &&& column_index(names@, "vehicleId"@) is Some
            &&& column_index(names@, "vehicleType"@) is Some
            &&& column_index(names@, "direction"@) is Some
            &&& column_index(names@, "speed"@) is Some
            &&& column_index(names@, "geoHash"@) is Some
        },
        r is Err ==> (r->Err_0).kind == QueryErrorKind::SchemaMismatch,
        r is Ok ==> ({
            let c = r->Ok_0;
            &&& column_index(names@, "timestamp"@) == Option::Some(c.timestamp as int)
            &&& column_index(names@, "gps_lat"@) == Option::Some(c.gps_lat as int)
            &&& column_index(names@, "gps_lon"@) == Option::Some(c.gps_lon as int)
            &&& column_index(names@, "gps_alt"@) == Option::Some(c.gps_alt as int)
            &&& column_index(names@, "vehicleId"@) == Option::Some(c.vehicle_id as int)
            &&& column_index(names@, "vehicleType"@) == Option::Some(c.vehicle_type as int)
            &&& column_index(names@, "direction"@) == Option::Some(c.direction as int)
            &&& column_index(names@, "speed"@) == Option::Some(c.speed as int)
            &&& column_index(names@, "geoHash"@) == Option::Some(c.geo_hash as int)
        }),
{
    let timestamp = match find_column(names, "timestamp") {
        Option::Some(i) => i,
        Option::None => {
            return Result::Err(schema_mismatch("timestamp"));
        },
    };
    let gps_lat = match find_column(names, "gps_lat") {
        Option::Some(i) => i,
        Option::None => {
            return Result::Err(schema_mismatch("gps_lat"));
        },
    };
    let gps_lon = match find_column(names, "gps_lon") {
        Option::Some(i) => i,
        Option::None => {
            return Result::Err(schema_mismatch("gps_lon"));
        },
    };
    let gps_alt = match find_column(names, "gps_alt") {
        Option::Some(i) => i,
        Option::None => {
            return Result::Err(schema_mismatch("gps_alt"));
        },
    };
    let vehicle_id = match find_column(names, "vehicleId") {
        Option::Some(i) => i,
        Option::None => {
            return Result::Err(schema_mismatch("vehicleId"));
        },
    };
    let vehicle_type = match find_column(names, "vehicleType") {
        Option::Some(i) => i,
        Option::None => {
            return Result::Err(schema_mismatch("vehicleType"));
        },
    };
    let direction = match find_column(names, "direction") {
        Option::Some(i) => i,
        Option::None => {
            return Result::Err(schema_mismatch("direction"));
        },
    };
    let speed = match find_column(names, "speed") {
        Option::Some(i) => i,
        Option::None => {
            return Result::Err(schema_mismatch("speed"));
        },
    };
    let geo_hash = match find_column(names, "geoHash") {
        Option::Some(i) => i,
        Option::None => {
            return Result::Err(schema_mismatch("geoHash"));
        },
    };
    Result::Ok(
        ColumnIndices {
            timestamp,
            gps_lat,
            gps_lon,
            gps_alt,
            vehicle_id,
            vehicle_type,
            direction,
            speed,
            geo_hash,
        },
    )
}

/// A schema mismatch naming the missing column.
fn schema_mismatch(column: &str) -> (r: QueryError)
    ensures
        r.kind == QueryErrorKind::SchemaMismatch,
{
    let mut message = String::new();
    message.append("expected column ");
    message.append(column);
    message.append(" in the corpus schema");
    QueryError { kind: QueryErrorKind::SchemaMismatch, message }
}

/// An instant the aligner can handle: non-negative, with room for the
/// ten-minute window above it.
pub open spec fn instant_in_range(ms: i64) -> bool {
    0 <= ms <= i64::MAX - 600_000
}

/// The conditions under which a vehicle query yields a plan: both dates
/// parse to representable instants, the aligned window is non-empty, the
/// limit fits the machine, and the geometry was understood and lies in
/// the WGS84 ranges.
pub open spec fn query_accepted(query: VehicleQueryRequest) -> bool {
    &&& utc_ms_of(query.from_date@) is Some
    &&& instant_in_range(utc_ms_of(query.from_date@)->0)
    &&& utc_ms_of(query.to_date@) is Some
    &&& instant_in_range(utc_ms_of(query.to_date@)->0)
    &&& aligned_lower(utc_ms_of(query.from_date@)->0 as int, 10) < aligned_upper(
        utc_ms_of(query.to_date@)->0 as int,
        10,
    )
    &&& (query.limit is Some ==> query.limit->0 <= usize::MAX)
    &&& (match query.geometry {
        GeometryInput::Shape { shape, .. } => shape.wf(),
        GeometryInput::Malformed { .. } => false,
    })
}

/// The plan a query translates to: the parsed instants for refinement,
/// the aligned partition keys for pushdown, the geohash covering of the
/// geometry at precision five, the type filter, and the limit and
/// timeout with their defaults.
pub open spec fn plan_matches_query(
    plan: QueryPlan,
    query: VehicleQueryRequest,
    default_timeout_ms: u128,
) -> bool {
    let from_ms = utc_ms_of(query.from_date@)->0;
    let to_ms = utc_ms_of(query.to_date@)->0;
    &&& plan.query_id@ == query.id@
    &&& plan.from_ms == from_ms
    &&& plan.to_ms == to_ms
    &&& plan.from_key@ == partition_key_of(aligned_lower(from_ms as int, 10) as i64)
    &&& plan.to_key@ == partition_key_of(aligned_upper(to_ms as int, 10) as i64)
    &&& (match query.geometry {
        GeometryInput::Shape { shape, .. } => plan.geometry@ == shape@ && string_set(
            plan.partitions@,
        ) == covering_set(shape@, 5),
        GeometryInput::Malformed { .. } => false,
    })
    &&& (forall|k1: int, k2: int|
        0 <= k1 < k2 < plan.partitions@.len() ==> plan.partitions@[k1]@ != plan.partitions@[k2]@)
    &&& strings_match(plan.vehicle_types@, query.vehicle_types@)
    &&& plan.limit as int == (if query.limit is Some {
        query.limit->0 as int
    } else {
        100
    })
    &&& plan.timeout_ms == (if query.timeout is Some {
        query.timeout->0
    } else {
        default_timeout_ms
    })
    &&& plan.wf()
}

/// A geometry with the same rings as a well-formed one is well-formed.
proof fn lemma_wf_transfer(a: PlanarGeometry, b: PlanarGeometry)
    requires
        a@ == b@,
        a.wf(),
    ensures
        b.wf(),
{
    assert(crate::geo::rings_views(a.rings@) =~= a@);
    assert(crate::geo::rings_views(b.rings@) =~= b@);
    assert forall|i: int, j: int|
        0 <= i < b.rings@.len() && 0 <= j < b.rings@[i]@.len() implies crate::geo::wf_point(
        #[trigger] b.rings@[i]@[j],
    ) by {
        assert(crate::geo::rings_views(b.rings@)[i] == b.rings@[i]@);
        assert(crate::geo::rings_views(a.rings@)[i] == a.rings@[i]@);
        assert(b.rings@[i]@[j] == a.rings@[i]@[j]);
    }
}

/// An invalid-argument error with the given text.
fn invalid_argument(msg: &str) -> (r: QueryError)
    ensures
        r.kind == QueryErrorKind::InvalidArgument,
{
    QueryError { kind: QueryErrorKind::InvalidArgument, message: msg.to_owned() }
}

/// Whether every vertex of the geometry lies in the WGS84 ranges.
fn geometry_wf_exec(g: &PlanarGeometry) -> (b: bool)
    ensures
        b == g.wf(),
{
    let n = g.rings.len();
    let mut i: usize = 0;
    while i < n
        invariant
            n == g.rings@.len(),
            0 <= i <= n,
            forall|a: int, b2: int|
                0 <= a < i && 0 <= b2 < g.rings@[a]@.len() ==> crate::geo::wf_point(
                    #[trigger] g.rings@[a]@[b2],
                ),
        decreases n - i,
    {
        let ring = &g.rings[i];
        let m = ring.len();
        let mut j: usize = 0;
        while j < m
            invariant
                n == g.rings@.len(),
                0 <= i < n,
                m == ring@.len(),
                ring == &g.rings[i as int],
                0 <= j <= m,
                forall|b2: int|
                    0 <= b2 < j ==> crate::geo::wf_point(#[trigger] g.rings@[i as int]@[b2]),
            decreases m - j,
        {
            let v = ring[j];
            if v.lon_micro < -180_000_000 || v.lon_micro > 180_000_000 || v.lat_micro
                < -90_000_000 || v.lat_micro > 90_000_000 {
                proof {
                    assert(!crate::geo::wf_point(g.rings@[i as int]@[j as int]));
                }
                return false;
            }
            j = j + 1;
        }
        i = i + 1;
    }
    true
}

/// Translate a vehicle query into an executable plan: parse and align the
/// time window, build the partition keys, cover the geometry with
/// geohash cells, and settle the limit and the timeout.  A query that
/// cannot be translated is rejected as an invalid argument, with the
/// reason in the message.
#[verifier::rlimit(100)]
pub fn prepare_query(query: &VehicleQueryRequest, default_timeout_ms: u128) -> (r: Result<
    QueryPlan,
    QueryError,
>)
    ensures
        r is Ok <==> query_accepted(*query),
        r is Err ==> (r->Err_0).kind == QueryErrorKind::InvalidArgument,
        r is Ok ==> plan_matches_query(r->Ok_0, *query, default_timeout_ms),
{
    let from_ms = match parse_instant_ms(query.from_date.as_str()) {
        Option::Some(v) => v,
        Option::None => {
            return Result::Err(invalid_argument("fromDate does not parse as a UTC instant"));
        },
    };
    if from_ms < 0 || from_ms > i64::MAX - 600_000 {
        return Result::Err(invalid_argument("fromDate is outside the supported range"));
    }
    let to_ms = match parse_instant_ms(query.to_date.as_str()) {
        Option::Some(v) => v,
        Option::None => {
            return Result::Err(invalid_argument("toDate does not parse as a UTC instant"));
        },
    };
    if to_ms < 0 || to_ms > i64::MAX - 600_000 {
        return Result::Err(invalid_argument("toDate is outside the supported range"));
    }
    let from_pair = match round_datetime_modulo_minutes(from_ms, 10) {
        Option::Some(p) => p,
        Option::None => {
            proof {
                assert(false);
            }
            return Result::Err(invalid_argument("unreachable"));
        },
    };
    let to_pair = match round_datetime_modulo_minutes(to_ms, 10) {
        Option::Some(p) => p,
        Option::None => {
            proof {
                assert(false);
            }
            return Result::Err(invalid_argument("unreachable"));
        },
    };
    let from_lower = from_pair.0;
    let to_upper = to_pair.1;
    if !(from_lower < to_upper) {
        return Result::Err(invalid_argument("fromDate must be before toDate"));
    }
    let limit: usize = match query.limit {
        Option::Some(v) => {
            if v > usize::MAX as u64 {
                return Result::Err(invalid_argument("limit does not fit this machine"));
            }
            v as usize
        },
        Option::None => 100,
    };
    let timeout_ms: u128 = match query.timeout {
        Option::Some(t) => t,
        Option::None => default_timeout_ms,
    };
    let shape_ref = match &query.geometry {
        GeometryInput::Shape { shape, .. } => shape,
        GeometryInput::Malformed { reason, .. } => {
            return Result::Err(
                QueryError { kind: QueryErrorKind::InvalidArgument, message: reason.clone() },
            );
        },
    };
    if !geometry_wf_exec(shape_ref) {
        return Result::Err(invalid_argument("geometry coordinates are outside the WGS84 ranges"));
    }
    let geometry = clone_geometry(shape_ref);
    proof {
        lemma_wf_transfer(*shape_ref, geometry);
    }
    let partitions = geohash_covering(&geometry, 5);
    let from_key = format_partition_key(from_lower);
    let to_key = format_partition_key(to_upper);
    let vehicle_types = clone_strings(&query.vehicle_types);
    let query_id = query.id.clone();
    Result::Ok(
        QueryPlan {
            query_id,
            from_ms,
            to_ms,
            from_key,
            to_key,
            partitions,
            vehicle_types,
            geometry,
            limit,
            timeout_ms,
        },
    )
}

/// Two result rows carry the same content.
pub open spec fn result_views_match(a: VehicleQueryResult, b: VehicleQueryResult) -> bool {
    &&& a.msg_type@ == b.msg_type@
    &&& a.query_id@ == b.query_id@
    &&& a.timestamp@ == b.timestamp@
    &&& a.vehicle_id@ == b.vehicle_id@
    &&& a.vehicle_type@ == b.vehicle_type@
    &&& a.gps == b.gps
    &&& a.direction@ == b.direction@
    &&& a.speed_micro == b.speed_micro
    &&& a.geo_hash@ == b.geo_hash@
}

/// A copy of a result row, with the same content.
pub fn clone_result(a: &VehicleQueryResult) -> (r: VehicleQueryResult)
    ensures
        result_views_match(*a, r),
{
    VehicleQueryResult {
        msg_type: a.msg_type.clone(),
        query_id: a.query_id.clone(),
        timestamp: a.timestamp.clone(),
        vehicle_id: a.vehicle_id.clone(),
        vehicle_type: a.vehicle_type.clone(),
        gps: a.gps,
        direction: a.direction.clone(),
        speed_micro: a.speed_micro,
        geo_hash: a.geo_hash.clone(),
    }
}

/// Replaying the same query over the same batches yields the same
/// counters and the same result rows, in the same order.
pub proof fn lemma_idempotent_replay(
    plan: QueryPlan,
    batches: Seq<EventBatch>,
    elapsed: Seq<u128>,
    elapsed_total: u128,
    r1: QueryOutcome,
    r2: QueryOutcome,
)
    requires
        response_matches_exec(
            r1.response,
            exec_after(plan, batches, elapsed, batches.len() as int),
            elapsed_total,
        ),
        results_match(
            r1.results@,
            exec_after(plan, batches, elapsed, batches.len() as int).emitted,
            plan,
        ),
        response_matches_exec(
            r2.response,
            exec_after(plan, batches, elapsed, batches.len() as int),
            elapsed_total,
        ),
        results_match(
            r2.results@,
            exec_after(plan, batches, elapsed, batches.len() as int).emitted,
            plan,
        ),
    ensures
        crate::types::response_body_matches(r1.response, r2.response),
        r1.results@.len() == r2.results@.len(),
        forall|i: int|
            0 <= i < r1.results@.len() ==> result_views_match(
                #[trigger] r1.results@[i],
                r2.results@[i],
            ),
{
    let m = exec_after(plan, batches, elapsed, batches.len() as int);
    assert forall|i: int| 0 <= i < r1.results@.len() implies result_views_match(
        #[trigger] r1.results@[i],
        r2.results@[i],
    ) by {
        assert(result_matches_row(r1.results@[i], m.emitted[i], plan));
        assert(result_matches_row(r2.results@[i], m.emitted[i], plan));
    }
}

/// The selected rows among the first `n` batches.
pub open spec fn total_matches(batches: Seq<EventBatch>, plan: QueryPlan, n: int) -> int
    decreases n,
{
    if n <= 0 {
        0
    } else {
        total_matches(batches, plan, n - 1) + selected_rows(batches[n - 1].rows@, plan).len()
    }
}

/// With a positive limit and no timeout: the execution emits one result
/// for each matching row up to the limit, and reports the limit reached
/// exactly when at least `limit` rows match.
pub proof fn lemma_limit_behavior(
    plan: QueryPlan,
    batches: Seq<EventBatch>,
    elapsed: Seq<u128>,
    n: int,
)
    requires
        1 <= plan.limit,
        0 <= n,
        forall|k: int| 0 <= k < n ==> #[trigger] elapsed[k] < plan.timeout_ms,
    ensures
        !exec_after(plan, batches, elapsed, n).timeout_expired,
        exec_after(plan, batches, elapsed, n).stopped == exec_after(
            plan,
            batches,
            elapsed,
            n,
        ).limit_reached,
        exec_after(plan, batches, elapsed, n).emitted.len() == exec_after(
            plan,
            batches,
            elapsed,
            n,
        ).selected,
        total_matches(batches, plan, n) < plan.limit ==> exec_after(
            plan,
            batches,
            elapsed,
            n,
        ).selected == total_matches(batches, plan, n) && !exec_after(
            plan,
            batches,
            elapsed,
            n,
        ).limit_reached,
        total_matches(batches, plan, n) >= plan.limit ==> exec_after(
            plan,
            batches,
            elapsed,
            n,
        ).selected == plan.limit && exec_after(plan, batches, elapsed, n).limit_reached,
    decreases n,
{
    if n > 0 {
        lemma_limit_behavior(plan, batches, elapsed, n - 1);
        let prev = exec_after(plan, batches, elapsed, n - 1);
        let m = exec_after(plan, batches, elapsed, n);
        let tm_prev = total_matches(batches, plan, n - 1);
        let sel = selected_rows(batches[n - 1].rows@, plan);
        if prev.stopped {
            assert(prev.limit_reached);
            assert(tm_prev >= plan.limit);
        } else {
            assert(prev.selected == tm_prev && tm_prev < plan.limit);
            let taken = capped(sel, plan.limit - prev.selected);
            if sel.len() <= plan.limit - prev.selected {
                assert(taken == sel);
            } else {
                assert(taken.len() == plan.limit - prev.selected);
            }
        }
    }
}

/// A row with a missing coordinate is never selected, whatever the rest
/// of the row and the plan say.
pub proof fn lemma_nan_rejected(row: EventRecord, plan: QueryPlan)
    requires
        row.lat_micro is None || row.lon_micro is None || row.alt_micro is None,
    ensures
        !row_selected(row, plan),
{
}

/// An empty type filter plays no part in the selection: the row stands or
/// falls with the coordinate, window and geometry tests alone.
pub proof fn lemma_empty_type_filter(row: EventRecord, plan: QueryPlan)
    requires
        plan.vehicle_types@.len() == 0,
    ensures
        row_selected(row, plan) <==> (coords_valid(row) && plan.from_ms <= row.timestamp_ms
            < plan.to_ms && point_in_rings(
            scale_rings(plan.geometry@, 1, 1),
            pt(row.lon_micro->0 as int, row.lat_micro->0 as int),
        )),
{
}

/// The window is half-open: a row at the lower bound passes the time
/// test, a row at the upper bound is rejected outright.
pub proof fn lemma_window_boundaries(row: EventRecord, plan: QueryPlan)
    ensures
        row.timestamp_ms == plan.from_ms && plan.from_ms < plan.to_ms ==> (row_selected(row, plan)
            <==> (coords_valid(row) && type_admitted(plan.vehicle_types@, row.vehicle_type@)
            && point_in_rings(
            scale_rings(plan.geometry@, 1, 1),
            pt(row.lon_micro->0 as int, row.lat_micro->0 as int),
        ))),
        row.timestamp_ms == plan.to_ms ==> !row_selected(row, plan),
{
}

} // verus!
