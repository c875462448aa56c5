//! Verified core of a spatio-temporal vehicle-telemetry query service.
//!
//! The library covers the query execution pipeline: rounding of time windows
//! to minute-modulo boundaries, enumeration of the geohash cells covering a
//! query geometry, planning of the partition-pruned columnar scan, per-row
//! refinement against the exact geometry and time window, accumulation of the
//! result counters, and the wire encoding of the request, response and
//! lifecycle envelopes.  The unverifiable edges (message bus, object storage,
//! the columnar reader) stay outside and talk to this crate in plain values.

pub mod config;
pub mod cover;
pub mod dispatch;
pub mod geo;
pub mod json;
pub mod query;
pub mod store;
pub mod strings;
pub mod time;
pub mod types;
