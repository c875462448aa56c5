//! Rounding of a UTC instant to a minute-modulo window.
//!
//! Instants are carried as milliseconds since the Unix epoch.  The window
//! `[lower, upper)` around an instant is obtained by truncating the instant
//! to the nearest lower minute whose minute-of-hour is divisible by the
//! modulo, and adding `modulo` minutes for the upper bound.

use chrono::TimeZone;
use vstd::prelude::*;

verus! {

/// The UTC instant, in milliseconds since the Unix epoch, that the text
/// denotes; nothing when the text does not parse as an instant.
pub uninterp spec fn utc_ms_of(s: Seq<char>) -> Option<i64>;

/// What the instant looks like as a `YYYY-MM-DD-HH-MM` partition key.
pub uninterp spec fn partition_key_of(ms: i64) -> Seq<char>;

/// What the instant looks like as RFC 3339 text.
pub uninterp spec fn rfc3339_of(ms: i64) -> Seq<char>;

/// Relies on chrono's `str::parse::<DateTime<Utc>>` and
/// `DateTime::timestamp_millis`: the parsed instant depends on the text
/// alone, and parsing fails exactly where chrono rejects the text.
#[verifier::external_body]
pub fn parse_instant_ms(s: &str) -> (r: Option<i64>)
    ensures
        r == utc_ms_of(s@),
{
    match s.parse::<chrono::DateTime<chrono::Utc>>() {
        Ok(dt) => Some(dt.timestamp_millis()),
        Err(_) => None,
    }
}

/// Relies on chrono's `TimeZone::timestamp_millis_opt` and `format`: the
/// `%Y-%m-%d-%H-%M` rendering of a UTC instant depends on the instant
/// alone.
#[verifier::external_body]
pub fn format_partition_key(ms: i64) -> (r: String)
    ensures
        r@ == partition_key_of(ms),
{
    match chrono::Utc.timestamp_millis_opt(ms).single() {
        Some(dt) => dt.format("%Y-%m-%d-%H-%M").to_string(),
        None => String::new(),
    }
}

/// Relies on chrono's `TimeZone::timestamp_millis_opt` and
/// `DateTime::to_rfc3339`: the RFC 3339 rendering of a UTC instant
/// depends on the instant alone.
#[verifier::external_body]
pub fn format_rfc3339(ms: i64) -> (r: String)
    ensures
        r@ == rfc3339_of(ms),
{
    match chrono::Utc.timestamp_millis_opt(ms).single() {
        Some(dt) => dt.to_rfc3339(),
        None => String::new(),
    }
}

/// Milliseconds in one minute.
pub const MS_PER_MINUTE: i64 = 60_000;

/// The lower boundary of the minute-modulo window that contains `ms`:
/// `ms` truncated to its minute, minus as many minutes as needed to make
/// the minute-of-hour divisible by `modulo`.
pub open spec fn aligned_lower(ms: int, modulo: int) -> int {
    let minute_start = ms - ms % 60000;
    let minute_of_hour = (ms / 60000) % 60;
    minute_start - (minute_of_hour % modulo) * 60000
}

/// The upper boundary of the minute-modulo window that contains `ms`.
pub open spec fn aligned_upper(ms: int, modulo: int) -> int {
    aligned_lower(ms, modulo) + modulo * 60000
}

/// Round an instant to the minute-modulo window `[lower, upper)` that
/// contains it.  Rejects a zero modulo.
///
/// The window boundaries fall on whole minutes, the lower boundary's
/// minute-of-hour is divisible by the modulo, and the instant lies in the
/// half-open window.
pub fn round_datetime_modulo_minutes(ms: i64, modulo: u32) -> (r: Option<(i64, i64)>)
    requires
        0 <= ms,
        ms + modulo * 60000 <= i64::MAX,
    ensures
        r is None <==> modulo == 0,
        r is Some ==> {
            let (lower, upper) = r->0;
            &&& lower == aligned_lower(ms as int, modulo as int)
            &&& upper == aligned_upper(ms as int, modulo as int)
            &&& lower <= ms < upper
            &&& lower % 60000 == 0
            &&& upper % 60000 == 0
            &&& ((lower as int / 60000) % 60) % (modulo as int) == 0
        },
{
    if modulo == 0 {
        return None;
    }
    let m: i64 = modulo as i64;
    let minute_start: i64 = ms - ms % MS_PER_MINUTE;
    let minute_of_hour: i64 = (ms / MS_PER_MINUTE) % 60;
    let lower: i64 = minute_start - (minute_of_hour % m) * MS_PER_MINUTE;
    let upper: i64 = lower + m * MS_PER_MINUTE;
    proof {
        lemma_alignment_bounds(ms as int, modulo as int);
    }
    Some((lower, upper))
}

/// The aligned window contains its instant, and its boundaries are whole
/// minutes with the lower minute-of-hour divisible by the modulo.
pub proof fn lemma_alignment_bounds(ms: int, modulo: int)
    requires
        0 <= ms,
        0 < modulo,
    ensures
        aligned_lower(ms, modulo) <= ms < aligned_upper(ms, modulo),
        aligned_lower(ms, modulo) % 60000 == 0,
        aligned_upper(ms, modulo) % 60000 == 0,
        ((aligned_lower(ms, modulo) / 60000) % 60) % modulo == 0,
{
    let minute_start = ms - ms % 60000;
    let minute_of_hour = (ms / 60000) % 60;
    let k = minute_of_hour % modulo;
    assert(0 <= ms % 60000 < 60000);
    assert(0 <= minute_of_hour < 60);
    assert(0 <= k <= minute_of_hour && k < modulo) by {
        if modulo <= 60 {
            assert(0 <= k < modulo);
            assert(k <= minute_of_hour) by (nonlinear_arith)
                requires 0 <= minute_of_hour, 0 < modulo, k == minute_of_hour % modulo,
            ;
        } else {
            assert(k == minute_of_hour) by {
                vstd::arithmetic::div_mod::lemma_small_mod(minute_of_hour as nat, modulo as nat);
            }
        }
    }
    assert(aligned_lower(ms, modulo) == minute_start - k * 60000);
    assert(k * 60000 <= minute_of_hour * 60000) by (nonlinear_arith)
        requires k <= minute_of_hour,
    ;
    assert(aligned_lower(ms, modulo) <= ms);
    assert((k + 1) * 60000 <= modulo * 60000) by (nonlinear_arith)
        requires k + 1 <= modulo,
    ;
    assert(ms < minute_start + 60000);
    assert(aligned_upper(ms, modulo) == minute_start - k * 60000 + modulo * 60000);
    assert(ms < aligned_upper(ms, modulo));
    assert(minute_start == 60000 * (ms / 60000)) by {
        vstd::arithmetic::div_mod::lemma_fundamental_div_mod(ms, 60000);
    }
    let q = ms / 60000;
    assert(aligned_lower(ms, modulo) == 60000 * (q - k)) by (nonlinear_arith)
        requires
            minute_start == 60000 * q,
            aligned_lower(ms, modulo) == minute_start - k * 60000,
    ;
    assert((60000 * (q - k)) % 60000 == 0) by {
        vstd::arithmetic::div_mod::lemma_mod_multiples_basic(q - k, 60000);
    }
    assert(aligned_upper(ms, modulo) == 60000 * (q - k + modulo)) by (nonlinear_arith)
        requires
            aligned_lower(ms, modulo) == 60000 * (q - k),
            aligned_upper(ms, modulo) == aligned_lower(ms, modulo) + modulo * 60000,
    ;
    assert((60000 * (q - k + modulo)) % 60000 == 0) by {
        vstd::arithmetic::div_mod::lemma_mod_multiples_basic(q - k + modulo, 60000);
    }
    assert(aligned_lower(ms, modulo) / 60000 == q - k) by {
        vstd::arithmetic::div_mod::lemma_div_multiples_vanish(q - k, 60000);
    }
    assert(((q - k) % 60) % modulo == 0) by {
        lemma_minute_of_hour_divisible(q, k, modulo);
    }
}

/// Subtracting `q % 60 % modulo` minutes from a minute count `q` leaves a
/// minute count whose minute-of-hour is divisible by the modulo.
proof fn lemma_minute_of_hour_divisible(q: int, k: int, modulo: int)
    requires
        0 <= q,
        0 < modulo,
        k == (q % 60) % modulo,
    ensures
        ((q - k) % 60) % modulo == 0,
{
    let moh = q % 60;
    assert(0 <= moh < 60);
    assert(0 <= k <= moh) by {
        if modulo <= 60 {
            assert(k <= moh) by (nonlinear_arith)
                requires 0 <= moh, 0 < modulo, k == moh % modulo,
            ;
        } else {
            assert(k == moh) by {
                vstd::arithmetic::div_mod::lemma_small_mod(moh as nat, modulo as nat);
            }
        }
    }
    assert((q - k) % 60 == moh - k) by {
        vstd::arithmetic::div_mod::lemma_fundamental_div_mod(q, 60);
        let d = q / 60;
        assert(q - k == 60 * d + (moh - k));
        assert(0 <= moh - k < 60);
        vstd::arithmetic::div_mod::lemma_fundamental_div_mod_converse(q - k, 60, d, moh - k);
    }
    assert((moh - k) % modulo == 0) by {
        vstd::arithmetic::div_mod::lemma_fundamental_div_mod(moh, modulo);
        let d2 = moh / modulo;
        assert(moh - k == modulo * d2);
        vstd::arithmetic::div_mod::lemma_mod_multiples_basic(d2, modulo);
    }
}

} // verus!
