//! The instants of normalized records: a record's `timestamp` field is
//! RFC 3339 text, read with chrono and held as nanoseconds since the Unix
//! epoch.

use vstd::prelude::*;
use crate::timeline::TIME_LIMIT_NS;

verus! {

/// What chrono's `DateTime::parse_from_rfc3339` reads from `s`: the whole
/// seconds since the Unix epoch and the nanoseconds past them (beyond a
/// billion within a leap second), or none when `s` is not RFC 3339.
pub uninterp spec fn rfc3339_parts(s: Seq<char>) -> Option<(i64, u32)>;

/// The seconds either side of the epoch beyond which chrono has no dates
/// (its years run from -262143 to 262142).
pub const CHRONO_SECS_BOUND: i64 = 9_000_000_000_000;

/// Calls `chrono::DateTime::parse_from_rfc3339` and takes `timestamp` and
/// `timestamp_subsec_nanos` of the result. The result depends on the text
/// alone; chrono's dates keep the seconds within `CHRONO_SECS_BOUND` and
/// the nanoseconds below two billion.
#[verifier::external_body]
fn parse_rfc3339(s: &str) -> (r: Option<(i64, u32)>)
    ensures
        r == rfc3339_parts(s@),
        r matches Some(p) ==> -CHRONO_SECS_BOUND < p.0 < CHRONO_SECS_BOUND && p.1 < 2_000_000_000,
{
    match chrono::DateTime::parse_from_rfc3339(s) {
        Ok(d) => Some((d.timestamp(), d.timestamp_subsec_nanos())),
        Err(_) => None,
    }
}

/// Calls `chrono::Utc::now` and takes `timestamp` and
/// `timestamp_subsec_nanos` of it. The instant is the clock's, so only the
/// ranges of chrono's dates are stated.
#[verifier::external_body]
fn utc_now_parts() -> (r: (i64, u32))
    ensures
        -CHRONO_SECS_BOUND < r.0 < CHRONO_SECS_BOUND,
        r.1 < 2_000_000_000,
{
    let t = chrono::Utc::now();
    (t.timestamp(), t.timestamp_subsec_nanos())
}

/// The nanoseconds since the epoch of seconds and nanoseconds past them.
pub open spec fn instant_ns(p: (i64, u32)) -> int {
    p.0 * 1_000_000_000 + p.1
}

fn instant_of(p: (i64, u32)) -> (r: i128)
    requires
        -CHRONO_SECS_BOUND < p.0 < CHRONO_SECS_BOUND,
        p.1 < 2_000_000_000,
    ensures
        r == instant_ns(p),
        -TIME_LIMIT_NS <= r <= TIME_LIMIT_NS,
{
    assert(-TIME_LIMIT_NS <= p.0 * 1_000_000_000 + p.1 <= TIME_LIMIT_NS) by (nonlinear_arith)
        requires
            -9_000_000_000_000 < p.0 < 9_000_000_000_000,
            p.1 < 2_000_000_000,
            TIME_LIMIT_NS == 0x4_0000_0000_0000_0000_0000,
    ;
    (p.0 as i128) * 1_000_000_000 + (p.1 as i128)
}

/// The instant an RFC 3339 text denotes, in nanoseconds since the epoch.
pub open spec fn rfc3339_instant(s: Seq<char>) -> Option<int> {
    match rfc3339_parts(s) {
        Some(p) => Some(instant_ns(p)),
        None => None,
    }
}

/// The instant a network claim was last seen at: the record's `timestamp`
/// read as RFC 3339, or none when it is absent or not RFC 3339.
pub fn claim_last_seen(timestamp: Option<&str>) -> (r: Option<i128>)
    ensures
        match timestamp {
            Some(t) => match rfc3339_instant(t@) {
                Some(n) => r matches Some(m) && m == n,
                None => r is None,
            },
            None => r is None,
        },
        r matches Some(n) ==> -TIME_LIMIT_NS <= n <= TIME_LIMIT_NS,
{
    match timestamp {
        Some(t) => match parse_rfc3339(t) {
            Some(p) => Some(instant_of(p)),
            None => None,
        },
        None => None,
    }
}

/// The instant of a record's event: its `timestamp` read as RFC 3339 or,
/// when it is absent or not RFC 3339, the current time.
pub fn record_instant(timestamp: Option<&str>) -> (r: i128)
    ensures
        match timestamp {
            Some(t) => match rfc3339_instant(t@) {
                Some(n) => r == n,
                None => true,
            },
            None => true,
        },
        -TIME_LIMIT_NS <= r <= TIME_LIMIT_NS,
{
    match claim_last_seen(timestamp) {
        Some(n) => n,
        None => instant_of(utc_now_parts()),
    }
}

} // verus!
