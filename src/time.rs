//! Timestamps: parsing RFC 3339 text and rounding to whole hours.
//!
//! A stored timestamp is a count of seconds since the Unix epoch (UTC).
//! Parsed instants keep their sub-second part until they are rounded.
use chrono::DurationRound;
use vstd::prelude::*;

verus! {

/// Seconds in one hour.
pub const HOUR: i64 = 3600;

/// Nanoseconds in one second.
pub const NANOS_PER_SEC: i64 = 1_000_000_000;

/// Nanoseconds in one hour.
pub const HOUR_NANOS: i64 = 3_600_000_000_000;

/// What `chrono` reads from an RFC 3339 text: the instant as whole seconds
/// since the epoch (UTC) and the nanoseconds past that second, or nothing when
/// the text is not an RFC 3339 date-time.
pub uninterp spec fn rfc3339_instant(s: Seq<char>) -> Option<(i64, u32)>;

/// Relies on `chrono::DateTime::parse_from_rfc3339`, read back through
/// `timestamp` and `timestamp_subsec_nanos`: the result depends on the text alone.
#[verifier::external_body]
fn parse_rfc3339(s: &str) -> (r: Option<(i64, u32)>)
    ensures
        r == rfc3339_instant(s@),
{
    match chrono::DateTime::parse_from_rfc3339(s) {
        Ok(d) => Some((d.timestamp(), d.timestamp_subsec_nanos())),
        Err(_) => None,
    }
}

/// The instant `secs` seconds and `nanos` nanoseconds after the epoch, in nanoseconds.
pub open spec fn total_nanos(secs: int, nanos: int) -> int {
    secs * NANOS_PER_SEC + nanos
}

/// Whether the instant can be counted in `i64` nanoseconds, as hour rounding requires.
pub open spec fn in_rounding_range(secs: int, nanos: int) -> bool {
    i64::MIN <= total_nanos(secs, nanos) <= i64::MAX
}

/// The whole hour at or before an instant, in seconds since the epoch.
pub open spec fn hour_floor(secs: int, nanos: int) -> int {
    (total_nanos(secs, nanos) / (HOUR_NANOS as int)) * HOUR
}

/// The whole hour nearest to an instant, in seconds since the epoch; an
/// instant exactly half-way goes to the earlier hour.
pub open spec fn nearest_hour(secs: int, nanos: int) -> int {
    let f = hour_floor(secs, nanos);
    if total_nanos(secs, nanos) - f * NANOS_PER_SEC > HOUR_NANOS / 2 {
        f + HOUR
    } else {
        f
    }
}

/// What rounding to the nearest hour gives: nothing for a leap second (whose
/// nanoseconds reach a full second) or for an instant that cannot be counted
/// in `i64` nanoseconds.
pub open spec fn rounded_instant(secs: int, nanos: int) -> Option<int> {
    if 0 <= nanos < NANOS_PER_SEC && in_rounding_range(secs, nanos) {
        Some(nearest_hour(secs, nanos))
    } else {
        None
    }
}

/// What a text denotes once parsed and rounded to the nearest hour.
pub open spec fn rounded_text(s: Seq<char>) -> Option<int> {
    match rfc3339_instant(s) {
        Some(p) => rounded_instant(p.0 as int, p.1 as int),
        None => None,
    }
}

/// Relies on `chrono::DurationRound::duration_trunc` with a span of one hour
/// on a UTC date-time made by `DateTime::from_timestamp`: for an instant that
/// is not a leap second, it returns the multiple of the span at or before the
/// instant counted in nanoseconds, and fails when that count leaves `i64`.
/// Within that range `from_timestamp` accepts every such pair.
#[verifier::external_body]
fn chrono_trunc_hour(secs: i64, nanos: u32) -> (r: Option<i64>)
    requires
        nanos < NANOS_PER_SEC,
    ensures
        match r {
            Some(v) => in_rounding_range(secs as int, nanos as int) && v == hour_floor(secs as int, nanos as int),
            None => !in_rounding_range(secs as int, nanos as int),
        },
{
    match chrono::DateTime::from_timestamp(secs, nanos) {
        Some(d) => match d.duration_trunc(chrono::TimeDelta::hours(1)) {
            Ok(h) => Some(h.timestamp()),
            Err(_) => None,
        },
        None => None,
    }
}

/// Parses an RFC 3339 text into whole seconds since the epoch (UTC) and the
/// nanoseconds past that second.
pub fn parse_instant(s: &str) -> (r: Option<(i64, u32)>)
    ensures
        r == rfc3339_instant(s@),
{
    parse_rfc3339(s)
}

/// Bounds that every hour produced by rounding keeps: its nanosecond count
/// fits in `i64`, so it lies well inside the `i64` seconds range.
pub open spec fn hour_bounds(t: int) -> bool {
    t % (HOUR as int) == 0 && -10_000_000_000 <= t <= 10_000_000_000
}

proof fn lemma_hour_floor_props(secs: int, nanos: int)
    requires
        in_rounding_range(secs, nanos),
    ensures
        hour_floor(secs, nanos) % (HOUR as int) == 0,
        -10_000_000_000 <= hour_floor(secs, nanos) <= 10_000_000_000 - HOUR,
        hour_floor(secs, nanos) * NANOS_PER_SEC <= total_nanos(secs, nanos) < hour_floor(secs, nanos)
            * NANOS_PER_SEC + HOUR_NANOS,
{
    let n = total_nanos(secs, nanos);
    let q = n / 3_600_000_000_000int;
    assert(q * 3_600_000_000_000int <= n < q * 3_600_000_000_000int + 3_600_000_000_000int) by (nonlinear_arith)
        requires
            q == n / 3_600_000_000_000int,
    ;
    assert(-2_600_000 <= q <= 2_600_000) by (nonlinear_arith)
        requires
            q * 3_600_000_000_000int <= n < q * 3_600_000_000_000int + 3_600_000_000_000int,
            i64::MIN <= n <= i64::MAX,
    ;
    assert(hour_floor(secs, nanos) == q * 3600);
    assert((q * 3600) * 1_000_000_000int == q * 3_600_000_000_000int) by (nonlinear_arith);
    assert((q * 3600) % 3600 == 0) by (nonlinear_arith);
}

/// Parses an RFC 3339 text and rounds it to the nearest whole hour, giving
/// seconds since the epoch; nothing when the text does not parse or the
/// instant cannot be rounded.
pub fn parse_rounded(s: &str) -> (r: Option<i64>)
    ensures
        match r {
            Some(v) => rounded_text(s@) == Some(v as int) && hour_bounds(v as int),
            None => rounded_text(s@) is None,
        },
{
    let p = match parse_rfc3339(s) {
        Some(p) => p,
        None => return None,
    };
    if p.1 >= 1_000_000_000 {
        return None;
    }
    let f = match chrono_trunc_hour(p.0, p.1) {
        Some(f) => f,
        None => return None,
    };
    proof {
        lemma_hour_floor_props(p.0 as int, p.1 as int);
    }
    let past: i128 = (p.0 as i128 - f as i128) * 1_000_000_000 + p.1 as i128;
    assert(past == total_nanos(p.0 as int, p.1 as int) - f * NANOS_PER_SEC);
    if past > 1_800_000_000_000 {
        Some(f + HOUR)
    } else {
        Some(f)
    }
}

/// Rounding is idempotent: an instant that already falls on a whole hour is
/// its own nearest hour.
pub proof fn lemma_round_aligned(t: int)
    requires
        t % (HOUR as int) == 0,
        in_rounding_range(t, 0),
    ensures
        rounded_instant(t, 0) == Some(t),
{
    let k = t / 3600;
    assert(t == k * 3600);
    let n = total_nanos(t, 0);
    assert(n == k * 3_600_000_000_000int) by (nonlinear_arith)
        requires
            n == t * 1_000_000_000int,
            t == k * 3600,
    ;
    assert(n / 3_600_000_000_000int == k) by (nonlinear_arith)
        requires
            n == k * 3_600_000_000_000int,
    ;
    assert(hour_floor(t, 0) == t);
    assert(n - t * 1_000_000_000int == 0) by (nonlinear_arith)
        requires
            n == t * 1_000_000_000int,
    ;
}

} // verus!
