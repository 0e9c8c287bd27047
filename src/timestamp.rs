//! Points in time with a fixed UTC offset, as written in a commit log.
use vstd::prelude::*;

verus! {

/// A point in time: whole seconds since the Unix epoch in UTC, the
/// nanoseconds within that second, and the UTC offset (in seconds) that the
/// time was written with. The offset is kept as given, not normalised.
#[derive(Clone, Copy, Debug, PartialEq, Eq, Structural)]
pub struct Timestamp {
    pub seconds: i64,
    pub nanos: u32,
    pub offset: i32,
}

pub const NANOS_PER_MINUTE: u128 = 60_000_000_000;

pub const SECONDS_PER_DAY: i128 = 86400;

/// What `chrono` makes of an RFC 3339 date-time: `None` where it refuses the text.
pub uninterp spec fn rfc3339_of(s: Seq<char>) -> Option<Timestamp>;

/// Nanoseconds from `earlier` to `later` (negative when `later` comes first).
pub open spec fn nanos_between(later: Timestamp, earlier: Timestamp) -> int {
    (later.seconds - earlier.seconds) * 1_000_000_000 + (later.nanos - earlier.nanos)
}

/// Whole minutes from `earlier` to `later`, and 0 where `later` does not come
/// after `earlier`.
pub open spec fn gap_minutes(later: Timestamp, earlier: Timestamp) -> int {
    let d = nanos_between(later, earlier);
    if d > 0 {
        d / (NANOS_PER_MINUTE as int)
    } else {
        0
    }
}

/// The calendar day of a timestamp in its own offset, as days since 1970-01-01.
pub open spec fn local_day(t: Timestamp) -> int {
    (t.seconds + t.offset) / (SECONDS_PER_DAY as int)
}

/// Relies on `chrono::DateTime::parse_from_rfc3339`, and on `timestamp`,
/// `timestamp_subsec_nanos` and `FixedOffset::local_minus_utc` to read the
/// parsed value back as plain integers.
#[verifier::external_body]
fn parse_rfc3339_external(s: &str) -> (r: Option<Timestamp>)
    ensures
        r == rfc3339_of(s@),
{
    match chrono::DateTime::parse_from_rfc3339(s) {
        Ok(d) => Some(
            Timestamp {
                seconds: d.timestamp(),
                nanos: d.timestamp_subsec_nanos(),
                offset: d.offset().local_minus_utc(),
            },
        ),
        Err(_) => None,
    }
}

impl Timestamp {
    /// Reads an RFC 3339 date-time such as `2024-01-01T09:00:00+00:00`.
    pub fn parse_rfc3339(s: &str) -> (r: Option<Timestamp>)
        ensures
            r == rfc3339_of(s@),
    {
        parse_rfc3339_external(s)
    }

    /// Whole minutes from `earlier` to `self`, truncated; a gap that is not
    /// positive counts as no time at all.
    pub fn minutes_since(&self, earlier: &Timestamp) -> (r: u64)
        ensures
            r as int == gap_minutes(*self, *earlier),
    {
        let d: i128 = (self.seconds as i128 - earlier.seconds as i128) * 1_000_000_000
            + (self.nanos as i128 - earlier.nanos as i128);
        if d > 0 {
            let m: u128 = d as u128 / NANOS_PER_MINUTE;
            assert(m <= u64::MAX) by (nonlinear_arith)
                requires
                    m as int == (d as int) / 60_000_000_000,
                    (d as int) <= 0x1_0000_0000_0000_0000 * 1_000_000_000 + 0x1_0000_0000,
            ;
            m as u64
        } else {
            0
        }
    }

    /// The calendar day of this timestamp in its own offset, counted in days
    /// since 1970-01-01 (negative before it).
    pub fn local_day(&self) -> (r: i64)
        ensures
            r as int == local_day(*self),
    {
        let x: i128 = self.seconds as i128 + self.offset as i128;
        if x >= 0 {
            let q: u128 = x as u128 / (SECONDS_PER_DAY as u128);
            assert(q <= i64::MAX) by (nonlinear_arith)
                requires
                    q as int == (x as int) / 86400,
                    (x as int) <= 0x1_0000_0000_0000_0000,
            ;
            q as i64
        } else {
            let y: u128 = (-x) as u128;
            let q: u128 = (y + 86399) / (SECONDS_PER_DAY as u128);
            assert(q <= 0x1_0000_0000_0000 && -(q as int) == (x as int) / 86400) by (nonlinear_arith)
                requires
                    q as int == (y as int + 86399) / 86400,
                    y as int == -(x as int),
                    x < 0,
                    y <= 0x1_0000_0000_0000_0000,
            ;
            -(q as i64)
        }
    }
}

} // verus!
