//! Instants. A timestamp is read by `chrono` as the whole seconds since the
//! Unix epoch (UTC) and the nanoseconds of the second; an instant on the
//! timeline is a whole number of nanoseconds since the epoch. Reading a
//! timestamp and writing an instant as text are done by `chrono`; all
//! arithmetic on instants is done here.
//!
//! A timestamp within a leap second has the seconds of the second before and
//! a thousand million nanoseconds or more. It belongs to the hour of that
//! second, and stands on the timeline where its nanoseconds put it.

use crate::constants::SECOND;
use crate::usage::UsageEntry;
use vstd::prelude::*;

verus! {

/// What a timestamp text denotes, as `chrono` reads it: the text parsed as a
/// date and time with an offset, converted to UTC, as the whole seconds
/// since the epoch and the nanoseconds since the last second. `None` where
/// `chrono` rejects the text.
pub uninterp spec fn rfc3339_parts(s: Seq<char>) -> Option<(i64, u32)>;

/// The text of the time that lies the given seconds and nanoseconds after
/// the epoch, as `chrono` writes it: RFC 3339 in UTC with three fractional
/// digits and a final `Z`. `None` where `chrono` has no date for it.
pub uninterp spec fn rfc3339_text(secs: i64, nanos: u32) -> Option<Seq<char>>;

/// What a timestamp denotes: whole seconds since the epoch, and the
/// nanoseconds since the last second.
#[derive(Debug, Clone, Copy, PartialEq, Eq, Structural)]
pub struct Instant {
    pub secs: i64,
    pub nanos: u32,
}

impl Instant {
    /// Where the timestamp stands on the timeline: nanoseconds since the
    /// epoch.
    pub open spec fn total(self) -> int {
        self.secs * SECOND + self.nanos
    }

    /// The start of the hour that holds the timestamp, on the timeline.
    pub open spec fn hour_start(self) -> int {
        (self.secs - self.secs % 3600) * SECOND
    }

    /// Where the timestamp stands on the timeline.
    pub fn nanos_total(&self) -> (r: i128)
        ensures
            r == self.total(),
    {
        self.secs as i128 * SECOND + self.nanos as i128
    }
}

/// The timestamps that the library works on lie within 100,000,000 days of
/// the epoch on either side.
pub const MAX_SECONDS: i64 = 8_640_000_000_000;

/// A timestamp within the range that the library works on.
pub open spec fn representable(t: Instant) -> bool {
    -MAX_SECONDS <= t.secs <= MAX_SECONDS
}

/// What a timestamp text denotes, where it is representable.
pub open spec fn instant_of(s: Seq<char>) -> Option<Instant> {
    match rfc3339_parts(s) {
        Some((secs, nanos)) => if representable(Instant { secs, nanos }) {
            Some(Instant { secs, nanos })
        } else {
            None
        },
        None => None,
    }
}

/// The instant of a record: that of its timestamp, where it has one that
/// denotes an instant.
pub open spec fn entry_time(entry: UsageEntry) -> Option<Instant> {
    match entry.data.timestamp {
        Some(t) => instant_of(t@),
        None => None,
    }
}

/// The text of an instant on the timeline: that of its whole seconds and of
/// the nanoseconds since. There is none where the seconds are beyond what
/// can be counted.
pub open spec fn text_of(t: int) -> Option<Seq<char>> {
    if i64::MIN <= t / (SECOND as int) <= i64::MAX {
        rfc3339_text((t / (SECOND as int)) as i64, (t % (SECOND as int)) as u32)
    } else {
        None
    }
}

/// `str::parse::<DateTime<Utc>>` reads the text with `chrono`'s relaxed
/// RFC 3339 parser and converts to UTC; `DateTime::timestamp` and
/// `DateTime::timestamp_subsec_nanos` give the seconds since the epoch and
/// the nanoseconds since the last second. The result depends on the text
/// alone.
#[verifier::external_body]
fn parse_rfc3339_parts(s: &str) -> (r: Option<(i64, u32)>)
    ensures
        r == rfc3339_parts(s@),
{
    match s.parse::<chrono::DateTime<chrono::Utc>>() {
        Ok(t) => Some((t.timestamp(), t.timestamp_subsec_nanos())),
        Err(_) => None,
    }
}

/// `DateTime::from_timestamp` gives the date of a time after the epoch,
/// where `chrono` has one; `DateTime::to_rfc3339_opts` writes it with
/// millisecond precision and `Z` for the offset. The result depends on the
/// seconds and the nanoseconds alone.
#[verifier::external_body]
fn format_rfc3339_millis(secs: i64, nanos: u32) -> (r: Option<String>)
    ensures
        r is Some == rfc3339_text(secs, nanos) is Some,
        r is Some ==> r->0@ == rfc3339_text(secs, nanos)->0,
{
    match chrono::DateTime::from_timestamp(secs, nanos) {
        Some(d) => Some(d.to_rfc3339_opts(chrono::SecondsFormat::Millis, true)),
        None => None,
    }
}

/// `SystemTime::elapsed` on `UNIX_EPOCH` reads the system clock: the time
/// since the epoch, or, where the clock stands before the epoch, the time up
/// to it. The reading is handed on as whether the clock stands before the
/// epoch, the whole seconds and the nanoseconds of the rest. Nothing is known
/// of it.
#[verifier::external_body]
fn clock_reading() -> (bool, u64, u32) {
    match std::time::UNIX_EPOCH.elapsed() {
        Ok(d) => (false, d.as_secs(), d.subsec_nanos()),
        Err(e) => (true, e.duration().as_secs(), e.duration().subsec_nanos()),
    }
}

/// The instant of a clock reading, on the timeline.
pub open spec fn clock_nanos(before_epoch: bool, secs: u64, nanos: u32) -> int {
    if before_epoch {
        -(secs * SECOND + nanos)
    } else {
        secs * SECOND + nanos
    }
}

/// The instant of a clock reading: nanoseconds since the epoch, negative
/// where the clock stands before the epoch.
pub fn instant_of_clock(before_epoch: bool, secs: u64, nanos: u32) -> (r: i128)
    ensures
        r == clock_nanos(before_epoch, secs, nanos),
{
    let since: i128 = secs as i128 * SECOND + nanos as i128;
    if before_epoch {
        -since
    } else {
        since
    }
}

/// The instant that the system clock shows.
pub(crate) fn now_nanos() -> i128 {
    let (before_epoch, secs, nanos) = clock_reading();
    instant_of_clock(before_epoch, secs, nanos)
}

/// What a timestamp text denotes, or `None` where the text is no timestamp.
pub fn parse_timestamp(s: &str) -> (r: Option<Instant>)
    ensures
        r == instant_of(s@),
{
    match parse_rfc3339_parts(s) {
        Some((secs, nanos)) => {
            if -MAX_SECONDS <= secs && secs <= MAX_SECONDS {
                Some(Instant { secs, nanos })
            } else {
                None
            }
        },
        None => None,
    }
}

/// The instant of a record.
pub fn parse_entry_timestamp(entry: &UsageEntry) -> (r: Option<Instant>)
    ensures
        r == entry_time(*entry),
        r is Some ==> representable(r->0),
{
    match &entry.data.timestamp {
        Some(t) => parse_timestamp(t.as_str()),
        None => None,
    }
}

/// The text of an instant: RFC 3339 in UTC, with milliseconds.
pub fn format_timestamp(t: i128) -> (r: Option<String>)
    ensures
        r is Some == text_of(t as int) is Some,
        r is Some ==> r->0@ == text_of(t as int)->0,
{
    let quotient: i128 = t / SECOND;
    let rest: i128 = t % SECOND;
    let (secs, nanos): (i128, i128) = if rest < 0 {
        (quotient - 1, rest + SECOND)
    } else {
        (quotient, rest)
    };
    assert(secs == t as int / (SECOND as int) && nanos == t as int % (SECOND as int));
    if secs < i64::MIN as i128 || secs > i64::MAX as i128 {
        None
    } else {
        format_rfc3339_millis(secs as i64, nanos as u32)
    }
}

/// Floor a timestamp to the hour: 14:37:22 becomes 14:00:00. The result is
/// the start of the hour on the timeline.
pub fn floor_to_hour(timestamp: Instant) -> (r: i128)
    requires
        i64::MIN + 3600 <= timestamp.secs,
    ensures
        r == timestamp.hour_start(),
        r <= timestamp.total(),
{
    let rest: i64 = timestamp.secs % 3600;
    let floored: i64 = if rest < 0 {
        timestamp.secs - rest - 3600
    } else {
        timestamp.secs - rest
    };
    floored as i128 * SECOND
}

} // verus!
