//! Points in time: the wire form `Timestamp` and the validated `UtcDateTime`.

use chrono::DateTime;
use chrono::Utc;
use vstd::prelude::*;

verus! {

/// The earliest second that a `UtcDateTime` can hold: midnight of January 1st
/// of the year -262143.
pub const MIN_UTC_SECONDS: i64 = -8_334_601_228_800;

/// The latest second that a `UtcDateTime` can hold: the last second of
/// December 31st of the year 262142.
pub const MAX_UTC_SECONDS: i64 = 8_210_266_876_799;

/// One more than the largest nanosecond part of an ordinary second.
pub const NANOS_PER_SECOND: u32 = 1_000_000_000;

/// Whether `secs` seconds since the Unix epoch and `nsecs` nanoseconds into that
/// second name a point in time that the calendar can hold.
///
/// The nanosecond part may reach into a second billion to stand for a leap
/// second, but only in the last second of a minute.
pub open spec fn is_utc_instant(secs: int, nsecs: int) -> bool {
    &&& MIN_UTC_SECONDS <= secs <= MAX_UTC_SECONDS
    &&& 0 <= nsecs < 2 * NANOS_PER_SECOND
    &&& (nsecs >= NANOS_PER_SECOND ==> secs % 60 == 59)
}

/// A point in time as it travels between services: whole seconds since the Unix
/// epoch and the nanoseconds since the last whole second.
#[derive(Clone, Copy, Debug, PartialEq, Eq, Structural)]
pub struct Timestamp {
    pub seconds: i64,
    pub nanos: i32,
}

/// A point in time in UTC that is known to exist on the calendar.
#[derive(Clone, Copy, Debug, PartialEq, Eq, Structural)]
pub struct UtcDateTime {
    pub secs: i64,
    pub nanos: u32,
}

impl Timestamp {
    /// Whether this timestamp names a point in time: its nanoseconds are not
    /// negative and the calendar can hold it.
    pub open spec fn is_utc_time(self) -> bool {
        self.nanos >= 0 && is_utc_instant(self.seconds as int, self.nanos as int)
    }

    /// The point in time that a timestamp names.
    pub open spec fn utc(self) -> UtcDateTime {
        UtcDateTime { secs: self.seconds, nanos: self.nanos as u32 }
    }

    /// Whether this timestamp, read as seconds and then nanoseconds, lies
    /// strictly before a point in time. Where the timestamp names a point in
    /// time, that point lies before the other.
    pub open spec fn before_utc(self, other: UtcDateTime) -> bool {
        self.seconds < other.secs || (self.seconds == other.secs && self.nanos < other.nanos)
    }

    /// Whether this timestamp, read as seconds and then nanoseconds, lies
    /// strictly after a point in time.
    pub open spec fn after_utc(self, other: UtcDateTime) -> bool {
        other.secs < self.seconds || (other.secs == self.seconds && other.nanos < self.nanos)
    }

    /// Whether this timestamp lies strictly before a point in time.
    pub fn is_before_utc(&self, other: &UtcDateTime) -> (b: bool)
        ensures
            b == self.before_utc(*other),
    {
        self.seconds < other.secs || (self.seconds == other.secs && (self.nanos as i64)
            < other.nanos as i64)
    }

    /// Whether this timestamp lies strictly after a point in time.
    pub fn is_after_utc(&self, other: &UtcDateTime) -> (b: bool)
        ensures
            b == self.after_utc(*other),
    {
        other.secs < self.seconds || (other.secs == self.seconds && (other.nanos as i64)
            < self.nanos as i64)
    }

    /// The point in time that this timestamp names, if it names one.
    pub fn to_utc(&self) -> (r: Option<UtcDateTime>)
        ensures
            r is Some <==> self.is_utc_time(),
            r matches Some(dt) ==> dt == self.utc() && dt.wf(),
    {
        if self.nanos < 0 {
            return None;
        }
        UtcDateTime::from_timestamp(self.seconds, self.nanos as u32)
    }
}

impl UtcDateTime {
    /// Whether the calendar can hold this value.
    pub open spec fn wf(self) -> bool {
        is_utc_instant(self.secs as int, self.nanos as int)
    }

    /// Whether `self` lies strictly before `other`.
    pub open spec fn before(self, other: UtcDateTime) -> bool {
        self.secs < other.secs || (self.secs == other.secs && self.nanos < other.nanos)
    }

    /// The wire form of a point in time.
    pub open spec fn to_timestamp(self) -> Timestamp {
        Timestamp { seconds: self.secs, nanos: self.nanos as i32 }
    }

    /// The point in time `secs` seconds after the Unix epoch and `nsecs`
    /// nanoseconds into that second; `None` where the calendar cannot hold it.
    pub fn from_timestamp(secs: i64, nsecs: u32) -> (r: Option<UtcDateTime>)
        ensures
            r is Some <==> is_utc_instant(secs as int, nsecs as int),
            r matches Some(dt) ==> dt == (UtcDateTime { secs: secs, nanos: nsecs }) && dt.wf(),
    {
        match utc_parts_from_timestamp(secs, nsecs) {
            Some(parts) => Some(UtcDateTime { secs: parts.0, nanos: parts.1 }),
            None => None,
        }
    }

    /// Seconds since the Unix epoch.
    pub fn timestamp(&self) -> (s: i64)
        ensures
            s == self.secs,
    {
        self.secs
    }

    /// Nanoseconds since the last whole second; a billion or more in a leap
    /// second.
    pub fn timestamp_subsec_nanos(&self) -> (n: u32)
        ensures
            n == self.nanos,
    {
        self.nanos
    }

    /// Whether `self` lies strictly before `other`.
    pub fn is_before(&self, other: &UtcDateTime) -> (b: bool)
        ensures
            b == self.before(*other),
    {
        self.secs < other.secs || (self.secs == other.secs && self.nanos < other.nanos)
    }
}

/// Asks chrono's `DateTime::<Utc>::from_timestamp` for the point in time, takes
/// it through `naive_utc` and `DateTime::from_naive_utc_and_offset`, and reads it
/// back with `timestamp` and `timestamp_subsec_nanos`.
///
/// Trusted: chrono accepts exactly the pairs that `is_utc_instant` describes
/// (a day between January 1st, -262143 and December 31st, 262142; fewer than two
/// billion nanoseconds, a billion or more only in the last second of a minute),
/// and what it accepts reads back as the same seconds and nanoseconds.
#[verifier::external_body]
fn utc_parts_from_timestamp(secs: i64, nsecs: u32) -> (r: Option<(i64, u32)>)
    ensures
        r == (if is_utc_instant(secs as int, nsecs as int) {
            Some((secs, nsecs))
        } else {
            None::<(i64, u32)>
        }),
{
    match DateTime::<Utc>::from_timestamp(secs, nsecs) {
        Some(made) => {
            let dt = DateTime::<Utc>::from_naive_utc_and_offset(made.naive_utc(), Utc);
            Some((dt.timestamp(), dt.timestamp_subsec_nanos()))
        },
        None => None,
    }
}

/// The point in time that a wire timestamp names.
///
/// The timestamp must name one: see [`Timestamp::to_utc`] for the variant that
/// tells.
pub fn convert_to_utc_time(ts: Timestamp) -> (dt: UtcDateTime)
    requires
        ts.is_utc_time(),
    ensures
        dt == ts.utc(),
        dt.wf(),
{
    let nsecs: u32 = ts.nanos as u32;
    UtcDateTime::from_timestamp(ts.seconds, nsecs).unwrap()
}

/// The wire form of a point in time.
///
/// The nanoseconds must fit the wire, as those of every point in time on the
/// calendar do.
pub fn convert_to_timestamp(dt: UtcDateTime) -> (ts: Timestamp)
    requires
        dt.nanos <= i32::MAX,
    ensures
        ts == dt.to_timestamp(),
        dt.wf() ==> ts.is_utc_time() && ts.utc() == dt,
{
    Timestamp { seconds: dt.timestamp(), nanos: dt.timestamp_subsec_nanos() as i32 }
}

/// Going to the wire and back gives the same point in time.
pub proof fn lemma_utc_round_trip(dt: UtcDateTime)
    requires
        dt.wf(),
    ensures
        dt.to_timestamp().is_utc_time(),
        dt.to_timestamp().utc() == dt,
{
}

/// Coming from the wire and going back gives the same timestamp.
pub proof fn lemma_timestamp_round_trip(ts: Timestamp)
    requires
        ts.is_utc_time(),
    ensures
        ts.utc().wf(),
        ts.utc().to_timestamp() == ts,
{
}

/// A timestamp that names a point in time lies before or after another point
/// in time exactly when the point that it names does.
pub proof fn lemma_timestamp_order(ts: Timestamp, other: UtcDateTime)
    requires
        ts.is_utc_time(),
    ensures
        ts.before_utc(other) == ts.utc().before(other),
        ts.after_utc(other) == other.before(ts.utc()),
{
}

/// Of two different points in time exactly one lies before the other, and
/// "before" carries over: the order is strict and total.
pub proof fn lemma_before_is_a_strict_total_order(a: UtcDateTime, b: UtcDateTime, c: UtcDateTime)
    ensures
        !a.before(a),
        a.before(b) ==> !b.before(a),
        a.before(b) && b.before(c) ==> a.before(c),
        a != b ==> a.before(b) || b.before(a),
{
}

} // verus!
