//! Half-open intervals of time and when two of them overlap.

use crate::error::ReservationError;
use crate::timestamp::UtcDateTime;
use vstd::prelude::*;

verus! {

/// The half-open interval `[start, end)`: it holds its start and every point in
/// time up to, but not including, its end.
#[derive(Clone, Copy, Debug, PartialEq, Eq, Structural)]
pub struct Timespan {
    pub start: UtcDateTime,
    pub end: UtcDateTime,
}

impl Timespan {
    /// Whether this is an interval that a reservation may have: both endpoints
    /// exist on the calendar and the start lies strictly before the end.
    pub open spec fn wf(self) -> bool {
        self.start.wf() && self.end.wf() && self.start.before(self.end)
    }

    /// Whether a point in time lies inside the interval.
    pub open spec fn holds(self, t: UtcDateTime) -> bool {
        !t.before(self.start) && t.before(self.end)
    }

    /// Whether two intervals have a point in time in common: each starts before
    /// the other ends.
    pub open spec fn spec_overlaps(&self, other: &Timespan) -> bool {
        self.start.before(other.end) && other.start.before(self.end)
    }

    /// The interval from `start` to `end`, refused as `InvalidTime` unless
    /// `start` lies strictly before `end`.
    pub fn new(start: UtcDateTime, end: UtcDateTime) -> (r: Result<Timespan, ReservationError>)
        ensures
            r is Ok <==> start.before(end),
            r matches Ok(span) ==> span == (Timespan { start: start, end: end }),
            r matches Err(e) ==> e == ReservationError::InvalidTime,
    {
        if start.is_before(&end) {
            Ok(Timespan { start, end })
        } else {
            Err(ReservationError::InvalidTime)
        }
    }

    /// Whether two intervals have a point in time in common. An interval that
    /// ends exactly when the other starts does not overlap it.
    #[verifier::when_used_as_spec(spec_overlaps)]
    pub fn overlaps(&self, other: &Timespan) -> (b: bool)
        ensures
            b == self.spec_overlaps(other),
    {
        self.start.is_before(&other.end) && other.start.is_before(&self.end)
    }
}

/// Overlapping does not depend on the order in which the two intervals are
/// given, and an interval overlaps itself.
pub proof fn lemma_overlaps_is_symmetric(a: Timespan, b: Timespan)
    ensures
        a.overlaps(&b) == b.overlaps(&a),
        a.wf() ==> a.overlaps(&a),
{
}

/// Two intervals overlap exactly when some point in time lies in both.
pub proof fn lemma_overlaps_is_a_common_point(a: Timespan, b: Timespan)
    requires
        a.wf(),
        b.wf(),
    ensures
        a.overlaps(&b) <==> exists|t: UtcDateTime| #[trigger] a.holds(t) && b.holds(t),
{
    if a.overlaps(&b) {
        let t = if a.start.before(b.start) {
            b.start
        } else {
            a.start
        };
        assert(a.holds(t) && b.holds(t));
    }
}

/// Back-to-back intervals do not overlap: where one ends at or before the start
/// of the other, they have nothing in common.
pub proof fn lemma_back_to_back_do_not_overlap(a: Timespan, b: Timespan)
    requires
        !b.start.before(a.end),
    ensures
        !a.overlaps(&b),
        !b.overlaps(&a),
{
}

/// An interval that lies inside another overlaps it.
pub proof fn lemma_inner_overlaps_outer(outer: Timespan, inner: Timespan)
    requires
        inner.wf(),
        !inner.start.before(outer.start),
        !outer.end.before(inner.end),
    ensures
        outer.overlaps(&inner),
{
}

} // verus!
