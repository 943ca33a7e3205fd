//! The reservation record and the filter that selects records.

use crate::error::ReservationError;
use crate::status::ReservationStatus;
use crate::timespan::Timespan;
use crate::timestamp::{convert_to_utc_time, Timestamp};
use vstd::prelude::*;

verus! {

/// What identifies a reservation. The store hands ids out, starting at 1; 0
/// stands for "not stored yet".
pub type ReservationId = u128;

/// A request for, or a record of, the exclusive use of a resource over an
/// interval of time.
#[derive(Debug, PartialEq, Eq)]
pub struct Reservation {
    /// Assigned by the store when the reservation is recorded; never changes.
    pub id: ReservationId,
    /// Who asked. Opaque to the engine.
    pub user_id: String,
    /// What is reserved. Opaque to the engine.
    pub resource_id: String,
    /// First point in time of the interval.
    pub start_time: Option<Timestamp>,
    /// First point in time after the interval.
    pub end_time: Option<Timestamp>,
    /// Free text, changed independently of the status.
    pub note: String,
    pub status: ReservationStatus,
}

impl Clone for Reservation {
    fn clone(&self) -> (copy: Self)
        ensures
            copy == *self,
    {
        Reservation {
            id: self.id,
            user_id: self.user_id.clone(),
            resource_id: self.resource_id.clone(),
            start_time: self.start_time,
            end_time: self.end_time,
            note: self.note.clone(),
            status: self.status,
        }
    }
}

impl Reservation {
    /// The interval between the two endpoints. Meaningful where both are
    /// present and name points in time.
    pub open spec fn window(&self) -> Timespan {
        Timespan { start: self.start_time->Some_0.utc(), end: self.end_time->Some_0.utc() }
    }

    /// Whether the reservation has an interval that can be accepted: both
    /// endpoints are present and name points in time, and the start lies
    /// strictly before the end.
    pub open spec fn valid_window(&self) -> bool {
        &&& self.start_time is Some
        &&& self.end_time is Some
        &&& self.start_time->Some_0.is_utc_time()
        &&& self.end_time->Some_0.is_utc_time()
        &&& self.window().start.before(self.window().end)
    }

    /// Whether this reservation holds `resource` exclusively during some part of
    /// `span`: it is confirmed, it is for that resource, and its interval
    /// overlaps `span`.
    pub open spec fn conflicts_with(&self, resource: Seq<char>, span: Timespan) -> bool {
        &&& self.status == ReservationStatus::Confirmed
        &&& self.resource_id@ == resource
        &&& self.window().overlaps(&span)
    }

    /// The interval of a reservation that is known to have an acceptable one.
    pub(crate) fn accepted_window(&self) -> (span: Timespan)
        requires
            self.valid_window(),
        ensures
            span == self.window(),
            span.wf(),
    {
        Timespan {
            start: convert_to_utc_time(self.start_time.unwrap()),
            end: convert_to_utc_time(self.end_time.unwrap()),
        }
    }

    /// The interval of the reservation, refused as `InvalidTime` where an
    /// endpoint is missing or names no point in time, or the start does not lie
    /// strictly before the end.
    pub fn timespan(&self) -> (r: Result<Timespan, ReservationError>)
        ensures
            r is Ok <==> self.valid_window(),
            r matches Ok(span) ==> span == self.window() && span.wf(),
            r matches Err(e) ==> e == ReservationError::InvalidTime,
    {
        let start = match self.start_time {
            Some(start) => start.to_utc(),
            None => None,
        };
        let end = match self.end_time {
            Some(end) => end.to_utc(),
            None => None,
        };
        match (start, end) {
            (Some(start), Some(end)) => Timespan::new(start, end),
            _ => Err(ReservationError::InvalidTime),
        }
    }
}

/// Selects reservations. Every part that is present narrows the selection; an
/// empty query selects everything.
#[derive(Debug, PartialEq, Eq)]
pub struct ReservationQuery {
    /// Only reservations of this resource.
    pub resource_id: Option<String>,
    /// Only reservations of this user.
    pub user_id: Option<String>,
    /// Only reservations in this state.
    pub status: Option<ReservationStatus>,
    /// Only reservations that end after this point in time.
    pub start: Option<Timestamp>,
    /// Only reservations that start before this point in time.
    pub end: Option<Timestamp>,
}

impl ReservationQuery {
    /// Whether an interval reaches into the time window `[start, end)` of the
    /// query, a missing bound leaving the window open on that side: the
    /// interval ends after `start` and starts before `end`. The two bounds are
    /// taken as they come, as seconds and then nanoseconds, also where `start`
    /// does not lie before `end`.
    pub open spec fn window_admits(&self, span: Timespan) -> bool {
        &&& self.start matches Some(start) ==> start.before_utc(span.end)
        &&& self.end matches Some(end) ==> end.after_utc(span.start)
    }

    /// Whether the query selects a reservation. One without an acceptable
    /// interval is never selected.
    pub open spec fn selects(&self, r: Reservation) -> bool {
        &&& self.resource_id matches Some(resource) ==> r.resource_id@ == resource@
        &&& self.user_id matches Some(user) ==> r.user_id@ == user@
        &&& self.status matches Some(status) ==> r.status == status
        &&& r.valid_window()
        &&& self.window_admits(r.window())
    }

    /// Whether the query selects a reservation.
    pub fn matches(&self, r: &Reservation) -> (b: bool)
        ensures
            b == self.selects(*r),
    {
        let span = match r.timespan() {
            Ok(span) => span,
            Err(_) => {
                return false;
            },
        };
        let resource_ok = match &self.resource_id {
            Some(resource) => r.resource_id == *resource,
            None => true,
        };
        let user_ok = match &self.user_id {
            Some(user) => r.user_id == *user,
            None => true,
        };
        let status_ok = match self.status {
            Some(status) => r.status == status,
            None => true,
        };
        let from_ok = match self.start {
            Some(start) => start.is_before_utc(&span.end),
            None => true,
        };
        let until_ok = match self.end {
            Some(end) => end.is_after_utc(&span.start),
            None => true,
        };
        resource_ok && user_ok && status_ok && from_ok && until_ok
    }
}

/// A reservation whose interval is acceptable has both endpoints, and its start
/// lies strictly before its end: one that ends where it starts, or earlier, is
/// not acceptable.
pub proof fn lemma_acceptable_window_runs_forward(r: Reservation)
    ensures
        r.valid_window() ==> r.start_time is Some && r.end_time is Some && r.window().start.before(
            r.window().end,
        ),
        r.start_time is None || r.end_time is None ==> !r.valid_window(),
        !r.window().start.before(r.window().end) ==> !r.valid_window(),
{
}

/// Where a query gives both bounds of its window and they name points in time,
/// it selects by time exactly the reservations whose interval overlaps that
/// window.
pub proof fn lemma_window_is_overlap(q: ReservationQuery, span: Timespan)
    requires
        q.start matches Some(start) && start.is_utc_time(),
        q.end matches Some(end) && end.is_utc_time(),
    ensures
        q.window_admits(span) <==> span.overlaps(
            &(Timespan { start: q.start->Some_0.utc(), end: q.end->Some_0.utc() }),
        ),
{
}

} // verus!
